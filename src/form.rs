//! The `application/x-www-form-urlencoded` body of a provisioning submission:
//! percent-decoding and the extraction of the four recognised fields.
//!
//! Bodies are handled as the bytes of their UTF-8 encoding. Decoding yields
//! bytes (an escape `%XX` is the byte `XX`), which are then read back as UTF-8.
use vstd::prelude::*;
use vstd::string::StringSliceAdditionalSpecFns;
use vstd::utf8::{decode_utf8, valid_utf8};
use crate::credentials::{zeroize_byte_vec, zeroize_string, Credentials};

verus! {

// ASCII codes of the bytes that form encoding gives a meaning.
pub const ASCII_PLUS: u8 = 0x2B;
pub const ASCII_PERCENT: u8 = 0x25;
pub const ASCII_SPACE: u8 = 0x20;
pub const ASCII_AMPERSAND: u8 = 0x26;
pub const ASCII_EQUALS: u8 = 0x3D;
pub const ASCII_0: u8 = 0x30;
pub const ASCII_9: u8 = 0x39;
pub const ASCII_LOWER_A: u8 = 0x61;
pub const ASCII_LOWER_F: u8 = 0x66;
pub const ASCII_UPPER_A: u8 = 0x41;
pub const ASCII_UPPER_F: u8 = 0x46;

/// The value of a hexadecimal digit (an ASCII byte), in either case.
pub open spec fn hex_digit_value(c: u8) -> Option<u8> {
    if ASCII_0 <= c && c <= ASCII_9 {
        Some((c - ASCII_0) as u8)
    } else if ASCII_LOWER_A <= c && c <= ASCII_LOWER_F {
        Some((c - ASCII_LOWER_A + 10) as u8)
    } else if ASCII_UPPER_A <= c && c <= ASCII_UPPER_F {
        Some((c - ASCII_UPPER_A + 10) as u8)
    } else {
        None
    }
}

/// One or two hexadecimal digits read as a byte.
pub open spec fn hex_digits_value(d: Seq<u8>) -> Option<u8> {
    if d.len() == 1 {
        hex_digit_value(d[0])
    } else if d.len() == 2 {
        match (hex_digit_value(d[0]), hex_digit_value(d[1])) {
            (Some(hi), Some(lo)) => Some((16 * hi + lo) as u8),
            _ => None,
        }
    } else {
        None
    }
}

/// The byte that an escape's (at most two) bytes denote, read in base 16 as
/// an unsigned number: an optional leading `+`, then digits.
pub open spec fn escape_value(h: Seq<u8>) -> Option<u8> {
    if h.len() == 0 {
        None
    } else if h[0] == ASCII_PLUS {
        if h.len() == 1 {
            None
        } else {
            hex_digits_value(h.drop_first())
        }
    } else {
        hex_digits_value(h)
    }
}

/// How many bytes after a `%` at the front of `s` belong to its escape.
pub open spec fn escape_len(s: Seq<u8>) -> int {
    if s.len() >= 3 {
        2
    } else {
        s.len() - 1
    }
}

/// Form decoding on bytes: `+` is a space, `%` takes the next two bytes
/// (fewer at the end) as a hexadecimal byte, and the escape is dropped when
/// they do not read as one; every other byte stands for itself.
pub open spec fn decode_bytes(s: Seq<u8>) -> Seq<u8>
    decreases s.len(),
{
    if s.len() == 0 {
        Seq::empty()
    } else if s[0] == ASCII_PLUS {
        seq![ASCII_SPACE] + decode_bytes(s.drop_first())
    } else if s[0] == ASCII_PERCENT {
        let n = escape_len(s);
        let rest = s.subrange(1 + n, s.len() as int);
        match escape_value(s.subrange(1, 1 + n)) {
            Some(b) => seq![b] + decode_bytes(rest),
            None => decode_bytes(rest),
        }
    } else {
        seq![s[0]] + decode_bytes(s.drop_first())
    }
}

/// The text that UTF-8 bytes encode; bytes that are not valid UTF-8 give the
/// empty text.
pub open spec fn utf8_text(bytes: Seq<u8>) -> Seq<char> {
    if valid_utf8(bytes) {
        decode_utf8(bytes)
    } else {
        Seq::empty()
    }
}

/// The text of a form-encoded value, given as the bytes of its encoding.
pub open spec fn url_decode(s: Seq<u8>) -> Seq<char> {
    utf8_text(decode_bytes(s))
}

/// Relies on `String::from_utf8`: the text when the bytes are valid UTF-8,
/// else the error, whose `into_bytes` hands the same bytes back.
#[verifier::external_body]
fn string_from_utf8(v: Vec<u8>) -> (r: Result<String, Vec<u8>>)
    ensures
        match r {
            Ok(s) => valid_utf8(v@) && s@ == decode_utf8(v@),
            Err(w) => !valid_utf8(v@) && w@ == v@,
        },
{
    match String::from_utf8(v) {
        Ok(s) => Ok(s),
        Err(e) => Err(e.into_bytes()),
    }
}

fn hex_digit(c: u8) -> (r: Option<u8>)
    ensures
        r == hex_digit_value(c),
{
    if ASCII_0 <= c && c <= ASCII_9 {
        Some(c - ASCII_0)
    } else if ASCII_LOWER_A <= c && c <= ASCII_LOWER_F {
        Some(c - ASCII_LOWER_A + 10)
    } else if ASCII_UPPER_A <= c && c <= ASCII_UPPER_F {
        Some(c - ASCII_UPPER_A + 10)
    } else {
        None
    }
}

fn hex_digits(s: &[u8], lo: usize, hi: usize) -> (r: Option<u8>)
    requires
        lo <= hi <= s@.len(),
        hi - lo <= 2,
    ensures
        r == hex_digits_value(s@.subrange(lo as int, hi as int)),
{
    if hi - lo == 1 {
        hex_digit(s[lo])
    } else if hi - lo == 2 {
        match (hex_digit(s[lo]), hex_digit(s[lo + 1])) {
            (Some(a), Some(b)) => {
                assert(16 * a + b < 256) by (nonlinear_arith)
                    requires
                        a < 16,
                        b < 16,
                ;
                Some(16 * a + b)
            },
            _ => None,
        }
    } else {
        None
    }
}

fn escape_byte(s: &[u8], lo: usize, hi: usize) -> (r: Option<u8>)
    requires
        lo <= hi <= s@.len(),
        hi - lo <= 2,
    ensures
        r == escape_value(s@.subrange(lo as int, hi as int)),
{
    let ghost h = s@.subrange(lo as int, hi as int);
    if lo == hi {
        None
    } else if s[lo] == ASCII_PLUS {
        if hi - lo == 1 {
            None
        } else {
            assert(h.drop_first() =~= s@.subrange(lo + 1, hi as int));
            hex_digits(s, lo + 1, hi)
        }
    } else {
        hex_digits(s, lo, hi)
    }
}

/// Decodes the bytes `s[lo..hi]` of a form value into the bytes they stand
/// for. Room for the whole result is reserved up front, so no secret byte is
/// left behind in a grown-out buffer.
pub fn decode_byte_range(s: &[u8], lo: usize, hi: usize) -> (r: Vec<u8>)
    requires
        lo <= hi <= s@.len(),
    ensures
        r@ == decode_bytes(s@.subrange(lo as int, hi as int)),
{
    let mut out: Vec<u8> = Vec::with_capacity(hi - lo);
    let mut i: usize = lo;
    while i < hi
        invariant
            lo <= i <= hi <= s@.len(),
            out@ + decode_bytes(s@.subrange(i as int, hi as int)) == decode_bytes(
                s@.subrange(lo as int, hi as int),
            ),
        decreases hi - i,
    {
        let ghost rest = s@.subrange(i as int, hi as int);
        let ghost before = out@;
        let c = s[i];
        if c == ASCII_PERCENT {
            let n: usize = if hi - i >= 3 {
                2
            } else {
                hi - i - 1
            };
            assert(rest.subrange(1, 1 + n) =~= s@.subrange(i + 1, i + 1 + n));
            assert(rest.subrange(1 + n, rest.len() as int) =~= s@.subrange(
                i + 1 + n,
                hi as int,
            ));
            match escape_byte(s, i + 1, i + 1 + n) {
                Some(b) => {
                    out.push(b);
                    assert(before.push(b) + decode_bytes(s@.subrange(i + 1 + n, hi as int))
                        =~= before + (seq![b] + decode_bytes(s@.subrange(i + 1 + n, hi as int))));
                },
                None => {},
            }
            i = i + 1 + n;
        } else {
            let d = if c == ASCII_PLUS {
                ASCII_SPACE
            } else {
                c
            };
            out.push(d);
            assert(rest.drop_first() =~= s@.subrange(i + 1, hi as int));
            assert(before.push(d) + decode_bytes(s@.subrange(i + 1, hi as int)) =~= before + (
            seq![d] + decode_bytes(s@.subrange(i + 1, hi as int))));
            i = i + 1;
        }
    }
    assert(out@ + decode_bytes(s@.subrange(hi as int, hi as int)) =~= out@);
    out
}

/// Reads decoded bytes as UTF-8 text; invalid bytes give the empty text and
/// are wiped.
pub fn text_from_bytes(v: Vec<u8>) -> (r: String)
    ensures
        r@ == utf8_text(v@),
{
    match string_from_utf8(v) {
        Ok(s) => s,
        Err(w) => {
            let mut w = w;
            zeroize_byte_vec(&mut w);
            String::new()
        },
    }
}

/// Decodes the bytes `s[lo..hi]` of a form value into its text.
pub fn decode_range(s: &[u8], lo: usize, hi: usize) -> (r: String)
    requires
        lo <= hi <= s@.len(),
    ensures
        r@ == url_decode(s@.subrange(lo as int, hi as int)),
{
    text_from_bytes(decode_byte_range(s, lo, hi))
}

/// Decodes a form-encoded value: `+` becomes a space and `%XX` the byte
/// `XX`; the resulting bytes are read as UTF-8, and give the empty text when
/// they are not valid UTF-8.
pub fn urlencoding_decode(input: &str) -> (r: String)
    ensures
        r@ == url_decode(input.spec_bytes()),
{
    let b = input.as_bytes();
    let n = b.len();
    assert(b@.subrange(0, n as int) =~= b@);
    decode_range(b, 0, n)
}

/// Form key of the network name.
pub const FIELD_SSID: &'static str = "ssid";

/// Form key of the network passphrase.
pub const FIELD_PASSWORD: &'static str = "password";

/// Form key of the device identifier.
pub const FIELD_DEVICE_ID: &'static str = "device_id";

/// Form key of the optional API key.
pub const FIELD_API_KEY: &'static str = "api_key";

/// `s` cut at every `&`, as `str::split` does: `n` separators give `n + 1`
/// pieces, empty ones included.
pub open spec fn split_amp(s: Seq<u8>) -> Seq<Seq<u8>>
    decreases s.len(),
{
    if s.len() == 0 {
        seq![Seq::empty()]
    } else {
        let r = split_amp(s.drop_last());
        if s.last() == ASCII_AMPERSAND {
            r.push(Seq::empty())
        } else {
            r.update(r.len() - 1, r.last().push(s.last()))
        }
    }
}

/// The decoded value of a `key=value` pair whose part before the first `=`
/// is `key` (a key that itself holds no `=`); `None` for any other pair.
pub open spec fn pair_value(pair: Seq<u8>, key: Seq<u8>) -> Option<Seq<char>> {
    if pair.len() > key.len() && pair.subrange(0, key.len() as int) == key && pair[key.len() as int]
        == ASCII_EQUALS {
        Some(url_decode(pair.subrange(key.len() as int + 1, pair.len() as int)))
    } else {
        None
    }
}

/// The value that the last pair with `key` gives, or the empty text where no
/// pair has it.
pub open spec fn last_value(pairs: Seq<Seq<u8>>, key: Seq<u8>) -> Seq<char>
    decreases pairs.len(),
{
    if pairs.len() == 0 {
        Seq::empty()
    } else {
        match pair_value(pairs.last(), key) {
            Some(v) => v,
            None => last_value(pairs.drop_last(), key),
        }
    }
}

/// The value of `key` in a form-encoded body, both given as bytes.
pub open spec fn form_value(body: Seq<u8>, key: Seq<u8>) -> Seq<char> {
    last_value(split_amp(body), key)
}

/// The four recognised fields of a submission, decoded; unknown keys are
/// dropped and a field that no pair gives is empty.
pub struct FormFields {
    pub ssid: String,
    pub password: String,
    pub device_id: String,
    pub api_key: String,
}

/// Why a submission was turned away.
#[derive(PartialEq, Eq, Structural, Debug, Clone, Copy)]
pub enum FormError {
    /// The network name, the passphrase or the device identifier is empty.
    MissingField,
}

fn starts_pair(s: &[u8], lo: usize, hi: usize, key: &[u8]) -> (r: bool)
    requires
        lo <= hi <= s@.len(),
    ensures
        r == (hi - lo > key@.len() && s@.subrange(lo as int, hi as int).subrange(
            0,
            key@.len() as int,
        ) == key@ && s@[lo + key@.len()] == ASCII_EQUALS),
{
    let k = key.len();
    if hi - lo <= k {
        return false;
    }
    let mut j: usize = 0;
    while j < k
        invariant
            k == key@.len(),
            lo + k < hi <= s@.len(),
            j <= k,
            forall|m: int| 0 <= m < j ==> s@[lo + m] == key@[m],
        decreases k - j,
    {
        if s[lo + j] != key[j] {
            assert(s@.subrange(lo as int, hi as int).subrange(0, k as int)[j as int] != key@[j as int]);
            return false;
        }
        j = j + 1;
    }
    assert(s@.subrange(lo as int, hi as int).subrange(0, k as int) =~= key@);
    s[lo + k] == ASCII_EQUALS
}

fn pair_for_key(s: &[u8], lo: usize, hi: usize, key: &[u8], field: &mut String)
    requires
        lo <= hi <= s@.len(),
    ensures
        final(field)@ == match pair_value(s@.subrange(lo as int, hi as int), key@) {
            Some(v) => v,
            None => old(field)@,
        },
{
    if starts_pair(s, lo, hi, key) {
        let k = key.len();
        assert(s@.subrange(lo as int, hi as int).subrange(k + 1, hi - lo) =~= s@.subrange(
            lo + k + 1,
            hi as int,
        ));
        zeroize_string(field);
        *field = decode_range(s, lo + k + 1, hi);
    }
}

fn take_pair(s: &[u8], lo: usize, hi: usize, f: &mut FormFields)
    requires
        lo <= hi <= s@.len(),
    ensures
        final(f).ssid@ == match pair_value(s@.subrange(lo as int, hi as int), FIELD_SSID.spec_bytes()) {
            Some(v) => v,
            None => old(f).ssid@,
        },
        final(f).password@ == match pair_value(s@.subrange(lo as int, hi as int), FIELD_PASSWORD.spec_bytes()) {
            Some(v) => v,
            None => old(f).password@,
        },
        final(f).device_id@ == match pair_value(s@.subrange(lo as int, hi as int), FIELD_DEVICE_ID.spec_bytes()) {
            Some(v) => v,
            None => old(f).device_id@,
        },
        final(f).api_key@ == match pair_value(s@.subrange(lo as int, hi as int), FIELD_API_KEY.spec_bytes()) {
            Some(v) => v,
            None => old(f).api_key@,
        },
{
    pair_for_key(s, lo, hi, FIELD_SSID.as_bytes(), &mut f.ssid);
    pair_for_key(s, lo, hi, FIELD_PASSWORD.as_bytes(), &mut f.password);
    pair_for_key(s, lo, hi, FIELD_DEVICE_ID.as_bytes(), &mut f.device_id);
    pair_for_key(s, lo, hi, FIELD_API_KEY.as_bytes(), &mut f.api_key);
}

/// Splits a form-encoded body into its pairs and keeps, for each recognised
/// key, the decoded value of its last pair.
pub fn parse_form(body: &str) -> (r: FormFields)
    ensures
        r.ssid@ == form_value(body.spec_bytes(), FIELD_SSID.spec_bytes()),
        r.password@ == form_value(body.spec_bytes(), FIELD_PASSWORD.spec_bytes()),
        r.device_id@ == form_value(body.spec_bytes(), FIELD_DEVICE_ID.spec_bytes()),
        r.api_key@ == form_value(body.spec_bytes(), FIELD_API_KEY.spec_bytes()),
{
    let mut f = FormFields {
        ssid: String::new(),
        password: String::new(),
        device_id: String::new(),
        api_key: String::new(),
    };
    let b = body.as_bytes();
    let n = b.len();
    let mut seg: usize = 0;
    let mut i: usize = 0;
    let ghost mut done: Seq<Seq<u8>> = Seq::empty();
    assert(b@.subrange(0, 0) =~= Seq::<u8>::empty());
    while i < n
        invariant
            n == b@.len(),
            seg <= i <= n,
            split_amp(b@.subrange(0, i as int)) == done.push(b@.subrange(seg as int, i as int)),
            f.ssid@ == last_value(done, FIELD_SSID.spec_bytes()),
            f.password@ == last_value(done, FIELD_PASSWORD.spec_bytes()),
            f.device_id@ == last_value(done, FIELD_DEVICE_ID.spec_bytes()),
            f.api_key@ == last_value(done, FIELD_API_KEY.spec_bytes()),
        decreases n - i,
    {
        let ghost prefix = b@.subrange(0, i + 1);
        assert(prefix.drop_last() =~= b@.subrange(0, i as int));
        if b[i] == ASCII_AMPERSAND {
            take_pair(b, seg, i, &mut f);
            proof {
                let piece = b@.subrange(seg as int, i as int);
                assert(done.push(piece).drop_last() =~= done);
                done = done.push(piece);
                assert(b@.subrange(i + 1, i + 1) =~= Seq::<u8>::empty());
            }
            seg = i + 1;
        } else {
            proof {
                let d = done.push(b@.subrange(seg as int, i as int));
                assert(b@.subrange(seg as int, i as int).push(b@[i as int]) =~= b@.subrange(
                    seg as int,
                    i + 1,
                ));
                assert(d.update(d.len() - 1, d.last().push(b@[i as int])) =~= done.push(
                    b@.subrange(seg as int, i + 1),
                ));
            }
        }
        i = i + 1;
    }
    take_pair(b, seg, n, &mut f);
    proof {
        let piece = b@.subrange(seg as int, n as int);
        assert(done.push(piece).drop_last() =~= done);
        assert(b@.subrange(0, n as int) =~= b@);
    }
    f
}

/// Accepts a submission that names the network, gives a passphrase and names
/// the device; the API key may be empty.
pub fn validate_submission(fields: FormFields) -> (r: Result<Credentials, FormError>)
    ensures
        r is Ok <==> (fields.ssid@.len() > 0 && fields.password@.len() > 0
            && fields.device_id@.len() > 0),
        r matches Ok(c) ==> c.is_complete() && c.fields() == (
            fields.ssid@,
            fields.password@,
            fields.api_key@,
            fields.device_id@,
        ),
{
    if fields.ssid.as_str().is_empty() || fields.password.as_str().is_empty()
        || fields.device_id.as_str().is_empty() {
        let mut rejected = Credentials::new(fields.ssid, fields.password, fields.api_key, fields.device_id);
        rejected.wipe();
        return Err(FormError::MissingField);
    }
    Ok(Credentials::new(fields.ssid, fields.password, fields.api_key, fields.device_id))
}

} // verus!
