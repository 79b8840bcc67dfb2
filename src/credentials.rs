//! The credential record and the secure erasure of secret bytes.
use vstd::prelude::*;
use zeroize::Zeroize;

verus! {

/// Length of the scratch buffer through which a stored field is read.
pub const FIELD_BUFFER_LEN: usize = 256;

/// Relies on `zeroize`'s `Zeroize for String`: the bytes are overwritten with
/// zeros and the string is left empty.
#[verifier::external_body]
pub(crate) fn zeroize_string(s: &mut String)
    ensures
        final(s)@ == Seq::<char>::empty(),
    opens_invariants none
    no_unwind
{
    s.zeroize();
}

/// Relies on `zeroize`'s `Zeroize for Vec<Z>`: the elements and the spare
/// capacity are overwritten with zeros and the vector is left empty.
#[verifier::external_body]
pub(crate) fn zeroize_byte_vec(v: &mut Vec<u8>)
    ensures
        final(v)@ == Seq::<u8>::empty(),
{
    v.zeroize();
}

/// Relies on `zeroize`'s `Zeroize for [u8; N]`: every byte is set to zero.
#[verifier::external_body]
fn zeroize_bytes(buf: &mut [u8; 256])
    ensures
        final(buf)@ == Seq::new(256, |i: int| 0u8),
{
    buf.zeroize();
}

/// Overwrites a field scratch buffer with zeros, so that no byte of the last
/// field read through it stays behind.
pub fn wipe_buffer(buf: &mut [u8; 256])
    ensures
        final(buf)@.len() == FIELD_BUFFER_LEN,
        forall|i: int| 0 <= i < FIELD_BUFFER_LEN ==> #[trigger] final(buf)@[i] == 0u8,
{
    zeroize_bytes(buf);
}

/// The network name, passphrase, API key and device identifier of a device.
/// An empty passphrase stands for an open network; the API key is optional.
pub struct Credentials {
    pub wifi_ssid: String,
    pub wifi_password: String,
    pub api_key: String,
    pub device_id: String,
}

/// A record whose four fields are all empty.
pub open spec fn is_blank(c: Credentials) -> bool {
    &&& c.wifi_ssid@.len() == 0
    &&& c.wifi_password@.len() == 0
    &&& c.api_key@.len() == 0
    &&& c.device_id@.len() == 0
}

impl Credentials {
    /// The record is complete enough to join a network: it names the network
    /// and the device.
    pub open spec fn is_complete(&self) -> bool {
        self.wifi_ssid@.len() > 0 && self.device_id@.len() > 0
    }

    /// The four fields, as (ssid, password, api key, device id).
    pub open spec fn fields(&self) -> (Seq<char>, Seq<char>, Seq<char>, Seq<char>) {
        (self.wifi_ssid@, self.wifi_password@, self.api_key@, self.device_id@)
    }

    pub fn new(
        wifi_ssid: String,
        wifi_password: String,
        api_key: String,
        device_id: String,
    ) -> (r: Credentials)
        ensures
            r.fields() == (wifi_ssid@, wifi_password@, api_key@, device_id@),
    {
        Credentials { wifi_ssid, wifi_password, api_key, device_id }
    }

    /// Overwrites every field with zeros and leaves them empty.
    pub fn wipe(&mut self)
        ensures
            is_blank(*final(self)),
        opens_invariants none
        no_unwind
    {
        zeroize_string(&mut self.wifi_ssid);
        zeroize_string(&mut self.wifi_password);
        zeroize_string(&mut self.api_key);
        zeroize_string(&mut self.device_id);
    }

}

/// A record is erased when it goes out of use, on every path.
impl Drop for Credentials {
    fn drop(&mut self)
        opens_invariants none
        no_unwind
    {
        self.wipe();
    }
}

impl Default for Credentials {
    fn default() -> (r: Credentials)
        ensures
            is_blank(r),
    {
        Credentials {
            wifi_ssid: String::new(),
            wifi_password: String::new(),
            api_key: String::new(),
            device_id: String::new(),
        }
    }
}

} // verus!
