//! The persisted credential layout and the procedures over it: which keys
//! are written, in which order, and what a sequence of reads yields.
//!
//! The key-value store itself lives outside the library. Its contents are
//! modelled by `NvsImage`; the store, clear and load procedures are stated as
//! operations on that model, and their laws are proved over it.
use vstd::prelude::*;
use crate::credentials::Credentials;
use crate::text::{trim_nul_end, trim_nul_padding};

verus! {

/// Namespace that holds every credential key.
pub const NVS_NAMESPACE: &'static str = "credentials";

/// Key of the one-byte provisioned flag.
pub const KEY_PROVISIONED: &'static str = "provisioned";

/// Flag value of a fully configured device.
pub const FLAG_SET: u8 = 1;

/// Flag value written by a reset.
pub const FLAG_CLEAR: u8 = 0;

/// The persisted text fields of a credential record.
#[derive(PartialEq, Eq, Structural, Debug, Clone, Copy)]
pub enum TextKey {
    WifiSsid,
    WifiPass,
    ApiKey,
    DeviceId,
}

impl TextKey {
    /// The key under which the field is persisted.
    pub fn name(&self) -> (r: &'static str)
        ensures
            r@ == self.key_name(),
    {
        match self {
            TextKey::WifiSsid => "wifi_ssid",
            TextKey::WifiPass => "wifi_pass",
            TextKey::ApiKey => "api_key",
            TextKey::DeviceId => "device_id",
        }
    }

    /// The persisted key, as text.
    pub open spec fn key_name(&self) -> Seq<char> {
        match self {
            TextKey::WifiSsid => "wifi_ssid"@,
            TextKey::WifiPass => "wifi_pass"@,
            TextKey::ApiKey => "api_key"@,
            TextKey::DeviceId => "device_id"@,
        }
    }
}

impl Credentials {
    /// The record's value for a persisted field.
    pub open spec fn field_of(&self, k: TextKey) -> Seq<char> {
        match k {
            TextKey::WifiSsid => self.wifi_ssid@,
            TextKey::WifiPass => self.wifi_password@,
            TextKey::ApiKey => self.api_key@,
            TextKey::DeviceId => self.device_id@,
        }
    }

    /// The text to persist under `k`.
    pub fn field(&self, k: TextKey) -> (r: &str)
        ensures
            r@ == self.field_of(k),
    {
        match k {
            TextKey::WifiSsid => self.wifi_ssid.as_str(),
            TextKey::WifiPass => self.wifi_password.as_str(),
            TextKey::ApiKey => self.api_key.as_str(),
            TextKey::DeviceId => self.device_id.as_str(),
        }
    }

    /// Takes in the result of reading `k` from the store: a value present is
    /// copied without its NUL padding, an absent one leaves the field as it is.
    pub fn set_loaded(&mut self, k: TextKey, read: Option<&str>)
        ensures
            forall|j: TextKey| j != k ==> final(self).field_of(j) == old(self).field_of(j),
            final(self).field_of(k) == match read {
                Some(v) => trim_nul_end(v@),
                None => old(self).field_of(k),
            },
    {
        if let Some(v) = read {
            let t = trim_nul_padding(v);
            match k {
                TextKey::WifiSsid => self.wifi_ssid = t,
                TextKey::WifiPass => self.wifi_password = t,
                TextKey::ApiKey => self.api_key = t,
                TextKey::DeviceId => self.device_id = t,
            }
        }
    }
}

/// A failure of the credential store.
#[derive(PartialEq, Eq, Structural, Debug, Clone, Copy)]
pub enum StoreError {
    /// `load` was asked of a device whose provisioned flag is not set.
    NotProvisioned,
    /// The key-value store failed, with the platform's error code.
    Backend(i32),
}

/// One write of a store or reset procedure.
#[derive(PartialEq, Eq, Structural, Debug, Clone, Copy)]
pub enum NvsOp {
    /// Write the field `k` of the record that the procedure is given.
    Text(TextKey),
    /// Write the empty text under `k`.
    Blank(TextKey),
    /// Write the provisioned flag.
    Flag(u8),
}

/// What the key-value store holds in the credential namespace.
pub struct NvsImage {
    pub text: Map<TextKey, Seq<char>>,
    pub flag: Option<u8>,
}

/// The image after one write whose text comes from `src`.
pub open spec fn apply_op(m: NvsImage, op: NvsOp, src: Credentials) -> NvsImage {
    match op {
        NvsOp::Text(k) => NvsImage { text: m.text.insert(k, src.field_of(k)), flag: m.flag },
        NvsOp::Blank(k) => NvsImage { text: m.text.insert(k, Seq::empty()), flag: m.flag },
        NvsOp::Flag(v) => NvsImage { text: m.text, flag: Some(v) },
    }
}

/// The image after the writes `ops`, in order.
pub open spec fn apply_ops(m: NvsImage, ops: Seq<NvsOp>, src: Credentials) -> NvsImage
    decreases ops.len(),
{
    if ops.len() == 0 {
        m
    } else {
        apply_op(apply_ops(m, ops.drop_last(), src), ops.last(), src)
    }
}

/// The text fields in the order in which they are written and read.
pub open spec fn text_key_order() -> Seq<TextKey> {
    seq![TextKey::WifiSsid, TextKey::WifiPass, TextKey::ApiKey, TextKey::DeviceId]
}

/// The writes of a store: the flag cleared, the four fields, then the flag
/// set. While the fields are being replaced the device reads as not
/// provisioned, so a store that stops early never leaves the flag set over
/// fields of two different records.
pub open spec fn store_ops() -> Seq<NvsOp> {
    seq![
        NvsOp::Flag(FLAG_CLEAR),
        NvsOp::Text(TextKey::WifiSsid),
        NvsOp::Text(TextKey::WifiPass),
        NvsOp::Text(TextKey::ApiKey),
        NvsOp::Text(TextKey::DeviceId),
        NvsOp::Flag(FLAG_SET),
    ]
}

/// The writes of a reset: the flag cleared first, then the four fields
/// emptied.
pub open spec fn clear_ops() -> Seq<NvsOp> {
    seq![
        NvsOp::Flag(FLAG_CLEAR),
        NvsOp::Blank(TextKey::WifiSsid),
        NvsOp::Blank(TextKey::WifiPass),
        NvsOp::Blank(TextKey::ApiKey),
        NvsOp::Blank(TextKey::DeviceId),
    ]
}

/// The writes that store a record, in the order in which they must be made.
pub fn store_plan() -> (r: Vec<NvsOp>)
    ensures
        r@ == store_ops(),
{
    let r = vec![
        NvsOp::Flag(FLAG_CLEAR),
        NvsOp::Text(TextKey::WifiSsid),
        NvsOp::Text(TextKey::WifiPass),
        NvsOp::Text(TextKey::ApiKey),
        NvsOp::Text(TextKey::DeviceId),
        NvsOp::Flag(FLAG_SET),
    ];
    assert(r@ =~= store_ops());
    r
}

/// The writes of a reset, in the order in which they must be made.
pub fn clear_plan() -> (r: Vec<NvsOp>)
    ensures
        r@ == clear_ops(),
{
    let r = vec![
        NvsOp::Flag(FLAG_CLEAR),
        NvsOp::Blank(TextKey::WifiSsid),
        NvsOp::Blank(TextKey::WifiPass),
        NvsOp::Blank(TextKey::ApiKey),
        NvsOp::Blank(TextKey::DeviceId),
    ];
    assert(r@ =~= clear_ops());
    r
}

/// A write procedure in progress: the writes of a plan are made one at a
/// time, in order, and the first failure ends the procedure. After a run the
/// store has taken exactly the writes `ops()[0..done()]`.
pub struct PlanRun {
    ops: Vec<NvsOp>,
    done: usize,
    error: Option<StoreError>,
}

impl PlanRun {
    pub closed spec fn ops(&self) -> Seq<NvsOp> {
        self.ops@
    }

    /// How many writes have been made.
    pub closed spec fn done(&self) -> nat {
        self.done as nat
    }

    /// The failure that ended the run, if one did.
    pub closed spec fn error(&self) -> Option<StoreError> {
        self.error
    }

    /// No write was made past a failure: a failed write is the one after the
    /// last made.
    pub open spec fn wf(&self) -> bool {
        &&& self.done() <= self.ops().len()
        &&& self.error() is Some ==> self.done() < self.ops().len()
    }

    /// A run of `ops` with no write made yet.
    pub fn new(ops: Vec<NvsOp>) -> (r: PlanRun)
        ensures
            r.wf(),
            r.ops() == ops@,
            r.done() == 0,
            r.error() is None,
    {
        PlanRun { ops, done: 0, error: None }
    }

    /// The write to make next: none once every write is made or one failed.
    pub fn next_op(&self) -> (r: Option<NvsOp>)
        requires
            self.wf(),
        ensures
            r == if self.error() is None && self.done() < self.ops().len() {
                Some(self.ops()[self.done() as int])
            } else {
                None
            },
    {
        if self.error.is_none() && self.done < self.ops.len() {
            Some(self.ops[self.done])
        } else {
            None
        }
    }

    /// Takes in the outcome of the write that `next_op` gave.
    pub fn record(&mut self, outcome: Result<(), StoreError>)
        requires
            old(self).wf(),
            old(self).error() is None,
            old(self).done() < old(self).ops().len(),
        ensures
            final(self).wf(),
            final(self).ops() == old(self).ops(),
            match outcome {
                Ok(()) => final(self).done() == old(self).done() + 1 && final(self).error() is None,
                Err(e) => final(self).done() == old(self).done() && final(self).error() == Some(e),
            },
    {
        match outcome {
            Ok(()) => {
                let n = self.ops.len();
                assert(self.done < n);
                self.done = self.done + 1;
            },
            Err(e) => {
                self.error = Some(e);
            },
        }
    }

    /// The outcome of a run that `next_op` has ended: success when every
    /// write was made, else the failure.
    pub fn finish(&self) -> (r: Result<(), StoreError>)
        requires
            self.wf(),
        ensures
            r == match self.error() {
                Some(e) => Err(e),
                None => Ok::<(), StoreError>(()),
            },
    {
        match self.error {
            Some(e) => Err(e),
            None => Ok(()),
        }
    }
}

/// A store run that ended in a failure leaves the store as it was when its
/// first write (clearing the flag) failed, and unprovisioned otherwise.
pub proof fn lemma_failed_run_unprovisions(m: NvsImage, run: PlanRun, r: Credentials)
    requires
        run.wf(),
        run.ops() == store_ops(),
        run.error() is Some,
    ensures
        run.done() == 0 ==> apply_ops(m, run.ops().subrange(0, run.done() as int), r) == m,
        run.done() > 0 ==> !image_provisioned(
            apply_ops(m, run.ops().subrange(0, run.done() as int), r),
        ),
{
    lemma_interrupted_store_unprovisions(m, r, run.done() as int);
}

/// The provisioning status that a read of the flag gives: set only when the
/// flag reads as 1. An absent flag and a failed read both mean "not provisioned".
pub open spec fn status_of(read: Result<Option<u8>, StoreError>) -> bool {
    read == Ok::<Option<u8>, StoreError>(Some(FLAG_SET))
}

/// Whether the device is provisioned, given the result of reading its flag.
pub fn provisioned_from_read(read: Result<Option<u8>, StoreError>) -> (r: bool)
    ensures
        r == status_of(read),
{
    match read {
        Ok(Some(v)) => v == FLAG_SET,
        _ => false,
    }
}

/// The provisioned status of an image.
pub open spec fn image_provisioned(m: NvsImage) -> bool {
    m.flag == Some(FLAG_SET)
}

/// What a load reads for `k` from an image: the stored text, or nothing.
pub open spec fn read_text(m: NvsImage, k: TextKey) -> Option<Seq<char>> {
    if m.text.contains_key(k) {
        Some(m.text[k])
    } else {
        None
    }
}

/// The field that a load gives for `k`: the stored text without NUL padding,
/// or empty where the key is absent.
pub open spec fn loaded_field(m: NvsImage, k: TextKey) -> Seq<char> {
    field_from_read(read_text(m, k))
}

proof fn lemma_apply_step(m: NvsImage, ops: Seq<NvsOp>, i: int, src: Credentials)
    requires
        0 <= i < ops.len(),
    ensures
        apply_ops(m, ops.subrange(0, i + 1), src) == apply_op(
            apply_ops(m, ops.subrange(0, i), src),
            ops[i],
            src,
        ),
{
    assert(ops.subrange(0, i + 1).drop_last() =~= ops.subrange(0, i));
}

/// After a prefix of writes that starts by clearing the flag and sets no
/// flag after that, the flag reads as cleared.
proof fn lemma_prefix_flag_cleared(m: NvsImage, ops: Seq<NvsOp>, done: int, src: Credentials)
    requires
        1 <= done <= ops.len(),
        ops[0] == NvsOp::Flag(FLAG_CLEAR),
        forall|i: int| 1 <= i < done ==> !(#[trigger] ops[i] is Flag),
    ensures
        apply_ops(m, ops.subrange(0, done), src).flag == Some(FLAG_CLEAR),
    decreases done,
{
    lemma_apply_step(m, ops, done - 1, src);
    if done > 1 {
        lemma_prefix_flag_cleared(m, ops, done - 1, src);
    } else {
        assert(ops.subrange(0, 0).len() == 0);
    }
}

proof fn lemma_trim_unpadded(s: Seq<char>)
    requires
        s.len() == 0 || s.last() != '\0',
    ensures
        trim_nul_end(s) == s,
{
}

/// Reading the provisioned flag changes nothing in the store, so any number
/// of status reads of one image, none of which fails, all give the same
/// answer: the image's own status.
pub proof fn lemma_status_read_stable(m: NvsImage, reads: Seq<Result<Option<u8>, StoreError>>)
    requires
        forall|i: int| 0 <= i < reads.len() ==> reads[i] == Ok::<Option<u8>, StoreError>(m.flag),
    ensures
        forall|i: int, j: int|
            0 <= i < reads.len() && 0 <= j < reads.len() ==> #[trigger] status_of(reads[i])
                == #[trigger] status_of(reads[j]),
        forall|i: int| 0 <= i < reads.len() ==> #[trigger] status_of(reads[i]) == image_provisioned(m),
{
}

/// A record with a network name, a passphrase and a device identifier, none
/// of whose fields ends in NUL padding, survives a store followed by a load:
/// the device reads as provisioned and every loaded field equals the stored one.
pub proof fn lemma_store_then_load(m: NvsImage, r: Credentials)
    requires
        r.wifi_ssid@.len() > 0,
        r.wifi_password@.len() > 0,
        r.device_id@.len() > 0,
        forall|k: TextKey| #[trigger] r.field_of(k).len() == 0 || r.field_of(k).last() != '\0',
    ensures
        image_provisioned(apply_ops(m, store_ops(), r)),
        forall|k: TextKey| #[trigger] loaded_field(apply_ops(m, store_ops(), r), k) == r.field_of(k),
{
    let ops = store_ops();
    lemma_apply_step(m, ops, 0, r);
    lemma_apply_step(m, ops, 1, r);
    lemma_apply_step(m, ops, 2, r);
    lemma_apply_step(m, ops, 3, r);
    lemma_apply_step(m, ops, 4, r);
    lemma_apply_step(m, ops, 5, r);
    assert(ops.subrange(0, 0).len() == 0);
    assert(ops.subrange(0, 6) =~= ops);
    assert forall|k: TextKey| #[trigger] loaded_field(apply_ops(m, store_ops(), r), k) == r.field_of(k) by {
        lemma_trim_unpadded(r.field_of(k));
    }
}

/// A store that stops before all its writes are made (the write at index
/// `done` failed) leaves the store unprovisioned once its first write, which
/// clears the flag, was made; when that first write failed nothing changed.
pub proof fn lemma_interrupted_store_unprovisions(m: NvsImage, r: Credentials, done: int)
    requires
        0 <= done < store_ops().len(),
    ensures
        done == 0 ==> apply_ops(m, store_ops().subrange(0, done), r) == m,
        done > 0 ==> !image_provisioned(apply_ops(m, store_ops().subrange(0, done), r)),
{
    if done == 0 {
        assert(store_ops().subrange(0, 0).len() == 0);
    } else {
        lemma_prefix_flag_cleared(m, store_ops(), done, r);
    }
}

/// Every stage of a reset after its first write leaves the device
/// unprovisioned, and the whole reset leaves every field empty, whatever
/// record the procedure is given.
pub proof fn lemma_clear_resets(m: NvsImage, src: Credentials, done: int)
    requires
        1 <= done <= clear_ops().len(),
    ensures
        !image_provisioned(apply_ops(m, clear_ops().subrange(0, done), src)),
        forall|k: TextKey| #[trigger] loaded_field(apply_ops(m, clear_ops(), src), k).len() == 0,
{
    lemma_prefix_flag_cleared(m, clear_ops(), done, src);
    let ops = clear_ops();
    lemma_apply_step(m, ops, 0, src);
    lemma_apply_step(m, ops, 1, src);
    lemma_apply_step(m, ops, 2, src);
    lemma_apply_step(m, ops, 3, src);
    lemma_apply_step(m, ops, 4, src);
    assert(ops.subrange(0, 0).len() == 0);
    assert(ops.subrange(0, 5) =~= ops);
    assert forall|k: TextKey| #[trigger] loaded_field(apply_ops(m, clear_ops(), src), k).len() == 0 by {
        lemma_trim_unpadded(Seq::<char>::empty());
    }
}

/// The image holds, under the four keys, exactly the fields of `r`.
pub open spec fn holds_record(m: NvsImage, r: Credentials) -> bool {
    forall|k: TextKey| #[trigger] m.text.contains_key(k) && m.text[k] == r.field_of(k)
}

/// The flag reads as set only over the four fields of one record.
pub open spec fn image_consistent(m: NvsImage) -> bool {
    image_provisioned(m) ==> exists|r: Credentials| holds_record(m, r)
}

/// Every stage of a store keeps the store consistent: whether it stops
/// after any number of writes or completes, the flag never reads as set over
/// fields of two different records.
pub proof fn lemma_store_keeps_consistent(m: NvsImage, r: Credentials, done: int)
    requires
        image_consistent(m),
        0 <= done <= store_ops().len(),
    ensures
        image_consistent(apply_ops(m, store_ops().subrange(0, done), r)),
{
    let ops = store_ops();
    if done == 0 {
        assert(ops.subrange(0, 0).len() == 0);
    } else if done < 6 {
        lemma_prefix_flag_cleared(m, ops, done, r);
    } else {
        lemma_apply_step(m, ops, 0, r);
        lemma_apply_step(m, ops, 1, r);
        lemma_apply_step(m, ops, 2, r);
        lemma_apply_step(m, ops, 3, r);
        lemma_apply_step(m, ops, 4, r);
        lemma_apply_step(m, ops, 5, r);
        assert(ops.subrange(0, 0).len() == 0);
        assert(holds_record(apply_ops(m, ops.subrange(0, 6), r), r));
    }
}

/// Every stage of a reset keeps the store consistent.
pub proof fn lemma_clear_keeps_consistent(m: NvsImage, src: Credentials, done: int)
    requires
        image_consistent(m),
        0 <= done <= clear_ops().len(),
    ensures
        image_consistent(apply_ops(m, clear_ops().subrange(0, done), src)),
{
    if done == 0 {
        assert(clear_ops().subrange(0, 0).len() == 0);
    } else {
        lemma_prefix_flag_cleared(m, clear_ops(), done, src);
    }
}

/// The field that a read gives: the text without NUL padding, or empty where
/// the key is absent.
pub open spec fn field_from_read(read: Option<Seq<char>>) -> Seq<char> {
    match read {
        Some(v) => trim_nul_end(v),
        None => Seq::empty(),
    }
}

fn key_at(i: usize) -> (r: TextKey)
    requires
        i < 4,
    ensures
        r == text_key_order()[i as int],
{
    if i == 0 {
        TextKey::WifiSsid
    } else if i == 1 {
        TextKey::WifiPass
    } else if i == 2 {
        TextKey::ApiKey
    } else {
        TextKey::DeviceId
    }
}

/// A load in progress: the four fields are read one at a time, in order,
/// and the first failed read ends the load.
pub struct LoadRun {
    creds: Credentials,
    taken: usize,
    error: Option<StoreError>,
    reads: Ghost<Seq<Option<Seq<char>>>>,
}

impl LoadRun {
    /// How many fields have been read.
    pub closed spec fn taken(&self) -> nat {
        self.taken as nat
    }

    /// The failure that ended the load, if one did.
    pub closed spec fn error(&self) -> Option<StoreError> {
        self.error
    }

    /// The values read so far, in key order (`None` for an absent key).
    pub closed spec fn reads(&self) -> Seq<Option<Seq<char>>> {
        self.reads@
    }

    /// The record as filled in so far.
    pub closed spec fn record(&self) -> Credentials {
        self.creds
    }

    pub open spec fn wf(&self) -> bool {
        &&& self.taken() <= 4
        &&& self.error() is Some ==> self.taken() < 4
        &&& self.reads().len() == self.taken()
        &&& forall|i: int|
            0 <= i < self.taken() ==> #[trigger] self.record().field_of(text_key_order()[i])
                == field_from_read(self.reads()[i])
        &&& forall|i: int|
            self.taken() <= i < 4 ==> (#[trigger] self.record().field_of(text_key_order()[i])).len()
                == 0
    }

    /// Starts a load on a device whose flag reads as set; any other flag
    /// read, a failed one included, gives `NotProvisioned`.
    pub fn start(flag: Result<Option<u8>, StoreError>) -> (r: Result<LoadRun, StoreError>)
        ensures
            r is Ok <==> status_of(flag),
            r is Err ==> r matches Err(StoreError::NotProvisioned),
            r matches Ok(run) ==> run.wf() && run.taken() == 0 && run.error() is None,
    {
        if !provisioned_from_read(flag) {
            return Err(StoreError::NotProvisioned);
        }
        let run = LoadRun {
            creds: Credentials::default(),
            taken: 0,
            error: None,
            reads: Ghost(Seq::empty()),
        };
        Ok(run)
    }

    /// The key to read next: none once all four are read or a read failed.
    pub fn next_key(&self) -> (r: Option<TextKey>)
        requires
            self.wf(),
        ensures
            r == if self.error() is None && self.taken() < 4 {
                Some(text_key_order()[self.taken() as int])
            } else {
                None
            },
    {
        if self.error.is_none() && self.taken < 4 {
            Some(key_at(self.taken))
        } else {
            None
        }
    }

    /// Takes in the read of the key that `next_key` gave.
    pub fn take(&mut self, read: Result<Option<&str>, StoreError>)
        requires
            old(self).wf(),
            old(self).error() is None,
            old(self).taken() < 4,
        ensures
            final(self).wf(),
            match read {
                Ok(v) => {
                    &&& final(self).taken() == old(self).taken() + 1
                    &&& final(self).error() is None
                    &&& final(self).reads() == old(self).reads().push(
                        match v {
                            Some(s) => Some(s@),
                            None => None,
                        },
                    )
                },
                Err(e) => {
                    &&& final(self).taken() == old(self).taken()
                    &&& final(self).error() == Some(e)
                    &&& final(self).reads() == old(self).reads()
                },
            },
    {
        match read {
            Ok(v) => {
                let k = key_at(self.taken);
                let ghost got = match v {
                    Some(s) => Some(s@),
                    None => None::<Seq<char>>,
                };
                let ghost prev = self.record();
                let ghost at = self.taken as int;
                assert(prev.field_of(text_key_order()[at]).len() == 0);
                assert(prev.field_of(k) =~= Seq::<char>::empty());
                self.creds.set_loaded(k, v);
                self.reads = Ghost(self.reads@.push(got));
                self.taken = self.taken + 1;
                assert forall|i: int| 0 <= i < self.taken() implies #[trigger] self.record().field_of(
                    text_key_order()[i],
                ) == field_from_read(self.reads()[i]) by {
                    if i < self.taken() - 1 {
                        assert(text_key_order()[i] != k);
                    }
                }
                assert forall|i: int| self.taken() <= i < 4 implies (
                #[trigger] self.record().field_of(text_key_order()[i])).len() == 0 by {
                    assert(text_key_order()[i] != k);
                }
            },
            Err(e) => {
                let ghost prev = self.record();
                self.error = Some(e);
                assert(self.record() == prev);
            },
        }
    }

    /// The outcome of a load that `next_key` has ended: the record when no
    /// read failed, else the failure (the partial record is erased).
    pub fn finish(self) -> (r: Result<Credentials, StoreError>)
        requires
            self.wf(),
            self.error() is None ==> self.taken() == 4,
        ensures
            self.error() is Some <==> r is Err,
            r matches Err(e) ==> self.error() == Some(e),
            r matches Ok(c) ==> forall|i: int|
                0 <= i < 4 ==> #[trigger] c.field_of(text_key_order()[i]) == field_from_read(
                    self.reads()[i],
                ),
    {
        match self.error {
            Some(e) => Err(e),
            None => {
                assert forall|i: int| 0 <= i < 4 implies #[trigger] self.creds.field_of(
                    text_key_order()[i],
                ) == field_from_read(self.reads()[i]) by {
                    assert(self.record().field_of(text_key_order()[i]) == field_from_read(
                        self.reads()[i],
                    ));
                }
                Ok(self.creds)
            },
        }
    }
}

/// A load whose reads return what an image holds gives, for each key, the
/// field that the image's stored text stands for.
pub proof fn lemma_load_reads_image(m: NvsImage, reads: Seq<Option<Seq<char>>>)
    requires
        reads.len() == 4,
        forall|i: int| 0 <= i < 4 ==> #[trigger] reads[i] == read_text(m, text_key_order()[i]),
    ensures
        forall|i: int|
            0 <= i < 4 ==> #[trigger] field_from_read(reads[i]) == loaded_field(
                m,
                text_key_order()[i],
            ),
{
}

} // verus!
