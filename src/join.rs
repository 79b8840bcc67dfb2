//! The decisions of joining a network as a client: which inputs are
//! accepted, which authentication mode is used, and which channel the radio
//! is pinned to after a scan.
use vstd::prelude::*;
use vstd::string::StrSliceExecFns;

verus! {

/// Longest network name, in bytes, that the radio accepts.
pub const MAX_SSID_BYTES: usize = 32;

/// Longest passphrase, in bytes, that the radio accepts.
pub const MAX_PASSWORD_BYTES: usize = 64;

/// Authentication mode of a client association.
#[derive(PartialEq, Eq, Structural, Debug, Clone, Copy)]
pub enum AuthMode {
    /// An open network: no passphrase.
    Open,
    /// WPA2 with a pre-shared passphrase.
    Wpa2Personal,
}

/// Why a join failed.
#[derive(PartialEq, Eq, Structural, Debug, Clone, Copy)]
pub enum JoinError {
    /// The network name is empty or longer than the radio accepts.
    InvalidSsid,
    /// The passphrase is longer than the radio accepts.
    InvalidPassword,
    /// The radio driver failed, with the platform's error code.
    Radio(i32),
    /// The link layer did not report an association.
    ConnectFailed,
    /// The interface did not get a network address.
    AddressTimeout,
}

/// One access point seen by a scan.
pub struct ScanEntry {
    pub ssid: String,
    pub channel: u8,
}

/// The mode that a passphrase calls for: open when it is empty.
pub open spec fn auth_mode_of(password: Seq<char>) -> AuthMode {
    if password.len() == 0 {
        AuthMode::Open
    } else {
        AuthMode::Wpa2Personal
    }
}

/// Picks the authentication mode from the passphrase: none for an empty one,
/// WPA2 personal otherwise.
pub fn auth_mode_for(password: &str) -> (r: AuthMode)
    ensures
        r == auth_mode_of(password@),
{
    if password.is_empty() {
        AuthMode::Open
    } else {
        AuthMode::Wpa2Personal
    }
}

/// The outcome of checking the inputs of a join, before the radio is touched.
pub open spec fn join_check(ssid: &str, password: &str) -> Result<AuthMode, JoinError> {
    if ssid@.len() == 0 || ssid.len() > MAX_SSID_BYTES {
        Err(JoinError::InvalidSsid)
    } else if password.len() > MAX_PASSWORD_BYTES {
        Err(JoinError::InvalidPassword)
    } else {
        Ok(auth_mode_of(password@))
    }
}

/// Checks the network name and passphrase of a join and picks its
/// authentication mode.
pub fn plan_join(ssid: &str, password: &str) -> (r: Result<AuthMode, JoinError>)
    ensures
        r == join_check(ssid, password),
{
    if ssid.is_empty() || ssid.len() > MAX_SSID_BYTES {
        Err(JoinError::InvalidSsid)
    } else if password.len() > MAX_PASSWORD_BYTES {
        Err(JoinError::InvalidPassword)
    } else {
        Ok(auth_mode_for(password))
    }
}

/// The channel of the first scanned access point named `ssid`, if any.
pub open spec fn first_channel(scan: Seq<ScanEntry>, ssid: Seq<char>) -> Option<u8>
    decreases scan.len(),
{
    if scan.len() == 0 {
        None
    } else if scan[0].ssid@ == ssid {
        Some(scan[0].channel)
    } else {
        first_channel(scan.drop_first(), ssid)
    }
}

fn same_text(a: &str, b: &str) -> (r: bool)
    ensures
        r == (a@ == b@),
{
    let n = a.unicode_len();
    if n != b.unicode_len() {
        return false;
    }
    let mut i: usize = 0;
    while i < n
        invariant
            n == a@.len() == b@.len(),
            i <= n,
            forall|j: int| 0 <= j < i ==> a@[j] == b@[j],
        decreases n - i,
    {
        if a.get_char(i) != b.get_char(i) {
            return false;
        }
        i = i + 1;
    }
    assert(a@ =~= b@);
    true
}

/// The channel to pin the radio to: that of the first scanned access point
/// named `ssid`. When none is, the result is `None` and the join goes on
/// with the channel left to the driver.
pub fn pick_channel(scan: &Vec<ScanEntry>, ssid: &str) -> (r: Option<u8>)
    ensures
        r == first_channel(scan@, ssid@),
        r is None <==> forall|i: int| 0 <= i < scan@.len() ==> scan@[i].ssid@ != ssid@,
{
    let mut i: usize = 0;
    assert(scan@.subrange(0, scan@.len() as int) =~= scan@);
    while i < scan.len()
        invariant
            i <= scan@.len(),
            forall|j: int| 0 <= j < i ==> scan@[j].ssid@ != ssid@,
            first_channel(scan@.subrange(i as int, scan@.len() as int), ssid@) == first_channel(
                scan@,
                ssid@,
            ),
        decreases scan@.len() - i,
    {
        let ghost rest = scan@.subrange(i as int, scan@.len() as int);
        assert(rest.drop_first() =~= scan@.subrange(i + 1, scan@.len() as int));
        if same_text(scan[i].ssid.as_str(), ssid) {
            return Some(scan[i].channel);
        }
        i = i + 1;
    }
    None
}

} // verus!
