//! The provisioning portal: the access point it raises, the replies of its
//! two routes, and the session whose completion signal tells the waiting
//! loop to restart the device.
use vstd::prelude::*;
use crate::credentials::Credentials;
use vstd::string::StringSliceAdditionalSpecFns;
use crate::form::{form_value, parse_form, validate_submission, FIELD_DEVICE_ID, FIELD_PASSWORD, FIELD_SSID, FIELD_API_KEY};

verus! {

/// Network name of the setup access point.
pub const AP_SSID: &'static str = "Leonobitech-Setup";

/// Passphrase of the setup access point (WPA2 personal asks for at least 8 chars).
pub const AP_PASSWORD: &'static str = "setup1234";

/// Radio channel of the setup access point.
pub const AP_CHANNEL: u8 = 1;

/// Most stations that may join the setup access point at once.
pub const AP_MAX_CONNECTIONS: u16 = 4;

/// Gateway address of the setup network, where the portal listens.
pub const AP_GATEWAY: [u8; 4] = [192, 168, 4, 1];

/// Prefix length of the setup network's mask.
pub const AP_MASK_BITS: u8 = 24;

/// Largest submission body that the portal reads, in bytes.
pub const MAX_BODY_BYTES: usize = 512;

/// Pause between two looks at the completion signal, in milliseconds.
pub const POLL_INTERVAL_MS: u32 = 1000;

/// Pause between completion and restart, so the reply reaches the client.
pub const RESTART_GRACE_MS: u32 = 3000;

/// A reply of the portal.
#[derive(PartialEq, Eq, Structural, Debug, Clone, Copy)]
pub enum Reply {
    /// The configuration form.
    Form,
    /// The page that confirms a stored submission.
    Success,
    /// A submission without a required field.
    BadRequest,
    /// A submission that could not be stored.
    ServerError,
}

impl Reply {
    pub open spec fn status_code(&self) -> u16 {
        match self {
            Reply::Form => 200,
            Reply::Success => 200,
            Reply::BadRequest => 400,
            Reply::ServerError => 500,
        }
    }

    /// The HTTP status of the reply.
    pub fn status(&self) -> (r: u16)
        ensures
            r == self.status_code(),
    {
        match self {
            Reply::Form => 200,
            Reply::Success => 200,
            Reply::BadRequest => 400,
            Reply::ServerError => 500,
        }
    }
}

/// What the waiting loop does after a look at the completion signal.
#[derive(PartialEq, Eq, Structural, Debug, Clone, Copy)]
pub enum WaitAction {
    /// Sleep for the poll interval and look again.
    Sleep,
    /// Wait out the grace period, then restart the device.
    Restart,
}

/// A submission whose network name, passphrase and device identifier are
/// all present once decoded.
pub open spec fn submission_accepted(body: Seq<u8>) -> bool {
    &&& form_value(body, FIELD_SSID.spec_bytes()).len() > 0
    &&& form_value(body, FIELD_PASSWORD.spec_bytes()).len() > 0
    &&& form_value(body, FIELD_DEVICE_ID.spec_bytes()).len() > 0
}

/// One provisioning session: awaiting a submission until one is stored,
/// completed from then on. The completed flag is the signal that the
/// waiting loop polls; it is set once and never cleared.
pub struct ProvisioningSession {
    completed: bool,
}

impl ProvisioningSession {
    pub closed spec fn completed(&self) -> bool {
        self.completed
    }

    /// A session awaiting its submission.
    pub fn new() -> (r: ProvisioningSession)
        ensures
            !r.completed(),
    {
        ProvisioningSession { completed: false }
    }

    /// Whether a submission has been stored.
    pub fn is_completed(&self) -> (r: bool)
        ensures
            r == self.completed(),
    {
        self.completed
    }

    /// Reads a form-encoded submission. A body that lacks the network name,
    /// the passphrase or the device identifier gets `BadRequest`; otherwise
    /// the record to store, with the decoded fields. The session is not
    /// touched either way.
    pub fn read_submission(&self, body: &str) -> (r: Result<Credentials, Reply>)
        ensures
            r is Ok <==> submission_accepted(body.spec_bytes()),
            r is Err ==> r == Err::<Credentials, Reply>(Reply::BadRequest),
            r matches Ok(c) ==> c.fields() == (
                form_value(body.spec_bytes(), FIELD_SSID.spec_bytes()),
                form_value(body.spec_bytes(), FIELD_PASSWORD.spec_bytes()),
                form_value(body.spec_bytes(), FIELD_API_KEY.spec_bytes()),
                form_value(body.spec_bytes(), FIELD_DEVICE_ID.spec_bytes()),
            ),
    {
        match validate_submission(parse_form(body)) {
            Ok(c) => Ok(c),
            Err(_) => Err(Reply::BadRequest),
        }
    }

    /// Takes in the outcome of storing an accepted submission: a stored one
    /// completes the session and gets the success page; a failed one leaves
    /// the session awaiting, so the operator may try again.
    pub fn finish_submission(&mut self, stored: bool) -> (r: Reply)
        ensures
            final(self).completed() == (old(self).completed() || stored),
            r == if stored {
                Reply::Success
            } else {
                Reply::ServerError
            },
    {
        if stored {
            self.completed = true;
            Reply::Success
        } else {
            Reply::ServerError
        }
    }

    /// The waiting loop's next move: restart once the session is completed.
    pub fn poll(&self) -> (r: WaitAction)
        ensures
            r == if self.completed() {
                WaitAction::Restart
            } else {
                WaitAction::Sleep
            },
    {
        if self.completed {
            WaitAction::Restart
        } else {
            WaitAction::Sleep
        }
    }
}

/// The branch that a boot takes.
#[derive(PartialEq, Eq, Structural, Debug, Clone, Copy)]
pub enum BootPath {
    /// No valid configuration: run the provisioning portal.
    Provision,
    /// Configured: load the credentials and join the network.
    Join,
}

/// Picks the boot branch from the provisioned status.
pub fn boot_path(provisioned: bool) -> (r: BootPath)
    ensures
        r == if provisioned {
            BootPath::Join
        } else {
            BootPath::Provision
        },
{
    if provisioned {
        BootPath::Join
    } else {
        BootPath::Provision
    }
}

} // verus!
