use vstd::prelude::*;

verus! {

/// Status of a credential, as the owning device last reported it.
#[derive(Clone, Copy, PartialEq, Eq, Structural, Debug)]
pub enum AuthKeyStatus {
    /// No check has resolved yet: the credential was just created or
    /// just loaded from the store. Also the sentinel that a check
    /// message outside the protocol vocabulary falls back to.
    Pending,
    /// The user accepted the credential on the device.
    Authorized,
    /// The user rejected the credential on the device, or it expired.
    Unauthorized,
    /// The device is still waiting on user input.
    Unknown,
}

/// Pairing material and observed status for one host.
#[derive(Clone)]
pub struct AuthKey {
    host: String,
    id: String,
    key: String,
    status: AuthKeyStatus,
}

/// Mathematical image of an [`AuthKey`].
pub struct AuthKeyView {
    pub host: Seq<char>,
    pub id: Seq<char>,
    pub key: Seq<char>,
    pub status: AuthKeyStatus,
}

impl View for AuthKey {
    type V = AuthKeyView;

    closed spec fn view(&self) -> AuthKeyView {
        AuthKeyView { host: self.host@, id: self.id@, key: self.key@, status: self.status }
    }
}

impl AuthKey {
    /// A freshly issued or freshly loaded credential; no check has run
    /// against it yet, so it starts out `Pending`.
    pub fn new(host: String, id: String, key: String) -> (k: AuthKey)
        ensures
            k@ == (AuthKeyView {
                host: host@,
                id: id@,
                key: key@,
                status: AuthKeyStatus::Pending,
            }),
    {
        AuthKey { host, id, key, status: AuthKeyStatus::Pending }
    }

    pub fn host(&self) -> (h: &String)
        ensures
            h@ == self@.host,
    {
        &self.host
    }

    pub fn id(&self) -> (i: &String)
        ensures
            i@ == self@.id,
    {
        &self.id
    }

    pub fn status(&self) -> (s: AuthKeyStatus)
        ensures
            s == self@.status,
    {
        self.status
    }

    /// Overwrite the status with the latest observed one; there is no
    /// transition logic beyond this replacement.
    pub fn set_status(&mut self, status: AuthKeyStatus)
        ensures
            final(self)@ == (AuthKeyView { status, ..old(self)@ }),
    {
        self.status = status;
    }
}

/// What a device's check message means. The three recognized replies
/// map to their statuses; anything else falls back to the sentinel
/// `Pending`, deliberately, rather than to an error.
pub open spec fn spec_status_of_message(m: Seq<char>) -> AuthKeyStatus {
    if m == "authorized"@ {
        AuthKeyStatus::Authorized
    } else if m == "unauthorized"@ {
        AuthKeyStatus::Unauthorized
    } else if m == "unknown"@ {
        AuthKeyStatus::Unknown
    } else {
        AuthKeyStatus::Pending
    }
}

/// Total mapping from a check message to a status.
pub fn status_from_message(message: &String) -> (s: AuthKeyStatus)
    ensures
        s == spec_status_of_message(message@),
{
    let authorized: String = "authorized".to_owned();
    let unauthorized: String = "unauthorized".to_owned();
    let unknown: String = "unknown".to_owned();
    if *message == authorized {
        AuthKeyStatus::Authorized
    } else if *message == unauthorized {
        AuthKeyStatus::Unauthorized
    } else if *message == unknown {
        AuthKeyStatus::Unknown
    } else {
        AuthKeyStatus::Pending
    }
}

/// Law: the check-message mapping is total and deterministic. Every
/// message maps to exactly one of the four statuses, each recognized
/// reply to its own status, and every unrecognized message to the
/// fallback.
pub proof fn lemma_status_mapping_total(m: Seq<char>)
    ensures
        spec_status_of_message(m) is Authorized || spec_status_of_message(m) is Unauthorized
            || spec_status_of_message(m) is Unknown || spec_status_of_message(m) is Pending,
        spec_status_of_message(m) is Authorized <==> m == "authorized"@,
        spec_status_of_message(m) is Unauthorized <==> m == "unauthorized"@,
        spec_status_of_message(m) is Unknown <==> m == "unknown"@,
        m != "authorized"@ && m != "unauthorized"@ && m != "unknown"@
            ==> spec_status_of_message(m) is Pending,
{
    reveal_strlit("authorized");
    reveal_strlit("unauthorized");
    reveal_strlit("unknown");
    assert("authorized"@.len() == 10);
    assert("unauthorized"@.len() == 12);
    assert("unknown"@.len() == 7);
}

} // verus!
