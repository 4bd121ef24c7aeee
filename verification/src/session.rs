//! Passkey session bookkeeping: the data carried between the start and
//! finish halves of a registration or verification ceremony, and the checks
//! a finish handler runs before it trusts a stored session.
//!
//! The ceremony library, the HTTP layer, and the credential store are
//! external collaborators; what is verified here is the session model and
//! the decision logic over it: expiry, identity binding, and ceremony-kind
//! binding.

use vstd::prelude::*;

verus! {

/// Request to start passkey registration for a user.
#[derive(Clone, Debug, PartialEq, Eq)]
pub struct StartRegistrationRequest {
    pub discord_id: String,
    pub discord_username: String,
}

/// Response after successful registration.
#[derive(Clone, Debug, PartialEq, Eq)]
pub struct FinishRegistrationResponse {
    pub success: bool,
    pub credential_id: String,
    pub message: String,
}

/// Request to start wallet signature verification.
#[derive(Clone, Debug, PartialEq, Eq)]
pub struct StartVerificationRequest {
    pub discord_id: String,
    pub wallet_address: Option<String>,
    pub currency: Option<String>,
}

/// Response after successful verification.
#[derive(Clone, Debug, PartialEq, Eq)]
pub struct FinishVerificationResponse {
    pub success: bool,
    pub verified: bool,
    pub wallet_address: Option<String>,
    pub signature: Option<String>,
    pub message: String,
}

/// Health check response.
#[derive(Clone, Debug, PartialEq, Eq)]
pub struct HealthResponse {
    pub status: String,
    pub version: String,
    pub service: String,
}

/// Stored passkey credential information.
#[derive(Clone, Debug, PartialEq, Eq)]
pub struct PasskeyCredential {
    pub discord_id: String,
    pub discord_username: String,
    pub credential_id: String,
    pub public_key: Vec<u8>,
    pub counter: u32,
    pub wallet_address: Option<String>,
    pub created_at: String,
    pub updated_at: String,
}

/// An active registration or verification session.
#[derive(Clone, Debug, PartialEq, Eq)]
pub struct PasskeySession {
    pub session_id: String,
    pub discord_id: String,
    pub challenge: Vec<u8>,
    pub session_type: SessionType,
    pub created_at: i64,
    pub expires_at: i64,
    pub message_to_sign: Option<String>,
}

/// Which kind of ceremony a session belongs to.
#[derive(Clone, Copy, Debug, PartialEq, Eq, Structural)]
pub enum SessionType {
    Registration,
    Verification,
}

/// The label a session kind is persisted under.
pub open spec fn session_type_label(t: SessionType) -> Seq<char> {
    match t {
        SessionType::Registration => "registration"@,
        SessionType::Verification => "verification"@,
    }
}

/// The session kind a persisted label denotes, if any.
pub open spec fn session_type_of_label(s: Seq<char>) -> Option<SessionType> {
    if s == "registration"@ {
        Some(SessionType::Registration)
    } else if s == "verification"@ {
        Some(SessionType::Verification)
    } else {
        None
    }
}

impl SessionType {
    /// The label this kind is persisted under.
    pub fn as_str(&self) -> (r: &str)
        ensures
            r@ == session_type_label(*self),
    {
        match self {
            SessionType::Registration => "registration",
            SessionType::Verification => "verification",
        }
    }

    /// Reads a persisted label back; unknown labels denote no kind.
    pub fn from_str(s: &str) -> (r: Option<SessionType>)
        ensures
            r == session_type_of_label(s@),
    {
        let owned: String = s.to_owned();
        if owned == String::from_str("registration") {
            Some(SessionType::Registration)
        } else if owned == String::from_str("verification") {
            Some(SessionType::Verification)
        } else {
            None
        }
    }
}

/// Persisting a session kind and reading it back yields the same kind.
pub proof fn lemma_session_type_label_round_trip(t: SessionType)
    ensures
        session_type_of_label(session_type_label(t)) == Some(t),
{
    reveal_strlit("registration");
    reveal_strlit("verification");
    assert(session_type_label(SessionType::Registration)[0] == 'r');
    assert(session_type_label(SessionType::Verification)[0] == 'v');
}

/// Why a stored session cannot be used, or that it can.
#[derive(Clone, Copy, Debug, PartialEq, Eq, Structural)]
pub enum SessionCheck {
    /// The session may be used.
    Usable,
    /// The session has expired.
    Expired,
    /// The session belongs to a different user.
    IdMismatch,
    /// The session belongs to the other kind of ceremony.
    TypeMismatch,
}

impl PasskeySession {
    /// Whether this session has expired at time `now`.
    pub fn is_expired(&self, now: i64) -> (r: bool)
        ensures
            r == (self.expires_at < now),
    {
        self.expires_at < now
    }

    /// The checks a finish handler runs before trusting a stored session:
    /// it must be unexpired, belong to the caller, and belong to the
    /// expected kind of ceremony, in that order of precedence.
    pub fn check(&self, discord_id: &String, expected: SessionType, now: i64) -> (r: SessionCheck)
        ensures
            r == SessionCheck::Usable <==> (self.expires_at >= now && self.discord_id@
                == discord_id@ && self.session_type == expected),
            self.expires_at < now ==> r == SessionCheck::Expired,
            self.expires_at >= now && self.discord_id@ != discord_id@ ==> r
                == SessionCheck::IdMismatch,
            self.expires_at >= now && self.discord_id@ == discord_id@ && self.session_type
                != expected ==> r == SessionCheck::TypeMismatch,
    {
        if self.is_expired(now) {
            SessionCheck::Expired
        } else if !(self.discord_id == *discord_id) {
            SessionCheck::IdMismatch
        } else if !session_type_eq(self.session_type, expected) {
            SessionCheck::TypeMismatch
        } else {
            SessionCheck::Usable
        }
    }
}

/// Session-kind equality.
fn session_type_eq(a: SessionType, b: SessionType) -> (r: bool)
    ensures
        r == (a == b),
{
    match (a, b) {
        (SessionType::Registration, SessionType::Registration) => true,
        (SessionType::Verification, SessionType::Verification) => true,
        _ => false,
    }
}

} // verus!
