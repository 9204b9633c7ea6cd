use vstd::prelude::*;
use vstd::utf8::encode_utf8;
use crate::protocol::constants::{AUTH, CNXN};
use crate::protocol::message::{AdbMessage, MessageModel, built};
use crate::text::{string_bytes, to_owned_string, push_str, push_dec_str, dec_chars};
use crate::clock::{instant_now, elapsed_exceeds_ms, unix_time_secs};

verus! {

/// Simplified authentication: when enabled it can auto-accept every
/// attempt, or check only the shape of the credentials.
pub struct AuthHandler {
    pub auth_enabled: bool,
    pub auto_accept: bool,
    /// How long a challenge stays valid, in milliseconds.
    pub challenge_timeout_ms: u64,
}

/// ADB authentication types.
#[derive(Debug, Clone, Copy, PartialEq, Eq, Structural)]
pub enum AuthType {
    Token,
    Signature,
    RsaPublicKey,
}

/// Why an authentication step was refused.
#[derive(Debug, Clone, PartialEq)]
pub enum AuthError {
    /// The message is not an AUTH message; carries its command.
    UnexpectedCommand(u32),
    /// The AUTH type field is not 1, 2 or 3; carries it.
    InvalidAuthType(u32),
    /// The challenge is older than the timeout.
    Timeout,
    /// The credentials were refused; carries the reason.
    Failed(String),
    /// Authentication is not required on this connection.
    NotRequired,
    /// Authentication already completed.
    AlreadyAuthenticated,
}

/// Result of authentication processing.
#[derive(Debug, Clone)]
pub enum AuthResult {
    Success { method: AuthType, message: String },
    Failed { reason: String },
    RequiresChallenge { challenge_message: AdbMessage },
}

/// Authentication state of a connection.
#[derive(Debug, Clone, PartialEq)]
pub enum AuthState {
    /// No authentication required.
    NotRequired,
    /// Waiting for initial auth response.
    WaitingForResponse,
    /// Authentication completed successfully.
    Authenticated { method: AuthType },
    /// Authentication failed.
    Failed { reason: String },
}

pub enum AuthErrorSpec {
    UnexpectedCommand(u32),
    InvalidAuthType(u32),
    Timeout,
    Failed(Seq<char>),
    NotRequired,
    AlreadyAuthenticated,
}

pub enum AuthResultSpec {
    Success { method: AuthType, message: Seq<char> },
    Failed { reason: Seq<char> },
    RequiresChallenge { challenge_message: MessageModel },
}

pub enum AuthStateSpec {
    NotRequired,
    WaitingForResponse,
    Authenticated { method: AuthType },
    Failed { reason: Seq<char> },
}

impl View for AuthError {
    type V = AuthErrorSpec;

    open spec fn view(&self) -> AuthErrorSpec {
        match self {
            AuthError::UnexpectedCommand(c) => AuthErrorSpec::UnexpectedCommand(*c),
            AuthError::InvalidAuthType(t) => AuthErrorSpec::InvalidAuthType(*t),
            AuthError::Timeout => AuthErrorSpec::Timeout,
            AuthError::Failed(s) => AuthErrorSpec::Failed(s@),
            AuthError::NotRequired => AuthErrorSpec::NotRequired,
            AuthError::AlreadyAuthenticated => AuthErrorSpec::AlreadyAuthenticated,
        }
    }
}

impl View for AuthResult {
    type V = AuthResultSpec;

    open spec fn view(&self) -> AuthResultSpec {
        match self {
            AuthResult::Success { method, message } => AuthResultSpec::Success {
                method: *method,
                message: message@,
            },
            AuthResult::Failed { reason } => AuthResultSpec::Failed { reason: reason@ },
            AuthResult::RequiresChallenge { challenge_message } => AuthResultSpec::RequiresChallenge {
                challenge_message: challenge_message@,
            },
        }
    }
}

impl View for AuthState {
    type V = AuthStateSpec;

    open spec fn view(&self) -> AuthStateSpec {
        match self {
            AuthState::NotRequired => AuthStateSpec::NotRequired,
            AuthState::WaitingForResponse => AuthStateSpec::WaitingForResponse,
            AuthState::Authenticated { method } => AuthStateSpec::Authenticated { method: *method },
            AuthState::Failed { reason } => AuthStateSpec::Failed { reason: reason@ },
        }
    }
}

impl AuthType {
    /// The wire value of the type.
    pub open spec fn spec_code(self) -> u32 {
        match self {
            AuthType::Token => 1,
            AuthType::Signature => 2,
            AuthType::RsaPublicKey => 3,
        }
    }

    /// The type with the given wire value, if there is one.
    pub open spec fn spec_from_code(value: u32) -> Option<AuthType> {
        if value == 1 {
            Some(AuthType::Token)
        } else if value == 2 {
            Some(AuthType::Signature)
        } else if value == 3 {
            Some(AuthType::RsaPublicKey)
        } else {
            None
        }
    }

    /// The wire value of the type (1, 2 or 3).
    pub fn as_u32(&self) -> (r: u32)
        ensures
            r == self.spec_code(),
    {
        match self {
            AuthType::Token => 1,
            AuthType::Signature => 2,
            AuthType::RsaPublicKey => 3,
        }
    }
}

impl TryFrom<u32> for AuthType {
    type Error = AuthError;

    fn try_from(value: u32) -> (r: Result<Self, Self::Error>) {
        if value == 1 {
            Ok(AuthType::Token)
        } else if value == 2 {
            Ok(AuthType::Signature)
        } else if value == 3 {
            Ok(AuthType::RsaPublicKey)
        } else {
            Err(AuthError::InvalidAuthType(value))
        }
    }
}

impl vstd::std_specs::convert::TryFromSpecImpl<u32> for AuthType {
    open spec fn obeys_try_from_spec() -> bool {
        true
    }

    open spec fn try_from_spec(value: u32) -> Result<Self, AuthError> {
        if value == 1 {
            Ok(AuthType::Token)
        } else if value == 2 {
            Ok(AuthType::Signature)
        } else if value == 3 {
            Ok(AuthType::RsaPublicKey)
        } else {
            Err(AuthError::InvalidAuthType(value))
        }
    }
}

/// The success message of the simplified validation of type `t`.
pub open spec fn accepted_message(t: AuthType) -> Seq<char> {
    match t {
        AuthType::Token => "Token accepted (simplified validation)"@,
        AuthType::Signature => "Signature accepted (simplified validation)"@,
        AuthType::RsaPublicKey => "RSA key accepted (simplified validation)"@,
    }
}

/// The bytes of the challenge a timestamp gives.
pub open spec fn challenge_text(prefix: Seq<char>, secs: u64) -> Seq<char> {
    prefix + dec_chars(secs as nat)
}

impl AuthHandler {
    /// What processing an AUTH response gives.
    pub open spec fn spec_process(&self, m: MessageModel) -> Result<AuthResultSpec, AuthErrorSpec> {
        if m.command != AUTH {
            Err(AuthErrorSpec::UnexpectedCommand(m.command))
        } else {
            match AuthType::spec_from_code(m.arg0) {
                None => Err(AuthErrorSpec::InvalidAuthType(m.arg0)),
                Some(t) => if !self.auth_enabled {
                    Ok(AuthResultSpec::Success { method: t, message: "Authentication disabled"@ })
                } else if self.auto_accept {
                    Ok(
                        AuthResultSpec::Success {
                            method: t,
                            message: "Auto-accepted in simplified mode"@,
                        },
                    )
                } else {
                    Ok(AuthResultSpec::Success { method: t, message: accepted_message(t) })
                },
            }
        }
    }

    /// Authentication disabled; when enabled it would auto-accept; 30 s
    /// challenge timeout.
    pub fn new() -> (h: Self)
        ensures
            !h.auth_enabled,
            h.auto_accept,
            h.challenge_timeout_ms == 30000,
    {
        AuthHandler { auth_enabled: false, auto_accept: true, challenge_timeout_ms: 30000 }
    }

    /// Handler with the given settings.
    pub fn with_config(auth_enabled: bool, auto_accept: bool, timeout_ms: u64) -> (h: Self)
        ensures
            h.auth_enabled == auth_enabled,
            h.auto_accept == auto_accept,
            h.challenge_timeout_ms == timeout_ms,
    {
        AuthHandler { auth_enabled, auto_accept, challenge_timeout_ms: timeout_ms }
    }

    /// The AUTH challenge: a fixed "no_auth_required" token when
    /// authentication is disabled, otherwise a token built from the current
    /// wall-clock seconds.
    pub fn create_auth_challenge(&self) -> (m: AdbMessage)
        ensures
            !self.auth_enabled ==> m@ == built(AUTH, 1, 0, encode_utf8("no_auth_required"@)),
            self.auth_enabled ==> exists|secs: u64|
                m@ == built(
                    AUTH,
                    1,
                    0,
                    encode_utf8(#[trigger] challenge_text("simplified_challenge_"@, secs)),
                ),
    {
        if !self.auth_enabled {
            return AdbMessage::new(AUTH, 1, 0, string_bytes("no_auth_required"));
        }
        let secs = unix_time_secs();
        let mut challenge_data = to_owned_string("simplified_challenge_");
        push_dec_str(&mut challenge_data, secs);
        let m = AdbMessage::new(AUTH, 1, 0, string_bytes(challenge_data.as_str()));
        assert(m@ == built(AUTH, 1, 0, encode_utf8(challenge_text("simplified_challenge_"@, secs))));
        m
    }

    /// Judges an AUTH response. The handler is a simplified one and accepts
    /// every AUTH message of a known type, whatever it carries; the message
    /// of the success tells why (authentication disabled, auto-accept mode,
    /// or the type's simplified validation). Only another command or an
    /// unknown type is an error.
    pub fn process_auth_response(&self, message: &AdbMessage) -> (r: Result<AuthResult, AuthError>)
        ensures
            match (r, self.spec_process(message@)) {
                (Ok(a), Ok(b)) => a@ == b,
                (Err(a), Err(b)) => a@ == b,
                _ => false,
            },
    {
        if message.command != AUTH {
            return Err(AuthError::UnexpectedCommand(message.command));
        }
        let auth_type = match AuthType::try_from(message.arg0) {
            Ok(t) => t,
            Err(e) => return Err(e),
        };
        if !self.auth_enabled {
            return Ok(
                AuthResult::Success {
                    method: auth_type,
                    message: to_owned_string("Authentication disabled"),
                },
            );
        }
        if self.auto_accept {
            return Ok(
                AuthResult::Success {
                    method: auth_type,
                    message: to_owned_string("Auto-accepted in simplified mode"),
                },
            );
        }
        let text = match auth_type {
            AuthType::Token => to_owned_string("Token accepted (simplified validation)"),
            AuthType::Signature => to_owned_string("Signature accepted (simplified validation)"),
            AuthType::RsaPublicKey => to_owned_string("RSA key accepted (simplified validation)"),
        };
        Ok(AuthResult::Success { method: auth_type, message: text })
    }

    /// Whether authentication is required.
    pub fn is_auth_required(&self) -> (r: bool)
        ensures
            r == self.auth_enabled,
    {
        self.auth_enabled
    }

    /// The challenge timeout, in milliseconds.
    pub fn challenge_timeout(&self) -> (r: u64)
        ensures
            r == self.challenge_timeout_ms,
    {
        self.challenge_timeout_ms
    }

    /// The CNXN sent once authentication has succeeded.
    pub fn create_connection_response(&self, system_identity: &str) -> (m: AdbMessage)
        ensures
            m@ == built(CNXN, 0x01000000, 262144, encode_utf8(system_identity@)),
    {
        AdbMessage::new(CNXN, 0x01000000, 256 * 1024, string_bytes(system_identity))
    }
}

impl Default for AuthHandler {
    fn default() -> (h: Self)
        ensures
            !h.auth_enabled,
            h.auto_accept,
            h.challenge_timeout_ms == 30000,
    {
        Self::new()
    }
}

/// Authentication of one connection.
pub struct AuthManager {
    handler: AuthHandler,
    state: AuthState,
    challenge_sent_at: Option<std::time::Instant>,
}

/// What one response step does: the next state and the answer.
pub open spec fn spec_auth_step(
    h: &AuthHandler,
    state: AuthStateSpec,
    m: MessageModel,
    timed_out: bool,
) -> (AuthStateSpec, Result<Option<MessageModel>, AuthErrorSpec>) {
    if timed_out {
        (AuthStateSpec::Failed { reason: "Authentication timeout"@ }, Err(AuthErrorSpec::Timeout))
    } else {
        match state {
            AuthStateSpec::WaitingForResponse => match h.spec_process(m) {
                Err(e) => (state, Err(e)),
                Ok(AuthResultSpec::Success { method, .. }) => (
                    AuthStateSpec::Authenticated { method },
                    Ok(Some(built(CNXN, 0x01000000, 262144, encode_utf8("adb_server"@)))),
                ),
                Ok(AuthResultSpec::Failed { reason }) => (
                    AuthStateSpec::Failed { reason },
                    Err(AuthErrorSpec::Failed(reason)),
                ),
                Ok(AuthResultSpec::RequiresChallenge { challenge_message }) => (
                    state,
                    Ok(Some(challenge_message)),
                ),
            },
            AuthStateSpec::NotRequired => (state, Err(AuthErrorSpec::NotRequired)),
            AuthStateSpec::Authenticated { .. } => (state, Err(AuthErrorSpec::AlreadyAuthenticated)),
            AuthStateSpec::Failed { reason } => (state, Err(AuthErrorSpec::Failed(reason))),
        }
    }
}

impl AuthManager {
    pub closed spec fn spec_state(&self) -> AuthStateSpec {
        self.state@
    }

    pub closed spec fn spec_handler(&self) -> &AuthHandler {
        &self.handler
    }

    /// Whether a challenge has been sent and is being timed.
    pub closed spec fn timing(&self) -> bool {
        self.challenge_sent_at is Some
    }

    /// Starts in WaitingForResponse when the handler requires
    /// authentication, NotRequired otherwise.
    pub fn new(handler: AuthHandler) -> (m: Self)
        ensures
            m.spec_handler() == &handler,
            handler.auth_enabled ==> m.spec_state() == AuthStateSpec::WaitingForResponse,
            !handler.auth_enabled ==> m.spec_state() == AuthStateSpec::NotRequired,
            !m.timing(),
    {
        let initial_state = if handler.is_auth_required() {
            AuthState::WaitingForResponse
        } else {
            AuthState::NotRequired
        };
        AuthManager { handler, state: initial_state, challenge_sent_at: None }
    }

    /// Sends the challenge (and starts its clock) when authentication is
    /// required; otherwise records that none is needed and sends nothing.
    pub fn start_auth(&mut self) -> (r: Option<AdbMessage>)
        ensures
            final(self).spec_handler() == old(self).spec_handler(),
            !old(self).spec_handler().auth_enabled ==> {
                &&& r is None
                &&& final(self).spec_state() == AuthStateSpec::NotRequired
                &&& final(self).timing() == old(self).timing()
            },
            old(self).spec_handler().auth_enabled ==> {
                &&& final(self).spec_state() == AuthStateSpec::WaitingForResponse
                &&& final(self).timing()
                &&& r matches Some(m) && exists|secs: u64|
                    m@ == built(
                        AUTH,
                        1,
                        0,
                        encode_utf8(#[trigger] challenge_text("simplified_challenge_"@, secs)),
                    )
            },
    {
        if !self.handler.is_auth_required() {
            self.state = AuthState::NotRequired;
            return None;
        }
        self.state = AuthState::WaitingForResponse;
        self.challenge_sent_at = Some(instant_now());
        Some(self.handler.create_auth_challenge())
    }

    /// Processes an AUTH response: whether the challenge timed out is read
    /// from the clock, the rest is `process_response_at`.
    pub fn process_response(&mut self, message: &AdbMessage) -> (r: Result<Option<AdbMessage>, AuthError>)
        ensures
            final(self).spec_handler() == old(self).spec_handler(),
            final(self).timing() == old(self).timing(),
            exists|timed_out: bool|
                {
                    &&& (timed_out ==> old(self).timing())
                    &&& #[trigger] spec_auth_step(old(self).spec_handler(), old(self).spec_state(), message@, timed_out).0
                        == final(self).spec_state()
                    &&& match (r, spec_auth_step(old(self).spec_handler(), old(self).spec_state(), message@, timed_out).1) {
                        (Ok(Some(a)), Ok(Some(b))) => a@ == b,
                        (Ok(None), Ok(None)) => true,
                        (Err(a), Err(b)) => a@ == b,
                        _ => false,
                    }
                },
    {
        let timed_out = match &self.challenge_sent_at {
            Some(sent_at) => elapsed_exceeds_ms(sent_at, self.handler.challenge_timeout_ms),
            None => false,
        };
        self.process_response_at(message, timed_out)
    }

    /// One response step, given whether the challenge timed out: a timeout
    /// fails authentication; while waiting, an accepted response
    /// authenticates and is answered with the server's CNXN, a refused one
    /// fails; in any other state the message is refused and nothing changes.
    pub fn process_response_at(&mut self, message: &AdbMessage, timed_out: bool) -> (r: Result<
        Option<AdbMessage>,
        AuthError,
    >)
        ensures
            final(self).spec_handler() == old(self).spec_handler(),
            final(self).timing() == old(self).timing(),
            final(self).spec_state() == spec_auth_step(old(self).spec_handler(), old(self).spec_state(), message@, timed_out).0,
            match (r, spec_auth_step(old(self).spec_handler(), old(self).spec_state(), message@, timed_out).1) {
                (Ok(Some(a)), Ok(Some(b))) => a@ == b,
                (Ok(None), Ok(None)) => true,
                (Err(a), Err(b)) => a@ == b,
                _ => false,
            },
    {
        if timed_out {
            self.state = AuthState::Failed { reason: to_owned_string("Authentication timeout") };
            return Err(AuthError::Timeout);
        }
        match &self.state {
            AuthState::WaitingForResponse => {
                match self.handler.process_auth_response(message) {
                    Err(e) => Err(e),
                    Ok(AuthResult::Success { method, .. }) => {
                        self.state = AuthState::Authenticated { method };
                        Ok(Some(self.handler.create_connection_response("adb_server")))
                    },
                    Ok(AuthResult::Failed { reason }) => {
                        let r2 = reason.clone();
                        self.state = AuthState::Failed { reason };
                        Err(AuthError::Failed(r2))
                    },
                    Ok(AuthResult::RequiresChallenge { challenge_message }) => {
                        Ok(Some(challenge_message))
                    },
                }
            },
            AuthState::NotRequired => Err(AuthError::NotRequired),
            AuthState::Authenticated { .. } => Err(AuthError::AlreadyAuthenticated),
            AuthState::Failed { reason } => Err(AuthError::Failed(reason.clone())),
        }
    }

    /// Current authentication state.
    pub fn state(&self) -> (r: &AuthState)
        ensures
            r@ == self.spec_state(),
    {
        &self.state
    }

    /// Whether the connection may proceed: authenticated, or no
    /// authentication needed.
    pub fn is_authenticated(&self) -> (r: bool)
        ensures
            r == (self.spec_state() is Authenticated || self.spec_state() is NotRequired),
    {
        match self.state {
            AuthState::Authenticated { .. } => true,
            AuthState::NotRequired => true,
            _ => false,
        }
    }

    /// Whether authentication failed.
    pub fn is_failed(&self) -> (r: bool)
        ensures
            r == (self.spec_state() is Failed),
    {
        match self.state {
            AuthState::Failed { .. } => true,
            _ => false,
        }
    }
}

/// AUTH token message that bypasses authentication.
pub fn create_bypass_auth() -> (m: AdbMessage)
    ensures
        m@ == built(AUTH, 1, 0, encode_utf8("bypass"@)),
{
    AdbMessage::new(AUTH, 1, 0, string_bytes("bypass"))
}

/// Whether `data` has the length of a token: 4 to 256 bytes.
pub fn is_valid_token_format(data: &[u8]) -> (r: bool)
    ensures
        r == (4 <= data@.len() <= 256),
{
    data.len() >= 4 && data.len() <= 256
}

/// Whether `data` has the length of a signature: 32 to 512 bytes.
pub fn is_valid_signature_format(data: &[u8]) -> (r: bool)
    ensures
        r == (32 <= data@.len() <= 512),
{
    data.len() >= 32 && data.len() <= 512
}

/// A challenge for tests, built from the current wall-clock seconds.
pub fn generate_test_challenge() -> (r: Vec<u8>)
    ensures
        exists|secs: u64| r@ == encode_utf8(#[trigger] challenge_text("test_challenge_"@, secs)),
{
    let secs = unix_time_secs();
    let mut s = to_owned_string("test_challenge_");
    push_dec_str(&mut s, secs);
    let r = string_bytes(s.as_str());
    assert(r@ == encode_utf8(challenge_text("test_challenge_"@, secs)));
    r
}

} // verus!
