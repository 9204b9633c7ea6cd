use vstd::prelude::*;
use vstd::utf8::encode_utf8;
use crate::protocol::constants::{CNXN, AUTH};
use crate::protocol::message::{AdbMessage, MessageModel, built};
use crate::text::{lossy_text, utf8_lossy, string_bytes, hex_chars, push_hex_str, to_owned_string, push_str};
use crate::clock::{instant_now, elapsed_exceeds_ms};

verus! {

/// Connection-establishment parameters of one side of the protocol.
pub struct HandshakeHandler {
    pub version: u32,
    pub max_data_size: u32,
    pub system_identity: String,
    pub auth_required: bool,
    /// How long a handshake may take, in milliseconds.
    pub handshake_timeout_ms: u64,
}

/// Result of processing a CNXN message.
#[derive(Debug, Clone)]
pub enum HandshakeResponse {
    /// Authentication required before connection.
    AuthRequired {
        auth_message: AdbMessage,
        negotiated_version: u32,
        negotiated_max_data: u32,
        client_identity: String,
    },
    /// Connection established (auth skipped or completed).
    Connected {
        response_message: AdbMessage,
        negotiated_version: u32,
        negotiated_max_data: u32,
        client_identity: String,
    },
}

/// Final result of the handshake.
#[derive(Debug, Clone, Copy, PartialEq, Eq, Structural)]
pub struct HandshakeResult {
    pub negotiated_version: u32,
    pub max_data_size: u32,
    pub auth_completed: bool,
    pub connection_established: bool,
}

/// Progress of a handshake.
#[derive(Debug, Clone, PartialEq)]
pub enum HandshakeState {
    /// Waiting for initial CNXN message.
    WaitingForConnect,
    /// Waiting for AUTH response.
    WaitingForAuth { negotiated_version: u32, negotiated_max_data: u32, client_identity: String },
    /// Handshake completed successfully.
    Connected { negotiated_version: u32, negotiated_max_data: u32, client_identity: String },
    /// Handshake failed.
    Failed(String),
}

/// Why a handshake step was refused.
#[derive(Debug, Clone, PartialEq)]
pub enum HandshakeError {
    /// A message with another command than the one the step expects.
    UnexpectedCommand { expected: u32, got: u32 },
    /// Client and server major versions differ.
    VersionMismatch { client_major: u32, server_major: u32 },
    /// The handshake took longer than its timeout (milliseconds).
    Timeout { timeout_ms: u64 },
    /// A message arrived after the handshake completed.
    AlreadyCompleted,
    /// A message arrived after the handshake failed; carries the reason.
    Failed(String),
}

pub enum HandshakeResponseSpec {
    AuthRequired {
        auth_message: MessageModel,
        negotiated_version: u32,
        negotiated_max_data: u32,
        client_identity: Seq<char>,
    },
    Connected {
        response_message: MessageModel,
        negotiated_version: u32,
        negotiated_max_data: u32,
        client_identity: Seq<char>,
    },
}

pub enum HandshakeStateSpec {
    WaitingForConnect,
    WaitingForAuth { negotiated_version: u32, negotiated_max_data: u32, client_identity: Seq<char> },
    Connected { negotiated_version: u32, negotiated_max_data: u32, client_identity: Seq<char> },
    Failed(Seq<char>),
}

pub enum HandshakeErrorSpec {
    UnexpectedCommand { expected: u32, got: u32 },
    VersionMismatch { client_major: u32, server_major: u32 },
    Timeout { timeout_ms: u64 },
    AlreadyCompleted,
    Failed(Seq<char>),
}

impl View for HandshakeResponse {
    type V = HandshakeResponseSpec;

    open spec fn view(&self) -> HandshakeResponseSpec {
        match self {
            HandshakeResponse::AuthRequired {
                auth_message,
                negotiated_version,
                negotiated_max_data,
                client_identity,
            } => HandshakeResponseSpec::AuthRequired {
                auth_message: auth_message@,
                negotiated_version: *negotiated_version,
                negotiated_max_data: *negotiated_max_data,
                client_identity: client_identity@,
            },
            HandshakeResponse::Connected {
                response_message,
                negotiated_version,
                negotiated_max_data,
                client_identity,
            } => HandshakeResponseSpec::Connected {
                response_message: response_message@,
                negotiated_version: *negotiated_version,
                negotiated_max_data: *negotiated_max_data,
                client_identity: client_identity@,
            },
        }
    }
}

impl View for HandshakeState {
    type V = HandshakeStateSpec;

    open spec fn view(&self) -> HandshakeStateSpec {
        match self {
            HandshakeState::WaitingForConnect => HandshakeStateSpec::WaitingForConnect,
            HandshakeState::WaitingForAuth {
                negotiated_version,
                negotiated_max_data,
                client_identity,
            } => HandshakeStateSpec::WaitingForAuth {
                negotiated_version: *negotiated_version,
                negotiated_max_data: *negotiated_max_data,
                client_identity: client_identity@,
            },
            HandshakeState::Connected {
                negotiated_version,
                negotiated_max_data,
                client_identity,
            } => HandshakeStateSpec::Connected {
                negotiated_version: *negotiated_version,
                negotiated_max_data: *negotiated_max_data,
                client_identity: client_identity@,
            },
            HandshakeState::Failed(s) => HandshakeStateSpec::Failed(s@),
        }
    }
}

impl View for HandshakeError {
    type V = HandshakeErrorSpec;

    open spec fn view(&self) -> HandshakeErrorSpec {
        match self {
            HandshakeError::UnexpectedCommand { expected, got } => HandshakeErrorSpec::UnexpectedCommand {
                expected: *expected,
                got: *got,
            },
            HandshakeError::VersionMismatch { client_major, server_major } =>
                HandshakeErrorSpec::VersionMismatch {
                client_major: *client_major,
                server_major: *server_major,
            },
            HandshakeError::Timeout { timeout_ms } => HandshakeErrorSpec::Timeout {
                timeout_ms: *timeout_ms,
            },
            HandshakeError::AlreadyCompleted => HandshakeErrorSpec::AlreadyCompleted,
            HandshakeError::Failed(s) => HandshakeErrorSpec::Failed(s@),
        }
    }
}

pub open spec fn min_u32(a: u32, b: u32) -> u32 {
    if a <= b {
        a
    } else {
        b
    }
}

/// The reason recorded when a step expected `name` and got `got`.
pub open spec fn expected_text(name: Seq<char>, got: u32) -> Seq<char> {
    "Expected "@ + name + ", got 0x"@ + hex_chars(got as nat, 8)
}

impl HandshakeHandler {
    /// The identity announced in CNXN messages, as bytes.
    pub open spec fn identity_bytes(&self) -> Seq<u8> {
        encode_utf8(self.system_identity@)
    }

    /// What processing a CNXN message gives.
    pub open spec fn spec_connect(&self, m: MessageModel) -> Result<HandshakeResponseSpec, HandshakeErrorSpec> {
        if m.command != CNXN {
            Err(HandshakeErrorSpec::UnexpectedCommand { expected: CNXN, got: m.command })
        } else {
            let negotiated = min_u32(self.max_data_size, m.arg1);
            if self.auth_required {
                Ok(
                    HandshakeResponseSpec::AuthRequired {
                        auth_message: built(AUTH, 1, 0, encode_utf8("auth_required"@)),
                        negotiated_version: self.version,
                        negotiated_max_data: negotiated,
                        client_identity: lossy_text(m.data),
                    },
                )
            } else {
                Ok(
                    HandshakeResponseSpec::Connected {
                        response_message: built(CNXN, self.version, negotiated, self.identity_bytes()),
                        negotiated_version: self.version,
                        negotiated_max_data: negotiated,
                        client_identity: lossy_text(m.data),
                    },
                )
            }
        }
    }

    /// A CNXN is always answered, and the payload limit agreed on is the
    /// smaller of the two sides' limits: at most this side's
    /// `max_data_size`, at most the limit the peer announced (arg1 of its
    /// CNXN), and one of the two. The answering CNXN announces that limit.
    pub proof fn lemma_negotiated_limit(&self, m: MessageModel)
        requires
            m.command == CNXN,
        ensures
            self.spec_connect(m) is Ok,
            match self.spec_connect(m) {
                Ok(HandshakeResponseSpec::Connected { response_message, negotiated_max_data: n, .. }) => {
                    &&& n <= self.max_data_size && n <= m.arg1
                    &&& (n == self.max_data_size || n == m.arg1)
                    &&& response_message.command == CNXN
                    &&& response_message.arg1 == n
                },
                Ok(HandshakeResponseSpec::AuthRequired { negotiated_max_data: n, .. }) => {
                    &&& n <= self.max_data_size && n <= m.arg1
                    &&& (n == self.max_data_size || n == m.arg1)
                },
                Err(_) => false,
            },
    {
    }

    /// Handler with the default parameters: version 1.0, 256 KiB payloads,
    /// no authentication and a ten-second timeout.
    pub fn new(system_identity: String) -> (h: Self)
        ensures
            h.version == 0x01000000,
            h.max_data_size == 262144,
            h.system_identity@ == system_identity@,
            !h.auth_required,
            h.handshake_timeout_ms == 10000,
    {
        HandshakeHandler {
            version: 0x01000000,
            max_data_size: 256 * 1024,
            system_identity,
            auth_required: false,
            handshake_timeout_ms: 10000,
        }
    }

    /// Handler with the given parameters.
    pub fn with_config(
        system_identity: String,
        version: u32,
        max_data_size: u32,
        auth_required: bool,
        timeout_ms: u64,
    ) -> (h: Self)
        ensures
            h.version == version,
            h.max_data_size == max_data_size,
            h.system_identity@ == system_identity@,
            h.auth_required == auth_required,
            h.handshake_timeout_ms == timeout_ms,
    {
        HandshakeHandler {
            version,
            max_data_size,
            system_identity,
            auth_required,
            handshake_timeout_ms: timeout_ms,
        }
    }

    /// The CNXN message that opens a handshake from this side.
    pub fn create_connect_message(&self) -> (m: AdbMessage)
        ensures
            m@ == built(CNXN, self.version, self.max_data_size, self.identity_bytes()),
    {
        AdbMessage::new(CNXN, self.version, self.max_data_size, string_bytes(self.system_identity.as_str()))
    }

    /// Answers the peer's CNXN: the smaller of the two payload limits is
    /// agreed on; with authentication required the answer is an AUTH
    /// challenge, otherwise this side's CNXN.
    pub fn process_connect_message(&self, message: &AdbMessage) -> (r: Result<HandshakeResponse, HandshakeError>)
        ensures
            match (r, self.spec_connect(message@)) {
                (Ok(a), Ok(b)) => a@ == b,
                (Err(a), Err(b)) => a@ == b,
                _ => false,
            },
    {
        if message.command != CNXN {
            return Err(HandshakeError::UnexpectedCommand { expected: CNXN, got: message.command });
        }
        let client_max_data = message.arg1;
        let client_identity = utf8_lossy(message.data.as_slice());
        let negotiated_max_data = if self.max_data_size <= client_max_data {
            self.max_data_size
        } else {
            client_max_data
        };
        if self.auth_required {
            let auth_message = AdbMessage::new(AUTH, 1, 0, string_bytes("auth_required"));
            Ok(
                HandshakeResponse::AuthRequired {
                    auth_message,
                    negotiated_version: self.version,
                    negotiated_max_data,
                    client_identity,
                },
            )
        } else {
            let response = AdbMessage::new(
                CNXN,
                self.version,
                negotiated_max_data,
                string_bytes(self.system_identity.as_str()),
            );
            Ok(
                HandshakeResponse::Connected {
                    response_message: response,
                    negotiated_version: self.version,
                    negotiated_max_data,
                    client_identity,
                },
            )
        }
    }

    /// Accepts the peer's AUTH message (authentication is simplified: every
    /// AUTH is accepted) and answers with this side's CNXN.
    pub fn process_auth_message(&self, message: &AdbMessage) -> (r: Result<AdbMessage, HandshakeError>)
        ensures
            message.command != AUTH ==> (r matches Err(e) && e@ == (HandshakeErrorSpec::UnexpectedCommand {
                expected: AUTH,
                got: message.command,
            })),
            message.command == AUTH ==> (r matches Ok(m) && m@ == built(
                CNXN,
                self.version,
                self.max_data_size,
                self.identity_bytes(),
            )),
    {
        if message.command != AUTH {
            return Err(HandshakeError::UnexpectedCommand { expected: AUTH, got: message.command });
        }
        Ok(
            AdbMessage::new(
                CNXN,
                self.version,
                self.max_data_size,
                string_bytes(self.system_identity.as_str()),
            ),
        )
    }

    /// Checks that both sides speak the same major version (the top byte)
    /// and reports what was agreed on.
    pub fn validate_handshake_complete(&self, client_version: u32, server_version: u32) -> (r: Result<
        HandshakeResult,
        HandshakeError,
    >)
        ensures
            ((client_version >> 24u32) & 0xff) != ((server_version >> 24u32) & 0xff) ==> (r matches Err(
                e,
            ) && e@ == (HandshakeErrorSpec::VersionMismatch {
                client_major: (client_version >> 24u32) & 0xff,
                server_major: (server_version >> 24u32) & 0xff,
            })),
            ((client_version >> 24u32) & 0xff) == ((server_version >> 24u32) & 0xff) ==> r == Ok::<
                HandshakeResult,
                HandshakeError,
            >(
                HandshakeResult {
                    negotiated_version: min_u32(client_version, server_version),
                    max_data_size: self.max_data_size,
                    auth_completed: !self.auth_required,
                    connection_established: true,
                },
            ),
    {
        let client_major = (client_version >> 24u32) & 0xff;
        let server_major = (server_version >> 24u32) & 0xff;
        if client_major != server_major {
            return Err(HandshakeError::VersionMismatch { client_major, server_major });
        }
        let negotiated_version = if client_version <= server_version {
            client_version
        } else {
            server_version
        };
        Ok(
            HandshakeResult {
                negotiated_version,
                max_data_size: self.max_data_size,
                auth_completed: !self.auth_required,
                connection_established: true,
            },
        )
    }

    /// The error reported when the handshake times out.
    pub fn create_timeout_error(&self) -> (e: HandshakeError)
        ensures
            e@ == (HandshakeErrorSpec::Timeout { timeout_ms: self.handshake_timeout_ms }),
    {
        HandshakeError::Timeout { timeout_ms: self.handshake_timeout_ms }
    }

    /// The handshake timeout, in milliseconds.
    pub fn timeout(&self) -> (r: u64)
        ensures
            r == self.handshake_timeout_ms,
    {
        self.handshake_timeout_ms
    }
}

/// A handshake in progress on one connection.
pub struct HandshakeManager {
    handler: HandshakeHandler,
    state: HandshakeState,
    start_time: Option<std::time::Instant>,
}

/// What one step of the handshake does: the next state and the answer.
pub open spec fn spec_step(
    h: &HandshakeHandler,
    state: HandshakeStateSpec,
    m: MessageModel,
    timed_out: bool,
) -> (HandshakeStateSpec, Result<Option<MessageModel>, HandshakeErrorSpec>) {
    if timed_out {
        (
            HandshakeStateSpec::Failed("Timeout"@),
            Err(HandshakeErrorSpec::Timeout { timeout_ms: h.handshake_timeout_ms }),
        )
    } else {
        match state {
            HandshakeStateSpec::WaitingForConnect => if m.command != CNXN {
                (
                    HandshakeStateSpec::Failed(expected_text("CNXN"@, m.command)),
                    Err(HandshakeErrorSpec::UnexpectedCommand { expected: CNXN, got: m.command }),
                )
            } else {
                match h.spec_connect(m) {
                    Ok(
                        HandshakeResponseSpec::AuthRequired {
                            auth_message,
                            negotiated_version,
                            negotiated_max_data,
                            client_identity,
                        },
                    ) => (
                        HandshakeStateSpec::WaitingForAuth {
                            negotiated_version,
                            negotiated_max_data,
                            client_identity,
                        },
                        Ok(Some(auth_message)),
                    ),
                    Ok(
                        HandshakeResponseSpec::Connected {
                            response_message,
                            negotiated_version,
                            negotiated_max_data,
                            client_identity,
                        },
                    ) => (
                        HandshakeStateSpec::Connected {
                            negotiated_version,
                            negotiated_max_data,
                            client_identity,
                        },
                        Ok(Some(response_message)),
                    ),
                    Err(e) => (state, Err(e)),
                }
            },
            HandshakeStateSpec::WaitingForAuth {
                negotiated_version,
                negotiated_max_data,
                client_identity,
            } => if m.command != AUTH {
                (
                    HandshakeStateSpec::Failed(expected_text("AUTH"@, m.command)),
                    Err(HandshakeErrorSpec::UnexpectedCommand { expected: AUTH, got: m.command }),
                )
            } else {
                (
                    HandshakeStateSpec::Connected {
                        negotiated_version,
                        negotiated_max_data,
                        client_identity,
                    },
                    Ok(Some(built(CNXN, h.version, h.max_data_size, h.identity_bytes()))),
                )
            },
            HandshakeStateSpec::Connected { .. } => (state, Err(HandshakeErrorSpec::AlreadyCompleted)),
            HandshakeStateSpec::Failed(reason) => (state, Err(HandshakeErrorSpec::Failed(reason))),
        }
    }
}

fn expected_reason(name: &str, got: u32) -> (r: String)
    ensures
        r@ == expected_text(name@, got),
{
    let mut s = to_owned_string("Expected ");
    push_str(&mut s, name);
    push_str(&mut s, ", got 0x");
    push_hex_str(&mut s, got as u64, 8);
    s
}

impl HandshakeManager {
    pub closed spec fn spec_state(&self) -> HandshakeStateSpec {
        self.state@
    }

    /// The handler whose parameters the handshake uses.
    pub closed spec fn spec_handler(&self) -> &HandshakeHandler {
        &self.handler
    }

    /// Whether the handshake's clock has been started.
    pub closed spec fn started(&self) -> bool {
        self.start_time is Some
    }

    pub fn new(handler: HandshakeHandler) -> (m: Self)
        ensures
            m.spec_state() == HandshakeStateSpec::WaitingForConnect,
            m.spec_handler() == &handler,
            !m.started(),
    {
        HandshakeManager { handler, state: HandshakeState::WaitingForConnect, start_time: None }
    }

    /// Starts the handshake clock and waits for CNXN.
    pub fn start(&mut self)
        ensures
            final(self).spec_state() == HandshakeStateSpec::WaitingForConnect,
            final(self).spec_handler() == old(self).spec_handler(),
            final(self).started(),
    {
        self.start_time = Some(instant_now());
        self.state = HandshakeState::WaitingForConnect;
    }

    /// Processes the next message: whether the timeout has passed is read
    /// from the clock, the rest is `process_message_at`.
    pub fn process_message(&mut self, message: &AdbMessage) -> (r: Result<Option<AdbMessage>, HandshakeError>)
        ensures
            final(self).spec_handler() == old(self).spec_handler(),
            final(self).started() == old(self).started(),
            exists|timed_out: bool|
                {
                    &&& (timed_out ==> old(self).started())
                    &&& #[trigger] spec_step(old(self).spec_handler(), old(self).spec_state(), message@, timed_out).0
                        == final(self).spec_state()
                    &&& match (r, spec_step(old(self).spec_handler(), old(self).spec_state(), message@, timed_out).1) {
                        (Ok(Some(a)), Ok(Some(b))) => a@ == b,
                        (Ok(None), Ok(None)) => true,
                        (Err(a), Err(b)) => a@ == b,
                        _ => false,
                    }
                },
    {
        let timed_out = match &self.start_time {
            Some(start) => elapsed_exceeds_ms(start, self.handler.handshake_timeout_ms),
            None => false,
        };
        self.process_message_at(message, timed_out)
    }

    /// One handshake step, given whether the timeout has passed: a timeout
    /// fails the handshake; in WaitingForConnect a CNXN is answered (AUTH
    /// challenge or CNXN) and anything else fails it; in WaitingForAuth an
    /// AUTH completes it and anything else fails it; a completed or failed
    /// handshake refuses every message and stays as it is.
    pub fn process_message_at(&mut self, message: &AdbMessage, timed_out: bool) -> (r: Result<
        Option<AdbMessage>,
        HandshakeError,
    >)
        ensures
            final(self).spec_handler() == old(self).spec_handler(),
            final(self).started() == old(self).started(),
            final(self).spec_state() == spec_step(old(self).spec_handler(), old(self).spec_state(), message@, timed_out).0,
            match (r, spec_step(old(self).spec_handler(), old(self).spec_state(), message@, timed_out).1) {
                (Ok(Some(a)), Ok(Some(b))) => a@ == b,
                (Ok(None), Ok(None)) => true,
                (Err(a), Err(b)) => a@ == b,
                _ => false,
            },
    {
        if timed_out {
            self.state = HandshakeState::Failed(to_owned_string("Timeout"));
            return Err(self.handler.create_timeout_error());
        }
        match &self.state {
            HandshakeState::WaitingForConnect => {
                if message.command != CNXN {
                    self.state = HandshakeState::Failed(expected_reason("CNXN", message.command));
                    return Err(HandshakeError::UnexpectedCommand { expected: CNXN, got: message.command });
                }
                match self.handler.process_connect_message(message) {
                    Ok(HandshakeResponse::AuthRequired {
                        auth_message,
                        negotiated_version,
                        negotiated_max_data,
                        client_identity,
                    }) => {
                        self.state = HandshakeState::WaitingForAuth {
                            negotiated_version,
                            negotiated_max_data,
                            client_identity,
                        };
                        Ok(Some(auth_message))
                    },
                    Ok(HandshakeResponse::Connected {
                        response_message,
                        negotiated_version,
                        negotiated_max_data,
                        client_identity,
                    }) => {
                        self.state = HandshakeState::Connected {
                            negotiated_version,
                            negotiated_max_data,
                            client_identity,
                        };
                        Ok(Some(response_message))
                    },
                    Err(e) => Err(e),
                }
            },
            HandshakeState::WaitingForAuth { negotiated_version, negotiated_max_data, client_identity } => {
                if message.command != AUTH {
                    self.state = HandshakeState::Failed(expected_reason("AUTH", message.command));
                    return Err(HandshakeError::UnexpectedCommand { expected: AUTH, got: message.command });
                }
                let nv = *negotiated_version;
                let nm = *negotiated_max_data;
                let ci = client_identity.clone();
                let response = self.handler.process_auth_message(message);
                match response {
                    Ok(resp) => {
                        self.state = HandshakeState::Connected {
                            negotiated_version: nv,
                            negotiated_max_data: nm,
                            client_identity: ci,
                        };
                        Ok(Some(resp))
                    },
                    Err(e) => Err(e),
                }
            },
            HandshakeState::Connected { .. } => Err(HandshakeError::AlreadyCompleted),
            HandshakeState::Failed(error) => Err(HandshakeError::Failed(error.clone())),
        }
    }

    /// Current handshake state.
    pub fn state(&self) -> (r: &HandshakeState)
        ensures
            r@ == self.spec_state(),
    {
        &self.state
    }

    /// Whether the handshake has completed.
    pub fn is_completed(&self) -> (r: bool)
        ensures
            r == (self.spec_state() is Connected),
    {
        match self.state {
            HandshakeState::Connected { .. } => true,
            _ => false,
        }
    }

    /// Whether the handshake has failed.
    pub fn is_failed(&self) -> (r: bool)
        ensures
            r == (self.spec_state() is Failed),
    {
        match self.state {
            HandshakeState::Failed(_) => true,
            _ => false,
        }
    }

    /// What was agreed on, once the handshake has completed.
    pub fn get_result(&self) -> (r: Option<HandshakeResult>)
        ensures
            match self.spec_state() {
                HandshakeStateSpec::Connected { negotiated_version, negotiated_max_data, .. } => r
                    == Some(
                    HandshakeResult {
                        negotiated_version,
                        max_data_size: negotiated_max_data,
                        auth_completed: true,
                        connection_established: true,
                    },
                ),
                _ => r is None,
            },
    {
        match &self.state {
            HandshakeState::Connected { negotiated_version, negotiated_max_data, .. } => Some(
                HandshakeResult {
                    negotiated_version: *negotiated_version,
                    max_data_size: *negotiated_max_data,
                    auth_completed: true,
                    connection_established: true,
                },
            ),
            _ => None,
        }
    }
}

} // verus!
