use vstd::prelude::*;
use vstd::string::StrSliceExecFns;
use vstd::utf8::{valid_utf8, decode_utf8, encode_utf8};
use crate::protocol::message::{AdbMessage, MessageModel, built};
use crate::protocol::constants::{CNXN, OPEN, OKAY, WRTE, CLSE, PING, PONG, VERSION};
use crate::protocol::commands::AdbCommand;
use crate::protocol::error::ProtocolError;
use crate::server::state::{ServerState, ServerStats, ServerStatsSnapshot, wrap_add};
use crate::server::client_handler::messages_view;
use crate::host_services::response::HostServiceResponse;
use crate::host_services::registry::{HostService, HostServiceRegistry, service_named};
use crate::text::{has_prefix, starts_with, to_owned_string, push_str, string_bytes, utf8_strict, find_char, index_of_char};

verus! {

/// What the dispatcher makes of a message: messages to send, or a host
/// service to run first.
#[derive(Debug)]
pub enum DispatchOutcome {
    Reply(Vec<AdbMessage>),
    /// Run host service `service` with `args`, then answer with
    /// `host_service_reply(remote_id, local_id, ..)`.
    HostService { remote_id: u32, local_id: u32, service: String, args: String },
}

/// Why a device service is closed at once: forwarding to devices is not
/// offered.
pub open spec fn device_refusal() -> Seq<char> {
    "Device service forwarding not implemented yet"@
}

/// The banner this server sends in its CNXN.
pub open spec fn server_banner() -> Seq<char> {
    "server:dbgif-server v0.1.0;"@
}

/// The name and arguments a host service is run with: for "x:base:args"
/// the name "host:base" when it is "host:device" with arguments, else the
/// whole service name; the arguments follow the second colon.
pub open spec fn spec_host_target(service: Seq<char>) -> (Seq<char>, Seq<char>) {
    match index_of_char(service, ':') {
        Some(p) => {
            let rest = service.skip(p + 1);
            let (base, args) = match index_of_char(rest, ':') {
                Some(q) => (rest.take(q), rest.skip(q + 1)),
                None => (rest, Seq::empty()),
            };
            let name = if "host:"@ + base == "host:device"@ && args.len() > 0 { "host:"@ + base } else { service };
            (name, args)
        },
        None => (service, Seq::empty()),
    }
}

/// Splits a host service name into the name to run and its arguments.
pub fn host_target(service: &str) -> (r: (String, String))
    ensures
        r.0@ == spec_host_target(service@).0,
        r.1@ == spec_host_target(service@).1,
{
    proof {
        reveal_strlit("");
        reveal_strlit("host:");
        reveal_strlit("host:device");
    }
    let n = service.unicode_len();
    match find_char(service, ':') {
        Some(p) => {
            let rest = service.substring_char(p + 1, n);
            assert(rest@ =~= service@.skip(p + 1));
            let m = rest.unicode_len();
            let (base, args) = match find_char(rest, ':') {
                Some(q) => {
                    assert(rest@.subrange(0, q as int) =~= rest@.take(q as int));
                    assert(rest@.subrange(q + 1, m as int) =~= rest@.skip(q + 1));
                    (rest.substring_char(0, q), rest.substring_char(q + 1, m))
                },
                None => {
                    assert(rest@.subrange(0, m as int) =~= rest@);
                    assert(rest@.subrange(m as int, m as int) =~= Seq::<char>::empty());
                    (rest.substring_char(0, m), rest.substring_char(m, m))
                },
            };
            let mut name = to_owned_string("host:");
            push_str(&mut name, base);
            if crate::text::str_eq(name.as_str(), "host:device") && args.unicode_len() > 0 {
                (name, to_owned_string(args))
            } else {
                (to_owned_string(service), to_owned_string(args))
            }
        },
        None => {
            assert(""@ =~= Seq::<char>::empty());
            (to_owned_string(service), to_owned_string(""))
        },
    }
}

/// The answer once a host service has run: acknowledgment, the data if
/// any, and the close; only the close when the service failed.
pub open spec fn spec_host_reply(remote_id: u32, local_id: u32, result: Result<HostServiceResponse, ProtocolError>) -> Seq<MessageModel> {
    match result {
        Ok(HostServiceResponse::Okay(data)) => if data@.len() > 0 {
            seq![
                built(OKAY, remote_id, local_id, Seq::empty()),
                built(WRTE, remote_id, local_id, data@),
                built(CLSE, remote_id, local_id, Seq::empty()),
            ]
        } else {
            seq![built(OKAY, remote_id, local_id, Seq::empty()), built(CLSE, remote_id, local_id, Seq::empty())]
        },
        _ => seq![built(CLSE, remote_id, local_id, Seq::empty())],
    }
}

/// The payloads of the WRTE messages of `ms`, one after another: what the
/// client reads on the stream.
pub open spec fn written_data(ms: Seq<MessageModel>) -> Seq<u8>
    decreases ms.len(),
{
    if ms.len() == 0 {
        Seq::empty()
    } else {
        written_data(ms.drop_last()) + if ms.last().command == WRTE { ms.last().data } else { Seq::empty() }
    }
}

/// Every message of a host service's reply travels on the stream pair it
/// was asked on (arg0 the remote id, arg1 the local id); the reply ends with
/// the stream's close; a successful answer is acknowledged first and the
/// client reads exactly its data, a failure gives the client no data.
pub proof fn lemma_host_reply_stream(remote_id: u32, local_id: u32, result: Result<HostServiceResponse, ProtocolError>)
    ensures
        ({
            let reply = spec_host_reply(remote_id, local_id, result);
            &&& reply.len() > 0
            &&& forall|i: int| 0 <= i < reply.len() ==> (#[trigger] reply[i]).arg0 == remote_id && reply[i].arg1 == local_id
            &&& reply.last().command == CLSE
            &&& match result {
                Ok(HostServiceResponse::Okay(data)) => reply[0].command == OKAY && written_data(reply) == data@,
                _ => written_data(reply) == Seq::<u8>::empty(),
            }
        }),
{
    let reply = spec_host_reply(remote_id, local_id, result);
    assert(OKAY != WRTE && CLSE != WRTE);
    let e = Seq::<MessageModel>::empty();
    assert(written_data(e) == Seq::<u8>::empty());
    if reply.len() == 3 {
        let p1 = reply.take(1);
        let p2 = reply.take(2);
        assert(p1.drop_last() =~= e);
        assert(p1.last() == reply[0]);
        assert(written_data(p1) =~= Seq::<u8>::empty());
        assert(p2.drop_last() =~= p1);
        assert(p2.last() == reply[1]);
        assert(written_data(p2) =~= reply[1].data);
        assert(reply.drop_last() =~= p2);
        assert(written_data(reply) =~= reply[1].data);
    } else if reply.len() == 2 {
        let p1 = reply.take(1);
        assert(p1.drop_last() =~= e);
        assert(p1.last() == reply[0]);
        assert(written_data(p1) =~= Seq::<u8>::empty());
        assert(reply.drop_last() =~= p1);
        assert(written_data(reply) =~= Seq::<u8>::empty());
        match result {
            Ok(HostServiceResponse::Okay(data)) => { assert(data@ =~= Seq::<u8>::empty()); },
            _ => {},
        }
    } else {
        assert(reply.drop_last() =~= e);
        assert(written_data(reply) =~= Seq::<u8>::empty());
    }
}

/// Answers a host service's result on the stream pair.
pub fn host_service_reply(remote_id: u32, local_id: u32, result: Result<HostServiceResponse, ProtocolError>) -> (r: Vec<AdbMessage>)
    ensures
        messages_view(r@) == spec_host_reply(remote_id, local_id, result),
{
    let ghost res = result;
    let mut out: Vec<AdbMessage> = Vec::new();
    match result {
        Ok(HostServiceResponse::Okay(data)) => {
            out.push(AdbMessage::new_okay(remote_id, local_id));
            let ghost d = data@;
            if data.len() > 0 {
                out.push(AdbMessage::new_wrte(remote_id, local_id, data));
            }
            out.push(AdbMessage::new_clse(remote_id, local_id));
            assert(messages_view(out@) =~= spec_host_reply(remote_id, local_id, res));
        },
        _ => {
            out.push(AdbMessage::new_clse(remote_id, local_id));
            assert(messages_view(out@) =~= spec_host_reply(remote_id, local_id, res));
        },
    }
    out
}

/// Runs host service `service` with `args` from `registry` and answers on
/// the stream pair as `host_service_reply` does: a service nobody
/// registered is answered with CLSE alone; the registered service's answer
/// to `args` is acknowledged, its data written, and the stream closed.
pub fn run_host_service<S: HostService>(
    registry: &HostServiceRegistry<S>,
    remote_id: u32,
    local_id: u32,
    service: &str,
    args: &str,
) -> (r: Vec<AdbMessage>)
    requires
        registry.wf(),
    ensures
        service_named(registry.spec_entries(), service@) is None ==>
            messages_view(r@) == seq![built(CLSE, remote_id, local_id, Seq::empty())],
        service_named(registry.spec_entries(), service@) matches Some(s) ==> exists|res: Result<HostServiceResponse, ProtocolError>|
            s.answers(args@, res) && messages_view(r@) == spec_host_reply(remote_id, local_id, res),
{
    let result = registry.handle_service(service, args);
    let ghost res = result;
    let out = host_service_reply(remote_id, local_id, result);
    assert(messages_view(out@) == spec_host_reply(remote_id, local_id, res));
    out
}

/// Routes the messages of client sessions and counts them.
#[derive(Debug)]
pub struct MessageDispatcher {
    pub server_state: ServerState,
}

/// Counters of the dispatcher.
#[derive(Debug, Clone, Copy, PartialEq, Eq, Structural)]
pub struct DispatcherStats {
    pub messages_processed: u64,
    pub bytes_processed: u64,
    pub errors_count: u64,
    pub active_sessions: u64,
    pub active_streams: u64,
}

impl MessageDispatcher {
    /// A dispatcher over `server_state`.
    pub fn new(server_state: ServerState) -> (r: Self)
        ensures
            r.server_state == server_state,
    {
        MessageDispatcher { server_state }
    }

    /// The counters now.
    pub fn stats(&self) -> (r: DispatcherStats)
        ensures
            r == (DispatcherStats {
                messages_processed: self.server_state.stats.messages_processed,
                bytes_processed: self.server_state.stats.bytes_transferred,
                errors_count: self.server_state.stats.errors_count,
                active_sessions: self.server_state.stats.active_sessions,
                active_streams: self.server_state.stats.active_streams,
            }),
    {
        let s = self.server_state.stats.snapshot();
        DispatcherStats {
            messages_processed: s.messages_processed,
            bytes_processed: s.bytes_transferred,
            errors_count: s.errors_count,
            active_sessions: s.active_sessions,
            active_streams: s.active_streams,
        }
    }

    /// CNXN: only protocol version 1.0 with a UTF-8 identity is accepted;
    /// the answer carries the connection timeout in milliseconds (whole
    /// seconds) and this server's banner.
    pub fn handle_connect(&self, message: &AdbMessage) -> (r: Result<Vec<AdbMessage>, ProtocolError>)
        requires
            (self.server_state.config.connection_timeout_ms / 1000) as u32 * 1000 <= u32::MAX,
        ensures
            message@.arg0 != VERSION ==> r == Err::<Vec<AdbMessage>, ProtocolError>(ProtocolError::UnsupportedVersion { version: message@.arg0 }),
            message@.arg0 == VERSION && !valid_utf8(message@.data) ==>
                (r matches Err(ProtocolError::InvalidText { message: m }) && m@ == "Invalid UTF-8 in client identifier"@),
            message@.arg0 == VERSION && valid_utf8(message@.data) ==>
                (r matches Ok(v) && messages_view(v@) == seq![built(
                    CNXN,
                    VERSION,
                    ((self.server_state.config.connection_timeout_ms / 1000) as u32 * 1000) as u32,
                    encode_utf8(server_banner()),
                )]),
    {
        if message.arg0 != VERSION {
            return Err(ProtocolError::UnsupportedVersion { version: message.arg0 });
        }
        let mut copy: Vec<u8> = Vec::new();
        crate::wire::append_all(&mut copy, message.data.as_slice());
        assert(copy@ =~= message@.data);
        if utf8_strict(copy).is_none() {
            return Err(ProtocolError::InvalidText { message: to_owned_string("Invalid UTF-8 in client identifier") });
        }
        let timeout_secs = #[verifier::truncate] ((self.server_state.config.connection_timeout_ms / 1000) as u32);
        let response = AdbMessage::new(CNXN, VERSION, timeout_secs * 1000, string_bytes("server:dbgif-server v0.1.0;"));
        let mut out: Vec<AdbMessage> = Vec::new();
        out.push(response);
        assert(messages_view(out@) =~= seq![built(
            CNXN,
            VERSION,
            ((self.server_state.config.connection_timeout_ms / 1000) as u32 * 1000) as u32,
            encode_utf8(server_banner()),
        )]);
        Ok(out)
    }

    /// OPEN: the service name must be UTF-8; a host service is run (after
    /// a new stream id is taken), a device service is closed at once with
    /// a note that device forwarding is not offered.
    pub fn handle_open(&mut self, message: &AdbMessage) -> (r: Result<DispatchOutcome, ProtocolError>)
        ensures
            final(self).server_state.config == old(self).server_state.config,
            final(self).server_state.stats == old(self).server_state.stats,
            final(self).server_state.session_counter == old(self).server_state.session_counter,
            !valid_utf8(message@.data) ==> (r matches Err(ProtocolError::InvalidText { message: m }) && m@ == "Invalid UTF-8 in service name"@)
                && final(self).server_state.stream_counter == old(self).server_state.stream_counter,
            valid_utf8(message@.data) ==> {
                let service = decode_utf8(message@.data);
                let remote = (old(self).server_state.stream_counter % 65535 + 1) as u32;
                &&& final(self).server_state.stream_counter == wrap_add(old(self).server_state.stream_counter, 1)
                &&& if has_prefix(service, "host:"@) {
                    r matches Ok(DispatchOutcome::HostService { remote_id, local_id, service: s, args })
                        && remote_id == remote && local_id == message@.arg0
                        && s@ == spec_host_target(service).0 && args@ == spec_host_target(service).1
                } else {
                    r matches Ok(DispatchOutcome::Reply(v))
                        && messages_view(v@) == seq![built(CLSE, remote, message@.arg0, encode_utf8(device_refusal()))]
                }
            },
    {
        let mut copy: Vec<u8> = Vec::new();
        crate::wire::append_all(&mut copy, message.data.as_slice());
        assert(copy@ =~= message@.data);
        let service = match utf8_strict(copy) {
            Some(s) => s,
            None => return Err(ProtocolError::InvalidText { message: to_owned_string("Invalid UTF-8 in service name") }),
        };
        let local_id = message.arg0;
        let remote_id = self.server_state.next_stream_id();
        if crate::host_services::response::is_host_service(service.as_str()) {
            let (name, args) = host_target(service.as_str());
            Ok(DispatchOutcome::HostService { remote_id, local_id, service: name, args })
        } else {
            let mut out: Vec<AdbMessage> = Vec::new();
            let note = string_bytes("Device service forwarding not implemented yet");
            proof {
                reveal_strlit("Device service forwarding not implemented yet");
            }
            out.push(AdbMessage::new(CLSE, remote_id, local_id, note));
            assert(messages_view(out@) =~= seq![built(CLSE, remote_id, local_id, encode_utf8(device_refusal()))]);
            Ok(DispatchOutcome::Reply(out))
        }
    }

    /// Routes a message by its command and counts it: CNXN and OPEN as
    /// above, CLSE is echoed with the ids swapped, PING is answered by PONG
    /// with the same ids, OKAY, WRTE and PONG need no answer. Unknown
    /// commands are refused before they are counted.
    pub fn dispatch_message(&mut self, message: &AdbMessage) -> (r: Result<DispatchOutcome, ProtocolError>)
        requires
            message@.data.len() + 24 <= u64::MAX,
            (old(self).server_state.config.connection_timeout_ms / 1000) as u32 * 1000 <= u32::MAX,
        ensures
            final(self).server_state.config == old(self).server_state.config,
            AdbCommand::spec_from_code(message@.command) is None ==>
                r == Err::<DispatchOutcome, ProtocolError>(ProtocolError::UnknownCommand(message@.command))
                && final(self).server_state == old(self).server_state,
            final(self).server_state.session_counter == old(self).server_state.session_counter,
            AdbCommand::spec_from_code(message@.command) is Some ==> final(self).server_state.stats == (ServerStats {
                messages_processed: wrap_add(old(self).server_state.stats.messages_processed, 1),
                bytes_transferred: wrap_add(old(self).server_state.stats.bytes_transferred, (message@.data.len() + 24) as u64),
                ..old(self).server_state.stats
            }),
            message@.command == CNXN && message@.arg0 != VERSION ==>
                r == Err::<DispatchOutcome, ProtocolError>(ProtocolError::UnsupportedVersion { version: message@.arg0 }),
            message@.command == CNXN && message@.arg0 == VERSION && !valid_utf8(message@.data) ==>
                (r matches Err(ProtocolError::InvalidText { message: m }) && m@ == "Invalid UTF-8 in client identifier"@),
            message@.command == CNXN && message@.arg0 == VERSION && valid_utf8(message@.data) ==>
                (r matches Ok(DispatchOutcome::Reply(v)) && messages_view(v@) == seq![built(
                    CNXN,
                    VERSION,
                    ((old(self).server_state.config.connection_timeout_ms / 1000) as u32 * 1000) as u32,
                    encode_utf8(server_banner()),
                )]),
            message@.command != OPEN ==> final(self).server_state.stream_counter == old(self).server_state.stream_counter,
            message@.command == OPEN && !valid_utf8(message@.data) ==>
                (r matches Err(ProtocolError::InvalidText { message: m }) && m@ == "Invalid UTF-8 in service name"@)
                && final(self).server_state.stream_counter == old(self).server_state.stream_counter,
            message@.command == OPEN && valid_utf8(message@.data) ==> {
                let service = decode_utf8(message@.data);
                let remote = (old(self).server_state.stream_counter % 65535 + 1) as u32;
                &&& final(self).server_state.stream_counter == wrap_add(old(self).server_state.stream_counter, 1)
                &&& if has_prefix(service, "host:"@) {
                    r matches Ok(DispatchOutcome::HostService { remote_id, local_id, service: s, args })
                        && remote_id == remote && local_id == message@.arg0
                        && s@ == spec_host_target(service).0 && args@ == spec_host_target(service).1
                } else {
                    r matches Ok(DispatchOutcome::Reply(v))
                        && messages_view(v@) == seq![built(CLSE, remote, message@.arg0, encode_utf8(device_refusal()))]
                }
            },
            message@.command == CLSE ==> (r matches Ok(DispatchOutcome::Reply(v))
                && messages_view(v@) == seq![built(CLSE, message@.arg1, message@.arg0, Seq::empty())]),
            message@.command == PING ==> (r matches Ok(DispatchOutcome::Reply(v))
                && messages_view(v@) == seq![built(PONG, message@.arg0, message@.arg1, Seq::empty())]),
            (message@.command == OKAY || message@.command == WRTE || message@.command == PONG) ==>
                (r matches Ok(DispatchOutcome::Reply(v)) && v@.len() == 0),
    {
        let command = match AdbCommand::from_u32(message.command) {
            Some(c) => c,
            None => return Err(ProtocolError::UnknownCommand(message.command)),
        };
        self.server_state.stats.message_processed(24u64 + message.data.len() as u64);
        let mut out: Vec<AdbMessage> = Vec::new();
        match command {
            AdbCommand::CNXN => match self.handle_connect(message) {
                Ok(v) => Ok(DispatchOutcome::Reply(v)),
                Err(e) => Err(e),
            },
            AdbCommand::OPEN => self.handle_open(message),
            AdbCommand::CLSE => {
                out.push(AdbMessage::new_clse(message.arg1, message.arg0));
                assert(messages_view(out@) =~= seq![built(CLSE, message@.arg1, message@.arg0, Seq::empty())]);
                Ok(DispatchOutcome::Reply(out))
            },
            AdbCommand::PING => {
                out.push(AdbMessage::new(PONG, message.arg0, message.arg1, Vec::new()));
                assert(messages_view(out@) =~= seq![built(PONG, message@.arg0, message@.arg1, Seq::empty())]);
                Ok(DispatchOutcome::Reply(out))
            },
            _ => Ok(DispatchOutcome::Reply(out)),
        }
    }
}

} // verus!
