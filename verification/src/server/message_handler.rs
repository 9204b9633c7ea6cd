use vstd::prelude::*;
use crate::protocol::message::{AdbMessage, MessageModel};
use crate::protocol::error::ProtocolError;
use crate::protocol::crc::{calculate_crc32, crc32_of};
use crate::protocol::message::built;
use crate::protocol::constants::{CNXN, OKAY, CLSE, PONG};
use crate::protocol::commands::AdbCommand;
use crate::server::client_handler::{messages_view, server_identity};
use crate::server::dispatcher::{DispatchOutcome, spec_host_target};
use crate::server::state::ServerStats;
use crate::text::{utf8_lossy, lossy_text};
use vstd::utf8::{valid_utf8, decode_utf8};
use crate::server::dispatcher::MessageDispatcher;
use crate::server::stream::StreamState;
use crate::text::{has_prefix, starts_with, to_owned_string, push_str, find_char, index_of_char};
use crate::server::state::wrap_add;

verus! {

/// What processing a message asks of the connection.
#[derive(Debug)]
pub enum MessageResult {
    /// Go on with the next message.
    Continue,
    /// Close the connection gracefully.
    Close,
    /// Close the connection because of an error.
    Error(ProtocolError),
}

/// What checking a received message finds wrong with it, if anything: a
/// magic that is not the complement of the command, a length field that is
/// not the payload's length, or a non-empty payload that does not match its
/// checksum, in that order.
pub open spec fn spec_validation(m: MessageModel) -> Option<ProtocolError> {
    if m.magic != !m.command {
        Some(ProtocolError::InvalidMagic { expected: !m.command, actual: m.magic })
    } else if m.data.len() != m.data_length {
        Some(ProtocolError::DataLengthMismatch { claimed: m.data_length, actual: m.data.len() as usize })
    } else if m.data.len() > 0 && crc32_of(m.data) != m.data_crc32 {
        Some(ProtocolError::ChecksumMismatch { expected: m.data_crc32, calculated: crc32_of(m.data) })
    } else {
        None
    }
}

/// Checks a received message: the magic must be the complement of the
/// command, the length field must be the payload's length, and a non-empty
/// payload must match its checksum.
pub fn validate_message(message: &AdbMessage) -> (r: Result<(), ProtocolError>)
    ensures
        match spec_validation(message@) {
            Some(e) => r == Err::<(), ProtocolError>(e),
            None => r is Ok,
        },
{
    if message.magic != !message.command {
        return Err(ProtocolError::InvalidMagic { expected: !message.command, actual: message.magic });
    }
    if message.data.len() != message.data_length as usize {
        return Err(ProtocolError::DataLengthMismatch { claimed: message.data_length, actual: message.data.len() });
    }
    if message.data.len() > 0 {
        let calculated = calculate_crc32(message.data.as_slice());
        if calculated != message.data_crc32 {
            return Err(ProtocolError::ChecksumMismatch { expected: message.data_crc32, calculated });
        }
    }
    Ok(())
}


/// A stream of the handler's session: its id, the service it reaches
/// ("<device>:<service>" for device streams), its state and its traffic.
#[derive(Debug)]
pub struct SessionStream {
    pub stream_id: u32,
    pub service: String,
    pub state: StreamState,
    pub bytes_sent: u64,
    pub messages_sent: u64,
    pub last_activity_ms: u64,
}

/// The position of the first stream with id `id`, if any.
pub open spec fn stream_pos(ss: Seq<SessionStream>, id: u32) -> Option<int> {
    if exists|i: int| 0 <= i < ss.len() && ss[i].stream_id == id {
        Some(choose|i: int| 0 <= i < ss.len() && ss[i].stream_id == id
            && forall|j: int| 0 <= j < i ==> ss[j].stream_id != id)
    } else {
        None
    }
}

/// The position of the first stream whose service names a device
/// ("device:..."), if any.
pub open spec fn device_stream_pos(ss: Seq<SessionStream>) -> Option<int> {
    if exists|i: int| 0 <= i < ss.len() && has_prefix(ss[i].service@, "device:"@) {
        Some(choose|i: int| 0 <= i < ss.len() && has_prefix(ss[i].service@, "device:"@)
            && forall|j: int| 0 <= j < i ==> !has_prefix(ss[j].service@, "device:"@))
    } else {
        None
    }
}

/// No two streams share an id.
pub open spec fn ids_distinct(ss: Seq<SessionStream>) -> bool {
    forall|i: int, j: int| 0 <= i < j < ss.len() ==> ss[i].stream_id != ss[j].stream_id
}

/// The streams after `s` is recorded: it takes the place of the stream
/// with its id, or is appended when there is none.
pub open spec fn put_stream(ss: Seq<SessionStream>, s: SessionStream) -> Seq<SessionStream> {
    match stream_pos(ss, s.stream_id) {
        Some(i) => ss.update(i, s),
        None => ss.push(s),
    }
}

/// The device a session's new streams go to: its identity when that names
/// a device, else the service of its first device stream.
pub open spec fn spec_selected_device(identity: Option<Seq<char>>, ss: Seq<SessionStream>) -> Option<Seq<char>> {
    let from_streams = match device_stream_pos(ss) {
        Some(i) => Some(ss[i].service@),
        None => None,
    };
    match identity {
        Some(id) => if has_prefix(id, "device:"@) { Some(id) } else { from_streams },
        None => from_streams,
    }
}

/// The message-level state of one client session: the streams it has
/// opened towards devices, its traffic, and the dispatcher that answers
/// what the session does not handle itself. Times are in milliseconds.
pub struct MessageHandler {
    pub dispatcher: MessageDispatcher,
    pub session_id: String,
    /// What the client said it is, if anything.
    pub identity: Option<String>,
    pub streams: Vec<SessionStream>,
    pub streams_created: u64,
    pub bytes_sent: u64,
    pub messages_sent: u64,
    pub last_activity_ms: u64,
}

impl MessageHandler {
    /// A session with no stream and no traffic yet.
    pub fn new(dispatcher: MessageDispatcher, session_id: String, identity: Option<String>, now_ms: u64) -> (r: Self)
        ensures
            r.dispatcher == dispatcher,
            r.session_id == session_id,
            r.identity == identity,
            r.streams@.len() == 0,
            r.streams_created == 0,
            r.bytes_sent == 0,
            r.messages_sent == 0,
            r.last_activity_ms == now_ms,
    {
        MessageHandler {
            dispatcher,
            session_id,
            identity,
            streams: Vec::new(),
            streams_created: 0,
            bytes_sent: 0,
            messages_sent: 0,
            last_activity_ms: now_ms,
        }
    }

    /// The position of the first stream with id `id`.
    fn position(&self, id: u32) -> (r: Option<usize>)
        ensures
            match r {
                Some(i) => stream_pos(self.streams@, id) == Some(i as int) && i < self.streams@.len(),
                None => stream_pos(self.streams@, id) is None,
            },
    {
        let mut i: usize = 0;
        while i < self.streams.len()
            invariant
                i <= self.streams@.len(),
                forall|j: int| 0 <= j < i ==> self.streams@[j].stream_id != id,
            decreases self.streams@.len() - i,
        {
            if self.streams[i].stream_id == id {
                proof {
                    let ss = self.streams@;
                    assert(exists|k: int| 0 <= k < ss.len() && ss[k].stream_id == id) by {
                        assert(ss[i as int].stream_id == id);
                    }
                    let w = choose|k: int| 0 <= k < ss.len() && ss[k].stream_id == id
                        && forall|j: int| 0 <= j < k ==> ss[j].stream_id != id;
                    if w < i {
                        assert(ss[w].stream_id != id);
                    } else if w > i {
                        assert(ss[i as int].stream_id != id);
                    }
                }
                return Some(i);
            }
            i = i + 1;
        }
        None
    }

    /// The device the session's new streams go to, if any.
    pub fn get_selected_device(&self) -> (r: Option<String>)
        ensures
            match spec_selected_device(
                match self.identity { Some(s) => Some(s@), None => None },
                self.streams@,
            ) {
                Some(d) => r matches Some(x) && x@ == d,
                None => r is None,
            },
    {
        match &self.identity {
            Some(id) => {
                if starts_with(id.as_str(), "device:") {
                    return Some(to_owned_string(id.as_str()));
                }
            },
            None => {},
        }
        let mut i: usize = 0;
        while i < self.streams.len()
            invariant
                i <= self.streams@.len(),
                match self.identity { Some(s) => !has_prefix(s@, "device:"@), None => true },
                forall|j: int| 0 <= j < i ==> !has_prefix(#[trigger] self.streams@[j].service@, "device:"@),
            decreases self.streams@.len() - i,
        {
            if starts_with(self.streams[i].service.as_str(), "device:") {
                proof {
                    let ss = self.streams@;
                    assert(exists|k: int| 0 <= k < ss.len() && has_prefix(ss[k].service@, "device:"@)) by {
                        assert(has_prefix(ss[i as int].service@, "device:"@));
                    }
                    let w = choose|k: int| 0 <= k < ss.len() && has_prefix(ss[k].service@, "device:"@)
                        && forall|j: int| 0 <= j < k ==> !has_prefix(ss[j].service@, "device:"@);
                    if w < i {
                        assert(!has_prefix(ss[w].service@, "device:"@));
                    } else if w > i {
                        assert(!has_prefix(ss[i as int].service@, "device:"@));
                    }
                }
                return Some(to_owned_string(self.streams[i].service.as_str()));
            }
            i = i + 1;
        }
        None
    }

    /// Records `s`, in place of the stream with its id if there is one.
    fn put(&mut self, s: SessionStream)
        ensures
            final(self).streams@ == put_stream(old(self).streams@, s),
            ids_distinct(old(self).streams@) ==> ids_distinct(final(self).streams@),
            final(self).dispatcher == old(self).dispatcher,
            final(self).session_id == old(self).session_id,
            final(self).identity == old(self).identity,
            final(self).streams_created == old(self).streams_created,
            final(self).bytes_sent == old(self).bytes_sent,
            final(self).messages_sent == old(self).messages_sent,
            final(self).last_activity_ms == old(self).last_activity_ms,
    {
        match self.position(s.stream_id) {
            Some(i) => {
                let _ = self.streams.remove(i);
                self.streams.insert(i, s);
                proof {
                    assert(self.streams@ =~= old(self).streams@.update(i as int, s));
                }
            },
            None => {
                self.streams.push(s);
            },
        }
    }
}


/// The text of an optional string.
pub open spec fn opt_text(o: Option<String>) -> Option<Seq<char>> {
    match o {
        Some(s) => Some(s@),
        None => None,
    }
}

/// `s` is the stream that an OPEN on stream `id` for `service` records:
/// opening, with no traffic yet, active at `now`.
pub open spec fn opened_stream(s: SessionStream, id: u32, service: Seq<char>, now: u64) -> bool {
    &&& s.stream_id == id
    &&& s.service@ == service
    &&& s.state == StreamState::Opening
    &&& s.bytes_sent == 0
    &&& s.messages_sent == 0
    &&& s.last_activity_ms == now
}

/// `after` has the same streams and session traffic as `before`.
pub open spec fn same_activity(before: MessageHandler, after: MessageHandler) -> bool {
    &&& after.streams@ == before.streams@
    &&& after.streams_created == before.streams_created
    &&& after.bytes_sent == before.bytes_sent
    &&& after.messages_sent == before.messages_sent
    &&& after.last_activity_ms == before.last_activity_ms
}

/// What an OPEN of device service `service` on stream `id` does: on the
/// selected device a stream "<device>:<service>" is recorded and
/// acknowledged with OKAY; with no device selected the client gets a CLSE
/// and nothing changes.
pub open spec fn device_opened(before: MessageHandler, after: MessageHandler, id: u32, service: Seq<char>, now: u64, out: Seq<MessageModel>) -> bool {
    match spec_selected_device(opt_text(before.identity), before.streams@) {
        Some(device) => {
            &&& exists|s: SessionStream| opened_stream(s, id, device + ":"@ + service, now)
                && after.streams@ == put_stream(before.streams@, s)
            &&& after.streams_created == wrap_add(before.streams_created, 1)
            &&& after.bytes_sent == before.bytes_sent
            &&& after.messages_sent == before.messages_sent
            &&& after.last_activity_ms == now
            &&& out == seq![built(OKAY, id, 0, Seq::empty())]
        },
        None => {
            &&& same_activity(before, after)
            &&& out == seq![built(CLSE, 0, 0, Seq::empty())]
        },
    }
}

/// What an OKAY on stream `id` does: the stream, if recorded, becomes
/// active, and it and the session are active at `now`.
pub open spec fn acknowledged(before: MessageHandler, after: MessageHandler, id: u32, now: u64) -> bool {
    &&& after.streams_created == before.streams_created
    &&& after.bytes_sent == before.bytes_sent
    &&& after.messages_sent == before.messages_sent
    &&& match stream_pos(before.streams@, id) {
        Some(i) => {
            &&& after.streams@ == before.streams@.update(i, SessionStream {
                state: StreamState::Active,
                last_activity_ms: now,
                ..before.streams@[i]
            })
            &&& after.last_activity_ms == now
        },
        None => same_activity(before, after),
    }
}

/// What a WRTE of `len` bytes on stream `id` does: when the stream is
/// recorded and its service holds a colon ("<device>:<service>"), the
/// bytes and one message are counted on it and on the session, and the
/// stream is active at `now`; the counts wrap around.
pub open spec fn forwarded(before: MessageHandler, after: MessageHandler, id: u32, len: u64, now: u64) -> bool {
    &&& after.streams_created == before.streams_created
    &&& after.last_activity_ms == before.last_activity_ms
    &&& match stream_pos(before.streams@, id) {
        Some(i) => if index_of_char(before.streams@[i].service@, ':') is Some {
            &&& after.streams@ == before.streams@.update(i, SessionStream {
                bytes_sent: wrap_add(before.streams@[i].bytes_sent, len),
                messages_sent: wrap_add(before.streams@[i].messages_sent, 1),
                last_activity_ms: now,
                ..before.streams@[i]
            })
            &&& after.bytes_sent == wrap_add(before.bytes_sent, len)
            &&& after.messages_sent == wrap_add(before.messages_sent, 1)
        } else {
            same_activity(before, after)
        },
        None => same_activity(before, after),
    }
}

/// What a CLSE on stream `id` does: the stream, if recorded, is forgotten
/// and the session is active at `now`.
pub open spec fn closed(before: MessageHandler, after: MessageHandler, id: u32, now: u64) -> bool {
    &&& after.streams_created == before.streams_created
    &&& after.bytes_sent == before.bytes_sent
    &&& after.messages_sent == before.messages_sent
    &&& match stream_pos(before.streams@, id) {
        Some(i) => {
            &&& after.streams@ == before.streams@.remove(i)
            &&& after.last_activity_ms == now
        },
        None => same_activity(before, after),
    }
}

/// `after` is `before` in its dispatcher, session id and identity.
pub open spec fn same_session(before: MessageHandler, after: MessageHandler) -> bool {
    &&& after.dispatcher == before.dispatcher
    &&& after.session_id == before.session_id
    &&& after.identity == before.identity
}

impl MessageHandler {
    /// OPEN of a device service: on the selected device a stream
    /// "<device>:<service>" is recorded under the client's stream id and
    /// acknowledged with OKAY; with no device selected the client gets a
    /// CLSE and nothing changes.
    pub fn open_device_stream(&mut self, local_id: u32, service: &str, now_ms: u64) -> (r: Vec<AdbMessage>)
        ensures
            same_session(*old(self), *final(self)),
            ids_distinct(old(self).streams@) ==> ids_distinct(final(self).streams@),
            device_opened(*old(self), *final(self), local_id, service@, now_ms, messages_view(r@)),
    {
        let mut out: Vec<AdbMessage> = Vec::new();
        match self.get_selected_device() {
            Some(device) => {
                let mut full = to_owned_string(device.as_str());
                push_str(&mut full, ":");
                push_str(&mut full, service);
                let s = SessionStream {
                    stream_id: local_id,
                    service: full,
                    state: StreamState::Opening,
                    bytes_sent: 0,
                    messages_sent: 0,
                    last_activity_ms: now_ms,
                };
                let ghost sg = s;
                self.put(s);
                self.streams_created = self.streams_created.wrapping_add(1);
                self.last_activity_ms = now_ms;
                out.push(AdbMessage::new_okay(local_id, 0));
                proof {
                    assert(opened_stream(sg, local_id, device@ + ":"@ + service@, now_ms));
                    assert(messages_view(out@) =~= seq![built(OKAY, local_id, 0, Seq::empty())]);
                }
            },
            None => {
                out.push(AdbMessage::new_clse(0, 0));
                assert(messages_view(out@) =~= seq![built(CLSE, 0, 0, Seq::empty())]);
            },
        }
        out
    }

    /// OKAY on stream `id`: the stream, if recorded, becomes active, and it
    /// and the session are active at `now_ms`.
    pub fn stream_acknowledged(&mut self, id: u32, now_ms: u64)
        ensures
            same_session(*old(self), *final(self)),
            ids_distinct(old(self).streams@) ==> ids_distinct(final(self).streams@),
            acknowledged(*old(self), *final(self), id, now_ms),
    {
        match self.position(id) {
            Some(i) => {
                let mut s = self.streams.remove(i);
                s.state = StreamState::Active;
                s.last_activity_ms = now_ms;
                self.streams.insert(i, s);
                self.last_activity_ms = now_ms;
                proof {
                    assert(self.streams@ =~= old(self).streams@.update(i as int, SessionStream {
                        state: StreamState::Active,
                        last_activity_ms: now_ms,
                        ..old(self).streams@[i as int]
                    }));
                }
            },
            None => {},
        }
    }

    /// WRTE of `len` bytes on stream `id`: when the stream is recorded and
    /// its service names a device and a service ("<device>:<service>"),
    /// the bytes and one message are counted on the stream and the session,
    /// and the stream is active at `now_ms`. The counts wrap around.
    pub fn data_forwarded(&mut self, id: u32, len: u64, now_ms: u64)
        ensures
            same_session(*old(self), *final(self)),
            ids_distinct(old(self).streams@) ==> ids_distinct(final(self).streams@),
            forwarded(*old(self), *final(self), id, len, now_ms),
    {
        match self.position(id) {
            Some(i) => {
                if find_char(self.streams[i].service.as_str(), ':').is_some() {
                    let mut s = self.streams.remove(i);
                    s.bytes_sent = s.bytes_sent.wrapping_add(len);
                    s.messages_sent = s.messages_sent.wrapping_add(1);
                    s.last_activity_ms = now_ms;
                    self.streams.insert(i, s);
                    self.bytes_sent = self.bytes_sent.wrapping_add(len);
                    self.messages_sent = self.messages_sent.wrapping_add(1);
                    proof {
                        assert(self.streams@ =~= old(self).streams@.update(i as int, SessionStream {
                            bytes_sent: wrap_add(old(self).streams@[i as int].bytes_sent, len),
                            messages_sent: wrap_add(old(self).streams@[i as int].messages_sent, 1),
                            last_activity_ms: now_ms,
                            ..old(self).streams@[i as int]
                        }));
                    }
                }
            },
            None => {},
        }
    }

    /// CLSE on stream `id`: the stream, if recorded, is forgotten and the
    /// session is active at `now_ms`.
    pub fn close_stream(&mut self, id: u32, now_ms: u64)
        ensures
            same_session(*old(self), *final(self)),
            ids_distinct(old(self).streams@) ==> ids_distinct(final(self).streams@),
            closed(*old(self), *final(self), id, now_ms),
    {
        match self.position(id) {
            Some(i) => {
                let _ = self.streams.remove(i);
                self.last_activity_ms = now_ms;
            },
            None => {},
        }
    }
}


/// What the connection is to do after a message.
#[derive(Debug)]
pub enum HandlerStep {
    /// Send these messages and go on.
    Reply(Vec<AdbMessage>),
    /// Run host service `service` with `args`, then send what
    /// `host_service_reply(remote_id, local_id, ..)` makes of its answer.
    HostService { remote_id: u32, local_id: u32, service: String, args: String },
    /// Close the connection because of this error.
    Fail(ProtocolError),
}

/// `r` sends exactly the messages `msgs`.
pub open spec fn replies(r: HandlerStep, msgs: Seq<MessageModel>) -> bool {
    r matches HandlerStep::Reply(v) && messages_view(v@) == msgs
}

/// The counters after one message of `len` payload bytes is counted, as
/// `ServerStats::message_processed` counts it.
pub open spec fn counted(stats: ServerStats, len: u64) -> ServerStats {
    ServerStats {
        messages_processed: wrap_add(stats.messages_processed, 1),
        bytes_transferred: wrap_add(stats.bytes_transferred, len),
        ..stats
    }
}

impl MessageHandler {
    /// Handles one message of the client at `now_ms`. Every message is
    /// counted (by its length field) and checked first; a bad one ends the
    /// connection with the check's error. Then, by command: an unknown
    /// command gets CLSE(0, 0); CNXN gets this server's CNXN (version 1,
    /// 1 MiB of data, "device::"); OPEN of a "host:" service goes to the
    /// dispatcher (a service name that is no UTF-8 gets CLSE(0, 0)), OPEN of
    /// another service goes to the selected device; OKAY marks the stream
    /// active; WRTE counts the data on the stream and is acknowledged with
    /// OKAY; CLSE forgets the stream; PING gets PONG; PONG goes to the
    /// dispatcher. Stream ids stay distinct.
    pub fn process_message(&mut self, message: &AdbMessage, now_ms: u64) -> (r: HandlerStep)
        requires
            message@.data.len() + 24 <= u64::MAX,
            (old(self).dispatcher.server_state.config.connection_timeout_ms / 1000) as u32 * 1000 <= u32::MAX,
        ensures
            final(self).session_id == old(self).session_id,
            final(self).identity == old(self).identity,
            final(self).dispatcher.server_state.config == old(self).dispatcher.server_state.config,
            final(self).dispatcher.server_state.session_counter == old(self).dispatcher.server_state.session_counter,
            ids_distinct(old(self).streams@) ==> ids_distinct(final(self).streams@),
            spec_validation(message@) matches Some(e) ==> {
                &&& r matches HandlerStep::Fail(x) && x == e
                &&& same_activity(*old(self), *final(self))
                &&& final(self).dispatcher.server_state.stats == counted(old(self).dispatcher.server_state.stats, message@.data_length as u64)
                &&& final(self).dispatcher.server_state.stream_counter == old(self).dispatcher.server_state.stream_counter
            },
            spec_validation(message@) is None && !(message@.command == PONG
                || (message@.command == crate::protocol::constants::OPEN && has_prefix(lossy_text(message@.data), "host:"@))) ==> {
                &&& final(self).dispatcher.server_state.stats == counted(old(self).dispatcher.server_state.stats, message@.data_length as u64)
                &&& final(self).dispatcher.server_state.stream_counter == old(self).dispatcher.server_state.stream_counter
            },
            spec_validation(message@) is None ==> match AdbCommand::spec_from_code(message@.command) {
                None => replies(r, seq![built(CLSE, 0, 0, Seq::empty())]) && same_activity(*old(self), *final(self)),
                Some(AdbCommand::CNXN) => replies(r, seq![built(CNXN, 1, 1048576, server_identity())])
                    && same_activity(*old(self), *final(self)),
                Some(AdbCommand::OPEN) => {
                    let service = lossy_text(message@.data);
                    if has_prefix(service, "host:"@) {
                        &&& same_activity(*old(self), *final(self))
                        &&& final(self).dispatcher.server_state.stats == counted(
                            counted(old(self).dispatcher.server_state.stats, message@.data_length as u64),
                            (message@.data.len() + 24) as u64)
                        &&& if valid_utf8(message@.data) {
                            &&& r matches HandlerStep::HostService { remote_id, local_id, service: name, args }
                                && remote_id == (old(self).dispatcher.server_state.stream_counter % 65535 + 1) as u32
                                && local_id == message@.arg0
                                && name@ == spec_host_target(service).0 && args@ == spec_host_target(service).1
                            &&& final(self).dispatcher.server_state.stream_counter
                                == wrap_add(old(self).dispatcher.server_state.stream_counter, 1)
                        } else {
                            &&& replies(r, seq![built(CLSE, 0, 0, Seq::empty())])
                            &&& final(self).dispatcher.server_state.stream_counter == old(self).dispatcher.server_state.stream_counter
                        }
                    } else {
                        r matches HandlerStep::Reply(v)
                            && device_opened(*old(self), *final(self), message@.arg0, service, now_ms, messages_view(v@))
                    }
                },
                Some(AdbCommand::OKAY) => replies(r, Seq::empty())
                    && acknowledged(*old(self), *final(self), message@.arg0, now_ms),
                Some(AdbCommand::WRTE) => replies(r, seq![built(OKAY, message@.arg0, 0, Seq::empty())])
                    && forwarded(*old(self), *final(self), message@.arg0, message@.data.len() as u64, now_ms),
                Some(AdbCommand::CLSE) => replies(r, Seq::empty())
                    && closed(*old(self), *final(self), message@.arg0, now_ms),
                Some(AdbCommand::PING) => replies(r, seq![built(PONG, 0, 0, Seq::empty())])
                    && same_activity(*old(self), *final(self)),
                Some(AdbCommand::PONG) => replies(r, Seq::empty())
                    && same_activity(*old(self), *final(self))
                    && final(self).dispatcher.server_state.stats == counted(
                        counted(old(self).dispatcher.server_state.stats, message@.data_length as u64),
                        (message@.data.len() + 24) as u64)
                    && final(self).dispatcher.server_state.stream_counter == old(self).dispatcher.server_state.stream_counter,
            },
    {
        self.dispatcher.server_state.stats.message_processed(message.data_length as u64);
        match validate_message(message) {
            Err(e) => return HandlerStep::Fail(e),
            Ok(()) => {},
        }
        let mut out: Vec<AdbMessage> = Vec::new();
        let command = match AdbCommand::from_u32(message.command) {
            Some(c) => c,
            None => {
                out.push(AdbMessage::new_clse(0, 0));
                assert(messages_view(out@) =~= seq![built(CLSE, 0, 0, Seq::empty())]);
                return HandlerStep::Reply(out);
            },
        };
        match command {
            AdbCommand::CNXN => {
                let identity: Vec<u8> = vec![100u8, 101, 118, 105, 99, 101, 58, 58, 0];
                out.push(AdbMessage::new_cnxn(1, 1048576, identity));
                assert(messages_view(out@) =~= seq![built(CNXN, 1, 1048576, server_identity())]);
                HandlerStep::Reply(out)
            },
            AdbCommand::OPEN => {
                let service = utf8_lossy(message.data.as_slice());
                if starts_with(service.as_str(), "host:") {
                    match self.dispatcher.dispatch_message(message) {
                        Ok(DispatchOutcome::Reply(v)) => HandlerStep::Reply(v),
                        Ok(DispatchOutcome::HostService { remote_id, local_id, service, args }) =>
                            HandlerStep::HostService { remote_id, local_id, service, args },
                        Err(_) => {
                            out.push(AdbMessage::new_clse(0, 0));
                            assert(messages_view(out@) =~= seq![built(CLSE, 0, 0, Seq::empty())]);
                            HandlerStep::Reply(out)
                        },
                    }
                } else {
                    HandlerStep::Reply(self.open_device_stream(message.arg0, service.as_str(), now_ms))
                }
            },
            AdbCommand::OKAY => {
                self.stream_acknowledged(message.arg0, now_ms);
                assert(messages_view(out@) =~= Seq::<MessageModel>::empty());
                HandlerStep::Reply(out)
            },
            AdbCommand::WRTE => {
                self.data_forwarded(message.arg0, message.data.len() as u64, now_ms);
                out.push(AdbMessage::new_okay(message.arg0, 0));
                assert(messages_view(out@) =~= seq![built(OKAY, message@.arg0, 0, Seq::empty())]);
                HandlerStep::Reply(out)
            },
            AdbCommand::CLSE => {
                self.close_stream(message.arg0, now_ms);
                assert(messages_view(out@) =~= Seq::<MessageModel>::empty());
                HandlerStep::Reply(out)
            },
            AdbCommand::PING => {
                out.push(AdbMessage::new_pong());
                assert(messages_view(out@) =~= seq![built(PONG, 0, 0, Seq::empty())]);
                HandlerStep::Reply(out)
            },
            AdbCommand::PONG => {
                match self.dispatcher.dispatch_message(message) {
                    Ok(DispatchOutcome::Reply(v)) => {
                        assert(messages_view(v@) =~= Seq::<MessageModel>::empty());
                        HandlerStep::Reply(v)
                    },
                    Ok(DispatchOutcome::HostService { remote_id, local_id, service, args }) =>
                        HandlerStep::HostService { remote_id, local_id, service, args },
                    Err(e) => HandlerStep::Fail(e),
                }
            },
        }
    }
}

} // verus!
