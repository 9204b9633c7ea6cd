use vstd::prelude::*;
use vstd::string::StrSliceExecFns;
use crate::protocol::error::ProtocolError;
use crate::clock::{instant_now, elapsed_ms};
use crate::text::{has_prefix, starts_with, to_owned_string, find_char, index_of_char, parse_bounded, parse_uint, str_eq};

verus! {

/// Lifecycle of a stream.
#[derive(Debug, Clone, PartialEq, Eq)]
pub enum StreamState {
    /// OPEN sent, waiting for OKAY.
    Opening,
    /// Ready for data transfer.
    Active,
    /// CLSE sent, waiting for acknowledgment.
    Closing,
    /// Closed.
    Closed,
    /// Failed.
    Error { message: String, code: u32 },
}

/// What a stream carries, as told by its service name.
#[derive(Debug, Clone, PartialEq, Eq)]
pub enum StreamType {
    Shell,
    FileTransfer,
    PortForward { local_port: u16, remote_port: u16 },
    HostService,
    Raw,
    Custom(String),
}

/// The model of a `StreamType`, with the custom name as text.
pub enum StreamTypeSpec {
    Shell,
    FileTransfer,
    PortForward { local_port: u16, remote_port: u16 },
    HostService,
    Raw,
    Custom(Seq<char>),
}

impl View for StreamType {
    type V = StreamTypeSpec;

    open spec fn view(&self) -> StreamTypeSpec {
        match self {
            StreamType::Shell => StreamTypeSpec::Shell,
            StreamType::FileTransfer => StreamTypeSpec::FileTransfer,
            StreamType::PortForward { local_port, remote_port } => StreamTypeSpec::PortForward {
                local_port: *local_port,
                remote_port: *remote_port,
            },
            StreamType::HostService => StreamTypeSpec::HostService,
            StreamType::Raw => StreamTypeSpec::Raw,
            StreamType::Custom(s) => StreamTypeSpec::Custom(s@),
        }
    }
}

/// The two ports of "local:remote", when the text has exactly one colon and
/// both sides are port numbers.
pub open spec fn spec_port_pair(rest: Seq<char>) -> Option<(u16, u16)> {
    match index_of_char(rest, ':') {
        Some(k) => if index_of_char(rest.skip(k + 1), ':') is None {
            match (parse_bounded(rest.take(k), 65535), parse_bounded(rest.skip(k + 1), 65535)) {
                (Some(a), Some(b)) => Some((a as u16, b as u16)),
                _ => None,
            }
        } else {
            None
        },
        None => None,
    }
}

/// The stream type a service name stands for.
pub open spec fn spec_stream_type(name: Seq<char>) -> StreamTypeSpec {
    if has_prefix(name, "shell"@) {
        StreamTypeSpec::Shell
    } else if has_prefix(name, "host:"@) {
        StreamTypeSpec::HostService
    } else if has_prefix(name, "tcp:"@) {
        match spec_port_pair(name.skip(4)) {
            Some((a, b)) => StreamTypeSpec::PortForward { local_port: a, remote_port: b },
            None => StreamTypeSpec::Custom(name),
        }
    } else if has_prefix(name, "sync:"@) {
        StreamTypeSpec::FileTransfer
    } else {
        StreamTypeSpec::Custom(name)
    }
}

/// The ports of "local:remote", as `spec_port_pair` says.
fn port_pair(rest: &str) -> (r: Option<(u16, u16)>)
    ensures
        r == spec_port_pair(rest@),
{
    let n = rest.unicode_len();
    match find_char(rest, ':') {
        Some(k) => {
            let first = rest.substring_char(0, k);
            let second = rest.substring_char(k + 1, n);
            assert(first@ =~= rest@.take(k as int));
            assert(second@ =~= rest@.skip(k + 1));
            if find_char(second, ':').is_some() {
                return None;
            }
            match (parse_uint(first, 65535), parse_uint(second, 65535)) {
                (Some(a), Some(b)) => Some((a as u16, b as u16)),
                _ => None,
            }
        },
        None => None,
    }
}

impl StreamType {
    /// The stream type a service name stands for: "shell…" is a shell,
    /// "host:…" a host service, "tcp:L:R" a port forward, "sync:…" a file
    /// transfer, and anything else a custom stream.
    pub fn from_service_name(service_name: &str) -> (r: Self)
        ensures
            r@ == spec_stream_type(service_name@),
    {
        proof {
            reveal_strlit("shell");
            reveal_strlit("host:");
            reveal_strlit("tcp:");
            reveal_strlit("sync:");
        }
        if starts_with(service_name, "shell") {
            StreamType::Shell
        } else if starts_with(service_name, "host:") {
            StreamType::HostService
        } else if starts_with(service_name, "tcp:") {
            let n = service_name.unicode_len();
            let rest = service_name.substring_char(4, n);
            assert(rest@ =~= service_name@.skip(4));
            match port_pair(rest) {
                Some((a, b)) => StreamType::PortForward { local_port: a, remote_port: b },
                None => StreamType::Custom(to_owned_string(service_name)),
            }
        } else if starts_with(service_name, "sync:") {
            StreamType::FileTransfer
        } else {
            StreamType::Custom(to_owned_string(service_name))
        }
    }
}

/// Descriptive data of a stream.
#[derive(Debug, Clone)]
pub struct StreamMetadata {
    /// 0 to 255, higher is more urgent.
    pub priority: u8,
    pub description: Option<String>,
    /// Additional properties, as key and value.
    pub properties: Vec<(String, String)>,
    /// Timeout override in milliseconds.
    pub timeout_override_ms: Option<u64>,
}

impl Default for StreamMetadata {
    fn default() -> (r: Self)
        ensures
            r.priority == 0,
            r.description is None,
            r.properties@.len() == 0,
            r.timeout_override_ms is None,
    {
        StreamMetadata { priority: 0, description: None, properties: Vec::new(), timeout_override_ms: None }
    }
}

/// A handler for the messages of a stream.
#[derive(Debug, Clone)]
pub struct StreamHandler {
    pub handler_type: StreamHandlerType,
    pub config: StreamHandlerConfig,
}

/// Kinds of stream handlers.
#[derive(Debug, Clone)]
pub enum StreamHandlerType {
    Echo,
    Shell { command: String },
    FileTransfer { operation: FileOperation },
    PortForward { target_address: String },
    Custom { handler_name: String },
}

/// File operations of a file transfer stream.
#[derive(Debug, Clone)]
pub enum FileOperation {
    Upload { local_path: String, remote_path: String },
    Download { remote_path: String, local_path: String },
    List { path: String },
    Delete { path: String },
}

/// Settings of a stream handler.
#[derive(Debug, Clone)]
pub struct StreamHandlerConfig {
    pub buffer_size: usize,
    /// Operation timeout in milliseconds.
    pub timeout_ms: u64,
    pub enable_logging: bool,
    /// Custom parameters, as key and value.
    pub parameters: Vec<(String, String)>,
}

impl Default for StreamHandlerConfig {
    fn default() -> (r: Self)
        ensures
            r.buffer_size == 0,
            r.timeout_ms == 0,
            !r.enable_logging,
            r.parameters@.len() == 0,
    {
        StreamHandlerConfig { buffer_size: 0, timeout_ms: 0, enable_logging: false, parameters: Vec::new() }
    }
}

/// What a full buffer does with more data.
#[derive(Debug, Clone, Copy, PartialEq, Eq, Structural)]
pub enum BufferOverflowBehavior {
    /// Drop the oldest data.
    DropOldest,
    /// Keep what fits and drop the rest of the new data.
    DropNewest,
    /// Refuse the write.
    Error,
    /// Wait for room; as yet this drops the oldest data.
    Block,
}

/// The limits of a stream buffer.
#[derive(Debug, Clone)]
pub struct StreamBufferCapacity {
    pub max_incoming: usize,
    pub max_outgoing: usize,
    pub overflow_behavior: BufferOverflowBehavior,
}

/// Counters of a stream buffer.
#[derive(Debug, Clone, Copy, PartialEq, Eq, Structural)]
pub struct StreamBufferStats {
    pub incoming_bytes_written: u64,
    pub incoming_bytes_read: u64,
    pub outgoing_bytes_written: u64,
    pub outgoing_bytes_read: u64,
    pub overflow_count: u64,
}

impl Default for StreamBufferStats {
    fn default() -> (r: Self)
        ensures
            r == (StreamBufferStats {
                incoming_bytes_written: 0,
                incoming_bytes_read: 0,
                outgoing_bytes_written: 0,
                outgoing_bytes_read: 0,
                overflow_count: 0,
            }),
    {
        StreamBufferStats {
            incoming_bytes_written: 0,
            incoming_bytes_read: 0,
            outgoing_bytes_written: 0,
            outgoing_bytes_read: 0,
            overflow_count: 0,
        }
    }
}

/// Data waiting on a stream, in both directions.
#[derive(Debug, Clone)]
pub struct StreamBuffer {
    pub incoming: Vec<u8>,
    pub outgoing: Vec<u8>,
    pub capacity: StreamBufferCapacity,
    pub stats: StreamBufferStats,
}

/// Room left under `max` when `len` is held (zero when over).
pub open spec fn room(max: usize, len: nat) -> int {
    if len <= max { max - len } else { 0 }
}

/// Whether an overflow policy makes room by dropping the oldest data.
pub open spec fn drops_oldest(b: BufferOverflowBehavior) -> bool {
    b == BufferOverflowBehavior::DropOldest || b == BufferOverflowBehavior::Block
}

impl StreamBuffer {
    /// Empty buffers of `capacity` bytes each way that drop the oldest data
    /// when full.
    pub fn new(capacity: usize) -> (r: Self)
        ensures
            r.incoming@.len() == 0,
            r.outgoing@.len() == 0,
            r.capacity.max_incoming == capacity,
            r.capacity.max_outgoing == capacity,
            r.capacity.overflow_behavior == BufferOverflowBehavior::DropOldest,
            r.stats == (StreamBufferStats {
                incoming_bytes_written: 0,
                incoming_bytes_read: 0,
                outgoing_bytes_written: 0,
                outgoing_bytes_read: 0,
                overflow_count: 0,
            }),
    {
        StreamBuffer {
            incoming: Vec::new(),
            outgoing: Vec::new(),
            capacity: StreamBufferCapacity {
                max_incoming: capacity,
                max_outgoing: capacity,
                overflow_behavior: BufferOverflowBehavior::DropOldest,
            },
            stats: StreamBufferStats::default(),
        }
    }

    /// Appends `data` to the incoming buffer. When it does not fit, the
    /// overflow policy decides: drop the oldest bytes to make room (keeping
    /// the newest bytes, of the old data and the new, that fit; all of
    /// `data` counts as written), keep only what fits, or refuse the write.
    pub fn write_incoming(&mut self, data: &[u8]) -> (r: Result<usize, ProtocolError>)
        requires
            old(self).incoming@.len() + data@.len() <= usize::MAX,
            old(self).stats.incoming_bytes_written + data@.len() <= u64::MAX,
            old(self).stats.overflow_count < u64::MAX,
        ensures
            ({
                let avail = room(old(self).capacity.max_incoming, old(self).incoming@.len());
                let inc = old(self).incoming@;
                let st = old(self).stats;
                &&& final(self).outgoing@ == old(self).outgoing@
                &&& final(self).capacity == old(self).capacity
                &&& final(self).stats.incoming_bytes_read == st.incoming_bytes_read
                &&& final(self).stats.outgoing_bytes_written == st.outgoing_bytes_written
                &&& final(self).stats.outgoing_bytes_read == st.outgoing_bytes_read
                &&& if data@.len() <= avail {
                    &&& r == Ok::<usize, ProtocolError>(data@.len() as usize)
                    &&& final(self).incoming@ == inc + data@
                    &&& final(self).stats.incoming_bytes_written == st.incoming_bytes_written + data@.len()
                    &&& final(self).stats.overflow_count == st.overflow_count
                } else {
                    match old(self).capacity.overflow_behavior {
                        BufferOverflowBehavior::DropNewest => {
                            &&& r == Ok::<usize, ProtocolError>(avail as usize)
                            &&& final(self).incoming@ == inc + data@.take(avail)
                            &&& final(self).stats.incoming_bytes_written == st.incoming_bytes_written + avail
                            &&& final(self).stats.overflow_count == st.overflow_count + 1
                        },
                        BufferOverflowBehavior::Error => {
                            &&& r == Err::<usize, ProtocolError>(ProtocolError::StreamBufferOverflow {
                                size: (inc.len() + data@.len()) as usize,
                                capacity: old(self).capacity.max_incoming,
                            })
                            &&& final(self).incoming@ == inc
                            &&& final(self).stats == st
                        },
                        _ => {
                            &&& r == Ok::<usize, ProtocolError>(data@.len() as usize)
                            &&& final(self).incoming@ == (inc + data@).skip(data@.len() - avail)
                            &&& inc.len() <= old(self).capacity.max_incoming ==> final(self).incoming@
                                == (inc + data@).skip((inc + data@).len() - old(self).capacity.max_incoming)
                            &&& final(self).stats.incoming_bytes_written == st.incoming_bytes_written + data@.len()
                            &&& final(self).stats.overflow_count == st.overflow_count + 1
                        },
                    }
                }
            }),
    {
        let len = self.incoming.len();
        let available_space: usize = if len <= self.capacity.max_incoming {
            self.capacity.max_incoming - len
        } else {
            0
        };
        if data.len() > available_space {
            match self.capacity.overflow_behavior {
                BufferOverflowBehavior::DropNewest => {
                    crate::wire::append_range(&mut self.incoming, data, 0, available_space);
                    assert(data@.subrange(0, available_space as int) =~= data@.take(available_space as int));
                    self.stats.incoming_bytes_written = self.stats.incoming_bytes_written + available_space as u64;
                    self.stats.overflow_count = self.stats.overflow_count + 1;
                    return Ok(available_space);
                },
                BufferOverflowBehavior::Error => {
                    return Err(ProtocolError::StreamBufferOverflow {
                        size: len + data.len(),
                        capacity: self.capacity.max_incoming,
                    });
                },
                _ => {
                    let bytes_to_drop = data.len() - available_space;
                    if bytes_to_drop > len {
                        // more new data than the buffer holds: only its newest bytes stay
                        let kept = crate::wire::copy_range(data, bytes_to_drop - len, data.len());
                        assert(kept@ =~= (old(self).incoming@ + data@).skip(bytes_to_drop as int));
                        self.incoming = kept;
                        self.stats.overflow_count = self.stats.overflow_count + 1;
                        self.stats.incoming_bytes_written = self.stats.incoming_bytes_written + data.len() as u64;
                        return Ok(data.len());
                    }
                    let kept = crate::wire::copy_range(self.incoming.as_slice(), bytes_to_drop, len);
                    assert(kept@ =~= old(self).incoming@.skip(bytes_to_drop as int));
                    assert(kept@ + data@ =~= (old(self).incoming@ + data@).skip(bytes_to_drop as int));
                    self.incoming = kept;
                    self.stats.overflow_count = self.stats.overflow_count + 1;
                },
            }
        }
        crate::wire::append_all(&mut self.incoming, data);
        self.stats.incoming_bytes_written = self.stats.incoming_bytes_written + data.len() as u64;
        Ok(data.len())
    }

    /// Moves up to `buffer.len()` bytes from the front of the incoming
    /// buffer into `buffer`, and says how many.
    pub fn read_incoming(&mut self, buffer: &mut [u8]) -> (r: usize)
        requires
            old(self).stats.incoming_bytes_read + old(buffer)@.len() <= u64::MAX,
        ensures
            r == if old(buffer)@.len() <= old(self).incoming@.len() { old(buffer)@.len() } else { old(self).incoming@.len() },
            final(buffer)@ == old(self).incoming@.take(r as int) + old(buffer)@.skip(r as int),
            final(self).incoming@ == old(self).incoming@.skip(r as int),
            final(self).outgoing@ == old(self).outgoing@,
            final(self).capacity == old(self).capacity,
            final(self).stats == (StreamBufferStats {
                incoming_bytes_read: (old(self).stats.incoming_bytes_read + r) as u64,
                ..old(self).stats
            }),
    {
        let len = self.incoming.len();
        let bytes_to_read: usize = if buffer.len() <= len { buffer.len() } else { len };
        let mut i: usize = 0;
        while i < bytes_to_read
            invariant
                i <= bytes_to_read,
                bytes_to_read <= len,
                bytes_to_read <= old(buffer)@.len(),
                len == self.incoming@.len(),
                self.incoming@ == old(self).incoming@,
                buffer@.len() == old(buffer)@.len(),
                forall|j: int| 0 <= j < i ==> buffer@[j] == self.incoming@[j],
                forall|j: int| i <= j < buffer@.len() ==> buffer@[j] == old(buffer)@[j],
            decreases bytes_to_read - i,
        {
            buffer[i] = self.incoming[i];
            i = i + 1;
        }
        assert(buffer@ =~= old(self).incoming@.take(bytes_to_read as int) + old(buffer)@.skip(bytes_to_read as int));
        let kept = crate::wire::copy_range(self.incoming.as_slice(), bytes_to_read, len);
        assert(kept@ =~= old(self).incoming@.skip(bytes_to_read as int));
        self.incoming = kept;
        self.stats.incoming_bytes_read = self.stats.incoming_bytes_read + bytes_to_read as u64;
        bytes_to_read
    }
}

/// Settings of stream management.
#[derive(Debug, Clone)]
pub struct StreamConfig {
    pub max_streams_per_session: usize,
    /// Milliseconds of inactivity after which a stream may be cleaned up.
    pub default_timeout_ms: u64,
    pub default_buffer_size: usize,
    pub enable_monitoring: bool,
    pub auto_cleanup: bool,
    /// Milliseconds between cleanups.
    pub cleanup_interval_ms: u64,
}

impl Default for StreamConfig {
    /// 64 streams per session, a 60 s timeout, 64 KiB buffers, monitoring
    /// and cleanup every 30 s.
    fn default() -> (r: Self)
        ensures
            r.max_streams_per_session == 64,
            r.default_timeout_ms == 60_000,
            r.default_buffer_size == 65536,
            r.enable_monitoring,
            r.auto_cleanup,
            r.cleanup_interval_ms == 30_000,
    {
        StreamConfig {
            max_streams_per_session: 64,
            default_timeout_ms: 60_000,
            default_buffer_size: 64 * 1024,
            enable_monitoring: true,
            auto_cleanup: true,
            cleanup_interval_ms: 30_000,
        }
    }
}

/// Counts of streams by state.
#[derive(Debug, Clone, Copy, PartialEq, Eq, Structural)]
pub struct StreamManagerStats {
    pub total_sessions: usize,
    pub total_streams: usize,
    pub active_streams: usize,
    pub opening_streams: usize,
    pub closing_streams: usize,
    pub closed_streams: usize,
    pub error_streams: usize,
}

impl Default for StreamManagerStats {
    fn default() -> (r: Self)
        ensures
            r == (StreamManagerStats {
                total_sessions: 0,
                total_streams: 0,
                active_streams: 0,
                opening_streams: 0,
                closing_streams: 0,
                closed_streams: 0,
                error_streams: 0,
            }),
    {
        StreamManagerStats {
            total_sessions: 0,
            total_streams: 0,
            active_streams: 0,
            opening_streams: 0,
            closing_streams: 0,
            closed_streams: 0,
            error_streams: 0,
        }
    }
}

} // verus!

verus! {

/// Counters of one stream.
#[derive(Debug, Clone, Copy, PartialEq, Eq, Structural)]
pub struct StreamStats {
    pub messages_sent: u64,
    pub messages_received: u64,
    pub bytes_sent: u64,
    pub bytes_received: u64,
    pub error_count: u64,
}

impl Default for StreamStats {
    fn default() -> (r: Self)
        ensures
            r == (StreamStats { messages_sent: 0, messages_received: 0, bytes_sent: 0, bytes_received: 0, error_count: 0 }),
    {
        StreamStats { messages_sent: 0, messages_received: 0, bytes_sent: 0, bytes_received: 0, error_count: 0 }
    }
}

/// What is known of a stream; times in milliseconds on the caller's clock.
#[derive(Debug, Clone)]
pub struct StreamInfo {
    pub session_id: String,
    /// Unique within the session.
    pub local_stream_id: u32,
    pub remote_stream_id: u32,
    pub service_name: String,
    pub state: StreamState,
    pub stream_type: StreamType,
    pub stats: StreamStats,
    pub metadata: StreamMetadata,
    pub created_at_ms: u64,
    pub modified_at_ms: u64,
}

/// A stream with its handler, its buffers and its last activity.
#[derive(Debug, Clone)]
pub struct StreamEntry {
    pub info: StreamInfo,
    pub handler: Option<StreamHandler>,
    pub buffer: StreamBuffer,
    pub last_activity_ms: u64,
}

/// Whether `e` is the stream `id` of session `session`.
pub open spec fn is_stream(e: StreamEntry, session: Seq<char>, id: u32) -> bool {
    e.info.session_id@ == session && e.info.local_stream_id == id
}

/// The streams of `session` among `entries`, in order.
pub open spec fn of_session(entries: Seq<StreamEntry>, session: Seq<char>) -> Seq<StreamEntry> {
    entries.filter(|e: StreamEntry| e.info.session_id@ == session)
}

/// The next local id recorded for `session` (1 when none is).
pub open spec fn next_id_in(ids: Seq<(String, u32)>, session: Seq<char>) -> u32
    decreases ids.len(),
{
    if ids.len() == 0 {
        1
    } else if ids.last().0@ == session {
        ids.last().1
    } else {
        next_id_in(ids.drop_last(), session)
    }
}

/// Whether a stream survives a cleanup at `now_ms` with a timeout of
/// `timeout_ms`: it was active within the timeout, or it is opening or
/// active.
pub open spec fn survives_cleanup(e: StreamEntry, now_ms: u64, timeout_ms: u64) -> bool {
    e.last_activity_ms + timeout_ms > now_ms || e.info.state is Active || e.info.state is Opening
}

/// The counts of streams by state, with the number of sessions.
pub open spec fn state_counts(entries: Seq<StreamEntry>, sessions: nat) -> StreamManagerStats
    decreases entries.len(),
{
    if entries.len() == 0 {
        StreamManagerStats {
            total_sessions: sessions as usize,
            total_streams: 0,
            active_streams: 0,
            opening_streams: 0,
            closing_streams: 0,
            closed_streams: 0,
            error_streams: 0,
        }
    } else {
        let s = state_counts(entries.drop_last(), sessions);
        let st = entries.last().info.state;
        StreamManagerStats {
            total_streams: (s.total_streams + 1) as usize,
            active_streams: if st is Active { (s.active_streams + 1) as usize } else { s.active_streams },
            opening_streams: if st is Opening { (s.opening_streams + 1) as usize } else { s.opening_streams },
            closing_streams: if st is Closing { (s.closing_streams + 1) as usize } else { s.closing_streams },
            closed_streams: if st is Closed { (s.closed_streams + 1) as usize } else { s.closed_streams },
            error_streams: if st is Error { (s.error_streams + 1) as usize } else { s.error_streams },
            ..s
        }
    }
}

/// The streams of all sessions.
///
/// Each session has its own local ids, handed out from 1 upwards and
/// never reused. A session is known from its first stream request until
/// its last stream goes.
#[derive(Debug)]
pub struct StreamManager {
    entries: Vec<StreamEntry>,
    sessions: Vec<String>,
    next_ids: Vec<(String, u32)>,
    config: StreamConfig,
    /// The origin of the manager's clock.
    epoch: std::time::Instant,
}

impl StreamManager {
    /// All streams, in the order they were created.
    pub closed spec fn spec_entries(&self) -> Seq<StreamEntry> {
        self.entries@
    }

    /// The sessions known, in the order they came.
    pub closed spec fn spec_sessions(&self) -> Seq<Seq<char>> {
        self.sessions@.map_values(|s: String| s@)
    }

    /// The local id the next stream of `session` gets.
    pub closed spec fn spec_next_id(&self, session: Seq<char>) -> u32 {
        next_id_in(self.next_ids@, session)
    }

    /// The settings.
    pub closed spec fn spec_config(&self) -> StreamConfig {
        self.config
    }

    /// No session is known twice, every stream's session is known, no two
    /// streams of a session share a local id, and every local id is below
    /// the next one of its session.
    pub closed spec fn wf(&self) -> bool {
        &&& forall|i: int, j: int| 0 <= i < j < self.sessions@.len() ==> #[trigger] self.sessions@[i]@ != #[trigger] self.sessions@[j]@
        &&& forall|i: int| 0 <= i < self.entries@.len() ==> self.spec_sessions().contains(#[trigger] self.entries@[i].info.session_id@)
        &&& forall|i: int, j: int| 0 <= i < j < self.entries@.len() ==>
            !is_stream(#[trigger] self.entries@[i], (#[trigger] self.entries@[j]).info.session_id@, self.entries@[j].info.local_stream_id)
        &&& forall|i: int| 0 <= i < self.entries@.len() ==>
            (#[trigger] self.entries@[i]).info.local_stream_id < next_id_in(self.next_ids@, self.entries@[i].info.session_id@)
    }

    /// No streams, with the default settings.
    pub fn new() -> (r: Self)
        ensures
            r.wf(),
            r.spec_entries().len() == 0,
            r.spec_sessions().len() == 0,
            forall|s: Seq<char>| r.spec_next_id(s) == 1,
            r.spec_config().max_streams_per_session == 64,
            r.spec_config().default_timeout_ms == 60_000,
            r.spec_config().default_buffer_size == 65536,
            r.spec_config().auto_cleanup,
    {
        StreamManager::with_config(StreamConfig::default())
    }

    /// No streams, with the given settings.
    pub fn with_config(config: StreamConfig) -> (r: Self)
        ensures
            r.wf(),
            r.spec_entries().len() == 0,
            r.spec_sessions().len() == 0,
            forall|s: Seq<char>| r.spec_next_id(s) == 1,
            r.spec_config() == config,
    {
        let r = StreamManager { entries: Vec::new(), sessions: Vec::new(), next_ids: Vec::new(), config, epoch: instant_now() };
        assert(r.spec_sessions() =~= Seq::<Seq<char>>::empty());
        r
    }

    fn session_index(&self, session_id: &str) -> (r: Option<usize>)
        ensures
            match r {
                Some(i) => i < self.sessions@.len() && self.sessions@[i as int]@ == session_id@,
                None => !self.spec_sessions().contains(session_id@),
            },
    {
        let mut i: usize = 0;
        while i < self.sessions.len()
            invariant
                i <= self.sessions@.len(),
                forall|j: int| 0 <= j < i ==> self.sessions@[j]@ != session_id@,
            decreases self.sessions@.len() - i,
        {
            if str_eq(self.sessions[i].as_str(), session_id) {
                return Some(i);
            }
            i = i + 1;
        }
        proof {
            if self.spec_sessions().contains(session_id@) {
                let k = choose|k: int| 0 <= k < self.spec_sessions().len() && self.spec_sessions()[k] == session_id@;
                assert(self.sessions@[k]@ == session_id@);
            }
        }
        None
    }

    fn entry_index(&self, session_id: &str, local_stream_id: u32) -> (r: Option<usize>)
        ensures
            match r {
                Some(i) => i < self.entries@.len() && is_stream(self.entries@[i as int], session_id@, local_stream_id),
                None => forall|j: int| 0 <= j < self.entries@.len() ==> !is_stream(#[trigger] self.entries@[j], session_id@, local_stream_id),
            },
    {
        let mut i: usize = 0;
        while i < self.entries.len()
            invariant
                i <= self.entries@.len(),
                forall|j: int| 0 <= j < i ==> !is_stream(#[trigger] self.entries@[j], session_id@, local_stream_id),
            decreases self.entries@.len() - i,
        {
            if self.entries[i].info.local_stream_id == local_stream_id
                && str_eq(self.entries[i].info.session_id.as_str(), session_id) {
                return Some(i);
            }
            i = i + 1;
        }
        None
    }

    fn next_id_index(&self, session_id: &str) -> (r: Option<usize>)
        ensures
            match r {
                Some(i) => i < self.next_ids@.len() && self.next_ids@[i as int].0@ == session_id@
                    && next_id_in(self.next_ids@, session_id@) == self.next_ids@[i as int].1
                    && forall|j: int| i < j < self.next_ids@.len() ==> self.next_ids@[j].0@ != session_id@,
                None => next_id_in(self.next_ids@, session_id@) == 1
                    && forall|j: int| 0 <= j < self.next_ids@.len() ==> self.next_ids@[j].0@ != session_id@,
            },
    {
        let mut i: usize = self.next_ids.len();
        assert(self.next_ids@.take(i as int) =~= self.next_ids@);
        while i > 0
            invariant
                i <= self.next_ids@.len(),
                forall|j: int| i <= j < self.next_ids@.len() ==> self.next_ids@[j].0@ != session_id@,
                next_id_in(self.next_ids@, session_id@) == next_id_in(self.next_ids@.take(i as int), session_id@),
            decreases i,
        {
            let k = i - 1;
            proof {
                assert(self.next_ids@.take(i as int).drop_last() =~= self.next_ids@.take(k as int));
            }
            if str_eq(self.next_ids[k].0.as_str(), session_id) {
                return Some(k);
            }
            i = k;
        }
        assert(self.next_ids@.take(0) =~= Seq::<(String, u32)>::empty());
        None
    }

    /// How many streams `session_id` has.
    fn count_of(&self, session_id: &str) -> (r: usize)
        ensures
            r == of_session(self.entries@, session_id@).len(),
    {
        let mut count: usize = 0;
        let mut i: usize = 0;
        while i < self.entries.len()
            invariant
                i <= self.entries@.len(),
                count == of_session(self.entries@.take(i as int), session_id@).len(),
                count <= i,
            decreases self.entries@.len() - i,
        {
            proof {
                reveal(Seq::filter);
                assert(self.entries@.take(i + 1).drop_last() =~= self.entries@.take(i as int));
            }
            if str_eq(self.entries[i].info.session_id.as_str(), session_id) {
                count = count + 1;
            }
            i = i + 1;
        }
        assert(self.entries@.take(self.entries@.len() as int) =~= self.entries@);
        count
    }
}


/// What opening a stream does: `after` is `before` with a stream of
/// `session` towards `remote` for `service` opened at `now_ms`, and `r` is
/// what comes back. The session becomes known even when the stream is
/// refused; a session at its limit gets the count and the limit back.
pub open spec fn spec_create(
    before: StreamManager,
    after: StreamManager,
    session: Seq<char>,
    remote: u32,
    service: Seq<char>,
    now_ms: u64,
    r: Result<u32, ProtocolError>,
) -> bool {
    let count = of_session(before.spec_entries(), session).len();
    let max = before.spec_config().max_streams_per_session;
    &&& after.spec_config() == before.spec_config()
    &&& after.spec_sessions() == (if before.spec_sessions().contains(session) {
        before.spec_sessions()
    } else {
        before.spec_sessions().push(session)
    })
    &&& if count >= max {
        &&& r == Err::<u32, ProtocolError>(ProtocolError::MaxStreamsExceeded { count: count as usize, max })
        &&& after.spec_entries() == before.spec_entries()
        &&& forall|t: Seq<char>| after.spec_next_id(t) == before.spec_next_id(t)
    } else {
        let e = after.spec_entries().last();
        &&& r == Ok::<u32, ProtocolError>(before.spec_next_id(session))
        &&& after.spec_entries().len() == before.spec_entries().len() + 1
        &&& after.spec_entries().drop_last() == before.spec_entries()
        &&& forall|t: Seq<char>| after.spec_next_id(t)
            == if t == session { (before.spec_next_id(t) + 1) as u32 } else { before.spec_next_id(t) }
        &&& e.info.session_id@ == session
        &&& e.info.local_stream_id == before.spec_next_id(session)
        &&& e.info.remote_stream_id == remote
        &&& e.info.service_name@ == service
        &&& e.info.state == StreamState::Opening
        &&& e.info.stream_type@ == spec_stream_type(service)
        &&& e.info.stats == StreamStats { messages_sent: 0, messages_received: 0, bytes_sent: 0, bytes_received: 0, error_count: 0 }
        &&& e.info.metadata.priority == 0
        &&& e.info.metadata.description is None
        &&& e.info.metadata.properties@.len() == 0
        &&& e.info.metadata.timeout_override_ms is None
        &&& e.info.created_at_ms == now_ms
        &&& e.info.modified_at_ms == now_ms
        &&& e.handler is None
        &&& e.buffer.incoming@.len() == 0
        &&& e.buffer.outgoing@.len() == 0
        &&& e.buffer.capacity.max_incoming == before.spec_config().default_buffer_size
        &&& e.buffer.capacity.max_outgoing == before.spec_config().default_buffer_size
        &&& e.last_activity_ms == now_ms
    }
}

/// What setting a stream's state does: the stream `id` of `session` takes
/// `state` and is marked modified and active at `now_ms`; a missing stream
/// is reported with a remote id of 0 and nothing changes.
pub open spec fn spec_state_set(
    before: StreamManager,
    after: StreamManager,
    session: Seq<char>,
    id: u32,
    state: StreamState,
    now_ms: u64,
    r: Result<(), ProtocolError>,
) -> bool {
    &&& after.spec_sessions() == before.spec_sessions()
    &&& after.spec_config() == before.spec_config()
    &&& forall|t: Seq<char>| after.spec_next_id(t) == before.spec_next_id(t)
    &&& match r {
        Ok(()) => exists|j: int| 0 <= j < before.spec_entries().len()
            && is_stream(before.spec_entries()[j], session, id)
            && after.spec_entries() == before.spec_entries().update(j, StreamEntry {
                info: StreamInfo { state: state, modified_at_ms: now_ms, ..before.spec_entries()[j].info },
                last_activity_ms: now_ms,
                ..before.spec_entries()[j]
            }),
        Err(e) => e == ProtocolError::StreamNotFound { local_id: id, remote_id: 0 }
            && after.spec_entries() == before.spec_entries()
            && forall|j: int| 0 <= j < before.spec_entries().len() ==> !is_stream(#[trigger] before.spec_entries()[j], session, id),
    }
}

/// What counting traffic does: the stream `id` of `session` adds the bytes
/// each way, one message each way that carried bytes, and is marked
/// modified and active at `now_ms`; a missing stream is reported with a
/// remote id of 0 and nothing changes.
pub open spec fn spec_activity_recorded(
    before: StreamManager,
    after: StreamManager,
    session: Seq<char>,
    id: u32,
    sent: u64,
    received: u64,
    now_ms: u64,
    r: Result<(), ProtocolError>,
) -> bool {
    &&& after.spec_sessions() == before.spec_sessions()
    &&& after.spec_config() == before.spec_config()
    &&& forall|t: Seq<char>| after.spec_next_id(t) == before.spec_next_id(t)
    &&& match r {
        Ok(()) => exists|j: int| 0 <= j < before.spec_entries().len()
            && is_stream(before.spec_entries()[j], session, id)
            && after.spec_entries() == before.spec_entries().update(j, {
                let o = before.spec_entries()[j];
                StreamEntry {
                    info: StreamInfo {
                        stats: StreamStats {
                            bytes_sent: (o.info.stats.bytes_sent + sent) as u64,
                            bytes_received: (o.info.stats.bytes_received + received) as u64,
                            messages_sent: if sent > 0 { (o.info.stats.messages_sent + 1) as u64 } else { o.info.stats.messages_sent },
                            messages_received: if received > 0 { (o.info.stats.messages_received + 1) as u64 } else { o.info.stats.messages_received },
                            ..o.info.stats
                        },
                        modified_at_ms: now_ms,
                        ..o.info
                    },
                    last_activity_ms: now_ms,
                    ..o
                }
            }),
        Err(e) => e == ProtocolError::StreamNotFound { local_id: id, remote_id: 0 }
            && after.spec_entries() == before.spec_entries()
            && forall|j: int| 0 <= j < before.spec_entries().len() ==> !is_stream(#[trigger] before.spec_entries()[j], session, id),
    }
}

/// What a cleanup at `now_ms` does: with cleanup off, nothing, and 0 comes
/// back; with it on, the streams that do not survive go, the sessions left
/// without streams are forgotten, and the number of streams that went
/// comes back.
pub open spec fn spec_cleaned(before: StreamManager, after: StreamManager, now_ms: u64, r: Result<usize, ProtocolError>) -> bool {
    &&& after.spec_config() == before.spec_config()
    &&& forall|t: Seq<char>| after.spec_next_id(t) == before.spec_next_id(t)
    &&& if !before.spec_config().auto_cleanup {
        &&& r == Ok::<usize, ProtocolError>(0)
        &&& after.spec_entries() == before.spec_entries()
        &&& after.spec_sessions() == before.spec_sessions()
    } else {
        &&& after.spec_entries() == before.spec_entries().filter(survivors(now_ms, before.spec_config().default_timeout_ms))
        &&& r == Ok::<usize, ProtocolError>((before.spec_entries().len() - after.spec_entries().len()) as usize)
        &&& forall|q: Seq<char>| after.spec_sessions().contains(q)
            <==> (before.spec_sessions().contains(q) && of_session(after.spec_entries(), q).len() > 0)
    }
}

/// Recording `v` at the last place `s` is keyed makes it the next id of `s`
/// and leaves every other session's.
proof fn lemma_next_id_update(ids: Seq<(String, u32)>, k: int, x: String, v: u32, t: Seq<char>)
    requires
        0 <= k < ids.len(),
        ids[k].0@ == x@,
        forall|j: int| k < j < ids.len() ==> ids[j].0@ != x@,
    ensures
        next_id_in(ids.update(k, (x, v)), t) == if t == x@ { v } else { next_id_in(ids, t) },
    decreases ids.len(),
{
    let u = ids.update(k, (x, v));
    if k == ids.len() - 1 {
        assert(u.drop_last() =~= ids.drop_last());
    } else {
        assert(u.drop_last() =~= ids.drop_last().update(k, (x, v)));
        lemma_next_id_update(ids.drop_last(), k, x, v, t);
    }
}

/// Recording `v` for `x` at the end makes it the next id of `x` and leaves
/// every other session's.
proof fn lemma_next_id_push(ids: Seq<(String, u32)>, x: String, v: u32, t: Seq<char>)
    ensures
        next_id_in(ids.push((x, v)), t) == if t == x@ { v } else { next_id_in(ids, t) },
{
    assert(ids.push((x, v)).drop_last() =~= ids);
}

impl StreamManager {
    /// Opens a stream of `session_id` towards `remote_stream_id` for
    /// `service_name` at `now_ms`. The session becomes known even when the
    /// stream is refused. When the session already has as many streams as
    /// allowed, the count and the limit come back in the error; otherwise
    /// the stream is appended, opening, under the session's next local id,
    /// which is returned.
    pub fn create_stream_at(&mut self, session_id: &str, remote_stream_id: u32, service_name: String, now_ms: u64) -> (r: Result<u32, ProtocolError>)
        requires
            old(self).wf(),
            old(self).spec_next_id(session_id@) < u32::MAX,
        ensures
            final(self).wf(),
            spec_create(*old(self), *final(self), session_id@, remote_stream_id, service_name@, now_ms, r),
    {
        let ghost old_sessions = self.spec_sessions();
        match self.session_index(session_id) {
            Some(i) => {
                proof {
                    assert(old_sessions[i as int] == session_id@);
                    assert(old_sessions.contains(session_id@));
                }
            },
            None => {
                let name = to_owned_string(session_id);
                self.sessions.push(name);
                proof {
                    assert(self.spec_sessions() =~= old_sessions.push(session_id@));
                    assert forall|i: int, j: int| 0 <= i < j < self.sessions@.len() implies
                        #[trigger] self.sessions@[i]@ != #[trigger] self.sessions@[j]@ by {
                        if j == self.sessions@.len() - 1 {
                            assert(old_sessions[i] == self.sessions@[i]@);
                        }
                    }
                    assert forall|i: int| 0 <= i < self.entries@.len() implies
                        self.spec_sessions().contains(#[trigger] self.entries@[i].info.session_id@) by {
                        let q = self.entries@[i].info.session_id@;
                        assert(old_sessions.contains(q));
                        let k = choose|k: int| 0 <= k < old_sessions.len() && old_sessions[k] == q;
                        assert(self.spec_sessions()[k] == q);
                    }
                }
            },
        }
        assert(self.spec_sessions() == (if old_sessions.contains(session_id@) {
            old_sessions
        } else {
            old_sessions.push(session_id@)
        }));
        let count = self.count_of(session_id);
        if count >= self.config.max_streams_per_session {
            return Err(ProtocolError::MaxStreamsExceeded { count, max: self.config.max_streams_per_session });
        }
        let ghost old_ids = self.next_ids@;
        let local_stream_id: u32 = match self.next_id_index(session_id) {
            Some(k) => {
                let id = self.next_ids[k].1;
                let name = to_owned_string(session_id);
                proof {
                    assert forall|t: Seq<char>| next_id_in(old_ids.update(k as int, (name, (id + 1) as u32)), t)
                        == if t == session_id@ { (id + 1) as u32 } else { next_id_in(old_ids, t) } by {
                        lemma_next_id_update(old_ids, k as int, name, (id + 1) as u32, t);
                    }
                }
                self.next_ids.set(k, (name, id + 1));
                id
            },
            None => {
                let name = to_owned_string(session_id);
                proof {
                    assert forall|t: Seq<char>| next_id_in(old_ids.push((name, 2u32)), t)
                        == if t == session_id@ { 2u32 } else { next_id_in(old_ids, t) } by {
                        lemma_next_id_push(old_ids, name, 2u32, t);
                    }
                }
                self.next_ids.push((name, 2));
                1
            },
        };
        let stream_type = StreamType::from_service_name(service_name.as_str());
        let info = StreamInfo {
            session_id: to_owned_string(session_id),
            local_stream_id,
            remote_stream_id,
            service_name,
            state: StreamState::Opening,
            stream_type,
            stats: StreamStats::default(),
            metadata: StreamMetadata::default(),
            created_at_ms: now_ms,
            modified_at_ms: now_ms,
        };
        let entry = StreamEntry {
            info,
            handler: None,
            buffer: StreamBuffer::new(self.config.default_buffer_size),
            last_activity_ms: now_ms,
        };
        let ghost before = self.entries@;
        self.entries.push(entry);
        proof {
            assert(self.entries@.drop_last() =~= before);
            let sid = session_id@;
            assert(self.spec_sessions().contains(sid)) by {
                if old_sessions.contains(sid) {
                    let k = choose|k: int| 0 <= k < old_sessions.len() && old_sessions[k] == sid;
                    assert(self.spec_sessions()[k] == sid);
                } else {
                    assert(self.spec_sessions() == old_sessions.push(sid));
                    assert(self.spec_sessions()[old_sessions.len() as int] == sid);
                }
            }
            assert forall|i: int| 0 <= i < self.entries@.len() implies
                self.spec_sessions().contains(#[trigger] self.entries@[i].info.session_id@) by {
                if i < before.len() {
                    assert(self.entries@[i] == before[i]);
                }
            }
            assert forall|i: int, j: int| 0 <= i < j < self.entries@.len() implies
                !is_stream(#[trigger] self.entries@[i], (#[trigger] self.entries@[j]).info.session_id@, self.entries@[j].info.local_stream_id) by {
                assert(self.entries@[i] == before[i]);
                if j < before.len() {
                    assert(self.entries@[j] == before[j]);
                }
            }
            assert forall|i: int| 0 <= i < self.entries@.len() implies
                (#[trigger] self.entries@[i]).info.local_stream_id < next_id_in(self.next_ids@, self.entries@[i].info.session_id@) by {
                if i < before.len() {
                    assert(self.entries@[i] == before[i]);
                }
            }
        }
        Ok(local_stream_id)
    }
}

impl StreamManager {
    /// Stream `local_stream_id` of `session_id`, if there is one. Never
    /// fails.
    pub fn get_stream(&self, session_id: &str, local_stream_id: u32) -> (r: Result<Option<&StreamEntry>, ProtocolError>)
        ensures
            match r {
                Ok(Some(e)) => exists|j: int| 0 <= j < self.spec_entries().len() && self.spec_entries()[j] == *e
                    && is_stream(*e, session_id@, local_stream_id),
                Ok(None) => forall|j: int| 0 <= j < self.spec_entries().len() ==> !is_stream(#[trigger] self.spec_entries()[j], session_id@, local_stream_id),
                Err(_) => false,
            },
    {
        match self.entry_index(session_id, local_stream_id) {
            Some(i) => {
                let e = &self.entries[i];
                assert(self.spec_entries()[i as int] == *e);
                Ok(Some(e))
            },
            None => Ok(None),
        }
    }

    /// Sets the state of stream `local_stream_id` of `session_id` and marks
    /// it modified and active at `now_ms`; a stream that is not there is
    /// reported with a remote id of 0.
    pub fn update_stream_state_at(&mut self, session_id: &str, local_stream_id: u32, new_state: StreamState, now_ms: u64) -> (r: Result<(), ProtocolError>)
        requires
            old(self).wf(),
        ensures
            final(self).wf(),
            spec_state_set(*old(self), *final(self), session_id@, local_stream_id, new_state, now_ms, r),
    {
        match self.entry_index(session_id, local_stream_id) {
            Some(i) => {
                let ghost before = self.entries@;
                let mut e = self.entries.remove(i);
                e.info.state = new_state;
                e.info.modified_at_ms = now_ms;
                e.last_activity_ms = now_ms;
                self.entries.insert(i, e);
                proof {
                    assert(self.entries@ =~= before.update(i as int, self.entries@[i as int]));
                    assert forall|a: int| 0 <= a < self.entries@.len() implies
                        (#[trigger] self.entries@[a]).info.session_id == before[a].info.session_id
                        && self.entries@[a].info.local_stream_id == before[a].info.local_stream_id by {
                    }
                    assert forall|a: int| 0 <= a < self.entries@.len() implies
                        self.spec_sessions().contains(#[trigger] self.entries@[a].info.session_id@) by {
                        assert(self.entries@[a].info.session_id == before[a].info.session_id);
                    }
                    assert forall|a: int, b: int| 0 <= a < b < self.entries@.len() implies
                        !is_stream(#[trigger] self.entries@[a], (#[trigger] self.entries@[b]).info.session_id@, self.entries@[b].info.local_stream_id) by {
                        assert(self.entries@[a].info.session_id == before[a].info.session_id);
                        assert(self.entries@[b].info.session_id == before[b].info.session_id);
                    }
                    assert forall|a: int| 0 <= a < self.entries@.len() implies
                        (#[trigger] self.entries@[a]).info.local_stream_id < next_id_in(self.next_ids@, self.entries@[a].info.session_id@) by {
                        assert(self.entries@[a].info.session_id == before[a].info.session_id);
                    }
                }
                Ok(())
            },
            None => Err(ProtocolError::StreamNotFound { local_id: local_stream_id, remote_id: 0 }),
        }
    }

    /// Counts traffic on stream `local_stream_id` of `session_id`: the
    /// bytes each way, one message each way that carried bytes, and marks
    /// the stream active and modified at `now_ms`; a stream that is not
    /// there is reported with a remote id of 0.
    pub fn record_activity_at(&mut self, session_id: &str, local_stream_id: u32, bytes_sent: u64, bytes_received: u64, now_ms: u64) -> (r: Result<(), ProtocolError>)
        requires
            old(self).wf(),
            forall|j: int| 0 <= j < old(self).spec_entries().len() && is_stream(#[trigger] old(self).spec_entries()[j], session_id@, local_stream_id) ==> {
                let st = old(self).spec_entries()[j].info.stats;
                &&& st.bytes_sent + bytes_sent <= u64::MAX
                &&& st.bytes_received + bytes_received <= u64::MAX
                &&& st.messages_sent < u64::MAX
                &&& st.messages_received < u64::MAX
            },
        ensures
            final(self).wf(),
            spec_activity_recorded(*old(self), *final(self), session_id@, local_stream_id, bytes_sent, bytes_received, now_ms, r),
    {
        match self.entry_index(session_id, local_stream_id) {
            Some(i) => {
                let ghost before = self.entries@;
                assert(is_stream(old(self).spec_entries()[i as int], session_id@, local_stream_id));
                let mut e = self.entries.remove(i);
                e.info.stats.bytes_sent = e.info.stats.bytes_sent + bytes_sent;
                e.info.stats.bytes_received = e.info.stats.bytes_received + bytes_received;
                if bytes_sent > 0 {
                    e.info.stats.messages_sent = e.info.stats.messages_sent + 1;
                }
                if bytes_received > 0 {
                    e.info.stats.messages_received = e.info.stats.messages_received + 1;
                }
                e.last_activity_ms = now_ms;
                e.info.modified_at_ms = now_ms;
                self.entries.insert(i, e);
                proof {
                    assert(self.entries@ =~= before.update(i as int, self.entries@[i as int]));
                    assert forall|a: int| 0 <= a < self.entries@.len() implies
                        self.spec_sessions().contains(#[trigger] self.entries@[a].info.session_id@) by {
                        assert(self.entries@[a].info.session_id == before[a].info.session_id);
                    }
                    assert forall|a: int, b: int| 0 <= a < b < self.entries@.len() implies
                        !is_stream(#[trigger] self.entries@[a], (#[trigger] self.entries@[b]).info.session_id@, self.entries@[b].info.local_stream_id) by {
                        assert(self.entries@[a].info.session_id == before[a].info.session_id);
                        assert(self.entries@[b].info.session_id == before[b].info.session_id);
                    }
                    assert forall|a: int| 0 <= a < self.entries@.len() implies
                        (#[trigger] self.entries@[a]).info.local_stream_id < next_id_in(self.next_ids@, self.entries@[a].info.session_id@) by {
                        assert(self.entries@[a].info.session_id == before[a].info.session_id);
                    }
                }
                Ok(())
            },
            None => Err(ProtocolError::StreamNotFound { local_id: local_stream_id, remote_id: 0 }),
        }
    }
}

impl StreamManager {
    /// Removes stream `local_stream_id` of `session_id` and returns it, if
    /// it is there. A known session that is left without streams is
    /// forgotten, even when nothing was removed. Never fails.
    pub fn remove_stream(&mut self, session_id: &str, local_stream_id: u32) -> (r: Result<Option<StreamEntry>, ProtocolError>)
        requires
            old(self).wf(),
        ensures
            final(self).wf(),
            final(self).spec_config() == old(self).spec_config(),
            forall|t: Seq<char>| final(self).spec_next_id(t) == old(self).spec_next_id(t),
            match r {
                Ok(Some(e)) => exists|j: int| 0 <= j < old(self).spec_entries().len()
                    && old(self).spec_entries()[j] == e
                    && is_stream(e, session_id@, local_stream_id)
                    && final(self).spec_entries() == old(self).spec_entries().remove(j),
                Ok(None) => final(self).spec_entries() == old(self).spec_entries()
                    && forall|j: int| 0 <= j < old(self).spec_entries().len() ==> !is_stream(#[trigger] old(self).spec_entries()[j], session_id@, local_stream_id),
                Err(_) => false,
            },
            forall|q: Seq<char>| q != session_id@ ==> (final(self).spec_sessions().contains(q) <==> old(self).spec_sessions().contains(q)),
            final(self).spec_sessions().contains(session_id@) <==> (old(self).spec_sessions().contains(session_id@)
                && of_session(final(self).spec_entries(), session_id@).len() > 0),
    {
        let si = match self.session_index(session_id) {
            Some(si) => si,
            None => {
                proof {
                    assert forall|j: int| 0 <= j < self.entries@.len() implies !is_stream(#[trigger] self.entries@[j], session_id@, local_stream_id) by {
                        assert(self.spec_sessions().contains(self.entries@[j].info.session_id@));
                    }
                }
                return Ok(None);
            },
        };
        let ghost before = self.entries@;
        let ghost old_sessions = self.spec_sessions();
        let ghost mut wj: int = 0;
        let removed = match self.entry_index(session_id, local_stream_id) {
            Some(i) => {
                let e = self.entries.remove(i);
                proof {
                    wj = i as int;
                    assert(before[wj] == e);
                    assert(self.entries@ =~= before.remove(i as int));
                    assert forall|a: int| 0 <= a < self.entries@.len() implies
                        self.spec_sessions().contains(#[trigger] self.entries@[a].info.session_id@) by {
                        let oa = if a < i { a } else { a + 1 };
                        assert(self.entries@[a] == before[oa]);
                    }
                    assert forall|a: int, b: int| 0 <= a < b < self.entries@.len() implies
                        !is_stream(#[trigger] self.entries@[a], (#[trigger] self.entries@[b]).info.session_id@, self.entries@[b].info.local_stream_id) by {
                        let oa = if a < i { a } else { a + 1 };
                        let ob = if b < i { b } else { b + 1 };
                        assert(self.entries@[a] == before[oa]);
                        assert(self.entries@[b] == before[ob]);
                    }
                    assert forall|a: int| 0 <= a < self.entries@.len() implies
                        (#[trigger] self.entries@[a]).info.local_stream_id < next_id_in(self.next_ids@, self.entries@[a].info.session_id@) by {
                        let oa = if a < i { a } else { a + 1 };
                        assert(self.entries@[a] == before[oa]);
                    }
                }
                Some(e)
            },
            None => None,
        };
        let left = self.count_of(session_id);
        if left == 0 {
            let ghost mid = self.sessions@;
            self.sessions.remove(si);
            proof {
                assert(mid[si as int]@ == session_id@);
                assert forall|a: int| 0 <= a < self.entries@.len() implies
                    self.spec_sessions().contains(#[trigger] self.entries@[a].info.session_id@) by {
                    let q = self.entries@[a].info.session_id@;
                    if q == session_id@ {
                        assert(of_session(self.entries@, session_id@).contains(self.entries@[a])) by {
                            reveal(Seq::filter);
                            self.entries@.lemma_filter_contains(|e: StreamEntry| e.info.session_id@ == session_id@, a);
                        }
                        assert(false);
                    }
                    assert(old_sessions.contains(q));
                    let k = choose|k: int| 0 <= k < old_sessions.len() && old_sessions[k] == q;
                    assert(k != si);
                    let nk = if k < si { k } else { k - 1 };
                    assert(self.spec_sessions()[nk] == q);
                }
                assert forall|a: int, b: int| 0 <= a < b < self.sessions@.len() implies
                    #[trigger] self.sessions@[a]@ != #[trigger] self.sessions@[b]@ by {
                    let oa = if a < si { a } else { a + 1 };
                    let ob = if b < si { b } else { b + 1 };
                    assert(self.sessions@[a] == mid[oa]);
                    assert(self.sessions@[b] == mid[ob]);
                }
                assert forall|q: Seq<char>| q != session_id@ implies
                    (self.spec_sessions().contains(q) <==> old_sessions.contains(q)) by {
                    if old_sessions.contains(q) {
                        let k = choose|k: int| 0 <= k < old_sessions.len() && old_sessions[k] == q;
                        let nk = if k < si { k } else { k - 1 };
                        assert(self.spec_sessions()[nk] == q);
                    }
                    if self.spec_sessions().contains(q) {
                        let k = choose|k: int| 0 <= k < self.spec_sessions().len() && self.spec_sessions()[k] == q;
                        let ok = if k < si { k } else { k + 1 };
                        assert(old_sessions[ok] == q);
                    }
                }
                if self.spec_sessions().contains(session_id@) {
                    let k = choose|k: int| 0 <= k < self.spec_sessions().len() && self.spec_sessions()[k] == session_id@;
                    let ok = if k < si { k } else { k + 1 };
                    assert(mid[ok]@ == session_id@);
                }
            }
        } else {
            proof {
                assert(old_sessions[si as int] == session_id@);
            }
        }
        proof {
            if removed is Some {
                assert(old(self).spec_entries()[wj] == removed->0);
                assert(self.spec_entries() == old(self).spec_entries().remove(wj));
            }
        }
        Ok(removed)
    }

    /// The streams of `session_id`, in the order they were created. Never
    /// fails.
    pub fn list_session_streams(&self, session_id: &str) -> (r: Result<Vec<&StreamEntry>, ProtocolError>)
        ensures
            match r {
                Ok(v) => v@.len() == of_session(self.spec_entries(), session_id@).len()
                    && forall|i: int| 0 <= i < v@.len() ==> *v@[i] == of_session(self.spec_entries(), session_id@)[i],
                Err(_) => false,
            },
    {
        let mut out: Vec<&StreamEntry> = Vec::new();
        let mut i: usize = 0;
        while i < self.entries.len()
            invariant
                i <= self.entries@.len(),
                out@.len() == of_session(self.entries@.take(i as int), session_id@).len(),
                forall|k: int| 0 <= k < out@.len() ==> *out@[k] == of_session(self.entries@.take(i as int), session_id@)[k],
            decreases self.entries@.len() - i,
        {
            proof {
                reveal(Seq::filter);
                assert(self.entries@.take(i + 1).drop_last() =~= self.entries@.take(i as int));
            }
            if str_eq(self.entries[i].info.session_id.as_str(), session_id) {
                out.push(&self.entries[i]);
            }
            i = i + 1;
        }
        assert(self.entries@.take(self.entries@.len() as int) =~= self.entries@);
        Ok(out)
    }

    /// All streams, in the order they were created. Never fails.
    pub fn list_all_streams(&self) -> (r: Result<Vec<&StreamEntry>, ProtocolError>)
        ensures
            match r {
                Ok(v) => v@.len() == self.spec_entries().len()
                    && forall|i: int| 0 <= i < v@.len() ==> *v@[i] == self.spec_entries()[i],
                Err(_) => false,
            },
    {
        let mut out: Vec<&StreamEntry> = Vec::new();
        let mut i: usize = 0;
        while i < self.entries.len()
            invariant
                i <= self.entries@.len(),
                out@.len() == i,
                forall|k: int| 0 <= k < i ==> *out@[k] == self.entries@[k],
            decreases self.entries@.len() - i,
        {
            out.push(&self.entries[i]);
            i = i + 1;
        }
        Ok(out)
    }

    /// The number of known sessions and of streams, in all and by state.
    /// Never fails.
    pub fn get_stream_stats(&self) -> (r: Result<StreamManagerStats, ProtocolError>)
        ensures
            r == Ok::<StreamManagerStats, ProtocolError>(state_counts(self.spec_entries(), self.spec_sessions().len())),
    {
        let mut stats = StreamManagerStats::default();
        stats.total_sessions = self.sessions.len();
        let mut i: usize = 0;
        while i < self.entries.len()
            invariant
                i <= self.entries@.len(),
                stats == state_counts(self.entries@.take(i as int), self.sessions@.len() as nat),
                stats.total_streams == i,
                stats.active_streams <= i,
                stats.opening_streams <= i,
                stats.closing_streams <= i,
                stats.closed_streams <= i,
                stats.error_streams <= i,
            decreases self.entries@.len() - i,
        {
            proof {
                assert(self.entries@.take(i + 1).drop_last() =~= self.entries@.take(i as int));
            }
            stats.total_streams = stats.total_streams + 1;
            match self.entries[i].info.state {
                StreamState::Active => {
                    stats.active_streams = stats.active_streams + 1;
                },
                StreamState::Opening => {
                    stats.opening_streams = stats.opening_streams + 1;
                },
                StreamState::Closing => {
                    stats.closing_streams = stats.closing_streams + 1;
                },
                StreamState::Closed => {
                    stats.closed_streams = stats.closed_streams + 1;
                },
                StreamState::Error { .. } => {
                    stats.error_streams = stats.error_streams + 1;
                },
            }
            i = i + 1;
        }
        assert(self.entries@.take(self.entries@.len() as int) =~= self.entries@);
        Ok(stats)
    }
}

/// The streams that survive a cleanup at `now_ms` with a timeout of
/// `timeout_ms`.
pub open spec fn survivors(now_ms: u64, timeout_ms: u64) -> spec_fn(StreamEntry) -> bool {
    |e: StreamEntry| survives_cleanup(e, now_ms, timeout_ms)
}

impl StreamManager {
    /// Forgets the sessions left without streams.
    fn prune_sessions(&mut self)
        requires
            forall|i: int, j: int| 0 <= i < j < old(self).sessions@.len() ==> #[trigger] old(self).sessions@[i]@ != #[trigger] old(self).sessions@[j]@,
        ensures
            final(self).entries == old(self).entries,
            final(self).next_ids == old(self).next_ids,
            final(self).config == old(self).config,
            forall|i: int, j: int| 0 <= i < j < final(self).sessions@.len() ==> #[trigger] final(self).sessions@[i]@ != #[trigger] final(self).sessions@[j]@,
            forall|q: Seq<char>| final(self).spec_sessions().contains(q)
                <==> (old(self).spec_sessions().contains(q) && of_session(old(self).entries@, q).len() > 0),
    {
        let ghost orig = self.spec_sessions();
        let mut out: Vec<String> = Vec::new();
        let mut i: usize = 0;
        while i < self.sessions.len()
            invariant
                i <= self.sessions@.len(),
                self.sessions == old(self).sessions,
                self.entries == old(self).entries,
                self.next_ids == old(self).next_ids,
                self.config == old(self).config,
                orig == self.spec_sessions(),
                forall|a: int, b: int| 0 <= a < b < self.sessions@.len() ==> #[trigger] self.sessions@[a]@ != #[trigger] self.sessions@[b]@,
                forall|k: int| 0 <= k < out@.len() ==> exists|j: int| 0 <= j < i && orig[j] == (#[trigger] out@[k])@,
                forall|k: int| 0 <= k < out@.len() ==> of_session(self.entries@, (#[trigger] out@[k])@).len() > 0,
                forall|j: int| 0 <= j < i && of_session(self.entries@, #[trigger] orig[j]).len() > 0 ==>
                    exists|k: int| 0 <= k < out@.len() && (#[trigger] out@[k])@ == orig[j],
                forall|a: int, b: int| 0 <= a < b < out@.len() ==> (#[trigger] out@[a])@ != (#[trigger] out@[b])@,
            decreases self.sessions@.len() - i,
        {
            let name = self.sessions[i].as_str();
            let n = self.count_of(name);
            if n > 0 {
                let ghost before = out@;
                out.push(to_owned_string(name));
                proof {
                    assert(orig[i as int] == self.sessions@[i as int]@);
                    assert forall|k: int| 0 <= k < out@.len() implies exists|j: int| 0 <= j < i + 1 && orig[j] == (#[trigger] out@[k])@ by {
                        if k < before.len() {
                            assert(out@[k] == before[k]);
                            let j = choose|j: int| 0 <= j < i && orig[j] == before[k]@;
                            assert(orig[j] == out@[k]@);
                        } else {
                            assert(orig[i as int] == out@[k]@);
                        }
                    }
                    assert forall|a: int, b: int| 0 <= a < b < out@.len() implies (#[trigger] out@[a])@ != (#[trigger] out@[b])@ by {
                        if b == before.len() {
                            assert(out@[a] == before[a]);
                            let j = choose|j: int| 0 <= j < i && orig[j] == before[a]@;
                            assert(self.sessions@[j]@ != self.sessions@[i as int]@);
                        } else {
                            assert(out@[a] == before[a]);
                            assert(out@[b] == before[b]);
                        }
                    }
                    assert forall|j: int| 0 <= j < i + 1 && of_session(self.entries@, #[trigger] orig[j]).len() > 0 implies
                        exists|k: int| 0 <= k < out@.len() && (#[trigger] out@[k])@ == orig[j] by {
                        if j < i {
                            let k = choose|k: int| 0 <= k < before.len() && before[k]@ == orig[j];
                            assert(out@[k] == before[k]);
                        } else {
                            assert(out@[before.len() as int]@ == orig[j]);
                        }
                    }
                    assert forall|k: int| 0 <= k < out@.len() implies of_session(self.entries@, (#[trigger] out@[k])@).len() > 0 by {
                        if k < before.len() {
                            assert(out@[k] == before[k]);
                        }
                    }
                }
            } else {
                proof {
                    assert(orig[i as int] == self.sessions@[i as int]@);
                }
            }
            i = i + 1;
        }
        self.sessions = out;
        proof {
            assert forall|q: Seq<char>| self.spec_sessions().contains(q)
                <==> (orig.contains(q) && of_session(self.entries@, q).len() > 0) by {
                if self.spec_sessions().contains(q) {
                    let k = choose|k: int| 0 <= k < self.spec_sessions().len() && self.spec_sessions()[k] == q;
                    assert(self.sessions@[k]@ == q);
                    let j = choose|j: int| 0 <= j < orig.len() && orig[j] == self.sessions@[k]@;
                }
                if orig.contains(q) && of_session(self.entries@, q).len() > 0 {
                    let j = choose|j: int| 0 <= j < orig.len() && orig[j] == q;
                    let k = choose|k: int| 0 <= k < self.sessions@.len() && (#[trigger] self.sessions@[k])@ == orig[j];
                    assert(self.spec_sessions()[k] == q);
                }
            }
        }
    }

    /// Removes, when cleanup is on, every stream that neither was active
    /// within the timeout before `now_ms` nor is opening or active, then
    /// forgets the sessions left without streams; returns how many streams
    /// went. With cleanup off nothing changes and 0 comes back. Never fails.
    pub fn cleanup_inactive_streams_at(&mut self, now_ms: u64) -> (r: Result<usize, ProtocolError>)
        requires
            old(self).wf(),
        ensures
            final(self).wf(),
            spec_cleaned(*old(self), *final(self), now_ms, r),
    {
        if !self.config.auto_cleanup {
            return Ok(0);
        }
        let ghost orig = self.entries@;
        let ghost pred = survivors(now_ms, self.config.default_timeout_ms);
        let timeout = self.config.default_timeout_ms;
        let n0 = self.entries.len();
        let mut i: usize = 0;
        let ghost mut p: int = 0;
        proof {
            assert(orig.take(0) =~= Seq::<StreamEntry>::empty());
            reveal(Seq::filter);
            assert(orig.take(0).filter(pred) + orig.skip(0) =~= orig);
        }
        while i < self.entries.len()
            invariant
                0 <= p <= orig.len(),
                pred == survivors(now_ms, timeout),
                timeout == self.config.default_timeout_ms,
                self.config == old(self).config,
                self.sessions == old(self).sessions,
                self.next_ids == old(self).next_ids,
                orig == old(self).entries@,
                n0 == orig.len(),
                old(self).wf(),
                i == orig.take(p).filter(pred).len(),
                self.entries@ == orig.take(p).filter(pred) + orig.skip(p),
                forall|k: int| 0 <= k < i ==> exists|j: int| 0 <= j < p && orig[j] == #[trigger] self.entries@[k],
                forall|a: int, b: int| 0 <= a < b < i ==>
                    !is_stream(#[trigger] self.entries@[a], (#[trigger] self.entries@[b]).info.session_id@, self.entries@[b].info.local_stream_id),
            decreases orig.len() - p,
        {
            proof {
                assert(self.entries@[i as int] == orig[p]);
                assert(orig.take(p + 1) =~= orig.take(p).push(orig[p]));
                orig.take(p).lemma_filter_push(orig[p], pred);
            }
            let e = &self.entries[i];
            let keep = now_ms < e.last_activity_ms || now_ms - e.last_activity_ms < timeout
                || matches!(e.info.state, StreamState::Active | StreamState::Opening);
            if !keep {
                let ghost before = self.entries@;
                self.entries.remove(i);
                proof {
                    assert(self.entries@ =~= orig.take(p + 1).filter(pred) + orig.skip(p + 1));
                    assert forall|k: int| 0 <= k < i implies exists|j: int| 0 <= j < p + 1 && orig[j] == #[trigger] self.entries@[k] by {
                        assert(self.entries@[k] == before[k]);
                        let j = choose|j: int| 0 <= j < p && orig[j] == before[k];
                    }
                }
            } else {
                proof {
                    assert forall|k: int| 0 <= k < i implies
                        !is_stream(#[trigger] self.entries@[k], orig[p].info.session_id@, orig[p].info.local_stream_id) by {
                        let j = choose|j: int| 0 <= j < p && orig[j] == self.entries@[k];
                        assert(!is_stream(orig[j], orig[p].info.session_id@, orig[p].info.local_stream_id));
                    }
                    assert(self.entries@ =~= orig.take(p + 1).filter(pred) + orig.skip(p + 1));
                    assert forall|k: int| 0 <= k < i + 1 implies exists|j: int| 0 <= j < p + 1 && orig[j] == #[trigger] self.entries@[k] by {
                        if k == i {
                            assert(orig[p] == self.entries@[k]);
                        } else {
                            let j = choose|j: int| 0 <= j < p && orig[j] == self.entries@[k];
                            assert(orig[j] == self.entries@[k]);
                        }
                    }
                }
                i = i + 1;
            }
            proof {
                p = p + 1;
            }
        }
        proof {
            assert(orig.take(p) =~= orig) by {
                assert(self.entries@.len() == i);
            }
            assert(self.entries@ =~= orig.filter(pred));
            orig.lemma_filter_len(pred);
        }
        let removed = n0 - self.entries.len();
        self.prune_sessions();
        proof {
            assert forall|a: int| 0 <= a < self.entries@.len() implies
                self.spec_sessions().contains(#[trigger] self.entries@[a].info.session_id@) by {
                let q = self.entries@[a].info.session_id@;
                let j = choose|j: int| 0 <= j < p && orig[j] == self.entries@[a];
                assert(old(self).spec_sessions().contains(orig[j].info.session_id@));
                assert(of_session(self.entries@, q).contains(self.entries@[a])) by {
                    reveal(Seq::filter);
                    self.entries@.lemma_filter_contains(|e: StreamEntry| e.info.session_id@ == q, a);
                }
                assert(of_session(self.entries@, q).len() > 0);
            }
            assert forall|a: int| 0 <= a < self.entries@.len() implies
                (#[trigger] self.entries@[a]).info.local_stream_id < next_id_in(self.next_ids@, self.entries@[a].info.session_id@) by {
                let j = choose|j: int| 0 <= j < p && orig[j] == self.entries@[a];
                assert(orig[j].info.local_stream_id < next_id_in(self.next_ids@, orig[j].info.session_id@));
            }
        }
        Ok(removed)
    }
}


impl StreamManager {
    /// Milliseconds since the manager was made, by the monotonic clock.
    fn now_ms(&self) -> u64 {
        elapsed_ms(&self.epoch)
    }

    /// Opens a stream as `create_stream_at` does, at the current time of
    /// the manager's clock.
    pub fn create_stream(&mut self, session_id: &str, remote_stream_id: u32, service_name: String) -> (r: Result<u32, ProtocolError>)
        requires
            old(self).wf(),
            old(self).spec_next_id(session_id@) < u32::MAX,
        ensures
            final(self).wf(),
            exists|now_ms: u64| spec_create(*old(self), *final(self), session_id@, remote_stream_id, service_name@, now_ms, r),
    {
        let now = self.now_ms();
        self.create_stream_at(session_id, remote_stream_id, service_name, now)
    }

    /// Sets a stream's state as `update_stream_state_at` does, at the
    /// current time of the manager's clock.
    pub fn update_stream_state(&mut self, session_id: &str, local_stream_id: u32, new_state: StreamState) -> (r: Result<(), ProtocolError>)
        requires
            old(self).wf(),
        ensures
            final(self).wf(),
            exists|now_ms: u64| spec_state_set(*old(self), *final(self), session_id@, local_stream_id, new_state, now_ms, r),
    {
        let now = self.now_ms();
        self.update_stream_state_at(session_id, local_stream_id, new_state, now)
    }

    /// Counts traffic as `record_activity_at` does, at the current time of
    /// the manager's clock.
    pub fn record_activity(&mut self, session_id: &str, local_stream_id: u32, bytes_sent: u64, bytes_received: u64) -> (r: Result<(), ProtocolError>)
        requires
            old(self).wf(),
            forall|j: int| 0 <= j < old(self).spec_entries().len() && is_stream(#[trigger] old(self).spec_entries()[j], session_id@, local_stream_id) ==> {
                let st = old(self).spec_entries()[j].info.stats;
                &&& st.bytes_sent + bytes_sent <= u64::MAX
                &&& st.bytes_received + bytes_received <= u64::MAX
                &&& st.messages_sent < u64::MAX
                &&& st.messages_received < u64::MAX
            },
        ensures
            final(self).wf(),
            exists|now_ms: u64| spec_activity_recorded(*old(self), *final(self), session_id@, local_stream_id, bytes_sent, bytes_received, now_ms, r),
    {
        let now = self.now_ms();
        self.record_activity_at(session_id, local_stream_id, bytes_sent, bytes_received, now)
    }

    /// Cleans up as `cleanup_inactive_streams_at` does, at the current time
    /// of the manager's clock.
    pub fn cleanup_inactive_streams(&mut self) -> (r: Result<usize, ProtocolError>)
        requires
            old(self).wf(),
        ensures
            final(self).wf(),
            exists|now_ms: u64| spec_cleaned(*old(self), *final(self), now_ms, r),
    {
        let now = self.now_ms();
        self.cleanup_inactive_streams_at(now)
    }
}

impl Default for StreamManager {
    /// No streams, with the default settings.
    fn default() -> (r: Self)
        ensures
            r.wf(),
            r.spec_entries().len() == 0,
            r.spec_sessions().len() == 0,
            forall|s: Seq<char>| r.spec_next_id(s) == 1,
            r.spec_config().max_streams_per_session == 64,
            r.spec_config().default_timeout_ms == 60_000,
            r.spec_config().default_buffer_size == 65536,
            r.spec_config().auto_cleanup,
    {
        StreamManager::new()
    }
}

/// A stream just opened is the only stream of its session under its local
/// id, so looking it up finds it.
pub proof fn lemma_created_stream_found(
    before: StreamManager,
    after: StreamManager,
    session: Seq<char>,
    remote: u32,
    service: Seq<char>,
    now_ms: u64,
    id: u32,
)
    requires
        after.wf(),
        spec_create(before, after, session, remote, service, now_ms, Ok(id)),
    ensures
        after.spec_entries().len() > 0,
        is_stream(after.spec_entries().last(), session, id),
        forall|j: int| 0 <= j < after.spec_entries().len() && is_stream(#[trigger] after.spec_entries()[j], session, id)
            ==> after.spec_entries()[j] == after.spec_entries().last(),
{
    let e = after.spec_entries();
    let last = e.len() - 1;
    assert forall|j: int| 0 <= j < e.len() && is_stream(#[trigger] e[j], session, id) implies e[j] == e.last() by {
        if j < last {
            assert(!is_stream(e[j], e[last].info.session_id@, e[last].info.local_stream_id));
        }
    }
}

/// A stream removed is gone: no stream of its session keeps its local id.
pub proof fn lemma_removed_stream_gone(before: StreamManager, after: StreamManager, session: Seq<char>, id: u32, j: int)
    requires
        before.wf(),
        0 <= j < before.spec_entries().len(),
        is_stream(before.spec_entries()[j], session, id),
        after.spec_entries() == before.spec_entries().remove(j),
    ensures
        forall|k: int| 0 <= k < after.spec_entries().len() ==> !is_stream(#[trigger] after.spec_entries()[k], session, id),
{
    let b = before.spec_entries();
    assert forall|k: int| 0 <= k < after.spec_entries().len() implies !is_stream(#[trigger] after.spec_entries()[k], session, id) by {
        let ok = if k < j { k } else { k + 1 };
        assert(after.spec_entries()[k] == b[ok]);
        if ok < j {
            assert(!is_stream(b[ok], b[j].info.session_id@, b[j].info.local_stream_id));
        } else {
            assert(!is_stream(b[j], b[ok].info.session_id@, b[ok].info.local_stream_id));
        }
    }
}
} // verus!
