use vstd::prelude::*;
use crate::text::{to_owned_string, push_str, push_dec_str, dec_chars, lemma_dec_chars_injective};
use crate::transport::{TransportAddress, address_text};
use crate::clock::{instant_now, instant_elapsed};

verus! {

/// Settings of the server.
#[derive(Debug, Clone)]
pub struct ServerConfig {
    /// Address to bind.
    pub bind_addr: TransportAddress,
    pub max_connections: usize,
    pub connection_timeout_ms: u64,
    pub ping_interval_ms: u64,
    pub ping_timeout_ms: u64,
    pub device_discovery_interval_ms: u64,
    /// TCP ports scanned for devices.
    pub tcp_discovery_ports: Vec<u16>,
}

/// Why a server configuration is refused.
#[derive(Debug, Clone, PartialEq, Eq)]
pub enum ServerConfigError {
    /// Not from 1 to 1000.
    InvalidMaxConnections(usize),
    /// A timeout of less than a second; the field's name.
    InvalidTimeout(String),
    EmptyDiscoveryPorts,
    DuplicateDiscoveryPorts,
}

/// Why the server state is inconsistent.
#[derive(Debug, Clone, PartialEq, Eq)]
pub enum ServerStateError {
    ExceededMaxConnections { current: usize, max: usize },
    InconsistentStats { message: String },
    Configuration(ServerConfigError),
}

/// Whether no port occurs twice.
pub open spec fn distinct_ports(ports: Seq<u16>) -> bool {
    forall|i: int, j: int| 0 <= i < j < ports.len() ==> ports[i] != ports[j]
}

/// What validation finds: the first rule broken, in the order max
/// connections, the four timeouts (each at least one second), an empty
/// port list, a repeated port.
pub open spec fn spec_validate(c: ServerConfig) -> Result<(), ServerConfigError> {
    if c.max_connections == 0 || c.max_connections > 1000 {
        Err(ServerConfigError::InvalidMaxConnections(c.max_connections))
    } else if c.connection_timeout_ms < 1000 {
        Err(ServerConfigError::InvalidTimeout(arbitrary()))
    } else if c.ping_interval_ms < 1000 {
        Err(ServerConfigError::InvalidTimeout(arbitrary()))
    } else if c.ping_timeout_ms < 1000 {
        Err(ServerConfigError::InvalidTimeout(arbitrary()))
    } else if c.device_discovery_interval_ms < 1000 {
        Err(ServerConfigError::InvalidTimeout(arbitrary()))
    } else if c.tcp_discovery_ports@.len() == 0 {
        Err(ServerConfigError::EmptyDiscoveryPorts)
    } else if !distinct_ports(c.tcp_discovery_ports@) {
        Err(ServerConfigError::DuplicateDiscoveryPorts)
    } else {
        Ok(())
    }
}

/// The name of the timeout field validation refuses, if any.
pub open spec fn refused_timeout(c: ServerConfig) -> Seq<char> {
    if c.connection_timeout_ms < 1000 {
        "connection_timeout"@
    } else if c.ping_interval_ms < 1000 {
        "ping_interval"@
    } else if c.ping_timeout_ms < 1000 {
        "ping_timeout"@
    } else {
        "device_discovery_interval"@
    }
}

/// Whether `ports` holds a value twice.
fn has_duplicate(ports: &Vec<u16>) -> (r: bool)
    ensures
        r == !distinct_ports(ports@),
{
    let n = ports.len();
    let mut i: usize = 0;
    while i < n
        invariant
            i <= n,
            n == ports@.len(),
            forall|a: int, b: int| 0 <= a < b < n && a < i ==> ports@[a] != ports@[b],
        decreases n - i,
    {
        let mut j: usize = i + 1;
        while j < n
            invariant
                i < j <= n,
                n == ports@.len(),
                forall|a: int, b: int| 0 <= a < b < n && a < i ==> ports@[a] != ports@[b],
                forall|b: int| i < b < j ==> ports@[i as int] != ports@[b],
            decreases n - j,
        {
            if ports[i] == ports[j] {
                return true;
            }
            j = j + 1;
        }
        i = i + 1;
    }
    false
}

impl ServerConfig {
    /// Binds `bind_addr`; 100 connections, a 30 s connection timeout, a
    /// ping every 60 s answered within 10 s, discovery every 30 s on ports
    /// 5555, 5556 and 5557.
    pub fn new(bind_addr: TransportAddress) -> (r: Self)
        ensures
            r.bind_addr == bind_addr,
            r.max_connections == 100,
            r.connection_timeout_ms == 30_000,
            r.ping_interval_ms == 60_000,
            r.ping_timeout_ms == 10_000,
            r.device_discovery_interval_ms == 30_000,
            r.tcp_discovery_ports@ == seq![5555u16, 5556, 5557],
            spec_validate(r) is Ok,
    {
        let ports: Vec<u16> = vec![5555, 5556, 5557];
        assert(ports@ =~= seq![5555u16, 5556, 5557]);
        ServerConfig {
            bind_addr,
            max_connections: 100,
            connection_timeout_ms: 30_000,
            ping_interval_ms: 60_000,
            ping_timeout_ms: 10_000,
            device_discovery_interval_ms: 30_000,
            tcp_discovery_ports: ports,
        }
    }

    /// Checks the settings, as `spec_validate` says; a refused timeout
    /// names its field.
    pub fn validate(&self) -> (r: Result<(), ServerConfigError>)
        ensures
            match (r, spec_validate(*self)) {
                (Ok(()), Ok(())) => true,
                (Err(ServerConfigError::InvalidTimeout(name)), Err(ServerConfigError::InvalidTimeout(_))) => name@ == refused_timeout(*self),
                (Err(e), Err(f)) => e == f,
                _ => false,
            },
    {
        if self.max_connections == 0 || self.max_connections > 1000 {
            return Err(ServerConfigError::InvalidMaxConnections(self.max_connections));
        }
        if self.connection_timeout_ms < 1000 {
            return Err(ServerConfigError::InvalidTimeout(to_owned_string("connection_timeout")));
        }
        if self.ping_interval_ms < 1000 {
            return Err(ServerConfigError::InvalidTimeout(to_owned_string("ping_interval")));
        }
        if self.ping_timeout_ms < 1000 {
            return Err(ServerConfigError::InvalidTimeout(to_owned_string("ping_timeout")));
        }
        if self.device_discovery_interval_ms < 1000 {
            return Err(ServerConfigError::InvalidTimeout(to_owned_string("device_discovery_interval")));
        }
        if self.tcp_discovery_ports.len() == 0 {
            return Err(ServerConfigError::EmptyDiscoveryPorts);
        }
        if has_duplicate(&self.tcp_discovery_ports) {
            return Err(ServerConfigError::DuplicateDiscoveryPorts);
        }
        Ok(())
    }
}

impl ServerConfig {
    /// The settings of `new` bound to the TCP address `addr` ("host:port").
    pub fn from_tcp_addr(addr: String) -> (r: Self)
        ensures
            r.bind_addr == TransportAddress::Tcp(addr),
            r.max_connections == 100,
            r.connection_timeout_ms == 30_000,
            r.ping_interval_ms == 60_000,
            r.ping_timeout_ms == 10_000,
            r.device_discovery_interval_ms == 30_000,
            r.tcp_discovery_ports@ == seq![5555u16, 5556, 5557],
            spec_validate(r) is Ok,
    {
        ServerConfig::new(TransportAddress::Tcp(addr))
    }

    /// The bound address as text: "tcp://<address>", or
    /// "usb://<vendor>:<product>[:<serial>]".
    pub fn bind_address_str(&self) -> (r: String)
        ensures
            r@ == address_text(self.bind_addr),
    {
        self.bind_addr.to_string()
    }
}

impl Default for ServerConfig {
    /// The settings of `new` bound to 127.0.0.1:5555.
    fn default() -> (r: Self)
        ensures
            r.bind_addr matches TransportAddress::Tcp(a) && a@ == "127.0.0.1:5555"@,
            r.max_connections == 100,
            r.connection_timeout_ms == 30_000,
            r.ping_interval_ms == 60_000,
            r.ping_timeout_ms == 10_000,
            r.device_discovery_interval_ms == 30_000,
            r.tcp_discovery_ports@ == seq![5555u16, 5556, 5557],
            spec_validate(r) is Ok,
    {
        ServerConfig::from_tcp_addr(to_owned_string("127.0.0.1:5555"))
    }
}

/// Counters of the server's activity.
#[derive(Debug, Clone, Copy, PartialEq, Eq, Structural)]
pub struct ServerStatsSnapshot {
    pub total_sessions: u64,
    pub active_sessions: u64,
    pub total_streams: u64,
    pub active_streams: u64,
    pub messages_processed: u64,
    pub bytes_transferred: u64,
    pub errors_count: u64,
}

/// The server's activity counters; like atomic counters they wrap around.
#[derive(Debug, Clone, Copy, PartialEq, Eq, Structural)]
pub struct ServerStats {
    pub total_sessions: u64,
    pub active_sessions: u64,
    pub total_streams: u64,
    pub active_streams: u64,
    pub messages_processed: u64,
    pub bytes_transferred: u64,
    pub errors_count: u64,
}

/// `a + b`, wrapped around at 2^64.
pub open spec fn wrap_add(a: u64, b: u64) -> u64 {
    if a + b <= u64::MAX { (a + b) as u64 } else { (a + b - u64::MAX - 1) as u64 }
}

/// `a - 1`, wrapped around at 0.
pub open spec fn wrap_dec(a: u64) -> u64 {
    if a > 0 { (a - 1) as u64 } else { u64::MAX }
}

impl ServerStats {
    /// All counters at zero.
    pub fn new() -> (r: Self)
        ensures
            r == (ServerStats {
                total_sessions: 0,
                active_sessions: 0,
                total_streams: 0,
                active_streams: 0,
                messages_processed: 0,
                bytes_transferred: 0,
                errors_count: 0,
            }),
    {
        ServerStats {
            total_sessions: 0,
            active_sessions: 0,
            total_streams: 0,
            active_streams: 0,
            messages_processed: 0,
            bytes_transferred: 0,
            errors_count: 0,
        }
    }

    /// A session opened.
    pub fn session_created(&mut self)
        ensures
            *final(self) == (ServerStats {
                total_sessions: wrap_add(old(self).total_sessions, 1),
                active_sessions: wrap_add(old(self).active_sessions, 1),
                ..*old(self)
            }),
    {
        self.total_sessions = self.total_sessions.wrapping_add(1);
        self.active_sessions = self.active_sessions.wrapping_add(1);
    }

    /// A session closed.
    pub fn session_closed(&mut self)
        ensures
            *final(self) == (ServerStats { active_sessions: wrap_dec(old(self).active_sessions), ..*old(self) }),
    {
        self.active_sessions = self.active_sessions.wrapping_sub(1);
    }

    /// A stream opened.
    pub fn stream_created(&mut self)
        ensures
            *final(self) == (ServerStats {
                total_streams: wrap_add(old(self).total_streams, 1),
                active_streams: wrap_add(old(self).active_streams, 1),
                ..*old(self)
            }),
    {
        self.total_streams = self.total_streams.wrapping_add(1);
        self.active_streams = self.active_streams.wrapping_add(1);
    }

    /// A stream closed.
    pub fn stream_closed(&mut self)
        ensures
            *final(self) == (ServerStats { active_streams: wrap_dec(old(self).active_streams), ..*old(self) }),
    {
        self.active_streams = self.active_streams.wrapping_sub(1);
    }

    /// A message of `bytes` bytes was processed.
    pub fn message_processed(&mut self, bytes: u64)
        ensures
            *final(self) == (ServerStats {
                messages_processed: wrap_add(old(self).messages_processed, 1),
                bytes_transferred: wrap_add(old(self).bytes_transferred, bytes),
                ..*old(self)
            }),
    {
        self.messages_processed = self.messages_processed.wrapping_add(1);
        self.bytes_transferred = self.bytes_transferred.wrapping_add(bytes);
    }

    /// An error happened.
    pub fn error_occurred(&mut self)
        ensures
            *final(self) == (ServerStats { errors_count: wrap_add(old(self).errors_count, 1), ..*old(self) }),
    {
        self.errors_count = self.errors_count.wrapping_add(1);
    }

    /// The counters now.
    pub fn snapshot(&self) -> (r: ServerStatsSnapshot)
        ensures
            r == (ServerStatsSnapshot {
                total_sessions: self.total_sessions,
                active_sessions: self.active_sessions,
                total_streams: self.total_streams,
                active_streams: self.active_streams,
                messages_processed: self.messages_processed,
                bytes_transferred: self.bytes_transferred,
                errors_count: self.errors_count,
            }),
    {
        ServerStatsSnapshot {
            total_sessions: self.total_sessions,
            active_sessions: self.active_sessions,
            total_streams: self.total_streams,
            active_streams: self.active_streams,
            messages_processed: self.messages_processed,
            bytes_transferred: self.bytes_transferred,
            errors_count: self.errors_count,
        }
    }

    /// All counters back to zero.
    pub fn reset(&mut self)
        ensures
            *final(self) == ServerStats::spec_zero(),
    {
        *self = ServerStats::new();
    }

    /// All counters at zero.
    pub open spec fn spec_zero() -> ServerStats {
        ServerStats {
            total_sessions: 0,
            active_sessions: 0,
            total_streams: 0,
            active_streams: 0,
            messages_processed: 0,
            bytes_transferred: 0,
            errors_count: 0,
        }
    }
}

/// The server's shared counters and settings.
#[derive(Debug)]
pub struct ServerState {
    pub config: ServerConfig,
    /// Sessions handed out so far (wrapping).
    pub session_counter: u64,
    /// Streams handed out so far (wrapping).
    pub stream_counter: u64,
    pub stats: ServerStats,
    /// When the state was made, by the monotonic clock.
    pub start_time: std::time::Instant,
}

impl ServerState {
    /// Fresh counters for `config`.
    pub fn new(config: ServerConfig) -> (r: Self)
        ensures
            r.config == config,
            r.session_counter == 0,
            r.stream_counter == 0,
            r.stats == ServerStats::spec_zero(),
    {
        ServerState { config, session_counter: 0, stream_counter: 0, stats: ServerStats::new(), start_time: instant_now() }
    }

    /// How long the server has been up, by the monotonic clock. Nothing is
    /// claimed of the value: it is a clock reading.
    pub fn uptime(&self) -> std::time::Duration {
        instant_elapsed(&self.start_time)
    }

    /// The next session id, "session-<n>" for the n-th session from 0.
    pub fn next_session_id(&mut self) -> (r: String)
        ensures
            r@ == "session-"@ + dec_chars(old(self).session_counter as nat),
            final(self).session_counter == wrap_add(old(self).session_counter, 1),
            final(self).stream_counter == old(self).stream_counter,
            final(self).stats == old(self).stats,
            final(self).config == old(self).config,
    {
        let id = self.session_counter;
        self.session_counter = self.session_counter.wrapping_add(1);
        let mut s = to_owned_string("session-");
        push_dec_str(&mut s, id);
        s
    }

    /// The next stream id: the ids cycle through 1 to 65535.
    pub fn next_stream_id(&mut self) -> (r: u32)
        ensures
            r == (old(self).stream_counter % 65535) + 1,
            1 <= r <= 65535,
            final(self).stream_counter == wrap_add(old(self).stream_counter, 1),
            final(self).session_counter == old(self).session_counter,
            final(self).stats == old(self).stats,
            final(self).config == old(self).config,
    {
        let id = self.stream_counter % 65535 + 1;
        self.stream_counter = self.stream_counter.wrapping_add(1);
        id as u32
    }

    /// Whether one more connection fits, with `active_sessions` open.
    pub fn can_accept_connection(&self, active_sessions: usize) -> (r: bool)
        ensures
            r == (active_sessions < self.config.max_connections),
    {
        active_sessions < self.config.max_connections
    }

    /// Checks the open session count against the limit and the counters.
    pub fn validate(&self, active_sessions: usize) -> (r: Result<(), ServerStateError>)
        ensures
            active_sessions > self.config.max_connections ==> r == Err::<(), ServerStateError>(ServerStateError::ExceededMaxConnections {
                current: active_sessions,
                max: self.config.max_connections,
            }),
            active_sessions <= self.config.max_connections && self.stats.active_sessions != active_sessions ==>
                (r matches Err(ServerStateError::InconsistentStats { message })
                    && message@ == "Active sessions mismatch: actual="@ + dec_chars(active_sessions as nat)
                        + ", stats="@ + dec_chars(self.stats.active_sessions as nat)),
            active_sessions <= self.config.max_connections && self.stats.active_sessions == active_sessions ==> r is Ok,
    {
        if active_sessions > self.config.max_connections {
            return Err(ServerStateError::ExceededMaxConnections {
                current: active_sessions,
                max: self.config.max_connections,
            });
        }
        if self.stats.active_sessions != active_sessions as u64 {
            let mut message = to_owned_string("Active sessions mismatch: actual=");
            push_dec_str(&mut message, active_sessions as u64);
            push_str(&mut message, ", stats=");
            push_dec_str(&mut message, self.stats.active_sessions);
            return Err(ServerStateError::InconsistentStats { message });
        }
        Ok(())
    }
}


/// Sessions numbered differently get different ids.
pub proof fn lemma_session_ids_distinct(a: u64, b: u64)
    requires
        a != b,
    ensures
        "session-"@ + dec_chars(a as nat) != "session-"@ + dec_chars(b as nat),
{
    let p = "session-"@;
    if p + dec_chars(a as nat) == p + dec_chars(b as nat) {
        assert((p + dec_chars(a as nat)).skip(p.len() as int) =~= dec_chars(a as nat));
        assert((p + dec_chars(b as nat)).skip(p.len() as int) =~= dec_chars(b as nat));
        lemma_dec_chars_injective(a as nat, b as nat);
    }
}

/// Two stream ids handed out one after the other differ, unless the
/// counter wraps around between them (at `u64::MAX`, where both are 1).
pub proof fn lemma_consecutive_stream_ids_differ(counter: u64)
    requires
        counter < u64::MAX,
    ensures
        (counter % 65535) + 1 != (wrap_add(counter, 1) % 65535) + 1,
{
}

} // verus!
