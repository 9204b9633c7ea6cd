use vstd::prelude::*;
use crate::text::{str_eq, to_owned_string, push_str, parse_uint, parse_bounded, split_on, trim, trim_ws};

verus! {

/// A socket address: host and port.
#[derive(Debug, Clone, PartialEq, Eq)]
pub struct SocketAddress {
    pub host: String,
    pub port: u16,
}

impl SocketAddress {
    /// The port.
    pub fn port(&self) -> (r: u16)
        ensures
            r == self.port,
    {
        self.port
    }
}

/// Settings of the client-facing server; times in milliseconds.
#[derive(Debug, Clone)]
pub struct ServerConfig {
    pub bind_address: SocketAddress,
    pub max_connections: usize,
    pub connection_timeout_ms: u64,
    pub shutdown_timeout_ms: u64,
    pub graceful_shutdown: bool,
}

/// Settings of the transports; times in milliseconds.
#[derive(Debug, Clone)]
pub struct TransportConfig {
    pub enable_tcp: bool,
    pub enable_usb_device: bool,
    pub enable_usb_bridge: bool,
    pub usb_poll_interval_ms: u64,
    pub transport_timeout_ms: u64,
    pub max_transfer_size: usize,
    pub enable_hotplug: bool,
}

/// Settings of authentication; times in milliseconds.
#[derive(Debug, Clone)]
pub struct AuthConfig {
    pub enabled: bool,
    pub auto_accept: bool,
    pub timeout_ms: u64,
    pub require_auth_for_devices: bool,
}

/// Settings of sessions; times in milliseconds.
#[derive(Debug, Clone)]
pub struct SessionConfig {
    pub max_sessions_per_client: usize,
    pub max_total_sessions: usize,
    pub session_timeout_ms: u64,
    pub max_streams_per_session: usize,
    pub auth: AuthConfig,
}

/// Settings of logging.
#[derive(Debug, Clone)]
pub struct LoggingConfig {
    pub level: String,
    pub format: String,
    pub enable_file: bool,
    pub file_path: Option<String>,
    pub max_file_size_mb: u64,
    pub file_retention_count: usize,
    pub enable_console: bool,
}

/// Performance settings.
#[derive(Debug, Clone)]
pub struct PerformanceConfig {
    pub worker_threads: Option<usize>,
    pub thread_stack_size_kb: usize,
    pub high_priority: bool,
    pub tcp_buffer_size: usize,
    pub usb_buffer_size: usize,
    pub max_usb_transfers: usize,
}

/// The whole configuration of the daemon.
#[derive(Debug, Clone)]
pub struct DaemonConfig {
    pub server: ServerConfig,
    pub transport: TransportConfig,
    pub session: SessionConfig,
    pub logging: LoggingConfig,
    pub performance: PerformanceConfig,
}

/// Overrides read from the environment; each already in the form the
/// setting takes, or as the text given.
#[derive(Debug, Clone)]
pub struct EnvOverrides {
    /// DBGIF_BIND_ADDRESS, when it is a valid socket address.
    pub bind_address: Option<SocketAddress>,
    /// DBGIF_MAX_CONNECTIONS.
    pub max_connections: Option<String>,
    /// DBGIF_LOG_LEVEL.
    pub log_level: Option<String>,
    /// DBGIF_LOG_FORMAT.
    pub log_format: Option<String>,
    /// DBGIF_ENABLE_TCP.
    pub enable_tcp: Option<String>,
    /// DBGIF_ENABLE_USB_DEVICE.
    pub enable_usb_device: Option<String>,
    /// DBGIF_ENABLE_USB_BRIDGE.
    pub enable_usb_bridge: Option<String>,
}

fn addr(host: &str, port: u16) -> (r: SocketAddress)
    ensures
        r.host@ == host@,
        r.port == port,
{
    SocketAddress { host: to_owned_string(host), port }
}

impl Default for ServerConfig {
    /// 127.0.0.1:5037, 100 connections, 5 min idle timeout, 30 s to shut
    /// down gracefully.
    fn default() -> (r: Self)
        ensures
            r.bind_address.host@ == "127.0.0.1"@,
            r.bind_address.port == 5037,
            r.max_connections == 100,
            r.connection_timeout_ms == 300_000,
            r.shutdown_timeout_ms == 30_000,
            r.graceful_shutdown,
    {
        ServerConfig {
            bind_address: addr("127.0.0.1", 5037),
            max_connections: 100,
            connection_timeout_ms: 300_000,
            shutdown_timeout_ms: 30_000,
            graceful_shutdown: true,
        }
    }
}

impl Default for TransportConfig {
    /// Every transport and hotplug on, USB polled every 2 s, 30 s timeout,
    /// 256 KiB transfers.
    fn default() -> (r: Self)
        ensures
            r.enable_tcp && r.enable_usb_device && r.enable_usb_bridge && r.enable_hotplug,
            r.usb_poll_interval_ms == 2_000,
            r.transport_timeout_ms == 30_000,
            r.max_transfer_size == 262144,
    {
        TransportConfig {
            enable_tcp: true,
            enable_usb_device: true,
            enable_usb_bridge: true,
            usb_poll_interval_ms: 2_000,
            transport_timeout_ms: 30_000,
            max_transfer_size: 256 * 1024,
            enable_hotplug: true,
        }
    }
}

impl Default for AuthConfig {
    /// Off, auto-accepting, 30 s timeout, not needed for devices.
    fn default() -> (r: Self)
        ensures
            !r.enabled,
            r.auto_accept,
            r.timeout_ms == 30_000,
            !r.require_auth_for_devices,
    {
        AuthConfig { enabled: false, auto_accept: true, timeout_ms: 30_000, require_auth_for_devices: false }
    }
}

impl Default for SessionConfig {
    /// 10 sessions a client, 100 in all, 10 min timeout, 50 streams each.
    fn default() -> (r: Self)
        ensures
            r.max_sessions_per_client == 10,
            r.max_total_sessions == 100,
            r.session_timeout_ms == 600_000,
            r.max_streams_per_session == 50,
            !r.auth.enabled,
            r.auth.auto_accept,
            r.auth.timeout_ms == 30_000,
            !r.auth.require_auth_for_devices,
    {
        SessionConfig {
            max_sessions_per_client: 10,
            max_total_sessions: 100,
            session_timeout_ms: 600_000,
            max_streams_per_session: 50,
            auth: AuthConfig::default(),
        }
    }
}

impl Default for LoggingConfig {
    /// Info level, compact, to the console only; files of 100 MB, five kept.
    fn default() -> (r: Self)
        ensures
            r.level@ == "info"@,
            r.format@ == "compact"@,
            !r.enable_file,
            r.file_path is None,
            r.max_file_size_mb == 100,
            r.file_retention_count == 5,
            r.enable_console,
    {
        LoggingConfig {
            level: to_owned_string("info"),
            format: to_owned_string("compact"),
            enable_file: false,
            file_path: None,
            max_file_size_mb: 100,
            file_retention_count: 5,
            enable_console: true,
        }
    }
}

impl Default for PerformanceConfig {
    /// As many workers as cores, 2 MiB stacks, normal priority, 64 KiB TCP
    /// and 16 KiB USB buffers, 8 USB transfers.
    fn default() -> (r: Self)
        ensures
            r.worker_threads is None,
            r.thread_stack_size_kb == 2048,
            !r.high_priority,
            r.tcp_buffer_size == 65536,
            r.usb_buffer_size == 16384,
            r.max_usb_transfers == 8,
    {
        PerformanceConfig {
            worker_threads: None,
            thread_stack_size_kb: 2048,
            high_priority: false,
            tcp_buffer_size: 64 * 1024,
            usb_buffer_size: 16 * 1024,
            max_usb_transfers: 8,
        }
    }
}

impl Default for DaemonConfig {
    /// Every section at its default.
    fn default() -> (r: Self)
        ensures
            r.server.bind_address.port == 5037,
            r.server.max_connections == 100,
            r.server.connection_timeout_ms == 300_000,
            r.transport.enable_tcp,
            r.transport.max_transfer_size == 262144,
            r.session.max_total_sessions == 100,
            r.session.max_sessions_per_client == 10,
            !r.session.auth.enabled,
            r.logging.level@ == "info"@,
            r.logging.format@ == "compact"@,
            r.performance.worker_threads is None,
            r.performance.thread_stack_size_kb == 2048,
            spec_validate(r) is None,
    {
        proof {
            reveal_strlit("info");
            reveal_strlit("compact");
        }
        DaemonConfig {
            server: ServerConfig::default(),
            transport: TransportConfig::default(),
            session: SessionConfig::default(),
            logging: LoggingConfig::default(),
            performance: PerformanceConfig::default(),
        }
    }
}

/// Whether `s` is one of the level names.
pub open spec fn valid_level(s: Seq<char>) -> bool {
    s == "trace"@ || s == "debug"@ || s == "info"@ || s == "warn"@ || s == "error"@
}

/// Whether `s` is one of the format names.
pub open spec fn valid_format(s: Seq<char>) -> bool {
    s == "compact"@ || s == "pretty"@ || s == "json"@
}

/// The first rule a configuration breaks, as its message.
pub open spec fn spec_validate(c: DaemonConfig) -> Option<Seq<char>> {
    if c.server.max_connections == 0 {
        Some("max_connections must be greater than 0"@)
    } else if c.server.connection_timeout_ms < 1000 {
        Some("connection_timeout must be greater than 0"@)
    } else if !c.transport.enable_tcp && !c.transport.enable_usb_device && !c.transport.enable_usb_bridge {
        Some("At least one transport must be enabled"@)
    } else if c.transport.max_transfer_size == 0 {
        Some("max_transfer_size must be greater than 0"@)
    } else if c.session.max_total_sessions == 0 {
        Some("max_total_sessions must be greater than 0"@)
    } else if c.session.max_sessions_per_client > c.session.max_total_sessions {
        Some("max_sessions_per_client cannot exceed max_total_sessions"@)
    } else if !valid_level(c.logging.level@) {
        Some("Invalid log level: "@ + c.logging.level@)
    } else if !valid_format(c.logging.format@) {
        Some("Invalid log format: "@ + c.logging.format@)
    } else if c.performance.worker_threads == Some(0usize) {
        Some("worker_threads must be greater than 0 if specified"@)
    } else if c.performance.thread_stack_size_kb < 512 {
        Some("thread_stack_size_kb must be at least 512KB"@)
    } else {
        None
    }
}

/// The value a boolean override gives: "true" or "false", anything else
/// counts as true.
pub open spec fn override_flag(s: Seq<char>) -> bool {
    s != "false"@
}

/// Reads a boolean override ("true" and "false"; anything else is true).
fn parse_flag(s: &str) -> (r: bool)
    ensures
        r == override_flag(s@),
{
    !str_eq(s, "false")
}

impl DaemonConfig {
    /// Settings for development: 50 connections with 10 min idle timeout,
    /// faster USB polling, 1 MiB transfers, more sessions and streams, debug
    /// logs pretty-printed to the console and to logs/dbgif-server.log, four
    /// workers with 4 MiB stacks.
    pub fn development() -> (r: Self)
        ensures
            r.server.bind_address.host@ == "127.0.0.1"@ && r.server.bind_address.port == 5037,
            r.server.max_connections == 50,
            r.server.connection_timeout_ms == 600_000,
            r.server.shutdown_timeout_ms == 60_000,
            r.transport.usb_poll_interval_ms == 1_000,
            r.transport.transport_timeout_ms == 60_000,
            r.transport.max_transfer_size == 1048576,
            r.session.max_sessions_per_client == 20,
            r.session.max_total_sessions == 50,
            r.session.session_timeout_ms == 1_200_000,
            r.session.max_streams_per_session == 100,
            r.session.auth.timeout_ms == 60_000,
            r.logging.level@ == "debug"@,
            r.logging.format@ == "pretty"@,
            r.logging.enable_file,
            r.logging.file_path matches Some(p) && p@ == "logs/dbgif-server.log"@,
            r.logging.enable_console,
            r.performance.worker_threads == Some(4usize),
            r.performance.thread_stack_size_kb == 4096,
            spec_validate(r) is None,
    {
        proof {
            reveal_strlit("debug");
            reveal_strlit("pretty");
        }
        DaemonConfig {
            server: ServerConfig {
                bind_address: addr("127.0.0.1", 5037),
                max_connections: 50,
                connection_timeout_ms: 600_000,
                shutdown_timeout_ms: 60_000,
                graceful_shutdown: true,
            },
            transport: TransportConfig {
                enable_tcp: true,
                enable_usb_device: true,
                enable_usb_bridge: true,
                usb_poll_interval_ms: 1_000,
                transport_timeout_ms: 60_000,
                max_transfer_size: 1024 * 1024,
                enable_hotplug: true,
            },
            session: SessionConfig {
                max_sessions_per_client: 20,
                max_total_sessions: 50,
                session_timeout_ms: 1_200_000,
                max_streams_per_session: 100,
                auth: AuthConfig { enabled: false, auto_accept: true, timeout_ms: 60_000, require_auth_for_devices: false },
            },
            logging: LoggingConfig {
                level: to_owned_string("debug"),
                format: to_owned_string("pretty"),
                enable_file: true,
                file_path: Some(to_owned_string("logs/dbgif-server.log")),
                max_file_size_mb: 50,
                file_retention_count: 3,
                enable_console: true,
            },
            performance: PerformanceConfig {
                worker_threads: Some(4),
                thread_stack_size_kb: 4096,
                high_priority: false,
                tcp_buffer_size: 128 * 1024,
                usb_buffer_size: 32 * 1024,
                max_usb_transfers: 16,
            },
        }
    }

    /// Settings for production: all interfaces, 200 connections with 3 min
    /// idle timeout, conservative USB polling, fewer sessions per client,
    /// info logs in compact form to /var/log/dbgif-server only, high
    /// priority with 1 MiB stacks.
    pub fn production() -> (r: Self)
        ensures
            r.server.bind_address.host@ == "0.0.0.0"@ && r.server.bind_address.port == 5037,
            r.server.max_connections == 200,
            r.server.connection_timeout_ms == 180_000,
            r.server.shutdown_timeout_ms == 15_000,
            r.transport.usb_poll_interval_ms == 3_000,
            r.transport.transport_timeout_ms == 15_000,
            r.transport.max_transfer_size == 262144,
            r.session.max_sessions_per_client == 5,
            r.session.max_total_sessions == 200,
            r.session.session_timeout_ms == 300_000,
            r.session.max_streams_per_session == 25,
            r.session.auth.timeout_ms == 15_000,
            r.logging.level@ == "info"@,
            r.logging.format@ == "compact"@,
            r.logging.enable_file,
            r.logging.file_path matches Some(p) && p@ == "/var/log/dbgif-server/dbgif-server.log"@,
            !r.logging.enable_console,
            r.performance.worker_threads is None,
            r.performance.thread_stack_size_kb == 1024,
            r.performance.high_priority,
            spec_validate(r) is None,
    {
        proof {
            reveal_strlit("info");
            reveal_strlit("compact");
        }
        DaemonConfig {
            server: ServerConfig {
                bind_address: addr("0.0.0.0", 5037),
                max_connections: 200,
                connection_timeout_ms: 180_000,
                shutdown_timeout_ms: 15_000,
                graceful_shutdown: true,
            },
            transport: TransportConfig {
                enable_tcp: true,
                enable_usb_device: true,
                enable_usb_bridge: true,
                usb_poll_interval_ms: 3_000,
                transport_timeout_ms: 15_000,
                max_transfer_size: 256 * 1024,
                enable_hotplug: true,
            },
            session: SessionConfig {
                max_sessions_per_client: 5,
                max_total_sessions: 200,
                session_timeout_ms: 300_000,
                max_streams_per_session: 25,
                auth: AuthConfig { enabled: false, auto_accept: true, timeout_ms: 15_000, require_auth_for_devices: false },
            },
            logging: LoggingConfig {
                level: to_owned_string("info"),
                format: to_owned_string("compact"),
                enable_file: true,
                file_path: Some(to_owned_string("/var/log/dbgif-server/dbgif-server.log")),
                max_file_size_mb: 200,
                file_retention_count: 10,
                enable_console: false,
            },
            performance: PerformanceConfig {
                worker_threads: None,
                thread_stack_size_kb: 1024,
                high_priority: true,
                tcp_buffer_size: 32 * 1024,
                usb_buffer_size: 8 * 1024,
                max_usb_transfers: 4,
            },
        }
    }

    /// Checks the configuration; the message names the first rule broken.
    pub fn validate(&self) -> (r: Result<(), String>)
        ensures
            match spec_validate(*self) {
                None => r is Ok,
                Some(m) => r matches Err(e) && e@ == m,
            },
    {
        if self.server.max_connections == 0 {
            return Err(to_owned_string("max_connections must be greater than 0"));
        }
        if self.server.connection_timeout_ms < 1000 {
            return Err(to_owned_string("connection_timeout must be greater than 0"));
        }
        if !self.transport.enable_tcp && !self.transport.enable_usb_device && !self.transport.enable_usb_bridge {
            return Err(to_owned_string("At least one transport must be enabled"));
        }
        if self.transport.max_transfer_size == 0 {
            return Err(to_owned_string("max_transfer_size must be greater than 0"));
        }
        if self.session.max_total_sessions == 0 {
            return Err(to_owned_string("max_total_sessions must be greater than 0"));
        }
        if self.session.max_sessions_per_client > self.session.max_total_sessions {
            return Err(to_owned_string("max_sessions_per_client cannot exceed max_total_sessions"));
        }
        let l = self.logging.level.as_str();
        if !(str_eq(l, "trace") || str_eq(l, "debug") || str_eq(l, "info") || str_eq(l, "warn") || str_eq(l, "error")) {
            let mut m = to_owned_string("Invalid log level: ");
            push_str(&mut m, l);
            return Err(m);
        }
        let f = self.logging.format.as_str();
        if !(str_eq(f, "compact") || str_eq(f, "pretty") || str_eq(f, "json")) {
            let mut m = to_owned_string("Invalid log format: ");
            push_str(&mut m, f);
            return Err(m);
        }
        match self.performance.worker_threads {
            Some(0) => return Err(to_owned_string("worker_threads must be greater than 0 if specified")),
            _ => {},
        }
        if self.performance.thread_stack_size_kb < 512 {
            return Err(to_owned_string("thread_stack_size_kb must be at least 512KB"));
        }
        Ok(())
    }

    /// Applies environment overrides: the address when valid, the
    /// connection limit when a number, the log level and format as given,
    /// and the transport switches ("false" turns one off, anything else on).
    pub fn apply_env_overrides(&mut self, env: EnvOverrides)
        ensures
            final(self).server.bind_address == (match env.bind_address {
                Some(a) => a,
                None => old(self).server.bind_address,
            }),
            final(self).server.max_connections == (match env.max_connections {
                Some(t) => match parse_bounded(t@, usize::MAX as nat) {
                    Some(v) => v as usize,
                    None => old(self).server.max_connections,
                },
                None => old(self).server.max_connections,
            }),
            final(self).logging.level == (match env.log_level {
                Some(t) => t,
                None => old(self).logging.level,
            }),
            final(self).logging.format == (match env.log_format {
                Some(t) => t,
                None => old(self).logging.format,
            }),
            final(self).transport.enable_tcp == (match env.enable_tcp {
                Some(t) => override_flag(t@),
                None => old(self).transport.enable_tcp,
            }),
            final(self).transport.enable_usb_device == (match env.enable_usb_device {
                Some(t) => override_flag(t@),
                None => old(self).transport.enable_usb_device,
            }),
            final(self).transport.enable_usb_bridge == (match env.enable_usb_bridge {
                Some(t) => override_flag(t@),
                None => old(self).transport.enable_usb_bridge,
            }),
    {
        proof {
            reveal_strlit("false");
        }
        match env.bind_address {
            Some(a) => {
                self.server.bind_address = a;
            },
            None => {},
        }
        match &env.max_connections {
            Some(t) => match parse_uint(t.as_str(), usize::MAX as u64) {
                Some(v) => {
                    self.server.max_connections = v as usize;
                },
                None => {},
            },
            None => {},
        }
        match env.log_level {
            Some(t) => {
                self.logging.level = t;
            },
            None => {},
        }
        match env.log_format {
            Some(t) => {
                self.logging.format = t;
            },
            None => {},
        }
        match &env.enable_tcp {
            Some(t) => {
                self.transport.enable_tcp = parse_flag(t.as_str());
            },
            None => {},
        }
        match &env.enable_usb_device {
            Some(t) => {
                self.transport.enable_usb_device = parse_flag(t.as_str());
            },
            None => {},
        }
        match &env.enable_usb_bridge {
            Some(t) => {
                self.transport.enable_usb_bridge = parse_flag(t.as_str());
            },
            None => {},
        }
    }
}


/// The port numbers that `pieces` spell once trimmed, in order; a piece
/// that spells none is passed over.
pub open spec fn ports_of(pieces: Seq<Seq<char>>) -> Seq<u16>
    decreases pieces.len(),
{
    if pieces.len() == 0 {
        Seq::<u16>::empty()
    } else {
        let rest = ports_of(pieces.drop_last());
        match parse_bounded(trim_ws(pieces.last()), 65535) {
            Some(v) => rest.push(v as u16),
            None => rest,
        }
    }
}

fn push_port(out: &mut Vec<u16>, piece: &str)
    ensures
        final(out)@ == (match parse_bounded(trim_ws(piece@), 65535) {
            Some(v) => old(out)@.push(v as u16),
            None => old(out)@,
        }),
{
    match parse_uint(trim(piece), 65535) {
        Some(v) => out.push(v as u16),
        None => {},
    }
}

/// The device discovery ports of a comma-separated list such as
/// "5557,5558,5559": each piece is trimmed and read as a port number, and
/// pieces that are none are passed over.
pub fn parse_device_ports(device_ports: &str) -> (r: Vec<u16>)
    ensures
        r@ == ports_of(split_on(device_ports@, ',')),
{
    let s = device_ports;
    let n = s.unicode_len();
    let mut out: Vec<u16> = Vec::new();
    let mut start: usize = 0;
    let mut i: usize = 0;
    assert(s@.take(0) =~= Seq::<char>::empty());
    while i < n
        invariant
            start <= i <= n,
            n == s@.len(),
            split_on(s@.take(i as int), ',').len() >= 1,
            split_on(s@.take(i as int), ',').last() == s@.subrange(start as int, i as int),
            out@ == ports_of(split_on(s@.take(i as int), ',').drop_last()),
        decreases n - i,
    {
        let ghost before = split_on(s@.take(i as int), ',');
        proof {
            assert(s@.take(i + 1).drop_last() =~= s@.take(i as int));
            assert(s@.take(i + 1).last() == s@[i as int]);
        }
        if s.get_char(i) == ',' {
            let piece = s.substring_char(start, i);
            push_port(&mut out, piece);
            proof {
                let after = split_on(s@.take(i + 1), ',');
                assert(after == before.push(Seq::<char>::empty()));
                assert(after.drop_last() =~= before);
            }
            start = i + 1;
            proof {
                let after = split_on(s@.take(i + 1), ',');
                assert(after.last() =~= s@.subrange(start as int, i + 1));
            }
        } else {
            proof {
                let after = split_on(s@.take(i + 1), ',');
                assert(after == before.update(before.len() - 1, before.last().push(s@[i as int])));
                assert(after.last() =~= s@.subrange(start as int, i + 1));
                assert(after.drop_last() =~= before.drop_last());
            }
        }
        i = i + 1;
    }
    assert(s@.take(n as int) =~= s@);
    let last = s.substring_char(start, n);
    push_port(&mut out, last);
    out
}

} // verus!
