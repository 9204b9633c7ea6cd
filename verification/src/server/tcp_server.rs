use vstd::prelude::*;
use crate::config::SocketAddress;
use crate::session::manager::AdbSessionManager;
use crate::text::to_owned_string;

verus! {

fn addr(host: &str, port: u16) -> (r: SocketAddress)
    ensures
        r.host@ == host@,
        r.port == port,
{
    SocketAddress { host: to_owned_string(host), port }
}

fn copy_addr(a: &SocketAddress) -> (r: SocketAddress)
    ensures
        r.host@ == a.host@,
        r.port == a.port,
{
    SocketAddress { host: to_owned_string(a.host.as_str()), port: a.port }
}

/// What the TCP server reports about itself; times in milliseconds.
#[derive(Debug, Clone)]
pub struct ServerStats {
    pub bind_addr: SocketAddress,
    pub active_connections: usize,
    pub max_connections: usize,
    pub connection_timeout_ms: u64,
}

/// The ADB TCP server's admission state: where it listens, how many
/// client connections it holds and may hold, and the sessions they use.
/// The accept loop itself runs outside the library and asks this state
/// before handing a connection on.
pub struct AdbTcpServer {
    bind_addr: SocketAddress,
    session_manager: AdbSessionManager,
    connection_timeout_ms: u64,
    max_connections: usize,
    active_connections: usize,
}

impl AdbTcpServer {
    /// Never more open connections than allowed.
    #[verifier::type_invariant]
    spec fn within_limit(&self) -> bool {
        self.active_connections <= self.max_connections
    }

    /// The address the server listens on.
    pub closed spec fn spec_bind_addr(&self) -> SocketAddress {
        self.bind_addr
    }

    /// How long one client connection may last.
    pub closed spec fn spec_timeout_ms(&self) -> u64 {
        self.connection_timeout_ms
    }

    /// How many client connections may be open at once.
    pub closed spec fn spec_max(&self) -> usize {
        self.max_connections
    }

    /// How many client connections are open.
    pub closed spec fn spec_active(&self) -> usize {
        self.active_connections
    }

    /// The sessions of the server's clients.
    pub closed spec fn spec_sessions(&self) -> AdbSessionManager {
        self.session_manager
    }

    /// A server on `bind_addr` with no connection yet, a 30-second
    /// connection timeout and room for 100 connections.
    pub fn new(bind_addr: SocketAddress, session_manager: AdbSessionManager) -> (r: Self)
        ensures
            r.spec_bind_addr() == bind_addr,
            r.spec_sessions() == session_manager,
            r.spec_timeout_ms() == 30_000,
            r.spec_max() == 100,
            r.spec_active() == 0,
    {
        AdbTcpServer { bind_addr, session_manager, connection_timeout_ms: 30_000, max_connections: 100, active_connections: 0 }
    }

    /// A server on `bind_addr` with no connection yet and the given
    /// timeout and limit.
    pub fn with_config(
        bind_addr: SocketAddress,
        session_manager: AdbSessionManager,
        connection_timeout_ms: u64,
        max_connections: usize,
    ) -> (r: Self)
        ensures
            r.spec_bind_addr() == bind_addr,
            r.spec_sessions() == session_manager,
            r.spec_timeout_ms() == connection_timeout_ms,
            r.spec_max() == max_connections,
            r.spec_active() == 0,
    {
        AdbTcpServer { bind_addr, session_manager, connection_timeout_ms, max_connections, active_connections: 0 }
    }

    /// Takes a new client connection when fewer than the maximum are open,
    /// counting it; at the limit the connection is to be dropped and
    /// nothing changes.
    pub fn admit_connection(&mut self) -> (r: bool)
        ensures
            r == (old(self).spec_active() < old(self).spec_max()),
            final(self).spec_active() == if r { old(self).spec_active() + 1 } else { old(self).spec_active() as int },
            final(self).spec_max() == old(self).spec_max(),
            final(self).spec_bind_addr() == old(self).spec_bind_addr(),
            final(self).spec_timeout_ms() == old(self).spec_timeout_ms(),
            final(self).spec_sessions() == old(self).spec_sessions(),
    {
        if self.active_connections >= self.max_connections {
            false
        } else {
            self.active_connections = self.active_connections + 1;
            true
        }
    }

    /// Counts a client connection as closed; the count never goes below
    /// zero.
    pub fn connection_closed(&mut self)
        ensures
            final(self).spec_active() == if old(self).spec_active() > 0 { old(self).spec_active() - 1 } else { 0 },
            final(self).spec_max() == old(self).spec_max(),
            final(self).spec_bind_addr() == old(self).spec_bind_addr(),
            final(self).spec_timeout_ms() == old(self).spec_timeout_ms(),
            final(self).spec_sessions() == old(self).spec_sessions(),
    {
        proof {
            use_type_invariant(&*self);
        }
        self.active_connections = self.active_connections.saturating_sub(1);
    }

    /// The server's address, connection count, limit and timeout.
    pub fn get_stats(&self) -> (r: ServerStats)
        ensures
            r.bind_addr.host@ == self.spec_bind_addr().host@,
            r.bind_addr.port == self.spec_bind_addr().port,
            r.active_connections == self.spec_active(),
            r.max_connections == self.spec_max(),
            r.connection_timeout_ms == self.spec_timeout_ms(),
            r.active_connections <= r.max_connections,
    {
        proof {
            use_type_invariant(self);
        }
        ServerStats {
            bind_addr: copy_addr(&self.bind_addr),
            active_connections: self.active_connections,
            max_connections: self.max_connections,
            connection_timeout_ms: self.connection_timeout_ms,
        }
    }
}

/// Settings of the ADB TCP server; times in milliseconds.
#[derive(Debug, Clone)]
pub struct AdbServerConfig {
    pub bind_addr: SocketAddress,
    pub connection_timeout_ms: u64,
    pub max_connections: usize,
    pub session_timeout_ms: u64,
    pub max_sessions: usize,
}

impl Default for AdbServerConfig {
    /// 127.0.0.1:5037 (the ADB port), 30 s per connection, 100
    /// connections, 5-minute sessions, 50 sessions.
    fn default() -> (r: Self)
        ensures
            r.bind_addr.host@ == "127.0.0.1"@,
            r.bind_addr.port == 5037,
            r.connection_timeout_ms == 30_000,
            r.max_connections == 100,
            r.session_timeout_ms == 300_000,
            r.max_sessions == 50,
    {
        AdbServerConfig {
            bind_addr: addr("127.0.0.1", 5037),
            connection_timeout_ms: 30_000,
            max_connections: 100,
            session_timeout_ms: 300_000,
            max_sessions: 50,
        }
    }
}

impl AdbServerConfig {
    /// The permissive preset: 127.0.0.1:5037, 60 s per connection, 50
    /// connections, 10-minute sessions, 25 sessions.
    pub fn development() -> (r: Self)
        ensures
            r.bind_addr.host@ == "127.0.0.1"@,
            r.bind_addr.port == 5037,
            r.connection_timeout_ms == 60_000,
            r.max_connections == 50,
            r.session_timeout_ms == 600_000,
            r.max_sessions == 25,
    {
        AdbServerConfig {
            bind_addr: addr("127.0.0.1", 5037),
            connection_timeout_ms: 60_000,
            max_connections: 50,
            session_timeout_ms: 600_000,
            max_sessions: 25,
        }
    }

    /// The restrictive preset, listening on all interfaces: 0.0.0.0:5037,
    /// 15 s per connection, 200 connections, 3-minute sessions, 100
    /// sessions.
    pub fn production() -> (r: Self)
        ensures
            r.bind_addr.host@ == "0.0.0.0"@,
            r.bind_addr.port == 5037,
            r.connection_timeout_ms == 15_000,
            r.max_connections == 200,
            r.session_timeout_ms == 180_000,
            r.max_sessions == 100,
    {
        AdbServerConfig {
            bind_addr: addr("0.0.0.0", 5037),
            connection_timeout_ms: 15_000,
            max_connections: 200,
            session_timeout_ms: 180_000,
            max_sessions: 100,
        }
    }

    /// A server with these settings: its session manager gets the session
    /// timeout and limit, the server the address, connection timeout and
    /// connection limit.
    pub fn build_server(&self) -> (r: AdbTcpServer)
        ensures
            r.spec_bind_addr().host@ == self.bind_addr.host@,
            r.spec_bind_addr().port == self.bind_addr.port,
            r.spec_timeout_ms() == self.connection_timeout_ms,
            r.spec_max() == self.max_connections,
            r.spec_active() == 0,
            r.spec_sessions().sessions@.len() == 0,
            r.spec_sessions().session_timeout_ms == self.session_timeout_ms,
            r.spec_sessions().max_concurrent_sessions == self.max_sessions,
    {
        let session_manager = AdbSessionManager::with_config(self.session_timeout_ms, self.max_sessions);
        AdbTcpServer::with_config(copy_addr(&self.bind_addr), session_manager, self.connection_timeout_ms, self.max_connections)
    }
}

} // verus!
