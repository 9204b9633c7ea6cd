use vstd::prelude::*;
use crate::protocol::error::ProtocolError;
use crate::server::device_registry::{DeviceRegistry, DeviceInfo, DeviceState, DeviceMetadata, RegistryError};
use crate::text::{str_eq, to_owned_string, push_str, push_dec_str, dec_chars};

verus! {

/// The text of each string, in order.
pub open spec fn strings_view(v: Seq<String>) -> Seq<Seq<char>> {
    v.map_values(|s: String| s@)
}

/// The id discovery gives the device answering on `port`.
pub open spec fn discovery_id(port: u16) -> Seq<char> {
    "device-127.0.0.1:"@ + dec_chars(port as nat)
}

/// Whether a device with id `id` is among `known`.
pub open spec fn known_id(known: Seq<DeviceInfo>, id: Seq<char>) -> bool {
    exists|j: int| 0 <= j < known.len() && known[j].device_id@ == id
}

/// The ids that discovery registers, in order, over the first `n` ports:
/// the id of each reachable port that is neither among `known` nor
/// registered earlier in the same pass.
pub open spec fn discovered_ids(known: Seq<DeviceInfo>, ports: Seq<u16>, reachable: Seq<bool>, n: nat) -> Seq<Seq<char>>
    decreases n,
{
    if n == 0 {
        Seq::<Seq<char>>::empty()
    } else {
        let prev = discovered_ids(known, ports, reachable, (n - 1) as nat);
        let id = discovery_id(ports[n - 1]);
        if reachable[n - 1] && !known_id(known, id) && !prev.contains(id) {
            prev.push(id)
        } else {
            prev
        }
    }
}

/// How a device connection fares.
#[derive(Debug, Clone, PartialEq, Eq)]
pub enum ConnectionHealth {
    Healthy,
    Degraded { reason: String },
    Unhealthy { reason: String },
}

/// Settings of device discovery and connection; times in milliseconds.
#[derive(Debug, Clone)]
pub struct DiscoveryConfig {
    pub discovery_interval_ms: u64,
    pub tcp_ports: Vec<u16>,
    pub connection_timeout_ms: u64,
    pub health_check_interval_ms: u64,
    pub max_device_connections: usize,
    pub device_response_timeout_ms: u64,
    pub enable_auto_discovery: bool,
}

impl Default for DiscoveryConfig {
    /// Discovery every 30 s on ports 5555 to 5559, 5 s to connect, health
    /// checks every 60 s, at most 10 devices, 3 s to answer, discovery on.
    fn default() -> (r: Self)
        ensures
            r.discovery_interval_ms == 30_000,
            r.tcp_ports@ == seq![5555u16, 5556, 5557, 5558, 5559],
            r.connection_timeout_ms == 5_000,
            r.health_check_interval_ms == 60_000,
            r.max_device_connections == 10,
            r.device_response_timeout_ms == 3_000,
            r.enable_auto_discovery,
    {
        let ports: Vec<u16> = vec![5555, 5556, 5557, 5558, 5559];
        assert(ports@ =~= seq![5555u16, 5556, 5557, 5558, 5559]);
        DiscoveryConfig {
            discovery_interval_ms: 30_000,
            tcp_ports: ports,
            connection_timeout_ms: 5_000,
            health_check_interval_ms: 60_000,
            max_device_connections: 10,
            device_response_timeout_ms: 3_000,
            enable_auto_discovery: true,
        }
    }
}

/// A device connection as seen from outside; times in milliseconds.
#[derive(Debug, Clone)]
pub struct DeviceConnectionStats {
    pub device_id: String,
    pub connected_at_ms: u64,
    pub last_activity_ms: u64,
    pub uptime_ms: u64,
    pub health_status: ConnectionHealth,
}

impl DeviceConnectionStats {
    /// Whether the connection is healthy.
    pub fn is_healthy(&self) -> (r: bool)
        ensures
            r == (self.health_status is Healthy),
    {
        match self.health_status {
            ConnectionHealth::Healthy => true,
            _ => false,
        }
    }

    /// Milliseconds since the last activity, at `now_ms` (zero if later).
    pub fn inactive_duration(&self, now_ms: u64) -> (r: u64)
        ensures
            r == (if now_ms >= self.last_activity_ms { (now_ms - self.last_activity_ms) as u64 } else { 0 }),
    {
        if now_ms >= self.last_activity_ms { now_ms - self.last_activity_ms } else { 0 }
    }
}

/// An open device connection.
#[derive(Debug)]
pub struct DeviceConnection {
    pub device_id: String,
    pub connected_at_ms: u64,
    pub last_activity_ms: u64,
    pub health_status: ConnectionHealth,
}

/// What `connect_device` asks for.
#[derive(Debug)]
pub enum ConnectPlan {
    /// Nothing to do: the device is connected.
    AlreadyConnected,
    /// Open a transport to `address`, then call `finish_connect`.
    Connect { address: String },
}

/// How opening a device transport ended.
#[derive(Debug)]
pub enum ConnectResult {
    Connected,
    TimedOut,
    Failed { reason: String },
}

/// The position of the connection of `id`, if any.
pub open spec fn connection_of(conns: Seq<DeviceConnection>, id: Seq<char>) -> Option<int> {
    if exists|i: int| 0 <= i < conns.len() && conns[i].device_id@ == id {
        Some(choose|i: int| 0 <= i < conns.len() && conns[i].device_id@ == id
            && forall|j: int| 0 <= j < i ==> conns[j].device_id@ != id)
    } else {
        None
    }
}

/// The registered device with id `id`, if any.
pub open spec fn registered(devices: Seq<DeviceInfo>, id: Seq<char>) -> Option<int> {
    if exists|i: int| 0 <= i < devices.len() && devices[i].device_id@ == id {
        Some(choose|i: int| 0 <= i < devices.len() && devices[i].device_id@ == id)
    } else {
        None
    }
}

/// Whether a device passes its health check: its transport is up and the
/// registry holds it as connected.
pub open spec fn spec_healthy(alive: bool, devices: Seq<DeviceInfo>, id: Seq<char>) -> bool {
    alive && exists|i: int| 0 <= i < devices.len() && devices[i].device_id@ == id && devices[i].state == DeviceState::Connected
}

/// Whether two health reports say the same.
pub open spec fn same_health(a: ConnectionHealth, b: ConnectionHealth) -> bool {
    match (a, b) {
        (ConnectionHealth::Healthy, ConnectionHealth::Healthy) => true,
        (ConnectionHealth::Degraded { reason: x }, ConnectionHealth::Degraded { reason: y }) => x@ == y@,
        (ConnectionHealth::Unhealthy { reason: x }, ConnectionHealth::Unhealthy { reason: y }) => x@ == y@,
        _ => false,
    }
}

/// Whether connection `c` has been idle for more than five minutes at `now`.
pub open spec fn idle(c: DeviceConnection, now: u64) -> bool {
    now >= c.last_activity_ms && now - c.last_activity_ms > 300_000
}

/// Discovers devices and opens connections to them on demand.
#[derive(Debug)]
pub struct DeviceManager {
    pub discovery_config: DiscoveryConfig,
    pub device_registry: DeviceRegistry,
    pub active_connections: Vec<DeviceConnection>,
}

/// The registry after `id` is disconnected: a device with an open
/// connection that is registered is marked discovered again; otherwise
/// nothing changes.
pub open spec fn registry_after_disconnect(devs: Seq<DeviceInfo>, conns: Seq<DeviceConnection>, id: Seq<char>) -> Seq<DeviceInfo> {
    match connection_of(conns, id) {
        Some(_) => match registered(devs, id) {
            Some(k) => devs.update(k, DeviceInfo { state: DeviceState::Discovered, ..devs[k] }),
            None => devs,
        },
        None => devs,
    }
}

impl DeviceManager {
    /// Registry well formed, and at most one connection per device.
    pub open spec fn wf(&self) -> bool {
        &&& self.device_registry.wf()
        &&& forall|i: int, j: int| 0 <= i < j < self.active_connections@.len()
            ==> self.active_connections@[i].device_id@ != self.active_connections@[j].device_id@
    }

    /// A manager over `device_registry` with no connections.
    pub fn with_config(device_registry: DeviceRegistry, discovery_config: DiscoveryConfig) -> (r: Self)
        requires
            device_registry.wf(),
        ensures
            r.wf(),
            r.device_registry == device_registry,
            r.discovery_config == discovery_config,
            r.active_connections@.len() == 0,
    {
        DeviceManager { discovery_config, device_registry, active_connections: Vec::new() }
    }

    /// A manager scanning the server's discovery ports at the server's
    /// discovery interval, with the other default settings.
    pub fn new(device_registry: DeviceRegistry, tcp_ports: Vec<u16>, discovery_interval_ms: u64) -> (r: Self)
        requires
            device_registry.wf(),
        ensures
            r.wf(),
            r.device_registry == device_registry,
            r.discovery_config.tcp_ports == tcp_ports,
            r.discovery_config.discovery_interval_ms == discovery_interval_ms,
            r.discovery_config.connection_timeout_ms == 5_000,
            r.discovery_config.health_check_interval_ms == 60_000,
            r.discovery_config.max_device_connections == 10,
            r.discovery_config.device_response_timeout_ms == 3_000,
            r.discovery_config.enable_auto_discovery,
            r.active_connections@.len() == 0,
    {
        let config = DiscoveryConfig { tcp_ports, discovery_interval_ms, ..DiscoveryConfig::default() };
        Self::with_config(device_registry, config)
    }

    /// The position of the connection of `device_id`.
    fn position(&self, device_id: &str) -> (r: Option<usize>)
        ensures
            match r {
                Some(i) => connection_of(self.active_connections@, device_id@) == Some(i as int) && i < self.active_connections@.len(),
                None => connection_of(self.active_connections@, device_id@) is None,
            },
    {
        let mut i: usize = 0;
        while i < self.active_connections.len()
            invariant
                i <= self.active_connections@.len(),
                forall|j: int| 0 <= j < i ==> self.active_connections@[j].device_id@ != device_id@,
            decreases self.active_connections@.len() - i,
        {
            if str_eq(self.active_connections[i].device_id.as_str(), device_id) {
                proof {
                    let c = self.active_connections@;
                    assert(exists|k: int| 0 <= k < c.len() && c[k].device_id@ == device_id@) by {
                        assert(c[i as int].device_id@ == device_id@);
                    }
                    let w = choose|k: int| 0 <= k < c.len() && c[k].device_id@ == device_id@
                        && forall|j: int| 0 <= j < k ==> c[j].device_id@ != device_id@;
                    if w < i {
                        assert(c[w].device_id@ != device_id@);
                    } else if w > i {
                        assert(c[i as int].device_id@ != device_id@);
                    }
                }
                return Some(i);
            }
            i = i + 1;
        }
        None
    }

    /// The first step of connecting `device_id` on demand: nothing when it
    /// is connected; refused at the connection limit or for an unknown
    /// device; otherwise the address to open.
    pub fn connect_device(&self, device_id: &str) -> (r: Result<ConnectPlan, ProtocolError>)
        requires
            self.wf(),
        ensures
            connection_of(self.active_connections@, device_id@) is Some ==> r matches Ok(ConnectPlan::AlreadyConnected),
            connection_of(self.active_connections@, device_id@) is None ==> {
                if self.active_connections@.len() >= self.discovery_config.max_device_connections {
                    r == Err::<ConnectPlan, ProtocolError>(ProtocolError::MaxConnectionsExceeded {
                        count: self.active_connections@.len() as usize,
                        max: self.discovery_config.max_device_connections,
                    })
                } else {
                    match registered(self.device_registry.spec_devices(), device_id@) {
                        None => r matches Err(ProtocolError::DeviceNotFound { device_id: d }) && d@ == device_id@,
                        Some(i) => r matches Ok(ConnectPlan::Connect { address }) && address@ == self.device_registry.spec_devices()[i].address@,
                    }
                }
            },
    {
        if self.position(device_id).is_some() {
            return Ok(ConnectPlan::AlreadyConnected);
        }
        if self.active_connections.len() >= self.discovery_config.max_device_connections {
            return Err(ProtocolError::MaxConnectionsExceeded {
                count: self.active_connections.len(),
                max: self.discovery_config.max_device_connections,
            });
        }
        match self.device_registry.get_device(device_id) {
            None => Err(ProtocolError::DeviceNotFound { device_id: to_owned_string(device_id) }),
            Some(d) => {
                proof {
                    let devs = self.device_registry.spec_devices();
                    let k = registered(devs, device_id@)->0;
                    assert(devs[k].device_id@ == device_id@);
                }
                Ok(ConnectPlan::Connect { address: to_owned_string(d.address.as_str()) })
            },
        }
    }

    /// The second step of connecting `device_id`: on success the
    /// connection is kept as healthy at `now_ms` and the registry marks the
    /// device connected; a timeout or failure is reported.
    pub fn finish_connect(&mut self, device_id: &str, result: ConnectResult, now_ms: u64) -> (r: Result<(), ProtocolError>)
        requires
            old(self).wf(),
            connection_of(old(self).active_connections@, device_id@) is None,
        ensures
            final(self).wf(),
            final(self).discovery_config == old(self).discovery_config,
            match result {
                ConnectResult::TimedOut => r == Err::<(), ProtocolError>(ProtocolError::Timeout { timeout_ms: old(self).discovery_config.connection_timeout_ms })
                    && final(self).active_connections@ == old(self).active_connections@
                    && final(self).device_registry.spec_devices() == old(self).device_registry.spec_devices(),
                ConnectResult::Failed { reason } => (r matches Err(ProtocolError::DeviceConnectionFailed { device_id: d, reason: m })
                        && d@ == device_id@ && m@ == reason@)
                    && final(self).active_connections@ == old(self).active_connections@
                    && final(self).device_registry.spec_devices() == old(self).device_registry.spec_devices(),
                ConnectResult::Connected => {
                    &&& final(self).active_connections@.drop_last() == old(self).active_connections@
                    &&& final(self).active_connections@.len() == old(self).active_connections@.len() + 1
                    &&& final(self).active_connections@.last().device_id@ == device_id@
                    &&& final(self).active_connections@.last().connected_at_ms == now_ms
                    &&& final(self).active_connections@.last().last_activity_ms == now_ms
                    &&& final(self).active_connections@.last().health_status == ConnectionHealth::Healthy
                    &&& match registered(old(self).device_registry.spec_devices(), device_id@) {
                        Some(i) => r is Ok && final(self).device_registry.spec_devices()
                            == old(self).device_registry.spec_devices().update(i, DeviceInfo { state: DeviceState::Connected, ..old(self).device_registry.spec_devices()[i] }),
                        None => (r matches Err(ProtocolError::DeviceNotFound { device_id: d }) && d@ == device_id@)
                            && final(self).device_registry.spec_devices() == old(self).device_registry.spec_devices(),
                    }
                },
            },
    {
        match result {
            ConnectResult::TimedOut => Err(ProtocolError::Timeout { timeout_ms: self.discovery_config.connection_timeout_ms }),
            ConnectResult::Failed { reason } => Err(ProtocolError::DeviceConnectionFailed {
                device_id: to_owned_string(device_id),
                reason,
            }),
            ConnectResult::Connected => {
                let ghost before = self.active_connections@;
                self.active_connections.push(DeviceConnection {
                    device_id: to_owned_string(device_id),
                    connected_at_ms: now_ms,
                    last_activity_ms: now_ms,
                    health_status: ConnectionHealth::Healthy,
                });
                proof {
                    assert forall|i: int, j: int| 0 <= i < j < self.active_connections@.len()
                        implies self.active_connections@[i].device_id@ != self.active_connections@[j].device_id@ by {
                        if j == before.len() {
                            assert(self.active_connections@[i] == before[i]);
                        } else {
                            assert(self.active_connections@[i] == before[i]);
                            assert(self.active_connections@[j] == before[j]);
                        }
                    }
                }
                match self.device_registry.update_device_state(device_id, DeviceState::Connected) {
                    Ok(()) => {
                        proof {
                            let devs = old(self).device_registry.spec_devices();
                            let k = choose|i: int| 0 <= i < devs.len() && devs[i].device_id@ == device_id@
                                && self.device_registry.spec_devices() == devs.update(i, DeviceInfo { state: DeviceState::Connected, ..devs[i] });
                            let w = registered(devs, device_id@)->0;
                            assert(w == k) by {
                                if w != k {
                                    old(self).device_registry.lemma_ids_distinct(w, k);
                                }
                            }
                        }
                        Ok(())
                    },
                    Err(_) => Err(ProtocolError::DeviceNotFound { device_id: to_owned_string(device_id) }),
                }
            },
        }
    }

    /// Drops the connection of `device_id`, if any, and marks the device
    /// discovered again; says whether there was a connection (whose
    /// transport the caller then closes).
    pub fn disconnect_device(&mut self, device_id: &str) -> (r: bool)
        requires
            old(self).wf(),
        ensures
            final(self).wf(),
            final(self).discovery_config == old(self).discovery_config,
            match connection_of(old(self).active_connections@, device_id@) {
                Some(i) => {
                    &&& r
                    &&& final(self).active_connections@ == old(self).active_connections@.remove(i)
                    &&& match registered(old(self).device_registry.spec_devices(), device_id@) {
                        Some(k) => final(self).device_registry.spec_devices()
                            == old(self).device_registry.spec_devices().update(k, DeviceInfo { state: DeviceState::Discovered, ..old(self).device_registry.spec_devices()[k] }),
                        None => final(self).device_registry.spec_devices() == old(self).device_registry.spec_devices(),
                    }
                },
                None => !r && final(self).active_connections@ == old(self).active_connections@
                    && final(self).device_registry.spec_devices() == old(self).device_registry.spec_devices(),
            },
    {
        match self.position(device_id) {
            Some(i) => {
                let ghost before = self.active_connections@;
                let _ = self.active_connections.remove(i);
                proof {
                    assert forall|a: int, b: int| 0 <= a < b < self.active_connections@.len()
                        implies self.active_connections@[a].device_id@ != self.active_connections@[b].device_id@ by {
                        let oa = if a < i { a } else { a + 1 };
                        let ob = if b < i { b } else { b + 1 };
                        assert(self.active_connections@[a] == before[oa]);
                        assert(self.active_connections@[b] == before[ob]);
                    }
                }
                match self.device_registry.update_device_state(device_id, DeviceState::Discovered) {
                    Ok(()) => {
                        proof {
                            let devs = old(self).device_registry.spec_devices();
                            let k = choose|x: int| 0 <= x < devs.len() && devs[x].device_id@ == device_id@
                                && self.device_registry.spec_devices() == devs.update(x, DeviceInfo { state: DeviceState::Discovered, ..devs[x] });
                            let w = registered(devs, device_id@)->0;
                            assert(w == k) by {
                                if w != k {
                                    old(self).device_registry.lemma_ids_distinct(w, k);
                                }
                            }
                        }
                    },
                    Err(_) => {},
                }
                true
            },
            None => false,
        }
    }

    /// One health check of `device_id`, whose transport is up or not
    /// (`alive`): healthy when it is up and the registry holds the device
    /// as connected; an unhealthy device is disconnected. Says whether it
    /// was healthy.
    pub fn check_device_health(&mut self, device_id: &str, alive: bool) -> (r: bool)
        requires
            old(self).wf(),
        ensures
            final(self).wf(),
            final(self).discovery_config == old(self).discovery_config,
            r == (connection_of(old(self).active_connections@, device_id@) is Some
                && spec_healthy(alive, old(self).device_registry.spec_devices(), device_id@)),
            r ==> final(self).active_connections@ == old(self).active_connections@
                && final(self).device_registry.spec_devices() == old(self).device_registry.spec_devices(),
            !r ==> match connection_of(old(self).active_connections@, device_id@) {
                Some(i) => final(self).active_connections@ == old(self).active_connections@.remove(i),
                None => final(self).active_connections@ == old(self).active_connections@,
            },
            !r ==> final(self).device_registry.spec_devices() == registry_after_disconnect(
                old(self).device_registry.spec_devices(), old(self).active_connections@, device_id@),
    {
        let connected = self.position(device_id).is_some();
        let healthy = connected && alive && match self.device_registry.get_device(device_id) {
            Some(d) => match d.state {
                DeviceState::Connected => true,
                _ => false,
            },
            None => false,
        };
        if !healthy {
            let _ = self.disconnect_device(device_id);
        }
        healthy
    }

    /// The addresses discovery probes: 127.0.0.1 at each configured port.
    pub fn discovery_addresses(&self) -> (r: Vec<String>)
        ensures
            r@.len() == self.discovery_config.tcp_ports@.len(),
            forall|i: int| 0 <= i < r@.len() ==> #[trigger] r@[i]@ == "127.0.0.1:"@ + dec_chars(self.discovery_config.tcp_ports@[i] as nat),
    {
        let mut out: Vec<String> = Vec::new();
        let mut i: usize = 0;
        while i < self.discovery_config.tcp_ports.len()
            invariant
                i <= self.discovery_config.tcp_ports@.len(),
                out@.len() == i,
                forall|j: int| 0 <= j < i ==> #[trigger] out@[j]@ == "127.0.0.1:"@ + dec_chars(self.discovery_config.tcp_ports@[j] as nat),
            decreases self.discovery_config.tcp_ports@.len() - i,
        {
            let mut a = to_owned_string("127.0.0.1:");
            push_dec_str(&mut a, self.discovery_config.tcp_ports[i] as u64);
            out.push(a);
            i = i + 1;
        }
        out
    }

    /// Registers the devices that answered a discovery probe
    /// (`reachable[i]` for the i-th address of `discovery_addresses`) as
    /// "device-<address>", named "TCP Device at <address>", discovered, in
    /// address order; an id that is already registered is passed over.
    /// Hands back the ids registered now, in order.
    pub fn discover_devices(&mut self, reachable: &Vec<bool>) -> (r: Vec<String>)
        requires
            old(self).wf(),
            reachable@.len() == old(self).discovery_config.tcp_ports@.len(),
        ensures
            final(self).wf(),
            final(self).discovery_config == old(self).discovery_config,
            final(self).active_connections@ == old(self).active_connections@,
            strings_view(r@) == discovered_ids(old(self).device_registry.spec_devices(),
                old(self).discovery_config.tcp_ports@, reachable@, reachable@.len() as nat),
            final(self).device_registry.spec_devices().len() == old(self).device_registry.spec_devices().len() + r@.len(),
            final(self).device_registry.spec_devices().take(old(self).device_registry.spec_devices().len() as int)
                == old(self).device_registry.spec_devices(),
            forall|k: int| 0 <= k < r@.len() ==> {
                let d = #[trigger] final(self).device_registry.spec_devices()[old(self).device_registry.spec_devices().len() + k];
                &&& d.device_id@ == r@[k]@
                &&& d.device_id@ == "device-"@ + d.address@
                &&& d.name@ == "TCP Device at "@ + d.address@
                &&& d.state == DeviceState::Discovered
                &&& d.metadata.model is None
                &&& d.metadata.manufacturer is None
                &&& d.metadata.serial_number is None
                &&& d.metadata.os_version is None
                &&& d.metadata.properties@.len() == 0
            },
    {
        let addresses = self.discovery_addresses();
        let ghost start = self.device_registry.spec_devices();
        let ghost ports = self.discovery_config.tcp_ports@;
        let mut found: Vec<String> = Vec::new();
        let mut i: usize = 0;
        while i < addresses.len()
            invariant
                i <= addresses@.len(),
                addresses@.len() == reachable@.len(),
                ports.len() == reachable@.len(),
                ports == old(self).discovery_config.tcp_ports@,
                self.wf(),
                self.discovery_config == old(self).discovery_config,
                self.active_connections@ == old(self).active_connections@,
                start == old(self).device_registry.spec_devices(),
                forall|j: int| 0 <= j < addresses@.len() ==> #[trigger] addresses@[j]@ == "127.0.0.1:"@ + dec_chars(ports[j] as nat),
                strings_view(found@) == discovered_ids(start, ports, reachable@, i as nat),
                self.device_registry.spec_devices().len() == start.len() + found@.len(),
                self.device_registry.spec_devices().take(start.len() as int) == start,
                forall|k: int| 0 <= k < found@.len() ==> {
                    let d = #[trigger] self.device_registry.spec_devices()[start.len() + k];
                    &&& d.device_id@ == found@[k]@
                    &&& d.device_id@ == "device-"@ + d.address@
                    &&& d.name@ == "TCP Device at "@ + d.address@
                    &&& d.state == DeviceState::Discovered
                    &&& d.metadata.model is None
                    &&& d.metadata.manufacturer is None
                    &&& d.metadata.serial_number is None
                    &&& d.metadata.os_version is None
                    &&& d.metadata.properties@.len() == 0
                },
            decreases addresses@.len() - i,
        {
            let ghost before = self.device_registry.spec_devices();
            let ghost prev = strings_view(found@);
            let ghost id_spec = discovery_id(ports[i as int]);
            proof {
                reveal_strlit("device-");
                reveal_strlit("127.0.0.1:");
                reveal_strlit("device-127.0.0.1:");
                assert("device-"@ + ("127.0.0.1:"@ + dec_chars(ports[i as int] as nat)) =~= id_spec);
                // an id is registered now exactly when it was known before or found in this pass
                assert((exists|j: int| 0 <= j < before.len() && before[j].device_id@ == id_spec)
                    <==> (known_id(start, id_spec) || prev.contains(id_spec))) by {
                    if exists|j: int| 0 <= j < before.len() && before[j].device_id@ == id_spec {
                        let j = choose|j: int| 0 <= j < before.len() && before[j].device_id@ == id_spec;
                        if j < start.len() {
                            assert(before.take(start.len() as int)[j] == start[j]);
                        } else {
                            let k = j - start.len();
                            assert(before[start.len() + k].device_id@ == found@[k]@);
                            assert(prev[k] == id_spec);
                        }
                    }
                    if known_id(start, id_spec) {
                        let j = choose|j: int| 0 <= j < start.len() && start[j].device_id@ == id_spec;
                        assert(before.take(start.len() as int)[j] == before[j]);
                    }
                    if prev.contains(id_spec) {
                        let k = choose|k: int| 0 <= k < prev.len() && prev[k] == id_spec;
                        assert(before[start.len() + k].device_id@ == found@[k]@);
                    }
                }
            }
            if reachable[i] {
                let mut id = to_owned_string("device-");
                push_str(&mut id, addresses[i].as_str());
                let mut name = to_owned_string("TCP Device at ");
                push_str(&mut name, addresses[i].as_str());
                let device = DeviceInfo {
                    device_id: to_owned_string(id.as_str()),
                    name,
                    address: to_owned_string(addresses[i].as_str()),
                    state: DeviceState::Discovered,
                    metadata: DeviceMetadata::default(),
                };
                let ghost dv = device;
                match self.device_registry.register_device(device) {
                    Ok(()) => {
                        found.push(id);
                        proof {
                            let after = self.device_registry.spec_devices();
                            assert(after.take(start.len() as int) =~= start) by {
                                assert(after.take(start.len() as int) =~= before.take(start.len() as int));
                            }
                            assert(strings_view(found@) =~= prev.push(id_spec));
                            assert forall|k: int| 0 <= k < found@.len() implies {
                                let d = #[trigger] after[start.len() + k];
                                &&& d.device_id@ == found@[k]@
                                &&& d.device_id@ == "device-"@ + d.address@
                                &&& d.name@ == "TCP Device at "@ + d.address@
                                &&& d.state == DeviceState::Discovered
                                &&& d.metadata.model is None
                                &&& d.metadata.manufacturer is None
                                &&& d.metadata.serial_number is None
                                &&& d.metadata.os_version is None
                                &&& d.metadata.properties@.len() == 0
                            } by {
                                if k < found@.len() - 1 {
                                    assert(after[start.len() + k] == before[start.len() + k]);
                                } else {
                                    assert(after[start.len() + k] == dv);
                                }
                            }
                        }
                    },
                    Err(_) => {},
                }
            }
            i = i + 1;
        }
        found
    }

    /// The devices with an open connection.
    pub fn get_connected_devices(&self) -> (r: Vec<String>)
        ensures
            r@.len() == self.active_connections@.len(),
            forall|i: int| 0 <= i < r@.len() ==> #[trigger] r@[i]@ == self.active_connections@[i].device_id@,
    {
        let mut out: Vec<String> = Vec::new();
        let mut i: usize = 0;
        while i < self.active_connections.len()
            invariant
                i <= self.active_connections@.len(),
                out@.len() == i,
                forall|j: int| 0 <= j < i ==> #[trigger] out@[j]@ == self.active_connections@[j].device_id@,
            decreases self.active_connections@.len() - i,
        {
            out.push(to_owned_string(self.active_connections[i].device_id.as_str()));
            i = i + 1;
        }
        out
    }

    /// The devices whose connection has been idle for more than five
    /// minutes at `now_ms`, in connection order.
    pub fn inactive_devices(&self, now_ms: u64) -> (r: Vec<String>)
        ensures
            r@.map_values(|s: String| s@) == self.active_connections@.filter(|c: DeviceConnection| idle(c, now_ms))
                .map_values(|c: DeviceConnection| c.device_id@),
    {
        let ghost pred = |c: DeviceConnection| idle(c, now_ms);
        let ghost conns = self.active_connections@;
        let mut out: Vec<String> = Vec::new();
        let mut i: usize = 0;
        proof {
            assert(conns.take(0) =~= Seq::<DeviceConnection>::empty());
            reveal(Seq::filter);
        }
        while i < self.active_connections.len()
            invariant
                i <= conns.len(),
                conns == self.active_connections@,
                pred == (|c: DeviceConnection| idle(c, now_ms)),
                out@.map_values(|s: String| s@) == conns.take(i as int).filter(pred).map_values(|c: DeviceConnection| c.device_id@),
            decreases conns.len() - i,
        {
            let c = &self.active_connections[i];
            proof {
                assert(conns.take(i + 1) =~= conns.take(i as int).push(conns[i as int]));
                conns.take(i as int).lemma_filter_push(conns[i as int], pred);
            }
            if now_ms >= c.last_activity_ms && now_ms - c.last_activity_ms > 300_000 {
                assert(pred(conns[i as int]));
                let ghost prev = out@;
                out.push(to_owned_string(c.device_id.as_str()));
                proof {
                    assert(out@.map_values(|s: String| s@) =~= prev.map_values(|s: String| s@).push(conns[i as int].device_id@));
                    assert(out@.map_values(|s: String| s@) =~= conns.take(i + 1).filter(pred).map_values(|c: DeviceConnection| c.device_id@));
                }
            } else {
                assert(!pred(conns[i as int]));
                proof {
                    assert(out@.map_values(|s: String| s@) =~= conns.take(i + 1).filter(pred).map_values(|c: DeviceConnection| c.device_id@));
                }
            }
            i = i + 1;
        }
        assert(conns.take(conns.len() as int) =~= conns);
        out
    }

    /// What is known of the connection of `device_id` at `now_ms`.
    pub fn get_device_stats(&self, device_id: &str, now_ms: u64) -> (r: Option<DeviceConnectionStats>)
        ensures
            match connection_of(self.active_connections@, device_id@) {
                Some(i) => r matches Some(s) && {
                    let c = self.active_connections@[i];
                    &&& s.device_id@ == device_id@
                    &&& s.connected_at_ms == c.connected_at_ms
                    &&& s.last_activity_ms == c.last_activity_ms
                    &&& s.uptime_ms == (if now_ms >= c.connected_at_ms { (now_ms - c.connected_at_ms) as u64 } else { 0 })
                    &&& same_health(s.health_status, c.health_status)
                },
                None => r is None,
            },
    {
        match self.position(device_id) {
            Some(i) => {
                let c = &self.active_connections[i];
                let health = match &c.health_status {
                    ConnectionHealth::Healthy => ConnectionHealth::Healthy,
                    ConnectionHealth::Degraded { reason } => ConnectionHealth::Degraded { reason: to_owned_string(reason.as_str()) },
                    ConnectionHealth::Unhealthy { reason } => ConnectionHealth::Unhealthy { reason: to_owned_string(reason.as_str()) },
                };
                Some(DeviceConnectionStats {
                    device_id: to_owned_string(device_id),
                    connected_at_ms: c.connected_at_ms,
                    last_activity_ms: c.last_activity_ms,
                    uptime_ms: if now_ms >= c.connected_at_ms { now_ms - c.connected_at_ms } else { 0 },
                    health_status: health,
                })
            },
            None => None,
        }
    }
}

} // verus!
