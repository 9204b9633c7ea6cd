use vstd::prelude::*;
use crate::transport::{DeviceInfo, TransportType};
use crate::text::{str_eq, to_owned_string};

verus! {

/// What discovery reports.
#[derive(Debug, Clone)]
pub enum DiscoveryEvent {
    /// A device appeared; carries its id.
    DeviceConnected(String),
    /// A device went away; carries its id.
    DeviceDisconnected(String),
    DiscoveryError(String),
}

/// What is known of discovery.
#[derive(Debug, Clone, Copy, PartialEq, Eq, Structural)]
pub struct DiscoveryStats {
    pub total_known_devices: usize,
    pub tcp_devices: usize,
    pub usb_device_count: usize,
    pub usb_bridge_count: usize,
    pub discovery_interval_ms: u64,
    pub hotplug_enabled: bool,
}

/// The texts of a list of strings, as a set.
pub open spec fn text_set(v: Seq<String>) -> Set<Seq<char>> {
    Set::new(|t: Seq<char>| exists|i: int| 0 <= i < v.len() && v[i]@ == t)
}

/// The ids of a list of devices, as a set.
pub open spec fn id_set(d: Seq<DeviceInfo>) -> Set<Seq<char>> {
    Set::new(|t: Seq<char>| exists|i: int| 0 <= i < d.len() && d[i].device_id@ == t)
}

/// Whether event `e` reports `t` connected.
pub open spec fn reports_connected(e: DiscoveryEvent, t: Seq<char>) -> bool {
    e matches DiscoveryEvent::DeviceConnected(s) && s@ == t
}

/// Whether event `e` reports `t` gone.
pub open spec fn reports_disconnected(e: DiscoveryEvent, t: Seq<char>) -> bool {
    e matches DiscoveryEvent::DeviceDisconnected(s) && s@ == t
}

/// The ids a list of events reports connected.
pub open spec fn connected_ids(e: Seq<DiscoveryEvent>) -> Set<Seq<char>> {
    Set::new(|t: Seq<char>| exists|i: int| 0 <= i < e.len() && #[trigger] reports_connected(e[i], t))
}

/// The ids a list of events reports gone.
pub open spec fn disconnected_ids(e: Seq<DiscoveryEvent>) -> Set<Seq<char>> {
    Set::new(|t: Seq<char>| exists|i: int| 0 <= i < e.len() && #[trigger] reports_disconnected(e[i], t))
}

/// Tracks which devices are present and reports arrivals and departures.
#[derive(Debug)]
pub struct DeviceDiscoveryCoordinator {
    pub known_devices: Vec<String>,
    pub discovery_interval_ms: u64,
    pub hotplug_enabled: bool,
}

/// Whether `s` occurs in `v`.
fn contains_text(v: &Vec<String>, s: &str) -> (r: bool)
    ensures
        r == text_set(v@).contains(s@),
{
    let mut i: usize = 0;
    while i < v.len()
        invariant
            i <= v@.len(),
            forall|j: int| 0 <= j < i ==> v@[j]@ != s@,
        decreases v@.len() - i,
    {
        if str_eq(v[i].as_str(), s) {
            assert(text_set(v@).contains(s@)) by {
                assert(v@[i as int]@ == s@);
            }
            return true;
        }
        i = i + 1;
    }
    false
}

/// Whether a device of `d` has id `s`.
fn contains_id(d: &Vec<DeviceInfo>, s: &str) -> (r: bool)
    ensures
        r == id_set(d@).contains(s@),
{
    let mut i: usize = 0;
    while i < d.len()
        invariant
            i <= d@.len(),
            forall|j: int| 0 <= j < i ==> d@[j].device_id@ != s@,
        decreases d@.len() - i,
    {
        if str_eq(d[i].device_id.as_str(), s) {
            assert(id_set(d@).contains(s@)) by {
                assert(d@[i as int].device_id@ == s@);
            }
            return true;
        }
        i = i + 1;
    }
    false
}

impl DeviceDiscoveryCoordinator {
    /// Nothing known; scanning every second with hotplug on.
    pub fn new() -> (r: Self)
        ensures
            r.known_devices@.len() == 0,
            r.discovery_interval_ms == 1000,
            r.hotplug_enabled,
    {
        DeviceDiscoveryCoordinator { known_devices: Vec::new(), discovery_interval_ms: 1000, hotplug_enabled: true }
    }

    /// Nothing known, with the given settings.
    pub fn with_config(discovery_interval_ms: u64, hotplug_enabled: bool) -> (r: Self)
        ensures
            r.known_devices@.len() == 0,
            r.discovery_interval_ms == discovery_interval_ms,
            r.hotplug_enabled == hotplug_enabled,
    {
        DeviceDiscoveryCoordinator { known_devices: Vec::new(), discovery_interval_ms, hotplug_enabled }
    }

    /// Takes in the devices a scan found: the known set becomes their ids;
    /// the events report each new id as connected (first) and each id no
    /// longer found as disconnected.
    pub fn process_discovered_devices(&mut self, devices: &Vec<DeviceInfo>) -> (r: Vec<DiscoveryEvent>)
        ensures
            text_set(final(self).known_devices@) == id_set(devices@),
            connected_ids(r@) == id_set(devices@).difference(text_set(old(self).known_devices@)),
            disconnected_ids(r@) == text_set(old(self).known_devices@).difference(id_set(devices@)),
            forall|i: int| 0 <= i < r@.len() ==> !(r@[i] is DiscoveryError),
            final(self).discovery_interval_ms == old(self).discovery_interval_ms,
            final(self).hotplug_enabled == old(self).hotplug_enabled,
    {
        let ghost old_known = text_set(self.known_devices@);
        let ghost cur = id_set(devices@);
        let mut events: Vec<DiscoveryEvent> = Vec::new();
        let mut i: usize = 0;
        while i < devices.len()
            invariant
                i <= devices@.len(),
                old_known == text_set(old(self).known_devices@),
                cur == id_set(devices@),
                self.discovery_interval_ms == old(self).discovery_interval_ms,
                self.hotplug_enabled == old(self).hotplug_enabled,
                text_set(self.known_devices@) == old_known.union(id_set(devices@.take(i as int))),
                connected_ids(events@) == id_set(devices@.take(i as int)).difference(old_known),
                disconnected_ids(events@) == Set::<Seq<char>>::empty(),
                forall|k: int| 0 <= k < events@.len() ==> events@[k] is DeviceConnected,
            decreases devices@.len() - i,
        {
            let id = devices[i].device_id.as_str();
            let ghost prev_known = self.known_devices@;
            let ghost prev_events = events@;
            let ghost upto = devices@.take(i as int);
            let ghost upto1 = devices@.take(i + 1);
            proof {
                assert(id_set(devices@.take(i + 1)) =~= id_set(devices@.take(i as int)).insert(id@)) by {
                    assert forall|t: Seq<char>| id_set(devices@.take(i + 1)).contains(t) implies id_set(devices@.take(i as int)).insert(id@).contains(t) by {
                        let j = choose|j: int| #![auto] 0 <= j < upto1.len() && upto1[j].device_id@ == t;
                        if j < i {
                            assert(devices@.take(i as int)[j] == devices@[j]);
                        }
                    }
                    assert forall|t: Seq<char>| id_set(devices@.take(i as int)).insert(id@).contains(t) implies id_set(devices@.take(i + 1)).contains(t) by {
                        if t == id@ {
                            assert(devices@.take(i + 1)[i as int].device_id@ == t);
                        } else {
                            let j = choose|j: int| #![auto] 0 <= j < upto.len() && upto[j].device_id@ == t;
                            assert(devices@.take(i + 1)[j] == devices@[j]);
                        }
                    }
                }
            }
            if !contains_text(&self.known_devices, id) {
                self.known_devices.push(to_owned_string(id));
                events.push(DiscoveryEvent::DeviceConnected(to_owned_string(id)));
                proof {
                    assert(text_set(self.known_devices@) =~= text_set(prev_known).insert(id@)) by {
                        assert forall|t: Seq<char>| text_set(self.known_devices@).contains(t) implies text_set(prev_known).insert(id@).contains(t) by {
                            let j = choose|j: int| #![auto] 0 <= j < self.known_devices@.len() && self.known_devices@[j]@ == t;
                            if j < prev_known.len() {
                                assert(self.known_devices@[j] == prev_known[j]);
                            }
                        }
                        assert forall|t: Seq<char>| text_set(prev_known).insert(id@).contains(t) implies text_set(self.known_devices@).contains(t) by {
                            if t == id@ {
                                assert(self.known_devices@[prev_known.len() as int]@ == t);
                            } else {
                                let j = choose|j: int| #![auto] 0 <= j < prev_known.len() && prev_known[j]@ == t;
                                assert(self.known_devices@[j] == prev_known[j]);
                            }
                        }
                    }
                    assert(connected_ids(events@) =~= connected_ids(prev_events).insert(id@)) by {
                        assert forall|t: Seq<char>| connected_ids(events@).contains(t) implies connected_ids(prev_events).insert(id@).contains(t) by {
                            let j = choose|j: int| #![auto] 0 <= j < events@.len() && reports_connected(events@[j], t);
                            if j < prev_events.len() {
                                assert(events@[j] == prev_events[j]);
                            }
                        }
                        assert forall|t: Seq<char>| connected_ids(prev_events).insert(id@).contains(t) implies connected_ids(events@).contains(t) by {
                            if t == id@ {
                                assert(reports_connected(events@[prev_events.len() as int], t));
                            } else {
                                let j = choose|j: int| #![auto] 0 <= j < prev_events.len() && reports_connected(prev_events[j], t);
                                assert(events@[j] == prev_events[j]);
                            }
                        }
                    }
                    assert(disconnected_ids(events@) =~= Set::<Seq<char>>::empty()) by {
                        assert forall|t: Seq<char>| !disconnected_ids(events@).contains(t) by {
                            if disconnected_ids(events@).contains(t) {
                                let j = choose|j: int| #![auto] 0 <= j < events@.len() && reports_disconnected(events@[j], t);
                                if j < prev_events.len() {
                                    assert(events@[j] == prev_events[j]);
                                }
                            }
                        }
                    }
                    assert(connected_ids(events@) =~= id_set(devices@.take(i + 1)).difference(old_known));
                    assert(text_set(self.known_devices@) =~= old_known.union(id_set(devices@.take(i + 1))));
                }
            } else {
                proof {
                    assert(connected_ids(events@) =~= id_set(devices@.take(i + 1)).difference(old_known));
                    assert(text_set(self.known_devices@) =~= old_known.union(id_set(devices@.take(i + 1))));
                }
            }
            i = i + 1;
        }
        assert(devices@.take(devices@.len() as int) =~= devices@);
        let mut rest: Vec<String> = Vec::new();
        std::mem::swap(&mut rest, &mut self.known_devices);
        let ghost all = rest@;
        let ghost conn_events = events@;
        let mut j: usize = 0;
        while j < rest.len()
            invariant
                j <= all.len(),
                all == rest@,
                text_set(all) == old_known.union(cur),
                cur == id_set(devices@),
                self.discovery_interval_ms == old(self).discovery_interval_ms,
                self.hotplug_enabled == old(self).hotplug_enabled,
                text_set(self.known_devices@) == text_set(all.take(j as int)).intersect(cur),
                connected_ids(events@) == connected_ids(conn_events),
                connected_ids(conn_events) == cur.difference(old_known),
                disconnected_ids(events@) == text_set(all.take(j as int)).difference(cur),
                forall|k: int| 0 <= k < events@.len() ==> !(events@[k] is DiscoveryError),
            decreases all.len() - j,
        {
            let k = rest[j].as_str();
            let ghost prev_known = self.known_devices@;
            let ghost prev_events = events@;
            let ghost head = all.take(j as int);
            let ghost head1 = all.take(j + 1);
            proof {
                assert(text_set(all.take(j + 1)) =~= text_set(all.take(j as int)).insert(k@)) by {
                    assert forall|t: Seq<char>| text_set(all.take(j + 1)).contains(t) implies text_set(all.take(j as int)).insert(k@).contains(t) by {
                        let x = choose|x: int| #![auto] 0 <= x < head1.len() && head1[x]@ == t;
                        if x < j {
                            assert(all.take(j as int)[x] == all[x]);
                        }
                    }
                    assert forall|t: Seq<char>| text_set(all.take(j as int)).insert(k@).contains(t) implies text_set(all.take(j + 1)).contains(t) by {
                        if t == k@ {
                            assert(all.take(j + 1)[j as int]@ == t);
                        } else {
                            let x = choose|x: int| #![auto] 0 <= x < head.len() && head[x]@ == t;
                            assert(all.take(j + 1)[x] == all[x]);
                        }
                    }
                }
            }
            if contains_id(devices, k) {
                self.known_devices.push(to_owned_string(k));
                proof {
                    assert(text_set(self.known_devices@) =~= text_set(prev_known).insert(k@)) by {
                        assert forall|t: Seq<char>| text_set(self.known_devices@).contains(t) implies text_set(prev_known).insert(k@).contains(t) by {
                            let x = choose|x: int| #![auto] 0 <= x < self.known_devices@.len() && self.known_devices@[x]@ == t;
                            if x < prev_known.len() {
                                assert(self.known_devices@[x] == prev_known[x]);
                            }
                        }
                        assert forall|t: Seq<char>| text_set(prev_known).insert(k@).contains(t) implies text_set(self.known_devices@).contains(t) by {
                            if t == k@ {
                                assert(self.known_devices@[prev_known.len() as int]@ == t);
                            } else {
                                let x = choose|x: int| #![auto] 0 <= x < prev_known.len() && prev_known[x]@ == t;
                                assert(self.known_devices@[x] == prev_known[x]);
                            }
                        }
                    }
                    assert(text_set(self.known_devices@) =~= text_set(all.take(j + 1)).intersect(cur));
                    assert(disconnected_ids(events@) =~= text_set(all.take(j + 1)).difference(cur));
                }
            } else {
                events.push(DiscoveryEvent::DeviceDisconnected(to_owned_string(k)));
                proof {
                    assert(disconnected_ids(events@) =~= disconnected_ids(prev_events).insert(k@)) by {
                        assert forall|t: Seq<char>| disconnected_ids(events@).contains(t) implies disconnected_ids(prev_events).insert(k@).contains(t) by {
                            let x = choose|x: int| #![auto] 0 <= x < events@.len() && reports_disconnected(events@[x], t);
                            if x < prev_events.len() {
                                assert(events@[x] == prev_events[x]);
                            }
                        }
                        assert forall|t: Seq<char>| disconnected_ids(prev_events).insert(k@).contains(t) implies disconnected_ids(events@).contains(t) by {
                            if t == k@ {
                                assert(reports_disconnected(events@[prev_events.len() as int], t));
                            } else {
                                let x = choose|x: int| #![auto] 0 <= x < prev_events.len() && reports_disconnected(prev_events[x], t);
                                assert(events@[x] == prev_events[x]);
                            }
                        }
                    }
                    assert(connected_ids(events@) =~= connected_ids(prev_events)) by {
                        assert forall|t: Seq<char>| connected_ids(events@).contains(t) implies connected_ids(prev_events).contains(t) by {
                            let x = choose|x: int| #![auto] 0 <= x < events@.len() && reports_connected(events@[x], t);
                            if x < prev_events.len() {
                                assert(events@[x] == prev_events[x]);
                            }
                        }
                        assert forall|t: Seq<char>| connected_ids(prev_events).contains(t) implies connected_ids(events@).contains(t) by {
                            let x = choose|x: int| #![auto] 0 <= x < prev_events.len() && reports_connected(prev_events[x], t);
                            assert(events@[x] == prev_events[x]);
                        }
                    }
                    assert(text_set(self.known_devices@) =~= text_set(all.take(j + 1)).intersect(cur));
                    assert(disconnected_ids(events@) =~= text_set(all.take(j + 1)).difference(cur));
                }
            }
            j = j + 1;
        }
        proof {
            assert(all.take(all.len() as int) =~= all);
            assert(text_set(self.known_devices@) =~= cur);
            assert(disconnected_ids(events@) =~= old_known.difference(cur));
        }
        events
    }

    /// How many devices are known.
    pub fn known_count(&self) -> (r: usize)
        ensures
            r == self.known_devices@.len(),
    {
        self.known_devices.len()
    }

    /// The ids of the devices the last scan found.
    pub fn get_known_devices(&self) -> (r: &Vec<String>)
        ensures
            r@ == self.known_devices@,
    {
        &self.known_devices
    }

    /// The discovery figures, counting the devices of the latest scan by
    /// transport type.
    pub fn get_discovery_stats(&self, devices: &Vec<DeviceInfo>) -> (r: DiscoveryStats)
        ensures
            r.total_known_devices == self.known_devices@.len(),
            r.tcp_devices == devices@.filter(|d: DeviceInfo| d.transport_type == TransportType::Tcp).len(),
            r.usb_device_count == devices@.filter(|d: DeviceInfo| d.transport_type == TransportType::UsbDevice).len(),
            r.usb_bridge_count == devices@.filter(|d: DeviceInfo| d.transport_type == TransportType::UsbBridge).len(),
            r.discovery_interval_ms == self.discovery_interval_ms,
            r.hotplug_enabled == self.hotplug_enabled,
    {
        let ghost ptcp = |d: DeviceInfo| d.transport_type == TransportType::Tcp;
        let ghost pdev = |d: DeviceInfo| d.transport_type == TransportType::UsbDevice;
        let ghost pbr = |d: DeviceInfo| d.transport_type == TransportType::UsbBridge;
        let ghost all = devices@;
        let mut tcp: usize = 0;
        let mut dev: usize = 0;
        let mut bridge: usize = 0;
        let mut i: usize = 0;
        proof {
            assert(all.take(0) =~= Seq::<DeviceInfo>::empty());
            reveal(Seq::filter);
        }
        while i < devices.len()
            invariant
                i <= all.len(),
                all == devices@,
                ptcp == (|d: DeviceInfo| d.transport_type == TransportType::Tcp),
                pdev == (|d: DeviceInfo| d.transport_type == TransportType::UsbDevice),
                pbr == (|d: DeviceInfo| d.transport_type == TransportType::UsbBridge),
                tcp == all.take(i as int).filter(ptcp).len(),
                dev == all.take(i as int).filter(pdev).len(),
                bridge == all.take(i as int).filter(pbr).len(),
                tcp <= i,
                dev <= i,
                bridge <= i,
            decreases all.len() - i,
        {
            proof {
                assert(all.take(i + 1) =~= all.take(i as int).push(all[i as int]));
                all.take(i as int).lemma_filter_push(all[i as int], ptcp);
                all.take(i as int).lemma_filter_push(all[i as int], pdev);
                all.take(i as int).lemma_filter_push(all[i as int], pbr);
            }
            match devices[i].transport_type {
                TransportType::Tcp => {
                    tcp = tcp + 1;
                },
                TransportType::UsbDevice => {
                    dev = dev + 1;
                },
                TransportType::UsbBridge => {
                    bridge = bridge + 1;
                },
            }
            i = i + 1;
        }
        assert(all.take(all.len() as int) =~= all);
        DiscoveryStats {
            total_known_devices: self.known_devices.len(),
            tcp_devices: tcp,
            usb_device_count: dev,
            usb_bridge_count: bridge,
            discovery_interval_ms: self.discovery_interval_ms,
            hotplug_enabled: self.hotplug_enabled,
        }
    }
}


/// A scan that finds just the devices already known reports nothing: no
/// device is new and none is gone.
pub proof fn lemma_rescan_reports_nothing(known: Seq<String>, devices: Seq<DeviceInfo>)
    requires
        text_set(known) == id_set(devices),
    ensures
        id_set(devices).difference(text_set(known)) == Set::<Seq<char>>::empty(),
        text_set(known).difference(id_set(devices)) == Set::<Seq<char>>::empty(),
{
    assert(id_set(devices).difference(text_set(known)) =~= Set::<Seq<char>>::empty());
    assert(text_set(known).difference(id_set(devices)) =~= Set::<Seq<char>>::empty());
}
} // verus!
