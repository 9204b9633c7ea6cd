use vstd::prelude::*;
use crate::text::{str_eq, to_owned_string};

verus! {

/// Where a known device stands.
#[derive(Debug, Clone, PartialEq, Eq)]
pub enum DeviceState {
    Discovered,
    Connecting,
    Connected,
    Disconnecting,
    Offline,
    Error { message: String },
}

/// Descriptive data of a device.
#[derive(Debug, Clone)]
pub struct DeviceMetadata {
    pub model: Option<String>,
    pub manufacturer: Option<String>,
    pub serial_number: Option<String>,
    pub os_version: Option<String>,
    /// Further properties, as key and value; the first entry of a key counts.
    pub properties: Vec<(String, String)>,
}

impl Default for DeviceMetadata {
    fn default() -> (r: Self)
        ensures
            r.model is None,
            r.manufacturer is None,
            r.serial_number is None,
            r.os_version is None,
            r.properties@.len() == 0,
    {
        DeviceMetadata { model: None, manufacturer: None, serial_number: None, os_version: None, properties: Vec::new() }
    }
}

/// The value of the first property named `key`.
pub open spec fn property_of(props: Seq<(String, String)>, key: Seq<char>) -> Option<Seq<char>>
    decreases props.len(),
{
    if props.len() == 0 {
        None
    } else if props[0].0@ == key {
        Some(props[0].1@)
    } else {
        property_of(props.drop_first(), key)
    }
}

impl DeviceMetadata {
    /// The value of the first property named `key`.
    pub fn property(&self, key: &str) -> (r: Option<&String>)
        ensures
            match property_of(self.properties@, key@) {
                Some(v) => r matches Some(s) && s@ == v,
                None => r is None,
            },
    {
        let mut i: usize = 0;
        assert(self.properties@.skip(0) =~= self.properties@);
        while i < self.properties.len()
            invariant
                i <= self.properties@.len(),
                property_of(self.properties@, key@) == property_of(self.properties@.skip(i as int), key@),
            decreases self.properties@.len() - i,
        {
            proof {
                assert(self.properties@.skip(i as int).drop_first() =~= self.properties@.skip(i + 1));
            }
            if str_eq(self.properties[i].0.as_str(), key) {
                return Some(&self.properties[i].1);
            }
            i = i + 1;
        }
        None
    }
}

/// A device known to the server.
#[derive(Debug, Clone)]
pub struct DeviceInfo {
    pub device_id: String,
    pub name: String,
    /// The device's network address, as "ip:port".
    pub address: String,
    pub state: DeviceState,
    pub metadata: DeviceMetadata,
}

/// Whether `d` is kept when the temporary devices of `session` go: it is
/// not marked temporary ("temporary" = "true") for that session.
pub open spec fn kept_for(session: Seq<char>) -> spec_fn(DeviceInfo) -> bool {
    |d: DeviceInfo| !(property_of(d.metadata.properties@, "temporary"@) == Some("true"@)
        && property_of(d.metadata.properties@, "session_id"@) == Some(session))
}

/// Why the registry refused a request.
#[derive(Debug, Clone, PartialEq, Eq)]
pub enum RegistryError {
    /// A device with this id is registered already.
    AlreadyRegistered(String),
    /// No device has this id.
    NotFound(String),
}

/// The devices known to the server, each id at most once.
#[derive(Debug)]
pub struct DeviceRegistry {
    devices: Vec<DeviceInfo>,
}

impl DeviceRegistry {
    /// The registered devices, in registration order.
    pub closed spec fn spec_devices(&self) -> Seq<DeviceInfo> {
        self.devices@
    }

    /// No id occurs twice.
    pub closed spec fn wf(&self) -> bool {
        forall|i: int, j: int| 0 <= i < j < self.devices@.len() ==> self.devices@[i].device_id@ != self.devices@[j].device_id@
    }

    /// In a well-formed registry, different positions hold different ids.
    pub proof fn lemma_ids_distinct(&self, i: int, j: int)
        requires
            self.wf(),
            0 <= i < self.spec_devices().len(),
            0 <= j < self.spec_devices().len(),
            i != j,
        ensures
            self.spec_devices()[i].device_id@ != self.spec_devices()[j].device_id@,
    {
        if i > j {
            assert(self.devices@[j].device_id@ != self.devices@[i].device_id@);
        }
    }

    /// An empty registry.
    pub fn new() -> (r: Self)
        ensures
            r.wf(),
            r.spec_devices().len() == 0,
    {
        DeviceRegistry { devices: Vec::new() }
    }

    /// The position of the device with id `id`.
    fn position(&self, id: &str) -> (r: Option<usize>)
        ensures
            match r {
                Some(i) => i < self.spec_devices().len() && self.spec_devices()[i as int].device_id@ == id@,
                None => forall|j: int| 0 <= j < self.spec_devices().len() ==> self.spec_devices()[j].device_id@ != id@,
            },
    {
        let mut i: usize = 0;
        while i < self.devices.len()
            invariant
                i <= self.devices@.len(),
                forall|j: int| 0 <= j < i ==> self.devices@[j].device_id@ != id@,
            decreases self.devices@.len() - i,
        {
            if str_eq(self.devices[i].device_id.as_str(), id) {
                return Some(i);
            }
            i = i + 1;
        }
        None
    }

    /// Adds a device; refused when its id is taken.
    pub fn register_device(&mut self, device: DeviceInfo) -> (r: Result<(), RegistryError>)
        requires
            old(self).wf(),
        ensures
            final(self).wf(),
            (exists|j: int| 0 <= j < old(self).spec_devices().len() && old(self).spec_devices()[j].device_id@ == device.device_id@) ==> {
                &&& r matches Err(RegistryError::AlreadyRegistered(id)) && id@ == device.device_id@
                &&& final(self).spec_devices() == old(self).spec_devices()
            },
            !(exists|j: int| 0 <= j < old(self).spec_devices().len() && old(self).spec_devices()[j].device_id@ == device.device_id@) ==> {
                &&& r is Ok
                &&& final(self).spec_devices() == old(self).spec_devices().push(device)
            },
    {
        match self.position(device.device_id.as_str()) {
            Some(_) => Err(RegistryError::AlreadyRegistered(to_owned_string(device.device_id.as_str()))),
            None => {
                self.devices.push(device);
                Ok(())
            },
        }
    }

    /// Removes the device with id `id` and hands it back.
    pub fn unregister_device(&mut self, id: &str) -> (r: Result<DeviceInfo, RegistryError>)
        requires
            old(self).wf(),
        ensures
            final(self).wf(),
            match r {
                Ok(d) => exists|j: int| 0 <= j < old(self).spec_devices().len() && old(self).spec_devices()[j] == d
                    && d.device_id@ == id@
                    && final(self).spec_devices() == old(self).spec_devices().remove(j),
                Err(e) => e matches RegistryError::NotFound(x) && x@ == id@
                    && final(self).spec_devices() == old(self).spec_devices()
                    && forall|j: int| 0 <= j < old(self).spec_devices().len() ==> old(self).spec_devices()[j].device_id@ != id@,
            },
    {
        match self.position(id) {
            Some(i) => {
                let d = self.devices.remove(i);
                proof {
                    assert(old(self).spec_devices()[i as int] == d);
                    assert forall|a: int, b: int| 0 <= a < b < self.devices@.len() implies self.devices@[a].device_id@ != self.devices@[b].device_id@ by {
                        let oa = if a < i { a } else { a + 1 };
                        let ob = if b < i { b } else { b + 1 };
                        assert(self.devices@[a] == old(self).devices@[oa]);
                        assert(self.devices@[b] == old(self).devices@[ob]);
                    }
                }
                Ok(d)
            },
            None => Err(RegistryError::NotFound(to_owned_string(id))),
        }
    }

    /// The device with id `id`.
    pub fn get_device(&self, id: &str) -> (r: Option<&DeviceInfo>)
        ensures
            match r {
                Some(d) => (exists|j: int| 0 <= j < self.spec_devices().len() && self.spec_devices()[j] == *d)
                    && d.device_id@ == id@
                    && (self.wf() ==> forall|j: int| 0 <= j < self.spec_devices().len() && self.spec_devices()[j].device_id@ == id@ ==> self.spec_devices()[j] == *d),
                None => forall|j: int| 0 <= j < self.spec_devices().len() ==> self.spec_devices()[j].device_id@ != id@,
            },
    {
        match self.position(id) {
            Some(i) => Some(&self.devices[i]),
            None => None,
        }
    }

    /// Sets the state of the device with id `id`.
    pub fn update_device_state(&mut self, id: &str, state: DeviceState) -> (r: Result<(), RegistryError>)
        requires
            old(self).wf(),
        ensures
            final(self).wf(),
            match r {
                Ok(()) => exists|i: int| 0 <= i < old(self).spec_devices().len()
                    && old(self).spec_devices()[i].device_id@ == id@
                    && final(self).spec_devices() == old(self).spec_devices().update(i, DeviceInfo { state, ..old(self).spec_devices()[i] }),
                Err(e) => e matches RegistryError::NotFound(x) && x@ == id@
                    && final(self).spec_devices() == old(self).spec_devices()
                    && forall|j: int| 0 <= j < old(self).spec_devices().len() ==> old(self).spec_devices()[j].device_id@ != id@,
            },
    {
        match self.position(id) {
            Some(i) => {
                let mut d = self.devices.remove(i);
                d.state = state;
                self.devices.insert(i, d);
                proof {
                    assert(self.devices@ =~= old(self).devices@.update(i as int, DeviceInfo { state, ..old(self).devices@[i as int] }));
                    assert forall|a: int, b: int| 0 <= a < b < self.devices@.len() implies self.devices@[a].device_id@ != self.devices@[b].device_id@ by {
                        assert(self.devices@[a].device_id == old(self).devices@[a].device_id);
                        assert(self.devices@[b].device_id == old(self).devices@[b].device_id);
                    }
                }
                Ok(())
            },
            None => Err(RegistryError::NotFound(to_owned_string(id))),
        }
    }

    /// Removes the devices registered as temporary for session `session_id`.
    pub fn remove_temporary_of(&mut self, session_id: &str)
        requires
            old(self).wf(),
        ensures
            final(self).wf(),
            final(self).spec_devices() == old(self).spec_devices().filter(kept_for(session_id@)),
    {
        let ghost orig = self.devices@;
        let ghost pred = kept_for(session_id@);
        let mut i: usize = 0;
        let ghost mut p: int = 0;
        proof {
            assert(orig.take(0) =~= Seq::<DeviceInfo>::empty());
            reveal(Seq::filter);
            assert(orig.take(0).filter(pred) + orig.skip(0) =~= orig);
        }
        while i < self.devices.len()
            invariant
                0 <= p <= orig.len(),
                pred == kept_for(session_id@),
                i == orig.take(p).filter(pred).len(),
                self.devices@ == orig.take(p).filter(pred) + orig.skip(p),
                forall|a: int, b: int| 0 <= a < b < orig.len() ==> orig[a].device_id@ != orig[b].device_id@,
                forall|k: int| 0 <= k < i ==> exists|j: int| 0 <= j < p && orig[j] == #[trigger] self.devices@[k],
                forall|a: int, b: int| 0 <= a < b < i ==> self.devices@[a].device_id@ != self.devices@[b].device_id@,
            decreases orig.len() - p,
        {
            proof {
                assert(self.devices@[i as int] == orig[p]);
            }
            let d = &self.devices[i];
            let temporary = match d.metadata.property("temporary") {
                Some(v) => str_eq(v.as_str(), "true"),
                None => false,
            };
            let ours = match d.metadata.property("session_id") {
                Some(v) => str_eq(v.as_str(), session_id),
                None => false,
            };
            proof {
                reveal_strlit("true");
                assert(orig.take(p + 1) =~= orig.take(p).push(orig[p]));
                orig.take(p).lemma_filter_push(orig[p], pred);
            }
            if temporary && ours {
                let ghost before = self.devices@;
                self.devices.remove(i);
                proof {
                    assert(self.devices@ =~= orig.take(p + 1).filter(pred) + orig.skip(p + 1));
                    assert forall|k: int| 0 <= k < i implies exists|j: int| 0 <= j < p + 1 && orig[j] == #[trigger] self.devices@[k] by {
                        assert(self.devices@[k] == before[k]);
                        let j = choose|j: int| 0 <= j < p && orig[j] == before[k];
                    }
                }
            } else {
                proof {
                    assert forall|k: int| 0 <= k < i implies self.devices@[k].device_id@ != orig[p].device_id@ by {
                        let j = choose|j: int| 0 <= j < p && orig[j] == self.devices@[k];
                    }
                    assert(self.devices@ =~= orig.take(p + 1).filter(pred) + orig.skip(p + 1));
                    assert forall|k: int| 0 <= k < i + 1 implies exists|j: int| 0 <= j < p + 1 && orig[j] == #[trigger] self.devices@[k] by {
                        if k == i {
                            assert(orig[p] == self.devices@[k]);
                        } else {
                            let j = choose|j: int| 0 <= j < p && orig[j] == self.devices@[k];
                            assert(orig[j] == self.devices@[k]);
                        }
                    }
                }
                i = i + 1;
            }
            proof {
                p = p + 1;
            }
        }
        proof {
            assert(orig.take(p) =~= orig) by {
                assert(self.devices@.len() == i);
            }
            assert(self.devices@ =~= orig.filter(pred));
        }
    }

    /// The registered devices, in registration order.
    pub fn list_devices(&self) -> (r: &Vec<DeviceInfo>)
        ensures
            r@ == self.spec_devices(),
    {
        &self.devices
    }
}

} // verus!
