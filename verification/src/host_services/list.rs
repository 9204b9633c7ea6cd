use vstd::prelude::*;
use std::sync::Arc;
use crate::text::{to_owned_string, push_str};
use crate::server::device_registry::{DeviceRegistry, DeviceState, DeviceInfo, property_of};

verus! {

/// The status word of a device state: "device" while connected or
/// connecting, "offline" otherwise.
pub open spec fn status_word(state: DeviceState) -> Seq<char> {
    match state {
        DeviceState::Connected | DeviceState::Connecting => "device"@,
        _ => "offline"@,
    }
}

/// One line of the list: id, status, system type, model and version,
/// separated by spaces.
pub open spec fn device_line(id: Seq<char>, state: DeviceState, systemtype: Seq<char>, model: Seq<char>, version: Seq<char>) -> Seq<char> {
    id + " "@ + status_word(state) + " "@ + systemtype + " "@ + model + " "@ + version
}

/// `v`, or "unknown" when absent.
pub open spec fn or_unknown(v: Option<Seq<char>>) -> Seq<char> {
    match v {
        Some(s) => s,
        None => "unknown"@,
    }
}

/// The text of an optional string.
pub open spec fn opt_view(v: Option<String>) -> Option<Seq<char>> {
    match v {
        Some(s) => Some(s@),
        None => None,
    }
}

/// The line of a registered device.
pub open spec fn registry_line(d: DeviceInfo) -> Seq<char> {
    device_line(
        d.device_id@,
        d.state,
        or_unknown(property_of(d.metadata.properties@, "systemtype"@)),
        or_unknown(opt_view(d.metadata.model)),
        or_unknown(opt_view(d.metadata.os_version)),
    )
}

/// The list answer: each device's line followed by a newline.
pub open spec fn device_list_text(devices: Seq<DeviceInfo>) -> Seq<char>
    decreases devices.len(),
{
    if devices.len() == 0 {
        Seq::empty()
    } else {
        device_list_text(devices.drop_last()) + registry_line(devices.last()) + "\n"@
    }
}

/// Answers "host:list" from the device registry.
#[derive(Debug)]
pub struct HostListService {
    device_registry: Arc<DeviceRegistry>,
}

impl HostListService {
    /// The registry this service lists.
    pub closed spec fn registry(&self) -> DeviceRegistry {
        *self.device_registry
    }

    /// A service listing `device_registry`.
    pub fn new(device_registry: Arc<DeviceRegistry>) -> (r: Self)
        ensures
            r.registry() == *device_registry,
    {
        HostListService { device_registry }
    }

    /// The service's name.
    pub fn service_name(&self) -> (r: &'static str)
        ensures
            r@ == "host:list"@,
    {
        "host:list"
    }

    /// One line of the list.
    pub fn format_device_line(device_id: &str, state: &DeviceState, systemtype: &str, model: &str, version: &str) -> (r: String)
        ensures
            r@ == device_line(device_id@, *state, systemtype@, model@, version@),
    {
        let status = match state {
            DeviceState::Connected | DeviceState::Connecting => "device",
            _ => "offline",
        };
        let mut line = to_owned_string(device_id);
        push_str(&mut line, " ");
        push_str(&mut line, status);
        push_str(&mut line, " ");
        push_str(&mut line, systemtype);
        push_str(&mut line, " ");
        push_str(&mut line, model);
        push_str(&mut line, " ");
        push_str(&mut line, version);
        line
    }

    /// The list of the registry's devices, one line each.
    pub fn generate_device_list(&self) -> (r: String)
        ensures
            r@ == device_list_text(self.registry().spec_devices()),
    {
        let devices = self.device_registry.list_devices();
        let mut out = to_owned_string("");
        proof {
            reveal_strlit("");
        }
        let mut i: usize = 0;
        while i < devices.len()
            invariant
                i <= devices@.len(),
                out@ == device_list_text(devices@.take(i as int)),
            decreases devices@.len() - i,
        {
            let d = &devices[i];
            let systemtype = match d.metadata.property("systemtype") {
                Some(v) => v.as_str(),
                None => "unknown",
            };
            let model = match &d.metadata.model {
                Some(v) => v.as_str(),
                None => "unknown",
            };
            let version = match &d.metadata.os_version {
                Some(v) => v.as_str(),
                None => "unknown",
            };
            let line = Self::format_device_line(d.device_id.as_str(), &d.state, systemtype, model, version);
            push_str(&mut out, line.as_str());
            push_str(&mut out, "\n");
            proof {
                assert(devices@.take(i + 1).drop_last() =~= devices@.take(i as int));
                assert(devices@.take(i + 1).last() == devices@[i as int]);
            }
            i = i + 1;
        }
        assert(devices@.take(devices@.len() as int) =~= devices@);
        out
    }
}

} // verus!
