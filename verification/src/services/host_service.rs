use vstd::prelude::*;
use vstd::utf8::encode_utf8;
use crate::protocol::host_commands::{HostCommand, HostCommandSpec};
use crate::text::{to_owned_string, push_str, str_eq, string_bytes};
use crate::transport::TransportType;

verus! {

/// One transport as the transport layer lists it: the device it reaches,
/// its kind of link and whether it is connected.
#[derive(Debug, Clone)]
pub struct TransportEntry {
    pub device_id: String,
    pub transport_type: TransportType,
    pub is_connected: bool,
}

/// What a host command is answered with.
#[derive(Debug)]
pub enum HostServiceResponse {
    /// Data sent back to the client at once.
    SingleResponse(Vec<u8>),
    /// The device that the client's transport now goes to.
    TransportSelected(String),
}

/// The model of a `HostServiceResponse`.
pub enum ResponseView {
    SingleResponse(Seq<u8>),
    TransportSelected(Seq<char>),
}

impl View for HostServiceResponse {
    type V = ResponseView;

    open spec fn view(&self) -> ResponseView {
        match self {
            HostServiceResponse::SingleResponse(d) => ResponseView::SingleResponse(d@),
            HostServiceResponse::TransportSelected(s) => ResponseView::TransportSelected(s@),
        }
    }
}

/// "device" for a connected transport, "offline" otherwise.
pub open spec fn status_text(connected: bool) -> Seq<char> {
    if connected { "device"@ } else { "offline"@ }
}

/// The name of a kind of link in the long listing.
pub open spec fn link_text(t: TransportType) -> Seq<char> {
    match t {
        TransportType::Tcp => "tcp"@,
        TransportType::UsbDevice => "usb"@,
        TransportType::UsbBridge => "bridge_usb"@,
    }
}

/// One line of the listing: id and status, and in the long form the kind
/// of link, separated by tabs.
pub open spec fn entry_line(e: TransportEntry, long_format: bool) -> Seq<char> {
    if long_format {
        e.device_id@ + "\t"@ + status_text(e.is_connected) + "\t"@ + link_text(e.transport_type) + "\n"@
    } else {
        e.device_id@ + "\t"@ + status_text(e.is_connected) + "\n"@
    }
}

/// The listing of `entries`: one line each, in order.
pub open spec fn listing(entries: Seq<TransportEntry>, long_format: bool) -> Seq<char>
    decreases entries.len(),
{
    if entries.len() == 0 {
        Seq::<char>::empty()
    } else {
        listing(entries.drop_last(), long_format) + entry_line(entries.last(), long_format)
    }
}

/// The first entry for device `id`, if any.
pub open spec fn find_entry(entries: Seq<TransportEntry>, id: Seq<char>) -> Option<TransportEntry>
    decreases entries.len(),
{
    if entries.len() == 0 {
        None
    } else {
        match find_entry(entries.drop_last(), id) {
            Some(e) => Some(e),
            None => if entries.last().device_id@ == id { Some(entries.last()) } else { None },
        }
    }
}

/// The device of the first connected entry, if any.
pub open spec fn first_connected(entries: Seq<TransportEntry>) -> Option<Seq<char>>
    decreases entries.len(),
{
    if entries.len() == 0 {
        None
    } else {
        match first_connected(entries.drop_last()) {
            Some(id) => Some(id),
            None => if entries.last().is_connected { Some(entries.last().device_id@) } else { None },
        }
    }
}

/// What a host command is answered with over `entries`: a listing (the
/// short one also for device tracking), the selected device, or why no
/// device can be selected.
pub open spec fn spec_execute(entries: Seq<TransportEntry>, command: HostCommandSpec) -> Result<ResponseView, Seq<char>> {
    match command {
        HostCommandSpec::Devices | HostCommandSpec::TrackDevices =>
            Ok(ResponseView::SingleResponse(encode_utf8(listing(entries, false)))),
        HostCommandSpec::DevicesLong =>
            Ok(ResponseView::SingleResponse(encode_utf8(listing(entries, true)))),
        HostCommandSpec::Transport(id) => match find_entry(entries, id) {
            Some(e) => if e.is_connected {
                Ok(ResponseView::TransportSelected(id))
            } else {
                Err("Device "@ + id + " is offline"@)
            },
            None => Err("Device "@ + id + " not found"@),
        },
        HostCommandSpec::TransportAny => match first_connected(entries) {
            Some(id) => Ok(ResponseView::TransportSelected(id)),
            None => Err("No devices available"@),
        },
    }
}

/// Answers host commands from the transports the transport layer lists.
pub struct HostService {
    transports: Vec<TransportEntry>,
}

impl HostService {
    /// The transports this service answers from, in the order listed.
    pub closed spec fn spec_transports(&self) -> Seq<TransportEntry> {
        self.transports@
    }

    /// A service over `transports`.
    pub fn new(transports: Vec<TransportEntry>) -> (r: Self)
        ensures
            r.spec_transports() == transports@,
    {
        HostService { transports }
    }

    /// Answers `command`: the device listing, short or long (device
    /// tracking gets the short listing once), or the selection of a
    /// connected device, by id or the first one listed.
    pub fn execute_command(&self, command: HostCommand) -> (r: Result<HostServiceResponse, String>)
        ensures
            match spec_execute(self.spec_transports(), command@) {
                Ok(v) => r matches Ok(resp) && resp@ == v,
                Err(m) => r matches Err(e) && e@ == m,
            },
    {
        match command {
            HostCommand::Devices | HostCommand::TrackDevices => {
                let list = self.format_device_list(false);
                Ok(HostServiceResponse::SingleResponse(string_bytes(list.as_str())))
            },
            HostCommand::DevicesLong => {
                let list = self.format_device_list(true);
                Ok(HostServiceResponse::SingleResponse(string_bytes(list.as_str())))
            },
            HostCommand::Transport(device_id) => self.select_device(device_id.as_str()),
            HostCommand::TransportAny => self.select_any_device(),
        }
    }

    /// The listing of the transports, one line each.
    fn format_device_list(&self, long_format: bool) -> (r: String)
        ensures
            r@ == listing(self.spec_transports(), long_format),
    {
        let mut out = to_owned_string("");
        proof {
            reveal_strlit("");
        }
        let mut i: usize = 0;
        while i < self.transports.len()
            invariant
                i <= self.transports@.len(),
                out@ == listing(self.transports@.take(i as int), long_format),
            decreases self.transports@.len() - i,
        {
            let e = &self.transports[i];
            let status = if e.is_connected { "device" } else { "offline" };
            push_str(&mut out, e.device_id.as_str());
            push_str(&mut out, "\t");
            push_str(&mut out, status);
            if long_format {
                let link = match e.transport_type {
                    TransportType::Tcp => "tcp",
                    TransportType::UsbDevice => "usb",
                    TransportType::UsbBridge => "bridge_usb",
                };
                push_str(&mut out, "\t");
                push_str(&mut out, link);
            }
            push_str(&mut out, "\n");
            proof {
                assert(self.transports@.take(i + 1).drop_last() =~= self.transports@.take(i as int));
                assert(self.transports@.take(i + 1).last() == self.transports@[i as int]);
            }
            i = i + 1;
        }
        assert(self.transports@.take(self.transports@.len() as int) =~= self.transports@);
        out
    }

    /// Selects device `device_id` when it is listed and connected.
    fn select_device(&self, device_id: &str) -> (r: Result<HostServiceResponse, String>)
        ensures
            match spec_execute(self.spec_transports(), HostCommandSpec::Transport(device_id@)) {
                Ok(v) => r matches Ok(resp) && resp@ == v,
                Err(m) => r matches Err(e) && e@ == m,
            },
    {
        let mut i: usize = 0;
        while i < self.transports.len()
            invariant
                i <= self.transports@.len(),
                find_entry(self.transports@.take(i as int), device_id@) is None,
            decreases self.transports@.len() - i,
        {
            proof {
                assert(self.transports@.take(i + 1).drop_last() =~= self.transports@.take(i as int));
                assert(self.transports@.take(i + 1).last() == self.transports@[i as int]);
            }
            if str_eq(self.transports[i].device_id.as_str(), device_id) {
                proof {
                    lemma_find_entry_prefix(self.transports@, device_id@, i + 1);
                }
                if self.transports[i].is_connected {
                    return Ok(HostServiceResponse::TransportSelected(to_owned_string(device_id)));
                } else {
                    let mut m = to_owned_string("Device ");
                    push_str(&mut m, device_id);
                    push_str(&mut m, " is offline");
                    proof {
                        reveal_strlit("Device ");
                    }
                    return Err(m);
                }
            }
            i = i + 1;
        }
        assert(self.transports@.take(self.transports@.len() as int) =~= self.transports@);
        let mut m = to_owned_string("Device ");
        push_str(&mut m, device_id);
        push_str(&mut m, " not found");
        Err(m)
    }

    /// Selects the first connected device listed.
    fn select_any_device(&self) -> (r: Result<HostServiceResponse, String>)
        ensures
            match spec_execute(self.spec_transports(), HostCommandSpec::TransportAny) {
                Ok(v) => r matches Ok(resp) && resp@ == v,
                Err(m) => r matches Err(e) && e@ == m,
            },
    {
        let mut i: usize = 0;
        while i < self.transports.len()
            invariant
                i <= self.transports@.len(),
                first_connected(self.transports@.take(i as int)) is None,
            decreases self.transports@.len() - i,
        {
            proof {
                assert(self.transports@.take(i + 1).drop_last() =~= self.transports@.take(i as int));
                assert(self.transports@.take(i + 1).last() == self.transports@[i as int]);
            }
            if self.transports[i].is_connected {
                proof {
                    lemma_first_connected_prefix(self.transports@, i + 1);
                }
                return Ok(HostServiceResponse::TransportSelected(self.transports[i].device_id.clone()));
            }
            i = i + 1;
        }
        assert(self.transports@.take(self.transports@.len() as int) =~= self.transports@);
        Err(to_owned_string("No devices available"))
    }
}

/// Once a prefix of `entries` has an entry for `id`, the whole list has
/// that same first entry.
proof fn lemma_find_entry_prefix(entries: Seq<TransportEntry>, id: Seq<char>, k: int)
    requires
        0 <= k <= entries.len(),
        find_entry(entries.take(k), id) is Some,
    ensures
        find_entry(entries, id) == find_entry(entries.take(k), id),
    decreases entries.len() - k,
{
    if k < entries.len() {
        assert(entries.take(k + 1).drop_last() =~= entries.take(k));
        lemma_find_entry_prefix(entries, id, k + 1);
    } else {
        assert(entries.take(k) =~= entries);
    }
}

/// Once a prefix of `entries` has a connected entry, the whole list has
/// that same first connected device.
proof fn lemma_first_connected_prefix(entries: Seq<TransportEntry>, k: int)
    requires
        0 <= k <= entries.len(),
        first_connected(entries.take(k)) is Some,
    ensures
        first_connected(entries) == first_connected(entries.take(k)),
    decreases entries.len() - k,
{
    if k < entries.len() {
        assert(entries.take(k + 1).drop_last() =~= entries.take(k));
        lemma_first_connected_prefix(entries, k + 1);
    } else {
        assert(entries.take(k) =~= entries);
    }
}

} // verus!
