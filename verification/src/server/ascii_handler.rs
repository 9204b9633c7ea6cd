use vstd::prelude::*;
use vstd::string::StrSliceExecFns;
use vstd::string::StringSliceAdditionalSpecFns;
use vstd::utf8::encode_utf8;
use crate::text::{
    has_prefix, starts_with, str_eq, to_owned_string, push_str, skip_chars, string_bytes,
    find_char, index_of_char, rfind_char, last_index_of_char, split_on, lemma_split_on_nonempty,
    parse_bounded, parse_uint, push_dec_str, dec_chars,
};
use crate::protocol::ascii::{okay_response, fail_response, spec_okay_response, spec_fail_response};
use crate::server::device_registry::{DeviceRegistry, DeviceInfo, DeviceState, DeviceMetadata, property_of};
use crate::host_services::list::{or_unknown, opt_view};
use crate::protocol::ascii::{decode_strm, spec_decode_strm};
use crate::server::device_registry::kept_for;
use crate::hex::{push_hex, hex_padded};

verus! {

/// What a client request of the ASCII protocol asks for.
#[derive(Debug, Clone, PartialEq, Eq)]
pub enum AsciiRequest {
    /// A STRM data frame.
    Strm,
    /// "host:transport:<id>": select a device.
    Transport(String),
    /// "host:connect:<ip:port>": connect a device directly.
    Connect(String),
    /// Another "host:" service, answered at once.
    HostService,
    /// "shell" or "shell:…".
    Shell,
    /// "tcp:…".
    Tcp,
    /// "sync" or "sync:…".
    Sync,
    /// Anything else.
    Unknown,
}

/// The model of an `AsciiRequest`.
pub enum AsciiRequestSpec {
    Strm,
    Transport(Seq<char>),
    Connect(Seq<char>),
    HostService,
    Shell,
    Tcp,
    Sync,
    Unknown,
}

impl View for AsciiRequest {
    type V = AsciiRequestSpec;

    open spec fn view(&self) -> AsciiRequestSpec {
        match self {
            AsciiRequest::Strm => AsciiRequestSpec::Strm,
            AsciiRequest::Transport(s) => AsciiRequestSpec::Transport(s@),
            AsciiRequest::Connect(s) => AsciiRequestSpec::Connect(s@),
            AsciiRequest::HostService => AsciiRequestSpec::HostService,
            AsciiRequest::Shell => AsciiRequestSpec::Shell,
            AsciiRequest::Tcp => AsciiRequestSpec::Tcp,
            AsciiRequest::Sync => AsciiRequestSpec::Sync,
            AsciiRequest::Unknown => AsciiRequestSpec::Unknown,
        }
    }
}

/// How a request is routed.
pub open spec fn spec_classify(r: Seq<char>) -> AsciiRequestSpec {
    if has_prefix(r, "STRM"@) {
        AsciiRequestSpec::Strm
    } else if has_prefix(r, "host:"@) {
        if has_prefix(r, "host:transport:"@) {
            AsciiRequestSpec::Transport(r.skip(15))
        } else if has_prefix(r, "host:connect:"@) {
            AsciiRequestSpec::Connect(r.skip(13))
        } else {
            AsciiRequestSpec::HostService
        }
    } else if has_prefix(r, "shell:"@) || r == "shell"@ {
        AsciiRequestSpec::Shell
    } else if has_prefix(r, "tcp:"@) {
        AsciiRequestSpec::Tcp
    } else if has_prefix(r, "sync:"@) || r == "sync"@ {
        AsciiRequestSpec::Sync
    } else {
        AsciiRequestSpec::Unknown
    }
}

/// Routes a request: STRM frames, device selection, direct connection,
/// other host services, and the shell, tcp and sync services.
pub fn classify_request(request: &str) -> (r: AsciiRequest)
    ensures
        r@ == spec_classify(request@),
{
    proof {
        reveal_strlit("STRM");
        reveal_strlit("host:");
        reveal_strlit("host:transport:");
        reveal_strlit("host:connect:");
        reveal_strlit("shell:");
        reveal_strlit("shell");
        reveal_strlit("tcp:");
        reveal_strlit("sync:");
        reveal_strlit("sync");
    }
    if starts_with(request, "STRM") {
        AsciiRequest::Strm
    } else if starts_with(request, "host:") {
        if starts_with(request, "host:transport:") {
            AsciiRequest::Transport(skip_chars(request, 15))
        } else if starts_with(request, "host:connect:") {
            AsciiRequest::Connect(skip_chars(request, 13))
        } else {
            AsciiRequest::HostService
        }
    } else if starts_with(request, "shell:") || str_eq(request, "shell") {
        AsciiRequest::Shell
    } else if starts_with(request, "tcp:") {
        AsciiRequest::Tcp
    } else if starts_with(request, "sync:") || str_eq(request, "sync") {
        AsciiRequest::Sync
    } else {
        AsciiRequest::Unknown
    }
}

/// A host request split into service name and arguments: with two colons
/// or more, the name is what precedes the second colon and the arguments
/// what follows it; otherwise the whole request is the name.
pub open spec fn spec_split_service(r: Seq<char>) -> (Seq<char>, Seq<char>) {
    match index_of_char(r, ':') {
        Some(p) => {
            let rest = r.skip(p + 1);
            match index_of_char(rest, ':') {
                Some(q) => (r.take(p) + ":"@ + rest.take(q), rest.skip(q + 1)),
                None => (r, Seq::empty()),
            }
        },
        None => (r, Seq::empty()),
    }
}

/// Splits a host request into service name and arguments.
pub fn split_service(request: &str) -> (r: (String, String))
    ensures
        r.0@ == spec_split_service(request@).0,
        r.1@ == spec_split_service(request@).1,
{
    proof {
        reveal_strlit("");
        reveal_strlit(":");
    }
    let n = request.unicode_len();
    match find_char(request, ':') {
        Some(p) => {
            let rest = request.substring_char(p + 1, n);
            assert(rest@ =~= request@.skip(p + 1));
            let m = rest.unicode_len();
            match find_char(rest, ':') {
                Some(q) => {
                    let mut name = to_owned_string(request.substring_char(0, p));
                    push_str(&mut name, ":");
                    push_str(&mut name, rest.substring_char(0, q));
                    let args = to_owned_string(rest.substring_char(q + 1, m));
                    assert(request@.subrange(0, p as int) =~= request@.take(p as int));
                    assert(rest@.subrange(0, q as int) =~= rest@.take(q as int));
                    assert(rest@.subrange(q + 1, m as int) =~= rest@.skip(q + 1));
                    (name, args)
                },
                None => {
                    assert(""@ =~= Seq::<char>::empty());
                    (to_owned_string(request), to_owned_string(""))
                },
            }
        },
        None => {
            assert(""@ =~= Seq::<char>::empty());
            (to_owned_string(request), to_owned_string(""))
        },
    }
}

/// The status word the device list gives a registry state.
pub open spec fn ascii_status(state: DeviceState) -> Seq<char> {
    match state {
        DeviceState::Connected => "device"@,
        DeviceState::Discovered => "offline"@,
        DeviceState::Connecting => "connecting"@,
        DeviceState::Disconnecting => "disconnecting"@,
        DeviceState::Offline => "offline"@,
        DeviceState::Error { .. } => "error"@,
    }
}

/// `v`, or `default` when absent.
pub open spec fn or_default(v: Option<Seq<char>>, default: Seq<char>) -> Seq<char> {
    match v {
        Some(s) => s,
        None => default,
    }
}

/// The list line of a device: id, status, system type, model (or name) and
/// version (or "1.0"), tab separated.
pub open spec fn ascii_device_line(d: DeviceInfo) -> Seq<char> {
    d.device_id@ + "\t"@ + ascii_status(d.state) + "\t"@
        + or_unknown(property_of(d.metadata.properties@, "system_type"@)) + "\t"@
        + or_default(opt_view(d.metadata.model), d.name@) + "\t"@
        + or_default(opt_view(d.metadata.os_version), "1.0"@) + "\n"@
}

/// The device list: the lines of all devices in order.
pub open spec fn ascii_device_list(devices: Seq<DeviceInfo>) -> Seq<char>
    decreases devices.len(),
{
    if devices.len() == 0 {
        Seq::empty()
    } else {
        ascii_device_list(devices.drop_last()) + ascii_device_line(devices.last())
    }
}

/// The answer to a host service request, given the registered devices.
pub open spec fn spec_host_service(request: Seq<char>, devices: Seq<DeviceInfo>) -> Seq<u8> {
    let (service, args) = spec_split_service(request);
    if service == "host:transport"@ && args.len() > 0 {
        spec_fail_response(encode_utf8("transport selection requires async"@))
    } else if service == "host:version"@ {
        spec_okay_response(encode_utf8("dbgif-server 1.0"@))
    } else if service == "host:features"@ {
        spec_okay_response(encode_utf8("lazy-connection\nmulti-client\nping-pong\n"@))
    } else if service == "host:list"@ || service == "host:devices"@ {
        spec_okay_response(encode_utf8(ascii_device_list(devices)))
    } else {
        spec_fail_response(encode_utf8("unknown host service"@))
    }
}

/// The list line of one device.
fn ascii_line(d: &DeviceInfo) -> (r: String)
    ensures
        r@ == ascii_device_line(*d),
{
    let mut out = to_owned_string("");
    proof {
        reveal_strlit("");
    }
        let status = match &d.state {
            DeviceState::Connected => "device",
            DeviceState::Discovered => "offline",
            DeviceState::Connecting => "connecting",
            DeviceState::Disconnecting => "disconnecting",
            DeviceState::Offline => "offline",
            DeviceState::Error { .. } => "error",
        };
        let system_type = match d.metadata.property("system_type") {
            Some(v) => v.as_str(),
            None => "unknown",
        };
        let model = match &d.metadata.model {
            Some(v) => v.as_str(),
            None => d.name.as_str(),
        };
        let version = match &d.metadata.os_version {
            Some(v) => v.as_str(),
            None => "1.0",
        };
        push_str(&mut out, d.device_id.as_str());
        push_str(&mut out, "\t");
        push_str(&mut out, status);
        push_str(&mut out, "\t");
        push_str(&mut out, system_type);
        push_str(&mut out, "\t");
        push_str(&mut out, model);
        push_str(&mut out, "\t");
        push_str(&mut out, version);
        push_str(&mut out, "\n");
    out
}

/// The device list of the registry.
fn device_list(registry: &DeviceRegistry) -> (r: String)
    ensures
        r@ == ascii_device_list(registry.spec_devices()),
{
    let devices = registry.list_devices();
    let mut out = to_owned_string("");
    proof {
        reveal_strlit("");
    }
    let mut i: usize = 0;
    while i < devices.len()
        invariant
            i <= devices@.len(),
            out@ == ascii_device_list(devices@.take(i as int)),
        decreases devices@.len() - i,
    {
        let line = ascii_line(&devices[i]);
        push_str(&mut out, line.as_str());
        proof {
            assert(devices@.take(i + 1).drop_last() =~= devices@.take(i as int));
            assert(devices@.take(i + 1).last() == devices@[i as int]);
            assert(out@ =~= ascii_device_list(devices@.take(i + 1)));
        }
        i = i + 1;
    }
    assert(devices@.take(devices@.len() as int) =~= devices@);
    out
}

/// Answers a host service request at once: the version, the features, the
/// device list, or a failure for device selection (which is routed
/// elsewhere) and for unknown services.
pub fn handle_host_service(request: &str, registry: &DeviceRegistry) -> (r: Vec<u8>)
    ensures
        r@ == spec_host_service(request@, registry.spec_devices()),
{
    let (service, args) = split_service(request);
    let s = service.as_str();
    if str_eq(s, "host:transport") && args.unicode_len() > 0 {
        fail_response("transport selection requires async")
    } else if str_eq(s, "host:version") {
        okay_response(string_bytes("dbgif-server 1.0").as_slice())
    } else if str_eq(s, "host:features") {
        okay_response(string_bytes("lazy-connection\nmulti-client\nping-pong\n").as_slice())
    } else if str_eq(s, "host:list") || str_eq(s, "host:devices") {
        let list = device_list(registry);
        okay_response(string_bytes(list.as_str()).as_slice())
    } else {
        fail_response("unknown host service")
    }
}

/// Whether every piece is a number from 0 to 255.
pub open spec fn all_octets(parts: Seq<Seq<char>>) -> bool {
    forall|i: int| 0 <= i < parts.len() ==> parse_bounded(#[trigger] parts[i], 255) is Some
}

/// What "ip:port" parsing gives: the address and port, or why it fails.
/// Only the IPv4 loopback address is accepted.
pub open spec fn spec_parse_ip_port(address: Seq<char>) -> Result<(Seq<char>, u16), Seq<char>> {
    match last_index_of_char(address, ':') {
        None => Err("missing port number"@),
        Some(k) => {
            let ip = address.take(k);
            match parse_bounded(address.skip(k + 1), 65535) {
                None => Err("invalid port number"@),
                Some(port) => if split_on(ip, '.').len() == 4 {
                    if !all_octets(split_on(ip, '.')) {
                        Err("invalid IPv4 address"@)
                    } else if ip != "127.0.0.1"@ {
                        Err("only localhost connections allowed"@)
                    } else {
                        Ok((ip, port as u16))
                    }
                } else {
                    Err("only IPv4 addresses supported"@)
                },
            }
        },
    }
}

/// Splits `s` at each `.` and tells whether there are four pieces, each a
/// number from 0 to 255.
fn dotted_quad(s: &str) -> (r: (bool, bool))
    ensures
        r.0 == (split_on(s@, '.').len() == 4),
        r.0 ==> r.1 == all_octets(split_on(s@, '.')),
{
    let n = s.unicode_len();
    let mut start: usize = 0;
    let mut dots: usize = 0;
    let mut valid = true;
    let mut i: usize = 0;
    proof {
        assert(s@.take(0) =~= Seq::<char>::empty());
    }
    while i < n
        invariant
            i <= n,
            n == s@.len(),
            start <= i,
            dots + 1 == split_on(s@.take(i as int), '.').len(),
            dots <= i,
            split_on(s@.take(i as int), '.').last() == s@.subrange(start as int, i as int),
            valid == (forall|j: int| 0 <= j < dots ==> parse_bounded(#[trigger] split_on(s@.take(i as int), '.')[j], 255) is Some),
        decreases n - i,
    {
        let ghost before = split_on(s@.take(i as int), '.');
        proof {
            assert(s@.take(i + 1).drop_last() =~= s@.take(i as int));
            assert(s@.take(i + 1).last() == s@[i as int]);
        }
        if s.get_char(i) == '.' {
            let piece = s.substring_char(start, i);
            let ok = parse_uint(piece, 255).is_some();
            proof {
                let after = split_on(s@.take(i + 1), '.');
                assert(after == before.push(Seq::<char>::empty()));
                assert forall|j: int| 0 <= j < dots + 1 implies after[j] == before[j] by {}
            }
            valid = valid && ok;
            dots = dots + 1;
            start = i + 1;
            proof {
                let after = split_on(s@.take(i + 1), '.');
                assert(after.last() =~= s@.subrange(start as int, i + 1));
            }
        } else {
            proof {
                let after = split_on(s@.take(i + 1), '.');
                assert(after == before.update(before.len() - 1, before.last().push(s@[i as int])));
                assert(after.last() =~= s@.subrange(start as int, i + 1));
                assert forall|j: int| 0 <= j < dots implies after[j] == before[j] by {}
            }
        }
        i = i + 1;
    }
    assert(s@.take(n as int) =~= s@);
    if dots != 3 {
        return (false, false);
    }
    let last = s.substring_char(start, n);
    let ok = parse_uint(last, 255).is_some();
    proof {
        let parts = split_on(s@, '.');
        if valid && ok {
            assert forall|j: int| 0 <= j < parts.len() implies parse_bounded(#[trigger] parts[j], 255) is Some by {
                if j == parts.len() - 1 {
                    assert(parts[j] == last@);
                }
            }
        } else if !ok {
            assert(parts[3] == last@);
            assert(parse_bounded(parts[3], 255) is None);
        } else {
            let w = choose|j: int| 0 <= j < dots && !(parse_bounded(#[trigger] parts[j], 255) is Some);
            assert(parse_bounded(parts[w], 255) is None);
        }
    }
    (true, valid && ok)
}

/// Parses "ip:port" at its last colon; only the IPv4 loopback address is
/// accepted.
pub fn parse_ip_port(address: &str) -> (r: Result<(String, u16), String>)
    ensures
        match spec_parse_ip_port(address@) {
            Ok((ip, port)) => r matches Ok((i, p)) && i@ == ip && p == port,
            Err(m) => r matches Err(e) && e@ == m,
        },
{
    let n = address.unicode_len();
    match rfind_char(address, ':') {
        None => Err(to_owned_string("missing port number")),
        Some(k) => {
            let ip = address.substring_char(0, k);
            let port_text = address.substring_char(k + 1, n);
            assert(ip@ =~= address@.take(k as int));
            assert(port_text@ =~= address@.skip(k + 1));
            match parse_uint(port_text, 65535) {
                None => Err(to_owned_string("invalid port number")),
                Some(port) => {
                    let (four, octets) = dotted_quad(ip);
                    if four {
                        if !octets {
                            Err(to_owned_string("invalid IPv4 address"))
                        } else if !str_eq(ip, "127.0.0.1") {
                            Err(to_owned_string("only localhost connections allowed"))
                        } else {
                            Ok((to_owned_string(ip), port as u16))
                        }
                    } else {
                        Err(to_owned_string("only IPv4 addresses supported"))
                    }
                },
            }
        },
    }
}


/// Data buffered for a client stream, waiting to go to the device.
#[derive(Debug)]
pub struct StreamSlot {
    pub device_stream_id: u32,
    pub pending_data: Vec<u8>,
    pub service_name: String,
    pub active: bool,
}

/// The model of a `StreamSlot`.
pub struct SlotView {
    pub device_stream_id: u32,
    pub pending: Seq<u8>,
    pub service: Seq<char>,
    pub active: bool,
}

impl View for StreamSlot {
    type V = SlotView;

    open spec fn view(&self) -> SlotView {
        SlotView {
            device_stream_id: self.device_stream_id,
            pending: self.pending_data@,
            service: self.service_name@,
            active: self.active,
        }
    }
}

/// The models of a table of stream slots.
pub open spec fn slots_view(slots: Seq<Option<StreamSlot>>) -> Seq<Option<SlotView>> {
    slots.map_values(|o: Option<StreamSlot>| match o {
        Some(s) => Some(s@),
        None => None,
    })
}

/// What the server must do with the stream forwarder after a STRM frame.
#[derive(Debug)]
pub enum StrmAction {
    /// Nothing.
    Nothing,
    /// Close the stream on the device side.
    Close { stream_id: u8 },
    /// Send `data` to the device on the stream pair.
    Forward { client_stream_id: u32, device_stream_id: u32, data: Vec<u8> },
}

/// The model of a `StrmAction`.
pub enum StrmActionSpec {
    Nothing,
    Close { stream_id: u8 },
    Forward { client_stream_id: u32, device_stream_id: u32, data: Seq<u8> },
}

impl View for StrmAction {
    type V = StrmActionSpec;

    open spec fn view(&self) -> StrmActionSpec {
        match self {
            StrmAction::Nothing => StrmActionSpec::Nothing,
            StrmAction::Close { stream_id } => StrmActionSpec::Close { stream_id: *stream_id },
            StrmAction::Forward { client_stream_id, device_stream_id, data } => StrmActionSpec::Forward {
                client_stream_id: *client_stream_id,
                device_stream_id: *device_stream_id,
                data: data@,
            },
        }
    }
}

/// Bytes a stream may hold before flow control stops it.
pub const MAX_STREAM_BUFFER: usize = 65536;

/// Whether the device with id `id` is registered and connected.
pub open spec fn device_connected(devices: Seq<DeviceInfo>, id: Seq<char>) -> bool {
    exists|j: int| 0 <= j < devices.len() && devices[j].device_id@ == id && devices[j].state == DeviceState::Connected
}

/// What a STRM frame does: the new slot table, the answer, and the work
/// for the forwarder. An empty payload closes the stream. Otherwise the
/// payload joins the stream's buffer; past 64 KiB the stream is stopped
/// (and a buffer past 128 KiB cut to 64 KiB) and the client told so; when
/// the selected device is connected, the buffer goes to it.
pub open spec fn spec_strm(
    slots: Seq<Option<SlotView>>,
    selected: Option<Seq<char>>,
    devices: Seq<DeviceInfo>,
    data: Seq<u8>,
) -> (Seq<Option<SlotView>>, Seq<u8>, StrmActionSpec) {
    match spec_decode_strm(data) {
        Err(_) => (slots, spec_fail_response(encode_utf8("invalid STRM format"@)), StrmActionSpec::Nothing),
        Ok((id, payload)) => if payload.len() == 0 {
            (slots.update(id as int, None), spec_okay_response(Seq::empty()), StrmActionSpec::Close { stream_id: id })
        } else {
            match slots[id as int] {
                None => (slots, spec_fail_response(encode_utf8("stream not found"@)), StrmActionSpec::Nothing),
                Some(slot) => {
                    let buffered = slot.pending + payload;
                    if buffered.len() > MAX_STREAM_BUFFER {
                        let kept = if buffered.len() > 2 * MAX_STREAM_BUFFER { buffered.take(MAX_STREAM_BUFFER as int) } else { buffered };
                        (
                            slots.update(id as int, Some(SlotView { pending: kept, active: false, ..slot })),
                            spec_fail_response(encode_utf8("stream buffer overflow - flow control activated"@)),
                            StrmActionSpec::Nothing,
                        )
                    } else if selected matches Some(d) && device_connected(devices, d) {
                        (
                            slots.update(id as int, Some(SlotView { pending: Seq::empty(), ..slot })),
                            spec_okay_response(Seq::empty()),
                            StrmActionSpec::Forward {
                                client_stream_id: id as u32,
                                device_stream_id: slot.device_stream_id,
                                data: buffered,
                            },
                        )
                    } else {
                        (
                            slots.update(id as int, Some(SlotView { pending: buffered, ..slot })),
                            spec_okay_response(Seq::empty()),
                            StrmActionSpec::Nothing,
                        )
                    }
                },
            }
        },
    }
}

/// The bytes an action sends to the device.
pub open spec fn forwarded_bytes(action: StrmActionSpec) -> Seq<u8> {
    match action {
        StrmActionSpec::Forward { data, .. } => data,
        _ => Seq::empty(),
    }
}

/// No STRM byte is lost or sent twice: for a data frame on an open stream
/// that stays within the buffer limit, the stream's buffered bytes and the
/// frame's payload are exactly the bytes sent to the device now followed
/// by the bytes still buffered; what is sent goes on the stream's own pair,
/// and after a send the buffer is empty. Other streams are untouched. So
/// over a run of frames to a connected device, each payload byte reaches
/// the device once, in order.
pub proof fn lemma_strm_forwards_each_byte_once(
    slots: Seq<Option<SlotView>>,
    selected: Option<Seq<char>>,
    devices: Seq<DeviceInfo>,
    data: Seq<u8>,
)
    requires
        slots.len() == 256,
        spec_decode_strm(data) is Ok,
        spec_decode_strm(data)->Ok_0.1.len() > 0,
        slots[spec_decode_strm(data)->Ok_0.0 as int] is Some,
        (slots[spec_decode_strm(data)->Ok_0.0 as int]->Some_0.pending + spec_decode_strm(data)->Ok_0.1).len() <= MAX_STREAM_BUFFER,
    ensures
        ({
            let (id, payload) = spec_decode_strm(data)->Ok_0;
            let slot = slots[id as int]->Some_0;
            let (after, reply, action) = spec_strm(slots, selected, devices, data);
            &&& after.len() == slots.len()
            &&& after[id as int] matches Some(now)
            &&& slot.pending + payload == forwarded_bytes(action) + after[id as int]->Some_0.pending
            &&& action matches StrmActionSpec::Forward { client_stream_id, device_stream_id, .. } ==> {
                &&& client_stream_id == id
                &&& device_stream_id == slot.device_stream_id
                &&& after[id as int]->Some_0.pending.len() == 0
            }
            &&& (selected matches Some(d) && device_connected(devices, d)) ==> action is Forward
            &&& forall|j: int| 0 <= j < slots.len() && j != id ==> after[j] == slots[j]
        }),
{
    let (id, payload) = spec_decode_strm(data)->Ok_0;
    let slot = slots[id as int]->Some_0;
    let buffered = slot.pending + payload;
    let (after, reply, action) = spec_strm(slots, selected, devices, data);
    if action is Forward {
        assert(buffered + Seq::<u8>::empty() =~= buffered);
    } else {
        assert(Seq::<u8>::empty() + buffered =~= buffered);
    }
}

/// Two data frames on the same stream of a connected device, starting from
/// an empty buffer: the device receives the first payload and then the
/// second, each once.
pub proof fn lemma_strm_two_frames(
    slots: Seq<Option<SlotView>>,
    selected: Option<Seq<char>>,
    devices: Seq<DeviceInfo>,
    first: Seq<u8>,
    second: Seq<u8>,
)
    requires
        slots.len() == 256,
        selected matches Some(d) && device_connected(devices, d),
        spec_decode_strm(first) is Ok,
        spec_decode_strm(second) is Ok,
        spec_decode_strm(first)->Ok_0.0 == spec_decode_strm(second)->Ok_0.0,
        spec_decode_strm(first)->Ok_0.1.len() > 0,
        spec_decode_strm(second)->Ok_0.1.len() > 0,
        spec_decode_strm(first)->Ok_0.1.len() <= MAX_STREAM_BUFFER,
        spec_decode_strm(second)->Ok_0.1.len() <= MAX_STREAM_BUFFER,
        slots[spec_decode_strm(first)->Ok_0.0 as int] is Some,
        slots[spec_decode_strm(first)->Ok_0.0 as int]->Some_0.pending.len() == 0,
    ensures
        ({
            let (after1, reply1, action1) = spec_strm(slots, selected, devices, first);
            let (after2, reply2, action2) = spec_strm(after1, selected, devices, second);
            forwarded_bytes(action1) + forwarded_bytes(action2)
                == spec_decode_strm(first)->Ok_0.1 + spec_decode_strm(second)->Ok_0.1
        }),
{
    let id = spec_decode_strm(first)->Ok_0.0;
    let p1 = spec_decode_strm(first)->Ok_0.1;
    let p2 = spec_decode_strm(second)->Ok_0.1;
    let slot = slots[id as int]->Some_0;
    assert(slot.pending + p1 =~= p1);
    lemma_strm_forwards_each_byte_once(slots, selected, devices, first);
    let (after1, reply1, action1) = spec_strm(slots, selected, devices, first);
    assert(forwarded_bytes(action1) + after1[id as int]->Some_0.pending =~= p1);
    assert(after1[id as int]->Some_0.pending.len() == 0);
    assert(after1[id as int]->Some_0.pending + p2 =~= p2);
    lemma_strm_forwards_each_byte_once(after1, selected, devices, second);
    let (after2, reply2, action2) = spec_strm(after1, selected, devices, second);
    assert(forwarded_bytes(action1) =~= p1);
    assert(forwarded_bytes(action2) + after2[id as int]->Some_0.pending =~= p2);
    assert(after2[id as int]->Some_0.pending.len() == 0);
    assert(forwarded_bytes(action2) =~= p2);
}

/// The lowest free stream id from 1 to 255.
pub open spec fn first_free(slots: Seq<Option<SlotView>>) -> Option<int> {
    if exists|i: int| 1 <= i < 256 && slots[i] is None {
        Some(choose|i: int| 1 <= i < 256 && slots[i] is None && forall|j: int| 1 <= j < i ==> slots[j] is Some)
    } else {
        None
    }
}

/// How reserving a stream for `service` changes the slots: the lowest free
/// id gets an empty, active buffer; when none is free, id 1 is handed out
/// and nothing changes.
pub open spec fn allocated(before: Seq<Option<SlotView>>, after: Seq<Option<SlotView>>, id: u8, service: Seq<char>) -> bool {
    match first_free(before) {
        Some(i) => id == i && after == before.update(i, Some(SlotView {
            device_stream_id: i as u32,
            pending: Seq::empty(),
            service,
            active: true,
        })),
        None => id == 1 && after == before,
    }
}

/// A stream the forwarder must open: its id and "device:service".
#[derive(Debug)]
pub struct StreamOpen {
    pub stream_id: u8,
    pub target: String,
}

/// The device record of a direct connection to `ip:port` for a session.
pub open spec fn is_direct_device(d: DeviceInfo, ip: Seq<char>, port: u16, id: Seq<char>, session: Seq<char>) -> bool {
    &&& d.device_id@ == id
    &&& d.name@ == "Direct TCP "@ + ip + ":"@ + dec_chars(port as nat)
    &&& d.address@ == ip + ":"@ + dec_chars(port as nat)
    &&& d.state == DeviceState::Discovered
    &&& d.metadata.model matches Some(m) && m@ == "Direct TCP Connection"@
    &&& d.metadata.manufacturer matches Some(m) && m@ == "DBGIF"@
    &&& d.metadata.serial_number matches Some(m) && m@ == "tcp-"@ + ip + "-"@ + dec_chars(port as nat)
    &&& d.metadata.os_version is None
    &&& d.metadata.properties@.len() == 2
    &&& d.metadata.properties@[0].0@ == "temporary"@ && d.metadata.properties@[0].1@ == "true"@
    &&& d.metadata.properties@[1].0@ == "session_id"@ && d.metadata.properties@[1].1@ == session
}

/// One client session of the ASCII protocol: its streams (a slot for each
/// stream id) and its selected device.
pub struct AsciiHandler {
    stream_mappings: Vec<Option<StreamSlot>>,
    selected_device: Option<String>,
    session_id: String,
}

impl AsciiHandler {
    /// The slot of each stream id from 0 to 255 (id 0 is never used).
    pub closed spec fn slots(&self) -> Seq<Option<SlotView>> {
        slots_view(self.stream_mappings@)
    }

    /// The selected device.
    pub closed spec fn selected(&self) -> Option<Seq<char>> {
        match self.selected_device {
            Some(s) => Some(s@),
            None => None,
        }
    }

    /// The session's id.
    pub closed spec fn session(&self) -> Seq<char> {
        self.session_id@
    }

    /// A slot for each of the 256 ids; id 0 is never used.
    pub closed spec fn wf(&self) -> bool {
        &&& self.stream_mappings@.len() == 256
        &&& self.stream_mappings@[0] is None
    }

    /// A session with no streams and no device selected.
    pub fn new(session_id: String) -> (r: Self)
        ensures
            r.wf(),
            forall|i: int| 0 <= i < 256 ==> r.slots()[i] is None,
            r.selected() is None,
            r.session() == session_id@,
    {
        let mut slots: Vec<Option<StreamSlot>> = Vec::new();
        let mut i: usize = 0;
        while i < 256
            invariant
                i <= 256,
                slots@.len() == i,
                forall|j: int| 0 <= j < i ==> slots@[j] is None,
            decreases 256 - i,
        {
            slots.push(None);
            i = i + 1;
        }
        AsciiHandler { stream_mappings: slots, selected_device: None, session_id }
    }

    /// "OKAY", the length of `data` in (at least) four hex digits, then
    /// `data`.
    pub fn create_okay_response(&self, data: &[u8]) -> (r: Vec<u8>)
        ensures
            r@ == spec_okay_response(data@),
    {
        okay_response(data)
    }

    /// "FAIL", the length of `message` in (at least) four hex digits, then
    /// `message`.
    pub fn create_fail_response(&self, message: &str) -> (r: Vec<u8>)
        ensures
            r@ == spec_fail_response(message.spec_bytes()),
    {
        fail_response(message)
    }

    /// The selected device.
    pub fn selected_device(&self) -> (r: Option<&String>)
        ensures
            match r {
                Some(s) => self.selected() == Some(s@),
                None => self.selected() is None,
            },
    {
        match &self.selected_device {
            Some(s) => Some(s),
            None => None,
        }
    }

    /// Takes the slot of `id` out of the table, leaving it empty.
    fn take_slot(&mut self, id: u8) -> (r: Option<StreamSlot>)
        requires
            old(self).wf(),
        ensures
            final(self).wf() || id == 0,
            final(self).stream_mappings@ == old(self).stream_mappings@.update(id as int, None),
            r == old(self).stream_mappings@[id as int],
            final(self).selected_device == old(self).selected_device,
            final(self).session_id == old(self).session_id,
    {
        let mut slot: Option<StreamSlot> = None;
        std::mem::swap(&mut slot, &mut self.stream_mappings[id as usize]);
        proof {
            assert(self.stream_mappings@ =~= old(self).stream_mappings@.update(id as int, None));
        }
        slot
    }

    /// Puts `slot` in the table at `id`.
    fn put_slot(&mut self, id: u8, slot: Option<StreamSlot>)
        requires
            old(self).wf(),
            id != 0 || slot is None,
        ensures
            final(self).wf(),
            final(self).stream_mappings@ == old(self).stream_mappings@.update(id as int, slot),
            final(self).selected_device == old(self).selected_device,
            final(self).session_id == old(self).session_id,
    {
        let mut slot = slot;
        std::mem::swap(&mut slot, &mut self.stream_mappings[id as usize]);
    }

    /// Opens a shell for the selected device: reserves a stream for
    /// "shell:" (a bare "shell" or "shell:") or for the request as given,
    /// and names what the forwarder must open.
    pub fn begin_shell(&mut self, request: &str) -> (r: Result<StreamOpen, Vec<u8>>)
        requires
            old(self).wf(),
        ensures
            final(self).wf(),
            final(self).selected() == old(self).selected(),
            final(self).session() == old(self).session(),
            match old(self).selected() {
                None => r matches Err(e) && e@ == spec_fail_response(encode_utf8("no device selected"@))
                    && final(self).slots() == old(self).slots(),
                Some(device) => {
                    let service = if request@ == "shell"@ || request@ == "shell:"@ { "shell:"@ } else { request@ };
                    r matches Ok(o) && allocated(old(self).slots(), final(self).slots(), o.stream_id, service)
                        && o.target@ == device + ":"@ + service
                },
            },
    {
        proof {
            reveal_strlit("shell");
            reveal_strlit("shell:");
        }
        let device = match &self.selected_device {
            Some(d) => to_owned_string(d.as_str()),
            None => return Err(fail_response("no device selected")),
        };
        let service = if str_eq(request, "shell") || str_eq(request, "shell:") {
            to_owned_string("shell:")
        } else {
            to_owned_string(request)
        };
        let mut target = device;
        push_str(&mut target, ":");
        push_str(&mut target, service.as_str());
        let stream_id = self.allocate_stream_id_with_service(service);
        Ok(StreamOpen { stream_id, target })
    }

    /// Opens a TCP service for the selected device: the port is what
    /// follows "tcp:" and must not be empty.
    pub fn begin_tcp(&mut self, request: &str) -> (r: Result<StreamOpen, Vec<u8>>)
        requires
            old(self).wf(),
        ensures
            final(self).wf(),
            final(self).selected() == old(self).selected(),
            final(self).session() == old(self).session(),
            match old(self).selected() {
                None => r matches Err(e) && e@ == spec_fail_response(encode_utf8("no device selected"@))
                    && final(self).slots() == old(self).slots(),
                Some(device) => {
                    let port = if has_prefix(request@, "tcp:"@) { request@.skip(4) } else { Seq::empty() };
                    if port.len() == 0 {
                        r matches Err(e) && e@ == spec_fail_response(encode_utf8("invalid port"@))
                            && final(self).slots() == old(self).slots()
                    } else {
                        r matches Ok(o) && allocated(old(self).slots(), final(self).slots(), o.stream_id, "tcp:"@ + port)
                            && o.target@ == device + ":"@ + request@
                    }
                },
            },
    {
        proof {
            reveal_strlit("tcp:");
        }
        let device = match &self.selected_device {
            Some(d) => to_owned_string(d.as_str()),
            None => return Err(fail_response("no device selected")),
        };
        let port = if starts_with(request, "tcp:") {
            skip_chars(request, 4)
        } else {
            to_owned_string("")
        };
        proof {
            reveal_strlit("");
        }
        if port.unicode_len() == 0 {
            return Err(fail_response("invalid port"));
        }
        let mut service = to_owned_string("tcp:");
        push_str(&mut service, port.as_str());
        let mut target = device;
        push_str(&mut target, ":");
        push_str(&mut target, request);
        let stream_id = self.allocate_stream_id_with_service(service);
        Ok(StreamOpen { stream_id, target })
    }

    /// Opens the sync service for the selected device.
    pub fn begin_sync(&mut self) -> (r: Result<StreamOpen, Vec<u8>>)
        requires
            old(self).wf(),
        ensures
            final(self).wf(),
            final(self).selected() == old(self).selected(),
            final(self).session() == old(self).session(),
            match old(self).selected() {
                None => r matches Err(e) && e@ == spec_fail_response(encode_utf8("no device selected"@))
                    && final(self).slots() == old(self).slots(),
                Some(device) => r matches Ok(o) && allocated(old(self).slots(), final(self).slots(), o.stream_id, "sync:"@)
                    && o.target@ == device + ":sync:"@,
            },
    {
        let mut target = match &self.selected_device {
            Some(d) => to_owned_string(d.as_str()),
            None => return Err(fail_response("no device selected")),
        };
        push_str(&mut target, ":sync:");
        let stream_id = self.allocate_stream_id_with_service(to_owned_string("sync:"));
        Ok(StreamOpen { stream_id, target })
    }

    /// Reserves the lowest free stream id from 1 to 255 for `service_name`,
    /// with an empty, active buffer. When all are taken, 1 is handed out
    /// again and nothing changes.
    pub fn allocate_stream_id_with_service(&mut self, service_name: String) -> (r: u8)
        requires
            old(self).wf(),
        ensures
            final(self).wf(),
            final(self).selected() == old(self).selected(),
            final(self).session() == old(self).session(),
            allocated(old(self).slots(), final(self).slots(), r, service_name@),
    {
        let ghost before = self.slots();
        let mut id: usize = 1;
        while id < 256
            invariant
                1 <= id <= 256,
                self.wf(),
                self.selected() == old(self).selected(),
                self.session() == old(self).session(),
                self.stream_mappings@.len() == 256,
                before == slots_view(self.stream_mappings@),
                before == old(self).slots(),
                forall|j: int| 1 <= j < id ==> before[j] is Some,
            decreases 256 - id,
        {
            if self.stream_mappings[id].is_none() {
                proof {
                    assert(before[id as int] is None);
                    assert(exists|i: int| 1 <= i < 256 && before[i] is None);
                    let w = choose|i: int| 1 <= i < 256 && before[i] is None && forall|j: int| 1 <= j < i ==> before[j] is Some;
                    assert(1 <= id < 256 && before[id as int] is None && forall|j: int| 1 <= j < id ==> before[j] is Some);
                    if w < id {
                        assert(before[w] is Some);
                    } else if w > id {
                        assert(before[id as int] is Some);
                    }
                }
                let slot = StreamSlot {
                    device_stream_id: id as u32,
                    pending_data: Vec::with_capacity(4096),
                    service_name,
                    active: true,
                };
                self.put_slot(id as u8, Some(slot));
                proof {
                    assert(self.slots() =~= before.update(id as int, Some(SlotView {
                        device_stream_id: id as u32,
                        pending: Seq::empty(),
                        service: service_name@,
                        active: true,
                    })));
                }
                return id as u8;
            }
            proof {
                assert(before[id as int] is Some);
            }
            id = id + 1;
        }
        1
    }

    /// Forgets stream `stream_id` and its buffered data.
    pub fn close_stream(&mut self, stream_id: u8)
        requires
            old(self).wf(),
        ensures
            final(self).wf(),
            final(self).slots() == old(self).slots().update(stream_id as int, None),
            final(self).selected() == old(self).selected(),
            final(self).session() == old(self).session(),
    {
        let _ = self.take_slot(stream_id);
        proof {
            assert(self.slots() =~= old(self).slots().update(stream_id as int, None));
        }
    }

    /// Handles a STRM frame from the client, as `spec_strm` says: closes
    /// the stream on an empty payload, buffers the payload otherwise, stops
    /// a stream whose buffer grows past 64 KiB, and hands the buffer over
    /// for the device when the selected device is connected.
    pub fn handle_strm_message(&mut self, data: &[u8], registry: &DeviceRegistry) -> (r: (Vec<u8>, StrmAction))
        requires
            old(self).wf(),
            registry.wf(),
        ensures
            final(self).wf(),
            final(self).selected() == old(self).selected(),
            final(self).session() == old(self).session(),
            ({
                let (slots, response, action) = spec_strm(old(self).slots(), old(self).selected(), registry.spec_devices(), data@);
                &&& final(self).slots() == slots
                &&& r.0@ == response
                &&& r.1@ == action
            }),
    {
        match decode_strm(data) {
            Err(_) => (fail_response("invalid STRM format"), StrmAction::Nothing),
            Ok((stream_id, payload)) => {
                if payload.len() == 0 {
                    self.close_stream(stream_id);
                    let empty: Vec<u8> = Vec::new();
                    (okay_response(empty.as_slice()), StrmAction::Close { stream_id })
                } else {
                    let ghost before = self.slots();
                    match self.take_slot(stream_id) {
                        None => (fail_response("stream not found"), StrmAction::Nothing),
                        Some(slot) => {
                            let mut slot = slot;
                            crate::wire::append_all(&mut slot.pending_data, payload.as_slice());
                            if slot.pending_data.len() > MAX_STREAM_BUFFER {
                                slot.active = false;
                                if slot.pending_data.len() > MAX_STREAM_BUFFER * 2 {
                                    slot.pending_data.truncate(MAX_STREAM_BUFFER);
                                }
                                let ghost sv = slot@;
                                self.put_slot(stream_id, Some(slot));
                                proof {
                                    assert(self.slots() =~= before.update(stream_id as int, Some(sv)));
                                }
                                return (fail_response("stream buffer overflow - flow control activated"), StrmAction::Nothing);
                            }
                            let connected = match &self.selected_device {
                                Some(device_id) => match registry.get_device(device_id.as_str()) {
                                    Some(d) => match d.state {
                                        DeviceState::Connected => true,
                                        _ => false,
                                    },
                                    None => false,
                                },
                                None => false,
                            };
                            let empty: Vec<u8> = Vec::new();
                            if connected {
                                let mut data_to_send: Vec<u8> = Vec::new();
                                std::mem::swap(&mut data_to_send, &mut slot.pending_data);
                                let device_stream_id = slot.device_stream_id;
                                let ghost sv = slot@;
                                self.put_slot(stream_id, Some(slot));
                                proof {
                                    assert(self.slots() =~= before.update(stream_id as int, Some(sv)));
                                }
                                (okay_response(empty.as_slice()), StrmAction::Forward {
                                    client_stream_id: stream_id as u32,
                                    device_stream_id,
                                    data: data_to_send,
                                })
                            } else {
                                let ghost sv = slot@;
                                self.put_slot(stream_id, Some(slot));
                                proof {
                                    assert(self.slots() =~= before.update(stream_id as int, Some(sv)));
                                }
                                (okay_response(empty.as_slice()), StrmAction::Nothing)
                            }
                        },
                    }
                }
            },
        }
    }

    /// Selects the device `device_id` when it is registered.
    pub fn handle_transport_selection(&mut self, device_id: &str, registry: &DeviceRegistry) -> (r: Vec<u8>)
        requires
            old(self).wf(),
        ensures
            final(self).wf(),
            final(self).slots() == old(self).slots(),
            final(self).session() == old(self).session(),
            if exists|j: int| 0 <= j < registry.spec_devices().len() && registry.spec_devices()[j].device_id@ == device_id@ {
                final(self).selected() == Some(device_id@) && r@ == spec_okay_response(Seq::empty())
            } else {
                final(self).selected() == old(self).selected() && r@ == spec_fail_response(encode_utf8("device not found"@))
            },
    {
        let empty: Vec<u8> = Vec::new();
        match registry.get_device(device_id) {
            Some(_) => {
                self.selected_device = Some(to_owned_string(device_id));
                okay_response(empty.as_slice())
            },
            None => fail_response("device not found"),
        }
    }

    /// The temporary device record of a direct connection, registered
    /// for this session.
    fn register_direct_device(&self, ip: &str, port: u16, device_id: &str, registry: &mut DeviceRegistry) -> (r: Result<(), String>)
        requires
            old(registry).wf(),
        ensures
            final(registry).wf(),
            (exists|j: int| 0 <= j < old(registry).spec_devices().len() && old(registry).spec_devices()[j].device_id@ == device_id@) ==> {
                &&& r is Err
                &&& final(registry).spec_devices() == old(registry).spec_devices()
            },
            !(exists|j: int| 0 <= j < old(registry).spec_devices().len() && old(registry).spec_devices()[j].device_id@ == device_id@) ==> {
                &&& r is Ok
                &&& final(registry).spec_devices().len() == old(registry).spec_devices().len() + 1
                &&& final(registry).spec_devices().drop_last() == old(registry).spec_devices()
                &&& is_direct_device(final(registry).spec_devices().last(), ip@, port, device_id@, self.session())
            },
    {
        let mut port_text = to_owned_string("");
        proof {
            reveal_strlit("");
        }
        push_dec_str(&mut port_text, port as u64);
        let mut name = to_owned_string("Direct TCP ");
        push_str(&mut name, ip);
        push_str(&mut name, ":");
        push_str(&mut name, port_text.as_str());
        let mut address = to_owned_string(ip);
        push_str(&mut address, ":");
        push_str(&mut address, port_text.as_str());
        let mut serial = to_owned_string("tcp-");
        push_str(&mut serial, ip);
        push_str(&mut serial, "-");
        push_str(&mut serial, port_text.as_str());
        let mut properties: Vec<(String, String)> = Vec::new();
        properties.push((to_owned_string("temporary"), to_owned_string("true")));
        properties.push((to_owned_string("session_id"), to_owned_string(self.session_id.as_str())));
        let device = DeviceInfo {
            device_id: to_owned_string(device_id),
            name,
            address,
            state: DeviceState::Discovered,
            metadata: DeviceMetadata {
                model: Some(to_owned_string("Direct TCP Connection")),
                manufacturer: Some(to_owned_string("DBGIF")),
                serial_number: Some(serial),
                os_version: None,
                properties,
            },
        };
        assert(""@ + dec_chars(port as nat) =~= dec_chars(port as nat));
        match registry.register_device(device) {
            Ok(()) => Ok(()),
            Err(_) => Err(to_owned_string("failed to register device")),
        }
    }

    /// Connects the device at "ip:port" for this session: only the
    /// loopback address and a nonzero port are accepted; a device already
    /// registered as "direct:ip:port" is selected, otherwise it is
    /// registered as a temporary device of this session and selected.
    pub fn handle_direct_connection(&mut self, address: &str, registry: &mut DeviceRegistry) -> (r: Vec<u8>)
        requires
            old(self).wf(),
            old(registry).wf(),
        ensures
            final(self).wf(),
            final(registry).wf(),
            final(self).slots() == old(self).slots(),
            final(self).session() == old(self).session(),
            match spec_parse_ip_port(address@) {
                Err(_) => r@ == spec_fail_response(encode_utf8("invalid address"@))
                    && final(self).selected() == old(self).selected()
                    && final(registry).spec_devices() == old(registry).spec_devices(),
                Ok((ip, port)) => if port == 0 {
                    r@ == spec_fail_response(encode_utf8("invalid port"@))
                        && final(self).selected() == old(self).selected()
                        && final(registry).spec_devices() == old(registry).spec_devices()
                } else {
                    let id = "direct:"@ + ip + ":"@ + dec_chars(port as nat);
                    &&& r@ == spec_okay_response(Seq::empty())
                    &&& final(self).selected() == Some(id)
                    &&& if exists|j: int| 0 <= j < old(registry).spec_devices().len() && old(registry).spec_devices()[j].device_id@ == id {
                        final(registry).spec_devices() == old(registry).spec_devices()
                    } else {
                        &&& final(registry).spec_devices().drop_last() == old(registry).spec_devices()
                        &&& final(registry).spec_devices().len() == old(registry).spec_devices().len() + 1
                        &&& is_direct_device(final(registry).spec_devices().last(), ip, port, id, old(self).session())
                    }
                },
            },
    {
        let (ip, port) = match parse_ip_port(address) {
            Ok(v) => v,
            Err(_) => return fail_response("invalid address"),
        };
        if port == 0 {
            return fail_response("invalid port");
        }
        let mut device_id = to_owned_string("direct:");
        push_str(&mut device_id, ip.as_str());
        push_str(&mut device_id, ":");
        push_dec_str(&mut device_id, port as u64);
        let empty: Vec<u8> = Vec::new();
        if registry.get_device(device_id.as_str()).is_some() {
            self.selected_device = Some(device_id);
            return okay_response(empty.as_slice());
        }
        match self.register_direct_device(ip.as_str(), port, device_id.as_str(), registry) {
            Ok(()) => {
                self.selected_device = Some(device_id);
                okay_response(empty.as_slice())
            },
            Err(_) => fail_response("registration failed"),
        }
    }

    /// Removes the temporary devices this session registered.
    pub fn cleanup_temporary_devices(&self, registry: &mut DeviceRegistry)
        requires
            old(registry).wf(),
        ensures
            final(registry).wf(),
            final(registry).spec_devices() == old(registry).spec_devices().filter(kept_for(self.session())),
    {
        registry.remove_temporary_of(self.session_id.as_str());
    }
}

/// The answer once the forwarder has tried to open a stream: its id in
/// two hex digits, or a failure.
pub fn open_stream_response(stream_id: u8, opened: bool) -> (r: Vec<u8>)
    ensures
        r@ == if opened {
            spec_okay_response(hex_padded(stream_id as nat, 2))
        } else {
            spec_fail_response(encode_utf8("failed to open stream"@))
        },
{
    if opened {
        let mut id_text: Vec<u8> = Vec::new();
        push_hex(&mut id_text, stream_id as u64, 2);
        assert(id_text@ =~= hex_padded(stream_id as nat, 2));
        okay_response(id_text.as_slice())
    } else {
        fail_response("failed to open stream")
    }
}

} // verus!
