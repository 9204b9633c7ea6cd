use vstd::prelude::*;
use vstd::utf8::encode_utf8;
use vstd::string::StrSliceExecFns;
use crate::transport::{DeviceInfo, TransportInfo, TransportType};
use crate::text::{has_prefix, starts_with, str_eq, skip_chars, to_owned_string, push_str, push_dec_str, dec_chars, has_substring, contains_str, remove_char, without_char, count_char, string_bytes};
use crate::protocol::ascii::spec_fail_response;
use crate::hex::hex_padded;

verus! {

/// Extended device information for host commands.
#[derive(Debug, Clone)]
pub struct AdbDeviceInfo {
    pub device_id: String,
    pub transport_id: String,
    pub state: DeviceState,
    pub transport_type: TransportType,
    pub serial_number: Option<String>,
    pub product: Option<String>,
    pub model: Option<String>,
    pub device_name: Option<String>,
    pub usb_info: Option<UsbDeviceInfo>,
}

#[derive(Debug, Clone, Copy, PartialEq, Eq, Structural)]
pub struct UsbDeviceInfo {
    pub bus_number: u8,
    pub device_address: u8,
    pub vendor_id: u16,
    pub product_id: u16,
}

/// ADB device state.
#[derive(Debug, Clone, Copy, PartialEq, Eq, Structural)]
pub enum DeviceState {
    Online,
    Offline,
    Unauthorized,
    Bootloader,
    Recovery,
    Sideload,
    Unknown,
}

/// The text a device state is shown as.
pub open spec fn state_text(s: DeviceState) -> Seq<char> {
    match s {
        DeviceState::Online => "device"@,
        DeviceState::Offline => "offline"@,
        DeviceState::Unauthorized => "unauthorized"@,
        DeviceState::Bootloader => "bootloader"@,
        DeviceState::Recovery => "recovery"@,
        DeviceState::Sideload => "sideload"@,
        DeviceState::Unknown => "unknown"@,
    }
}

impl DeviceState {
    /// The text the state is shown as ("device" for an online device).
    pub fn as_str(&self) -> (r: &'static str)
        ensures
            r@ == state_text(*self),
    {
        match self {
            DeviceState::Online => "device",
            DeviceState::Offline => "offline",
            DeviceState::Unauthorized => "unauthorized",
            DeviceState::Bootloader => "bootloader",
            DeviceState::Recovery => "recovery",
            DeviceState::Sideload => "sideload",
            DeviceState::Unknown => "unknown",
        }
    }

    /// The text the state is shown as, owned.
    pub fn to_string(&self) -> (r: String)
        ensures
            r@ == state_text(*self),
    {
        to_owned_string(self.as_str())
    }
}

/// A host command, as routed by the processor.
#[derive(Debug, Clone, PartialEq, Eq)]
pub enum HostRequest {
    Devices { long_format: bool },
    Version,
    Kill,
    Features,
    GetState,
    GetSerialno,
    GetDevpath,
    Transport(String),
    TransportId(String),
    Serial(String),
    Usb(String),
    Local(String),
    TrackDevices,
    Reconnect,
    ReconnectOffline,
    Unknown(String),
}

pub enum HostRequestSpec {
    Devices { long_format: bool },
    Version,
    Kill,
    Features,
    GetState,
    GetSerialno,
    GetDevpath,
    Transport(Seq<char>),
    TransportId(Seq<char>),
    Serial(Seq<char>),
    Usb(Seq<char>),
    Local(Seq<char>),
    TrackDevices,
    Reconnect,
    ReconnectOffline,
    Unknown(Seq<char>),
}

impl View for HostRequest {
    type V = HostRequestSpec;

    open spec fn view(&self) -> HostRequestSpec {
        match self {
            HostRequest::Devices { long_format } => HostRequestSpec::Devices { long_format: *long_format },
            HostRequest::Version => HostRequestSpec::Version,
            HostRequest::Kill => HostRequestSpec::Kill,
            HostRequest::Features => HostRequestSpec::Features,
            HostRequest::GetState => HostRequestSpec::GetState,
            HostRequest::GetSerialno => HostRequestSpec::GetSerialno,
            HostRequest::GetDevpath => HostRequestSpec::GetDevpath,
            HostRequest::Transport(s) => HostRequestSpec::Transport(s@),
            HostRequest::TransportId(s) => HostRequestSpec::TransportId(s@),
            HostRequest::Serial(s) => HostRequestSpec::Serial(s@),
            HostRequest::Usb(s) => HostRequestSpec::Usb(s@),
            HostRequest::Local(s) => HostRequestSpec::Local(s@),
            HostRequest::TrackDevices => HostRequestSpec::TrackDevices,
            HostRequest::Reconnect => HostRequestSpec::Reconnect,
            HostRequest::ReconnectOffline => HostRequestSpec::ReconnectOffline,
            HostRequest::Unknown(s) => HostRequestSpec::Unknown(s@),
        }
    }
}

/// How a command string is routed: the "host:" prefix is optional.
pub open spec fn spec_classify(command: Seq<char>) -> HostRequestSpec {
    let c = if has_prefix(command, "host:"@) {
        command.skip(5)
    } else {
        command
    };
    if c == "devices"@ {
        HostRequestSpec::Devices { long_format: false }
    } else if c == "devices-l"@ {
        HostRequestSpec::Devices { long_format: true }
    } else if c == "version"@ {
        HostRequestSpec::Version
    } else if c == "kill"@ {
        HostRequestSpec::Kill
    } else if c == "features"@ {
        HostRequestSpec::Features
    } else if c == "get-state"@ {
        HostRequestSpec::GetState
    } else if c == "get-serialno"@ {
        HostRequestSpec::GetSerialno
    } else if c == "get-devpath"@ {
        HostRequestSpec::GetDevpath
    } else if has_prefix(c, "transport:"@) {
        HostRequestSpec::Transport(c.skip(10))
    } else if has_prefix(c, "transport-id:"@) {
        HostRequestSpec::TransportId(c.skip(13))
    } else if has_prefix(c, "serial:"@) {
        HostRequestSpec::Serial(c.skip(7))
    } else if has_prefix(c, "usb:"@) {
        HostRequestSpec::Usb(c.skip(4))
    } else if has_prefix(c, "local:"@) {
        HostRequestSpec::Local(c.skip(6))
    } else if c == "track-devices"@ {
        HostRequestSpec::TrackDevices
    } else if c == "reconnect"@ {
        HostRequestSpec::Reconnect
    } else if c == "reconnect-offline"@ {
        HostRequestSpec::ReconnectOffline
    } else {
        HostRequestSpec::Unknown(c)
    }
}

/// Routes a host command string.
pub fn classify_host_command(command: &str) -> (r: HostRequest)
    ensures
        r@ == spec_classify(command@),
{
    proof {
        reveal_strlit("host:");
    }
    let c: String = if starts_with(command, "host:") {
        skip_chars(command, 5)
    } else {
        to_owned_string(command)
    };
    let cs = c.as_str();
    if str_eq(cs, "devices") {
        HostRequest::Devices { long_format: false }
    } else if str_eq(cs, "devices-l") {
        HostRequest::Devices { long_format: true }
    } else if str_eq(cs, "version") {
        HostRequest::Version
    } else if str_eq(cs, "kill") {
        HostRequest::Kill
    } else if str_eq(cs, "features") {
        HostRequest::Features
    } else if str_eq(cs, "get-state") {
        HostRequest::GetState
    } else if str_eq(cs, "get-serialno") {
        HostRequest::GetSerialno
    } else if str_eq(cs, "get-devpath") {
        HostRequest::GetDevpath
    } else if starts_with(cs, "transport:") {
        proof {
            reveal_strlit("transport:");
        }
        HostRequest::Transport(skip_chars(cs, 10))
    } else if starts_with(cs, "transport-id:") {
        proof {
            reveal_strlit("transport-id:");
        }
        HostRequest::TransportId(skip_chars(cs, 13))
    } else if starts_with(cs, "serial:") {
        proof {
            reveal_strlit("serial:");
        }
        HostRequest::Serial(skip_chars(cs, 7))
    } else if starts_with(cs, "usb:") {
        proof {
            reveal_strlit("usb:");
        }
        HostRequest::Usb(skip_chars(cs, 4))
    } else if starts_with(cs, "local:") {
        proof {
            reveal_strlit("local:");
        }
        HostRequest::Local(skip_chars(cs, 6))
    } else if str_eq(cs, "track-devices") {
        HostRequest::TrackDevices
    } else if str_eq(cs, "reconnect") {
        HostRequest::Reconnect
    } else if str_eq(cs, "reconnect-offline") {
        HostRequest::ReconnectOffline
    } else {
        HostRequest::Unknown(c)
    }
}

/// Response from host command execution.
#[derive(Debug)]
pub enum HostCommandResponse {
    /// Simple data response.
    Data { data: Vec<u8> },
    /// Error response with message.
    Error { message: String },
    /// Transport was selected - switches client to device mode.
    TransportSelected { device_id: String, device_info: AdbDeviceInfo },
    /// Streaming response (for track-devices).
    Streaming { initial_data: Vec<u8> },
    /// Kill command - server should shutdown.
    Kill,
}

/// "OKAY"
pub open spec fn okay_bytes() -> Seq<u8> {
    seq![79u8, 75u8, 65u8, 89u8]
}

impl HostCommandResponse {
    /// The bytes sent for this response.
    pub open spec fn spec_adb_data(&self) -> Seq<u8> {
        match self {
            HostCommandResponse::Data { data } => data@,
            HostCommandResponse::Error { message } => spec_fail_response(encode_utf8(message@)),
            HostCommandResponse::TransportSelected { .. } => okay_bytes(),
            HostCommandResponse::Streaming { initial_data } => initial_data@,
            HostCommandResponse::Kill => okay_bytes(),
        }
    }

    /// Convert response to ADB protocol format.
    pub fn to_adb_data(&self) -> (r: Vec<u8>)
        ensures
            r@ == self.spec_adb_data(),
    {
        match self {
            HostCommandResponse::Data { data } => {
                let d = data.clone();
                assert(d@ =~= data@);
                d
            },
            HostCommandResponse::Error { message } => crate::protocol::ascii::fail_response(message.as_str()),
            HostCommandResponse::TransportSelected { .. } => {
                let v: Vec<u8> = vec![79, 75, 65, 89];
                assert(v@ =~= okay_bytes());
                v
            },
            HostCommandResponse::Streaming { initial_data } => {
                let d = initial_data.clone();
                assert(d@ =~= initial_data@);
                d
            },
            HostCommandResponse::Kill => {
                let v: Vec<u8> = vec![79, 75, 65, 89];
                assert(v@ =~= okay_bytes());
                v
            },
        }
    }

    /// Whether the stream closes after this response (all but streaming
    /// responses).
    pub fn should_close_stream(&self) -> (r: bool)
        ensures
            r == !(self is Streaming),
    {
        match self {
            HostCommandResponse::Streaming { .. } => false,
            _ => true,
        }
    }
}

/// The device-list text of the discovered devices.
pub open spec fn devices_text(devices: Seq<DeviceInfo>, long_format: bool) -> Seq<char>
    decreases devices.len(),
{
    if devices.len() == 0 {
        Seq::empty()
    } else {
        let d = devices.last();
        devices_text(devices.drop_last(), long_format) + if long_format {
            d.device_id@ + "\tdevice\tproduct:unknown model:unknown device:"@ + d.display_name@
                + " transport_id:1\n"@
        } else {
            d.device_id@ + "\tdevice\n"@
        }
    }
}

/// The lines `lines`, one after another.
pub open spec fn concat_lines(lines: Seq<Seq<char>>) -> Seq<char>
    decreases lines.len(),
{
    if lines.len() == 0 {
        Seq::empty()
    } else {
        concat_lines(lines.drop_last()) + lines.last()
    }
}

/// The device list is one line per device, in order: it splits into
/// exactly as many lines as there are devices, and the k-th line starts
/// with the k-th device's id and a tab and ends with a newline.
pub proof fn lemma_devices_text_lines(devices: Seq<DeviceInfo>, long_format: bool)
    ensures
        exists|lines: Seq<Seq<char>>| {
            &&& lines.len() == devices.len()
            &&& concat_lines(lines) == devices_text(devices, long_format)
            &&& forall|k: int| 0 <= k < lines.len() ==> {
                &&& has_prefix(#[trigger] lines[k], devices[k].device_id@ + "\t"@)
                &&& lines[k].len() > 0
                &&& lines[k].last() == '\n'
            }
        },
    decreases devices.len(),
{
    reveal_strlit("\t");
    reveal_strlit("\n");
    reveal_strlit("\tdevice\n");
    reveal_strlit(" transport_id:1\n");
    reveal_strlit("\tdevice\tproduct:unknown model:unknown device:");
    if devices.len() == 0 {
        let lines = Seq::<Seq<char>>::empty();
        assert(concat_lines(lines) == devices_text(devices, long_format));
    } else {
        let rest = devices.drop_last();
        lemma_devices_text_lines(rest, long_format);
        let prev = choose|lines: Seq<Seq<char>>| {
            &&& lines.len() == rest.len()
            &&& concat_lines(lines) == devices_text(rest, long_format)
            &&& forall|k: int| 0 <= k < lines.len() ==> {
                &&& has_prefix(#[trigger] lines[k], rest[k].device_id@ + "\t"@)
                &&& lines[k].len() > 0
                &&& lines[k].last() == '\n'
            }
        };
        let d = devices.last();
        let line = if long_format {
            d.device_id@ + "\tdevice\tproduct:unknown model:unknown device:"@ + d.display_name@
                + " transport_id:1\n"@
        } else {
            d.device_id@ + "\tdevice\n"@
        };
        let lines = prev.push(line);
        assert(lines.drop_last() =~= prev);
        assert(concat_lines(lines) == devices_text(devices, long_format));
        assert(line.subrange(0, (d.device_id@ + "\t"@).len() as int) =~= d.device_id@ + "\t"@);
        assert(line.last() == '\n');
        assert forall|k: int| 0 <= k < lines.len() implies {
            &&& has_prefix(#[trigger] lines[k], devices[k].device_id@ + "\t"@)
            &&& lines[k].len() > 0
            &&& lines[k].last() == '\n'
        } by {
            if k < prev.len() {
                assert(lines[k] == prev[k]);
                assert(devices[k] == rest[k]);
            } else {
                assert(lines[k] == line);
            }
        }
    }
}

/// The features the server announces.
pub open spec fn features_text() -> Seq<char> {
    "shell_v2,cmd,stat_v2,ls_v2,sendrecv_v2_brotli,sendrecv_v2_lz4,sendrecv_v2_zstd,sendrecv_v2_dry_run_send"@
}

/// Whether `info` describes the device `id` as selected through a
/// transport: transport id "1", product and model "unknown", the given
/// state, type and name, serial equal to the id.
pub open spec fn selected_info(
    info: AdbDeviceInfo,
    id: Seq<char>,
    state: DeviceState,
    transport_type: TransportType,
    name: Seq<char>,
    usb: Option<UsbDeviceInfo>,
) -> bool {
    &&& info.device_id@ == id
    &&& info.transport_id@ == "1"@
    &&& info.state == state
    &&& info.transport_type == transport_type
    &&& info.serial_number matches Some(s) && s@ == id
    &&& info.product matches Some(p) && p@ == "unknown"@
    &&& info.model matches Some(m) && m@ == "unknown"@
    &&& info.device_name matches Some(n) && n@ == name
    &&& info.usb_info == usb
}

/// The USB information reported for a device selected by bus and address.
pub open spec fn mock_usb_info() -> UsbDeviceInfo {
    UsbDeviceInfo { bus_number: 1, device_address: 1, vendor_id: 0x18d1, product_id: 0x4ee2 }
}

/// The predicate "the device's id is `id`".
pub open spec fn id_is(id: Seq<char>) -> spec_fn(DeviceInfo) -> bool {
    |d: DeviceInfo| d.device_id@ == id
}

/// The predicate "the device's id contains `part`".
pub open spec fn id_has(part: Seq<char>) -> spec_fn(DeviceInfo) -> bool {
    |d: DeviceInfo| has_substring(d.device_id@, part)
}

/// The index of the first device that `pred` accepts, if any.
pub open spec fn first_match(devices: Seq<DeviceInfo>, pred: spec_fn(DeviceInfo) -> bool) -> Option<int> {
    if exists|i: int| 0 <= i < devices.len() && pred(#[trigger] devices[i]) {
        Some(choose|i: int| 0 <= i < devices.len() && pred(#[trigger] devices[i]) && forall|j: int| 0 <= j < i ==> !pred(#[trigger] devices[j]))
    } else {
        None
    }
}

/// Processes "host:" commands locally.
pub struct HostCommandProcessor {
    pub server_version: u32,
    pub max_data_size: u32,
}

impl HostCommandProcessor {
    /// Version 1.0.32 and 256 KiB payloads.
    pub fn new() -> (p: Self)
        ensures
            p.server_version == 0x01000020,
            p.max_data_size == 262144,
    {
        HostCommandProcessor { server_version: 0x01000020, max_data_size: 256 * 1024 }
    }

    /// The version answer: the low 16 bits of the version in four hex digits.
    pub open spec fn version_text(&self) -> Seq<u8> {
        hex_padded((self.server_version & 0xffff) as nat, 4)
    }

    /// The device list, or the discovery failure.
    pub fn handle_devices(&self, long_format: bool, devices: &Result<Vec<DeviceInfo>, String>) -> (r: HostCommandResponse)
        ensures
            match devices {
                Ok(list) => r matches HostCommandResponse::Data { data } && data@ == encode_utf8(devices_text(list@, long_format)),
                Err(e) => r matches HostCommandResponse::Error { message } && message@ == "failed to list devices: "@ + e@,
            },
    {
        match devices {
            Ok(list) => {
                let mut response = to_owned_string("");
                proof {
                    reveal_strlit("");
                }
                let mut i: usize = 0;
                while i < list.len()
                    invariant
                        i <= list@.len(),
                        response@ == devices_text(list@.take(i as int), long_format),
                    decreases list@.len() - i,
                {
                    let device = &list[i];
                    if long_format {
                        push_str(&mut response, device.device_id.as_str());
                        push_str(&mut response, "\tdevice\tproduct:unknown model:unknown device:");
                        push_str(&mut response, device.display_name.as_str());
                        push_str(&mut response, " transport_id:1\n");
                    } else {
                        push_str(&mut response, device.device_id.as_str());
                        push_str(&mut response, "\tdevice\n");
                    }
                    proof {
                        assert(list@.take(i + 1).drop_last() =~= list@.take(i as int));
                        assert(list@.take(i + 1).last() == list@[i as int]);
                    }
                    i = i + 1;
                }
                assert(list@.take(list@.len() as int) =~= list@);
                HostCommandResponse::Data { data: string_bytes(response.as_str()) }
            },
            Err(e) => {
                let mut message = to_owned_string("failed to list devices: ");
                push_str(&mut message, e.as_str());
                HostCommandResponse::Error { message }
            },
        }
    }

    /// Builds the description of a device selected through its transport.
    fn selected(
        device_id: &str,
        state: DeviceState,
        transport_type: TransportType,
        name: &str,
        usb_info: Option<UsbDeviceInfo>,
    ) -> (r: HostCommandResponse)
        ensures
            r matches HostCommandResponse::TransportSelected { device_id: id, device_info } && id@ == device_id@
                && selected_info(device_info, device_id@, state, transport_type, name@, usb_info),
    {
        proof {
            reveal_strlit("1");
            reveal_strlit("unknown");
        }
        HostCommandResponse::TransportSelected {
            device_id: to_owned_string(device_id),
            device_info: AdbDeviceInfo {
                device_id: to_owned_string(device_id),
                transport_id: to_owned_string("1"),
                state,
                transport_type,
                serial_number: Some(to_owned_string(device_id)),
                product: Some(to_owned_string("unknown")),
                model: Some(to_owned_string("unknown")),
                device_name: Some(to_owned_string(name)),
                usb_info,
            },
        }
    }

    /// Answers a routed host command, given what discovery found (asked
    /// for the commands that list devices) and what the transport layer
    /// reports for a "transport:" selection.
    pub fn respond(
        &self,
        request: &HostRequest,
        devices: &Result<Vec<DeviceInfo>, String>,
        transport: &Option<TransportInfo>,
    ) -> (r: HostCommandResponse)
        ensures
            match request@ {
                HostRequestSpec::Devices { long_format } => match devices {
                    Ok(list) => r matches HostCommandResponse::Data { data } && data@ == encode_utf8(devices_text(list@, long_format)),
                    Err(e) => r matches HostCommandResponse::Error { message } && message@ == "failed to list devices: "@ + e@,
                },
                HostRequestSpec::Version => r matches HostCommandResponse::Data { data } && data@ == self.version_text(),
                HostRequestSpec::Kill => r is Kill,
                HostRequestSpec::Features => r matches HostCommandResponse::Data { data } && data@ == encode_utf8(features_text()),
                HostRequestSpec::GetState | HostRequestSpec::GetSerialno | HostRequestSpec::GetDevpath =>
                    r matches HostCommandResponse::Error { message } && message@ == "no device selected"@,
                HostRequestSpec::Transport(id) => match transport {
                    Some(info) => r matches HostCommandResponse::TransportSelected { device_id, device_info } && device_id@ == id
                        && selected_info(device_info, id, if info.is_connected { DeviceState::Online } else { DeviceState::Offline }, info.transport_type, info.display_name@, None),
                    None => r matches HostCommandResponse::Error { message } && message@ == "device '"@ + id + "' not found"@,
                },
                HostRequestSpec::TransportId(t) => match devices {
                    Err(e) => r matches HostCommandResponse::Error { message } && message@ == "transport error: "@ + e@,
                    Ok(list) => if t == "1"@ && list@.len() > 0 {
                        r matches HostCommandResponse::TransportSelected { device_id, device_info } && device_id@ == list@[0].device_id@
                            && selected_info(device_info, list@[0].device_id@, DeviceState::Online, list@[0].transport_type, list@[0].display_name@, None)
                    } else {
                        r matches HostCommandResponse::Error { message } && message@ == "transport-id '"@ + t + "' not found"@
                    },
                },
                HostRequestSpec::Serial(s) => match devices {
                    Err(e) => r matches HostCommandResponse::Error { message } && message@ == "failed to find device: "@ + e@,
                    Ok(list) => match first_match(list@, id_is(s)) {
                        Some(i) => r matches HostCommandResponse::TransportSelected { device_id, device_info } && device_id@ == list@[i].device_id@
                            && selected_info(device_info, list@[i].device_id@, DeviceState::Online, list@[i].transport_type, list@[i].display_name@, None),
                        None => r matches HostCommandResponse::Error { message } && message@ == "device with serial '"@ + s + "' not found"@,
                    },
                },
                HostRequestSpec::Usb(u) => if count_char(u, '-') != 1 {
                    r matches HostCommandResponse::Error { message } && message@ == "invalid USB identifier: "@ + u
                } else {
                    match devices {
                        Err(e) => r matches HostCommandResponse::Error { message } && message@ == "failed to find USB device: "@ + e@,
                        Ok(list) => match first_match(list@, id_has(without_char(u, '-'))) {
                            Some(i) => r matches HostCommandResponse::TransportSelected { device_id, device_info } && device_id@ == list@[i].device_id@
                                && selected_info(device_info, list@[i].device_id@, DeviceState::Online, list@[i].transport_type, list@[i].display_name@, Some(mock_usb_info())),
                            None => r matches HostCommandResponse::Error { message } && message@ == "USB device '"@ + u + "' not found"@,
                        },
                    }
                },
                HostRequestSpec::Local(n) => match devices {
                    Err(e) => r matches HostCommandResponse::Error { message } && message@ == "failed to find local device: "@ + e@,
                    Ok(list) => match first_match(list@, id_has(n)) {
                        Some(i) => r matches HostCommandResponse::TransportSelected { device_id, device_info } && device_id@ == list@[i].device_id@
                            && selected_info(device_info, list@[i].device_id@, DeviceState::Online, list@[i].transport_type, list@[i].display_name@, None),
                        None => r matches HostCommandResponse::Error { message } && message@ == "local device '"@ + n + "' not found"@,
                    },
                },
                HostRequestSpec::TrackDevices => match devices {
                    Ok(list) => r matches HostCommandResponse::Streaming { initial_data } && initial_data@ == encode_utf8(devices_text(list@, false)),
                    Err(e) => r matches HostCommandResponse::Error { message } && message@ == "failed to list devices: "@ + e@,
                },
                HostRequestSpec::Reconnect => match devices {
                    Ok(list) => r matches HostCommandResponse::Data { data } && data@ == encode_utf8("reconnected "@ + dec_chars(list@.len()) + " devices"@),
                    Err(e) => r matches HostCommandResponse::Error { message } && message@ == "reconnect failed: "@ + e@,
                },
                HostRequestSpec::ReconnectOffline => match devices {
                    Ok(list) => r matches HostCommandResponse::Data { data } && data@ == encode_utf8("reconnected "@ + dec_chars(list@.len()) + " offline devices"@),
                    Err(e) => r matches HostCommandResponse::Error { message } && message@ == "reconnect offline failed: "@ + e@,
                },
                HostRequestSpec::Unknown(c) => r matches HostCommandResponse::Error { message } && message@ == "unknown host service: "@ + c,
            },
    {
        match request {
            HostRequest::Devices { long_format } => self.handle_devices(*long_format, devices),
            HostRequest::Version => {
                let mut data: Vec<u8> = Vec::new();
                crate::hex::push_hex(&mut data, (self.server_version & 0xffff) as u64, 4);
                assert(data@ =~= self.version_text());
                HostCommandResponse::Data { data }
            },
            HostRequest::Kill => HostCommandResponse::Kill,
            HostRequest::Features => HostCommandResponse::Data {
                data: string_bytes(
                    "shell_v2,cmd,stat_v2,ls_v2,sendrecv_v2_brotli,sendrecv_v2_lz4,sendrecv_v2_zstd,sendrecv_v2_dry_run_send",
                ),
            },
            HostRequest::GetState | HostRequest::GetSerialno | HostRequest::GetDevpath => {
                HostCommandResponse::Error { message: to_owned_string("no device selected") }
            },
            HostRequest::Transport(device_id) => Self::respond_transport(device_id.as_str(), transport),
            HostRequest::TransportId(transport_id) => Self::respond_transport_id(transport_id.as_str(), devices),
            HostRequest::Serial(serial) => Self::respond_serial(serial.as_str(), devices),
            HostRequest::Usb(usb_id) => Self::respond_usb(usb_id.as_str(), devices),
            HostRequest::Local(local_name) => Self::respond_local(local_name.as_str(), devices),
            HostRequest::TrackDevices => match self.handle_devices(false, devices) {
                HostCommandResponse::Data { data } => HostCommandResponse::Streaming { initial_data: data },
                other => other,
            },
            HostRequest::Reconnect => Self::respond_count(devices, " devices", "reconnect failed: "),
            HostRequest::ReconnectOffline => Self::respond_count(devices, " offline devices", "reconnect offline failed: "),
            HostRequest::Unknown(command) => error_after("unknown host service: ", command.as_str()),
        }
    }

    fn respond_transport(device_id: &str, transport: &Option<TransportInfo>) -> (r: HostCommandResponse)
        ensures
            match transport {
                Some(info) => r matches HostCommandResponse::TransportSelected { device_id: id, device_info } && id@ == device_id@
                    && selected_info(device_info, device_id@, if info.is_connected { DeviceState::Online } else { DeviceState::Offline }, info.transport_type, info.display_name@, None),
                None => r matches HostCommandResponse::Error { message } && message@ == "device '"@ + device_id@ + "' not found"@,
            },
    {
        match transport {
            Some(info) => {
                let state = if info.is_connected {
                    DeviceState::Online
                } else {
                    DeviceState::Offline
                };
                Self::selected(device_id, state, info.transport_type, info.display_name.as_str(), None)
            },
            None => error_between("device '", device_id, "' not found"),
        }
    }

    fn respond_transport_id(t: &str, devices: &Result<Vec<DeviceInfo>, String>) -> (r: HostCommandResponse)
        ensures
            match devices {
                Err(e) => r matches HostCommandResponse::Error { message } && message@ == "transport error: "@ + e@,
                Ok(list) => if t@ == "1"@ && list@.len() > 0 {
                    r matches HostCommandResponse::TransportSelected { device_id, device_info } && device_id@ == list@[0].device_id@
                        && selected_info(device_info, list@[0].device_id@, DeviceState::Online, list@[0].transport_type, list@[0].display_name@, None)
                } else {
                    r matches HostCommandResponse::Error { message } && message@ == "transport-id '"@ + t@ + "' not found"@
                },
            },
    {
        match devices {
            Err(e) => error_after("transport error: ", e.as_str()),
            Ok(list) => {
                if str_eq(t, "1") && list.len() > 0 {
                    let device = &list[0];
                    Self::selected(device.device_id.as_str(), DeviceState::Online, device.transport_type, device.display_name.as_str(), None)
                } else {
                    error_between("transport-id '", t, "' not found")
                }
            },
        }
    }

    fn respond_serial(serial: &str, devices: &Result<Vec<DeviceInfo>, String>) -> (r: HostCommandResponse)
        ensures
            match devices {
                Err(e) => r matches HostCommandResponse::Error { message } && message@ == "failed to find device: "@ + e@,
                Ok(list) => match first_match(list@, id_is(serial@)) {
                    Some(i) => r matches HostCommandResponse::TransportSelected { device_id, device_info } && device_id@ == list@[i].device_id@
                        && selected_info(device_info, list@[i].device_id@, DeviceState::Online, list@[i].transport_type, list@[i].display_name@, None),
                    None => r matches HostCommandResponse::Error { message } && message@ == "device with serial '"@ + serial@ + "' not found"@,
                },
            },
    {
        match devices {
            Err(e) => error_after("failed to find device: ", e.as_str()),
            Ok(list) => match find_by_id(list, serial) {
                Some(i) => Self::selected(list[i].device_id.as_str(), DeviceState::Online, list[i].transport_type, list[i].display_name.as_str(), None),
                None => error_between("device with serial '", serial, "' not found"),
            },
        }
    }

    fn respond_usb(usb_id: &str, devices: &Result<Vec<DeviceInfo>, String>) -> (r: HostCommandResponse)
        ensures
            if count_char(usb_id@, '-') != 1 {
                r matches HostCommandResponse::Error { message } && message@ == "invalid USB identifier: "@ + usb_id@
            } else {
                match devices {
                    Err(e) => r matches HostCommandResponse::Error { message } && message@ == "failed to find USB device: "@ + e@,
                    Ok(list) => match first_match(list@, id_has(without_char(usb_id@, '-'))) {
                        Some(i) => r matches HostCommandResponse::TransportSelected { device_id, device_info } && device_id@ == list@[i].device_id@
                            && selected_info(device_info, list@[i].device_id@, DeviceState::Online, list@[i].transport_type, list@[i].display_name@, Some(mock_usb_info())),
                        None => r matches HostCommandResponse::Error { message } && message@ == "USB device '"@ + usb_id@ + "' not found"@,
                    },
                }
            },
    {
        let (compact, dashes) = remove_char(usb_id, '-');
        if dashes != 1 {
            return error_after("invalid USB identifier: ", usb_id);
        }
        match devices {
            Err(e) => error_after("failed to find USB device: ", e.as_str()),
            Ok(list) => match find_containing(list, compact.as_str()) {
                Some(i) => {
                    let usb = UsbDeviceInfo { bus_number: 1, device_address: 1, vendor_id: 0x18d1, product_id: 0x4ee2 };
                    Self::selected(list[i].device_id.as_str(), DeviceState::Online, list[i].transport_type, list[i].display_name.as_str(), Some(usb))
                },
                None => error_between("USB device '", usb_id, "' not found"),
            },
        }
    }

    fn respond_local(name: &str, devices: &Result<Vec<DeviceInfo>, String>) -> (r: HostCommandResponse)
        ensures
            match devices {
                Err(e) => r matches HostCommandResponse::Error { message } && message@ == "failed to find local device: "@ + e@,
                Ok(list) => match first_match(list@, id_has(name@)) {
                    Some(i) => r matches HostCommandResponse::TransportSelected { device_id, device_info } && device_id@ == list@[i].device_id@
                        && selected_info(device_info, list@[i].device_id@, DeviceState::Online, list@[i].transport_type, list@[i].display_name@, None),
                    None => r matches HostCommandResponse::Error { message } && message@ == "local device '"@ + name@ + "' not found"@,
                },
            },
    {
        match devices {
            Err(e) => error_after("failed to find local device: ", e.as_str()),
            Ok(list) => match find_containing(list, name) {
                Some(i) => Self::selected(list[i].device_id.as_str(), DeviceState::Online, list[i].transport_type, list[i].display_name.as_str(), None),
                None => error_between("local device '", name, "' not found"),
            },
        }
    }

    fn respond_count(devices: &Result<Vec<DeviceInfo>, String>, suffix: &str, failure: &str) -> (r: HostCommandResponse)
        ensures
            match devices {
                Ok(list) => r matches HostCommandResponse::Data { data } && data@ == encode_utf8("reconnected "@ + dec_chars(list@.len()) + suffix@),
                Err(e) => r matches HostCommandResponse::Error { message } && message@ == failure@ + e@,
            },
    {
        match devices {
            Ok(list) => {
                let mut text = to_owned_string("reconnected ");
                push_dec_str(&mut text, list.len() as u64);
                push_str(&mut text, suffix);
                HostCommandResponse::Data { data: string_bytes(text.as_str()) }
            },
            Err(e) => error_after(failure, e.as_str()),
        }
    }
}

/// An error response whose message is `prefix` followed by `detail`.
fn error_after(prefix: &str, detail: &str) -> (r: HostCommandResponse)
    ensures
        r matches HostCommandResponse::Error { message } && message@ == prefix@ + detail@,
{
    let mut message = to_owned_string(prefix);
    push_str(&mut message, detail);
    HostCommandResponse::Error { message }
}

/// An error response whose message is `prefix`, `detail` and `suffix` in turn.
fn error_between(prefix: &str, detail: &str, suffix: &str) -> (r: HostCommandResponse)
    ensures
        r matches HostCommandResponse::Error { message } && message@ == prefix@ + detail@ + suffix@,
{
    let mut message = to_owned_string(prefix);
    push_str(&mut message, detail);
    push_str(&mut message, suffix);
    HostCommandResponse::Error { message }
}

/// The index of the first device whose id is `id`.
fn find_by_id(list: &Vec<DeviceInfo>, id: &str) -> (r: Option<usize>)
    ensures
        match r {
            Some(i) => first_match(list@, id_is(id@)) == Some(i as int) && i < list@.len(),
            None => first_match(list@, id_is(id@)) is None,
        },
{
    let mut i: usize = 0;
    while i < list.len()
        invariant
            i <= list@.len(),
            forall|j: int| 0 <= j < i ==> !id_is(id@)(#[trigger] list@[j]),
        decreases list@.len() - i,
    {
        if str_eq(list[i].device_id.as_str(), id) {
            proof {
                lemma_first_match_at(list@, id_is(id@), i as int);
            }
            return Some(i);
        }
        i = i + 1;
    }
    proof {
        lemma_first_match_none(list@, id_is(id@));
    }
    None
}

/// The index of the first device whose id contains `part`.
fn find_containing(list: &Vec<DeviceInfo>, part: &str) -> (r: Option<usize>)
    ensures
        match r {
            Some(i) => first_match(list@, id_has(part@)) == Some(i as int) && i < list@.len(),
            None => first_match(list@, id_has(part@)) is None,
        },
{
    let mut i: usize = 0;
    while i < list.len()
        invariant
            i <= list@.len(),
            forall|j: int| 0 <= j < i ==> !id_has(part@)(#[trigger] list@[j]),
        decreases list@.len() - i,
    {
        if contains_str(list[i].device_id.as_str(), part) {
            proof {
                lemma_first_match_at(list@, id_has(part@), i as int);
            }
            return Some(i);
        }
        i = i + 1;
    }
    proof {
        lemma_first_match_none(list@, id_has(part@));
    }
    None
}

proof fn lemma_first_match_at(devices: Seq<DeviceInfo>, pred: spec_fn(DeviceInfo) -> bool, i: int)
    requires
        0 <= i < devices.len(),
        pred(devices[i]),
        forall|j: int| 0 <= j < i ==> !pred(#[trigger] devices[j]),
    ensures
        first_match(devices, pred) == Some(i),
{
    assert(exists|k: int| 0 <= k < devices.len() && pred(#[trigger] devices[k]));
    let c = choose|k: int| 0 <= k < devices.len() && pred(#[trigger] devices[k]) && forall|j: int| 0 <= j < k ==> !pred(#[trigger] devices[j]);
    assert(0 <= i < devices.len() && pred(devices[i]) && forall|j: int| 0 <= j < i ==> !pred(#[trigger] devices[j]));
    if c < i {
        assert(!pred(devices[c]));
    } else if c > i {
        assert(!pred(devices[i]));
    }
}

proof fn lemma_first_match_none(devices: Seq<DeviceInfo>, pred: spec_fn(DeviceInfo) -> bool)
    requires
        forall|j: int| 0 <= j < devices.len() ==> !pred(#[trigger] devices[j]),
    ensures
        first_match(devices, pred) is None,
{
}

/// Device selector types.
#[derive(Debug, Clone, PartialEq)]
pub enum DeviceSelector {
    DeviceId(String),
    Serial(String),
    Usb(String),
    Local(String),
    TransportId(String),
}

pub enum DeviceSelectorSpec {
    DeviceId(Seq<char>),
    Serial(Seq<char>),
    Usb(Seq<char>),
    Local(Seq<char>),
    TransportId(Seq<char>),
}

impl View for DeviceSelector {
    type V = DeviceSelectorSpec;

    open spec fn view(&self) -> DeviceSelectorSpec {
        match self {
            DeviceSelector::DeviceId(s) => DeviceSelectorSpec::DeviceId(s@),
            DeviceSelector::Serial(s) => DeviceSelectorSpec::Serial(s@),
            DeviceSelector::Usb(s) => DeviceSelectorSpec::Usb(s@),
            DeviceSelector::Local(s) => DeviceSelectorSpec::Local(s@),
            DeviceSelector::TransportId(s) => DeviceSelectorSpec::TransportId(s@),
        }
    }
}

/// What a selector command string selects.
pub open spec fn spec_device_selector(c: Seq<char>) -> Option<DeviceSelectorSpec> {
    if has_prefix(c, "serial:"@) {
        Some(DeviceSelectorSpec::Serial(c.skip(7)))
    } else if has_prefix(c, "usb:"@) {
        Some(DeviceSelectorSpec::Usb(c.skip(4)))
    } else if has_prefix(c, "local:"@) {
        Some(DeviceSelectorSpec::Local(c.skip(6)))
    } else if has_prefix(c, "transport-id:"@) {
        Some(DeviceSelectorSpec::TransportId(c.skip(13)))
    } else if has_prefix(c, "transport:"@) {
        Some(DeviceSelectorSpec::DeviceId(c.skip(10)))
    } else {
        None
    }
}

/// Parse device selector from command.
pub fn parse_device_selector(command: &str) -> (r: Option<DeviceSelector>)
    ensures
        match (r, spec_device_selector(command@)) {
            (Some(a), Some(b)) => a@ == b,
            (None, None) => true,
            _ => false,
        },
{
    proof {
        reveal_strlit("serial:");
        reveal_strlit("usb:");
        reveal_strlit("local:");
        reveal_strlit("transport-id:");
        reveal_strlit("transport:");
    }
    if starts_with(command, "serial:") {
        Some(DeviceSelector::Serial(skip_chars(command, 7)))
    } else if starts_with(command, "usb:") {
        Some(DeviceSelector::Usb(skip_chars(command, 4)))
    } else if starts_with(command, "local:") {
        Some(DeviceSelector::Local(skip_chars(command, 6)))
    } else if starts_with(command, "transport-id:") {
        Some(DeviceSelector::TransportId(skip_chars(command, 13)))
    } else if starts_with(command, "transport:") {
        Some(DeviceSelector::DeviceId(skip_chars(command, 10)))
    } else {
        None
    }
}

/// Whether `state` is one of the device states a device list shows.
pub fn validate_device_state(state: &str) -> (r: bool)
    ensures
        r == (state@ == "device"@ || state@ == "offline"@ || state@ == "unauthorized"@ || state@
            == "bootloader"@ || state@ == "recovery"@ || state@ == "sideload"@),
{
    str_eq(state, "device") || str_eq(state, "offline") || str_eq(state, "unauthorized") || str_eq(
        state,
        "bootloader",
    ) || str_eq(state, "recovery") || str_eq(state, "sideload")
}

/// The text of an optional string, empty when absent.
pub open spec fn opt_text(o: Option<String>) -> Seq<char> {
    match o {
        Some(s) => s@,
        None => Seq::empty(),
    }
}

/// One line of the long device list.
pub open spec fn spec_device_long(d: AdbDeviceInfo) -> Seq<char> {
    d.device_id@ + "\t"@ + state_text(d.state) + "\tproduct:"@ + opt_text(d.product) + " model:"@
        + opt_text(d.model) + " device:"@ + opt_text(d.device_name) + " transport_id:"@
        + d.transport_id@
}

fn push_opt(s: &mut String, o: &Option<String>)
    ensures
        final(s)@ == old(s)@ + opt_text(*o),
{
    match o {
        Some(t) => push_str(s, t.as_str()),
        None => {
            assert(old(s)@ + Seq::<char>::empty() =~= old(s)@);
        },
    }
}

/// Format device info for long listing.
pub fn format_device_long(device: &AdbDeviceInfo) -> (r: String)
    ensures
        r@ == spec_device_long(*device),
{
    let mut s = to_owned_string(device.device_id.as_str());
    push_str(&mut s, "\t");
    push_str(&mut s, device.state.as_str());
    push_str(&mut s, "\tproduct:");
    push_opt(&mut s, &device.product);
    push_str(&mut s, " model:");
    push_opt(&mut s, &device.model);
    push_str(&mut s, " device:");
    push_opt(&mut s, &device.device_name);
    push_str(&mut s, " transport_id:");
    push_str(&mut s, device.transport_id.as_str());
    s
}

} // verus!
