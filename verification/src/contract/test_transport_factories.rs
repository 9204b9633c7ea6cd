use vstd::prelude::*;
use crate::transport::{DeviceInfo, ConnectionInfo, TransportType};
use crate::text::to_owned_string;

verus! {

/// Finds devices over TCP (a fixed device for tests).
#[derive(Debug)]
pub struct TcpTransportFactory {
    pub scan_ports: Vec<u16>,
    pub scan_subnets: Vec<String>,
    /// Connection timeout in milliseconds.
    pub connection_timeout_ms: u64,
}

impl TcpTransportFactory {
    /// Port 5555 on 127.0.0.1, 5 s timeout.
    pub fn new() -> (r: Self)
        ensures
            r.scan_ports@ == seq![5555u16],
            r.scan_subnets@.len() == 1 && r.scan_subnets@[0]@ == "127.0.0.1"@,
            r.connection_timeout_ms == 5_000,
    {
        let mut subnets: Vec<String> = Vec::new();
        subnets.push(to_owned_string("127.0.0.1"));
        let ports: Vec<u16> = vec![5555];
        assert(ports@ =~= seq![5555u16]);
        TcpTransportFactory { scan_ports: ports, scan_subnets: subnets, connection_timeout_ms: 5_000 }
    }

    /// The given ports, subnets and timeout.
    pub fn with_config(ports: Vec<u16>, subnets: Vec<String>, timeout_ms: u64) -> (r: Self)
        ensures
            r.scan_ports == ports,
            r.scan_subnets == subnets,
            r.connection_timeout_ms == timeout_ms,
    {
        TcpTransportFactory { scan_ports: ports, scan_subnets: subnets, connection_timeout_ms: timeout_ms }
    }

    /// The devices found: one TCP device at 127.0.0.1:5555.
    pub fn discover_devices(&self) -> (r: Vec<DeviceInfo>)
        ensures
            r@.len() == 1,
            r@[0].device_id@ == "tcp:127.0.0.1:5555"@,
            r@[0].display_name@ == "Mock TCP Device"@,
            r@[0].transport_type == TransportType::Tcp,
            r@[0].connection_info matches ConnectionInfo::Tcp { host, port } && host@ == "127.0.0.1"@ && port == 5555,
            r@[0].capabilities@.len() == 1 && r@[0].capabilities@[0]@ == "tcp"@,
    {
        let mut caps: Vec<String> = Vec::new();
        caps.push(to_owned_string("tcp"));
        let mut out: Vec<DeviceInfo> = Vec::new();
        out.push(DeviceInfo {
            device_id: to_owned_string("tcp:127.0.0.1:5555"),
            display_name: to_owned_string("Mock TCP Device"),
            transport_type: TransportType::Tcp,
            connection_info: ConnectionInfo::Tcp { host: to_owned_string("127.0.0.1"), port: 5555 },
            capabilities: caps,
        });
        out
    }

    /// TCP.
    pub fn transport_type(&self) -> (r: TransportType)
        ensures
            r == TransportType::Tcp,
    {
        TransportType::Tcp
    }

    /// The factory's name.
    pub fn factory_name(&self) -> (r: String)
        ensures
            r@ == "TCP Transport Factory"@,
    {
        to_owned_string("TCP Transport Factory")
    }

    /// Always available.
    pub fn is_available(&self) -> (r: bool)
        ensures
            r,
    {
        true
    }
}

/// Finds Android devices on USB (a fixed device for tests).
#[derive(Debug)]
pub struct UsbDeviceTransportFactory {
    /// Vendor and product ids looked for.
    pub android_vid_pids: Vec<(u16, u16)>,
    /// Scan interval in milliseconds.
    pub scan_interval_ms: u64,
}

impl UsbDeviceTransportFactory {
    /// Google's id only, scanning every second.
    pub fn new() -> (r: Self)
        ensures
            r.android_vid_pids@ == seq![(0x18d1u16, 0x4ee7u16)],
            r.scan_interval_ms == 1_000,
    {
        let ids: Vec<(u16, u16)> = vec![(0x18d1, 0x4ee7)];
        assert(ids@ =~= seq![(0x18d1u16, 0x4ee7u16)]);
        UsbDeviceTransportFactory { android_vid_pids: ids, scan_interval_ms: 1_000 }
    }

    /// The ids of Google, Samsung, HTC, Motorola and Sony devices, scanning
    /// every second.
    pub fn with_default_android_devices() -> (r: Self)
        ensures
            r.android_vid_pids@ == seq![
                (0x18d1u16, 0x4ee7u16),
                (0x04e8u16, 0x6860u16),
                (0x0bb4u16, 0x0c02u16),
                (0x22b8u16, 0x2e76u16),
                (0x0fceu16, 0x0ddeu16),
            ],
            r.scan_interval_ms == 1_000,
    {
        let ids: Vec<(u16, u16)> = vec![(0x18d1, 0x4ee7), (0x04e8, 0x6860), (0x0bb4, 0x0c02), (0x22b8, 0x2e76), (0x0fce, 0x0dde)];
        assert(ids@ =~= seq![
            (0x18d1u16, 0x4ee7u16),
            (0x04e8u16, 0x6860u16),
            (0x0bb4u16, 0x0c02u16),
            (0x22b8u16, 0x2e76u16),
            (0x0fceu16, 0x0ddeu16),
        ]);
        UsbDeviceTransportFactory { android_vid_pids: ids, scan_interval_ms: 1_000 }
    }

    /// The devices found: one Android device.
    pub fn discover_devices(&self) -> (r: Vec<DeviceInfo>)
        ensures
            r@.len() == 1,
            r@[0].device_id@ == "usb:18d1:4ee7"@,
            r@[0].display_name@ == "Mock Android Device"@,
            r@[0].transport_type == TransportType::UsbDevice,
            r@[0].connection_info matches ConnectionInfo::UsbDevice { vid, pid, serial, path }
                && vid == 0x18d1 && pid == 0x4ee7 && serial@ == "mock_serial_123"@ && path@ == "/dev/bus/usb/001/002"@,
            r@[0].capabilities@.len() == 2 && r@[0].capabilities@[0]@ == "android"@ && r@[0].capabilities@[1]@ == "adb"@,
    {
        let mut caps: Vec<String> = Vec::new();
        caps.push(to_owned_string("android"));
        caps.push(to_owned_string("adb"));
        let mut out: Vec<DeviceInfo> = Vec::new();
        out.push(DeviceInfo {
            device_id: to_owned_string("usb:18d1:4ee7"),
            display_name: to_owned_string("Mock Android Device"),
            transport_type: TransportType::UsbDevice,
            connection_info: ConnectionInfo::UsbDevice {
                vid: 0x18d1,
                pid: 0x4ee7,
                serial: to_owned_string("mock_serial_123"),
                path: to_owned_string("/dev/bus/usb/001/002"),
            },
            capabilities: caps,
        });
        out
    }

    /// USB device.
    pub fn transport_type(&self) -> (r: TransportType)
        ensures
            r == TransportType::UsbDevice,
    {
        TransportType::UsbDevice
    }

    /// The factory's name.
    pub fn factory_name(&self) -> (r: String)
        ensures
            r@ == "USB Device Transport Factory"@,
    {
        to_owned_string("USB Device Transport Factory")
    }

    /// Always available.
    pub fn is_available(&self) -> (r: bool)
        ensures
            r,
    {
        true
    }
}

/// Finds PL25A1 USB bridges (a fixed device for tests).
#[derive(Debug)]
pub struct UsbBridgeTransportFactory {
    pub target_vid: u16,
    pub target_pid: u16,
    /// Scan interval in milliseconds.
    pub scan_interval_ms: u64,
}

impl UsbBridgeTransportFactory {
    /// The PL25A1 (067b:25a1), scanning every 2 s.
    pub fn new() -> (r: Self)
        ensures
            r.target_vid == 0x067b,
            r.target_pid == 0x25a1,
            r.scan_interval_ms == 2_000,
    {
        UsbBridgeTransportFactory { target_vid: 0x067b, target_pid: 0x25a1, scan_interval_ms: 2_000 }
    }

    /// The PL25A1, scanning at the given interval.
    pub fn with_config(scan_interval_ms: u64) -> (r: Self)
        ensures
            r.target_vid == 0x067b,
            r.target_pid == 0x25a1,
            r.scan_interval_ms == scan_interval_ms,
    {
        UsbBridgeTransportFactory { target_vid: 0x067b, target_pid: 0x25a1, scan_interval_ms }
    }

    /// The devices found: one connected bridge.
    pub fn discover_devices(&self) -> (r: Vec<DeviceInfo>)
        ensures
            r@.len() == 1,
            r@[0].device_id@ == "usb_bridge:067b:25a1"@,
            r@[0].display_name@ == "Mock PL25A1 USB Bridge"@,
            r@[0].transport_type == TransportType::UsbBridge,
            r@[0].connection_info matches ConnectionInfo::UsbBridge { vid, pid, serial, path, bridge_status }
                && vid == 0x067b && pid == 0x25a1 && serial@ == "mock_pl25a1_serial"@
                && path@ == "/dev/bus/usb/001/004"@ && bridge_status@ == "connected"@,
            r@[0].capabilities@.len() == 2 && r@[0].capabilities@[0]@ == "usb_bridge"@ && r@[0].capabilities@[1]@ == "host_to_host"@,
    {
        let mut caps: Vec<String> = Vec::new();
        caps.push(to_owned_string("usb_bridge"));
        caps.push(to_owned_string("host_to_host"));
        let mut out: Vec<DeviceInfo> = Vec::new();
        out.push(DeviceInfo {
            device_id: to_owned_string("usb_bridge:067b:25a1"),
            display_name: to_owned_string("Mock PL25A1 USB Bridge"),
            transport_type: TransportType::UsbBridge,
            connection_info: ConnectionInfo::UsbBridge {
                vid: 0x067b,
                pid: 0x25a1,
                serial: to_owned_string("mock_pl25a1_serial"),
                path: to_owned_string("/dev/bus/usb/001/004"),
                bridge_status: to_owned_string("connected"),
            },
            capabilities: caps,
        });
        out
    }

    /// USB bridge.
    pub fn transport_type(&self) -> (r: TransportType)
        ensures
            r == TransportType::UsbBridge,
    {
        TransportType::UsbBridge
    }

    /// The factory's name.
    pub fn factory_name(&self) -> (r: String)
        ensures
            r@ == "USB Bridge Transport Factory"@,
    {
        to_owned_string("USB Bridge Transport Factory")
    }

    /// Always available.
    pub fn is_available(&self) -> (r: bool)
        ensures
            r,
    {
        true
    }
}

} // verus!
