use vstd::prelude::*;
use crate::text::{to_owned_string, push_str, push_dec_str, dec_chars};

verus! {

/// The kinds of link a device is reached over.
#[derive(Debug, Clone, Copy, PartialEq, Eq, Structural)]
pub enum TransportType {
    Tcp,
    UsbDevice,
    UsbBridge,
}

/// How to reach a device.
#[derive(Debug, Clone, PartialEq, Eq)]
pub enum ConnectionInfo {
    Tcp { host: String, port: u16 },
    UsbDevice { vid: u16, pid: u16, serial: String, path: String },
    UsbBridge { vid: u16, pid: u16, serial: String, path: String, bridge_status: String },
}

/// A device found by a transport's discovery.
#[derive(Debug, Clone, PartialEq, Eq)]
pub struct DeviceInfo {
    pub device_id: String,
    pub display_name: String,
    pub transport_type: TransportType,
    pub connection_info: ConnectionInfo,
    pub capabilities: Vec<String>,
}

/// What the transport layer reports about one device's transport.
#[derive(Debug, Clone, PartialEq, Eq)]
pub struct TransportInfo {
    pub display_name: String,
    pub is_connected: bool,
    pub transport_type: TransportType,
}


/// Where a transport listens or connects: a TCP socket address
/// ("host:port") or a USB device by vendor id, product id and, optionally,
/// serial number.
#[derive(Debug, Clone, PartialEq, Eq)]
pub enum TransportAddress {
    Tcp(String),
    Usb { vendor_id: u16, product_id: u16, serial: Option<String> },
}

/// The text of an address: "tcp://<address>", or
/// "usb://<vendor>:<product>" (in decimal) followed by ":<serial>" when
/// there is a serial number.
pub open spec fn address_text(a: TransportAddress) -> Seq<char> {
    match a {
        TransportAddress::Tcp(s) => "tcp://"@ + s@,
        TransportAddress::Usb { vendor_id, product_id, serial } => {
            let base = "usb://"@ + dec_chars(vendor_id as nat) + ":"@ + dec_chars(product_id as nat);
            match serial {
                Some(x) => base + ":"@ + x@,
                None => base,
            }
        },
    }
}

impl TransportAddress {
    /// The address as text, as `address_text` gives it.
    pub fn to_string(&self) -> (r: String)
        ensures
            r@ == address_text(*self),
    {
        match self {
            TransportAddress::Tcp(s) => {
                let mut t = to_owned_string("tcp://");
                push_str(&mut t, s.as_str());
                t
            },
            TransportAddress::Usb { vendor_id, product_id, serial } => {
                let mut t = to_owned_string("usb://");
                push_dec_str(&mut t, *vendor_id as u64);
                push_str(&mut t, ":");
                push_dec_str(&mut t, *product_id as u64);
                match serial {
                    Some(x) => {
                        push_str(&mut t, ":");
                        push_str(&mut t, x.as_str());
                    },
                    None => {},
                }
                t
            },
        }
    }
}


/// The id a USB device goes by: its serial number when it has one that can
/// be read, else "<bus>:<address>".
pub open spec fn spec_usb_device_id(serial: Option<Seq<char>>, bus: u8, address: u8) -> Seq<char> {
    match serial {
        Some(s) => s,
        None => dec_chars(bus as nat) + ":"@ + dec_chars(address as nat),
    }
}

/// The id a USB device goes by, as `spec_usb_device_id` gives it.
pub fn usb_device_id(serial: Option<&str>, bus: u8, address: u8) -> (r: String)
    ensures
        r@ == spec_usb_device_id(match serial { Some(s) => Some(s@), None => None }, bus, address),
{
    match serial {
        Some(s) => to_owned_string(s),
        None => {
            let mut t = to_owned_string("");
            proof {
                reveal_strlit("");
            }
            push_dec_str(&mut t, bus as u64);
            push_str(&mut t, ":");
            push_dec_str(&mut t, address as u64);
            t
        },
    }
}

} // verus!
