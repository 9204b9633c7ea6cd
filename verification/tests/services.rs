use dbgif_protocol::protocol::host_commands::HostCommand;
use dbgif_protocol::services::host_service::{HostService, HostServiceResponse, TransportEntry};
use dbgif_protocol::transport::TransportType;

fn entry(id: &str, transport_type: TransportType, is_connected: bool) -> TransportEntry {
    TransportEntry { device_id: id.to_string(), transport_type, is_connected }
}

fn sample() -> HostService {
    HostService::new(vec![
        entry("tcp:5557", TransportType::Tcp, false),
        entry("usb-1", TransportType::UsbDevice, true),
        entry("bridge-1", TransportType::UsbBridge, true),
    ])
}

#[test]
fn host_service_test_empty_device_list() {
    let service = HostService::new(Vec::new());
    let response = service.execute_command(HostCommand::Devices).unwrap();
    match response {
        HostServiceResponse::SingleResponse(data) => assert_eq!(data, Vec::<u8>::new()),
        _ => panic!("Expected SingleResponse"),
    }
}

#[test]
fn test_select_nonexistent_device() {
    let service = HostService::new(Vec::new());
    let result = service.execute_command(HostCommand::Transport("nonexistent".to_string()));
    assert!(result.is_err());
}

#[test]
fn test_transport_any_no_devices() {
    let service = HostService::new(Vec::new());
    let result = service.execute_command(HostCommand::TransportAny);
    assert!(result.is_err());
}

#[test]
fn short_and_long_listings() {
    let service = sample();
    match service.execute_command(HostCommand::Devices).unwrap() {
        HostServiceResponse::SingleResponse(data) => assert_eq!(
            String::from_utf8(data).unwrap(),
            "tcp:5557\toffline\nusb-1\tdevice\nbridge-1\tdevice\n"
        ),
        _ => panic!("Expected SingleResponse"),
    }
    match service.execute_command(HostCommand::TrackDevices).unwrap() {
        HostServiceResponse::SingleResponse(data) => assert_eq!(
            String::from_utf8(data).unwrap(),
            "tcp:5557\toffline\nusb-1\tdevice\nbridge-1\tdevice\n"
        ),
        _ => panic!("Expected SingleResponse"),
    }
    match service.execute_command(HostCommand::DevicesLong).unwrap() {
        HostServiceResponse::SingleResponse(data) => assert_eq!(
            String::from_utf8(data).unwrap(),
            "tcp:5557\toffline\ttcp\nusb-1\tdevice\tusb\nbridge-1\tdevice\tbridge_usb\n"
        ),
        _ => panic!("Expected SingleResponse"),
    }
}

#[test]
fn select_by_id() {
    let service = sample();
    match service.execute_command(HostCommand::Transport("usb-1".to_string())).unwrap() {
        HostServiceResponse::TransportSelected(id) => assert_eq!(id, "usb-1"),
        _ => panic!("Expected TransportSelected"),
    }
    match service.execute_command(HostCommand::Transport("tcp:5557".to_string())) {
        Err(e) => assert_eq!(e, "Device tcp:5557 is offline"),
        Ok(_) => panic!("offline device selected"),
    }
    match service.execute_command(HostCommand::Transport("gone".to_string())) {
        Err(e) => assert_eq!(e, "Device gone not found"),
        Ok(_) => panic!("missing device selected"),
    }
}

#[test]
fn select_any_takes_first_connected() {
    let service = sample();
    match service.execute_command(HostCommand::TransportAny).unwrap() {
        HostServiceResponse::TransportSelected(id) => assert_eq!(id, "usb-1"),
        _ => panic!("Expected TransportSelected"),
    }
    let offline = HostService::new(vec![entry("a", TransportType::Tcp, false)]);
    match offline.execute_command(HostCommand::TransportAny) {
        Err(e) => assert_eq!(e, "No devices available"),
        Ok(_) => panic!("offline device selected"),
    }
}
