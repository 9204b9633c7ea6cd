use dbgif_protocol::config::{parse_device_ports, DaemonConfig, EnvOverrides, SocketAddress};

#[test]
fn test_default_config() {
    let config = DaemonConfig::default();
    assert!(config.validate().is_ok());
    assert_eq!(config.server.bind_address.port(), 5037);
    assert!(!config.session.auth.enabled);
}

#[test]
fn test_development_config() {
    let config = DaemonConfig::development();
    assert!(config.validate().is_ok());
    assert_eq!(config.logging.level, "debug");
    assert!(config.logging.enable_file);
}

#[test]
fn test_production_config() {
    let config = DaemonConfig::production();
    assert!(config.validate().is_ok());
    assert_eq!(config.logging.level, "info");
    assert!(!config.logging.enable_console);
    assert!(config.performance.high_priority);
}

#[test]
fn test_config_validation() {
    let mut config = DaemonConfig::default();

    // Test invalid max_connections
    config.server.max_connections = 0;
    assert!(config.validate().is_err());

    // Test no transports enabled
    config.server.max_connections = 100;
    config.transport.enable_tcp = false;
    config.transport.enable_usb_device = false;
    config.transport.enable_usb_bridge = false;
    assert!(config.validate().is_err());

    // Test invalid log level
    config.transport.enable_tcp = true;
    config.logging.level = "invalid".to_string();
    assert!(config.validate().is_err());
}

fn no_overrides() -> EnvOverrides {
    EnvOverrides {
        bind_address: None,
        max_connections: None,
        log_level: None,
        log_format: None,
        enable_tcp: None,
        enable_usb_device: None,
        enable_usb_bridge: None,
    }
}

#[test]
fn test_env_overrides() {
    let mut env = no_overrides();
    env.log_level = Some("trace".to_string());
    env.max_connections = Some("42".to_string());
    env.enable_tcp = Some("false".to_string());

    let mut config = DaemonConfig::default();
    config.apply_env_overrides(env);

    assert_eq!(config.logging.level, "trace");
    assert_eq!(config.server.max_connections, 42);
    assert!(!config.transport.enable_tcp);
}

#[test]
fn env_overrides_ignore_unparsable_numbers_and_keep_other_flags_on() {
    let mut env = no_overrides();
    env.max_connections = Some("many".to_string());
    env.enable_usb_device = Some("yes".to_string());
    env.bind_address = Some(SocketAddress { host: "0.0.0.0".to_string(), port: 6000 });

    let mut config = DaemonConfig::default();
    config.transport.enable_usb_device = false;
    config.apply_env_overrides(env);

    assert_eq!(config.server.max_connections, 100);
    assert!(config.transport.enable_usb_device);
    assert_eq!(config.server.bind_address.port(), 6000);
    assert_eq!(config.server.bind_address.host, "0.0.0.0");
}

#[test]
fn env_overrides_accept_a_leading_plus() {
    let mut env = no_overrides();
    env.max_connections = Some("+7".to_string());
    let mut config = DaemonConfig::default();
    config.apply_env_overrides(env);
    assert_eq!(config.server.max_connections, 7);
}

#[test]
fn config_validation_reports_each_rule() {
    let mut config = DaemonConfig::default();
    config.performance.thread_stack_size_kb = 100;
    assert_eq!(
        config.validate(),
        Err("thread_stack_size_kb must be at least 512KB".to_string())
    );
}

#[test]
fn device_ports_default_list() {
    assert_eq!(parse_device_ports("5557,5558,5559"), vec![5557u16, 5558, 5559]);
}

#[test]
fn device_ports_pass_over_bad_pieces() {
    assert_eq!(parse_device_ports(" 5557 , abc,,70000,+80"), vec![5557u16, 80]);
    assert_eq!(parse_device_ports(""), Vec::<u16>::new());
    assert_eq!(parse_device_ports("\u{a0}42\t,\u{3000}7\u{2028}"), vec![42u16, 7]);
}
