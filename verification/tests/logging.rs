use dbgif_protocol::logging::{parse_log_level, LogLevel, LogFormat, LogOutput, LoggingBuilder, LoggingConfig, LoggingError};

#[test]
fn test_log_level_parsing() {
    assert_eq!(parse_log_level("error").unwrap(), LogLevel::Error);
    assert_eq!(parse_log_level("ERROR").unwrap(), LogLevel::Error);
    assert_eq!(parse_log_level("warn").unwrap(), LogLevel::Warn);
    assert_eq!(parse_log_level("warning").unwrap(), LogLevel::Warn);
    assert_eq!(parse_log_level("info").unwrap(), LogLevel::Info);
    assert_eq!(parse_log_level("debug").unwrap(), LogLevel::Debug);
    assert_eq!(parse_log_level("trace").unwrap(), LogLevel::Trace);
    assert!(parse_log_level("invalid").is_err());
}

#[test]
fn test_invalid_level_message() {
    match parse_log_level("loud") {
        Err(LoggingError::InvalidLevel { message }) => assert_eq!(
            message,
            "Invalid log level 'loud', must be one of: error, warn, info, debug, trace"
        ),
        _ => panic!("Expected InvalidLevel"),
    }
}

#[test]
fn test_logging_builder() {
    let builder = LoggingBuilder::new()
        .level(LogLevel::Debug)
        .format(LogFormat::Compact)
        .include_thread_ids(true);
    assert_eq!(builder.level, LogLevel::Debug);
    assert_eq!(builder.format, LogFormat::Compact);
    assert!(builder.include_thread_ids);
}

#[test]
fn test_config_parsing() {
    let config = LoggingConfig {
        level: "debug".to_string(),
        json_format: true,
        colored_output: false,
        include_thread_ids: true,
        include_line_numbers: true,
        log_file: Some("/tmp/test.log".to_string()),
        log_file_max_size_mb: Some(50),
        log_file_max_count: Some(5),
    };
    let builder = LoggingBuilder::from_config(&config).unwrap();
    assert_eq!(builder.level, LogLevel::Debug);
    assert_eq!(builder.format, LogFormat::Compact);
    assert!(!builder.colored_output);
    assert!(builder.include_thread_ids);
    assert!(builder.include_line_numbers);
    assert_eq!(builder.output, LogOutput::File("/tmp/test.log".to_string()));
    assert_eq!(builder.log_file, Some("/tmp/test.log".to_string()));
}

#[test]
fn test_log_format_variants() {
    assert_eq!(LogFormat::Pretty, LogFormat::Pretty);
    assert_eq!(LogFormat::Compact, LogFormat::Compact);
    assert_ne!(LogFormat::Pretty, LogFormat::Compact);
}

#[test]
fn test_logging_error_types() {
    let error = LoggingError::InvalidLevel { message: "test error".to_string() };
    assert!(error.to_string().contains("Log level parse error"));
    let io_error = LoggingError::Io(std::io::Error::new(std::io::ErrorKind::NotFound, "test"));
    assert!(io_error.to_string().contains("IO error"));
}

#[test]
fn test_default_builder() {
    let b = LoggingBuilder::default();
    assert_eq!(b.level, LogLevel::Info);
    assert_eq!(b.format, LogFormat::Pretty);
    assert_eq!(b.output, LogOutput::Stdout);
    assert!(b.include_target);
    assert!(b.colored_output);
    assert!(!b.include_thread_ids);
    let t = LoggingBuilder::for_tests();
    assert_eq!(t.level, LogLevel::Debug);
    assert_eq!(t.output, LogOutput::Stderr);
    assert!(!t.colored_output);
}
