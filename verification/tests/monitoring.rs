use dbgif_protocol::protocol::error::ProtocolError;
use dbgif_protocol::server::heartbeat::{ConnectionStatus, HeartbeatConfig, HeartbeatManager};
use dbgif_protocol::server::limits::{ConnectionLimiter, RateLimitError, RateLimits};

#[test]
fn test_heartbeat_manager_creation() {
    let manager = HeartbeatManager::new(HeartbeatConfig::default());
    assert!(manager.sessions.is_empty());
}

#[test]
fn test_add_remove_session() {
    let mut manager = HeartbeatManager::new(HeartbeatConfig::default());
    manager.add_session("test-session", 0);
    assert_eq!(manager.sessions.len(), 1);
    assert_eq!(manager.sessions[0].session_id, "test-session");

    manager.remove_session("test-session");
    assert!(manager.sessions.is_empty());
}

#[test]
fn test_ping_pong_flow() {
    let mut manager = HeartbeatManager::new(HeartbeatConfig::default());
    manager.add_session("test-session", 0);

    // the healthy session is due a ping
    assert_eq!(manager.sessions_to_ping(), vec!["test-session".to_string()]);
    manager.record_ping("test-session", 100, None).unwrap();

    let status = manager.get_session_status("test-session").unwrap();
    assert!(matches!(status, ConnectionStatus::PingPending { sent_at_ms: 100 }));
    assert!(manager.sessions_to_ping().is_empty());

    manager.handle_pong("test-session", 150);
    assert_eq!(manager.get_session_status("test-session"), Some(&ConnectionStatus::Healthy));

    let s = &manager.sessions[0];
    assert_eq!(s.pings_sent, 1);
    assert_eq!(s.pongs_received, 1);
    assert_eq!(s.last_pong_received_ms, Some(150));
}

#[test]
fn ping_to_unknown_session_is_refused() {
    let mut manager = HeartbeatManager::new(HeartbeatConfig::default());
    match manager.record_ping("ghost", 0, None) {
        Err(ProtocolError::SessionNotFound { session_id }) => assert_eq!(session_id, "ghost"),
        other => panic!("unexpected {:?}", other),
    }
}

#[test]
fn undeliverable_ping_kills_the_session() {
    let mut manager = HeartbeatManager::new(HeartbeatConfig::default());
    manager.add_session("s", 0);
    assert_eq!(manager.record_ping("s", 5, Some("broken pipe".to_string())), Err(ProtocolError::ConnectionClosed));
    assert_eq!(
        manager.get_session_status("s"),
        Some(&ConnectionStatus::Dead { reason: "Failed to send ping: broken pipe".to_string() })
    );
    // dead sessions go at the next check
    manager.check_connection_health(6);
    assert!(manager.get_session_status("s").is_none());
}

#[test]
fn missed_pongs_degrade_then_remove() {
    let mut config = HeartbeatConfig::default();
    config.max_missed_pongs = 2;
    config.pong_timeout_ms = 10;
    let mut manager = HeartbeatManager::new(config);
    manager.add_session("s", 0);

    manager.record_ping("s", 0, None).unwrap();
    // not yet past the timeout
    manager.check_connection_health(10);
    assert!(matches!(manager.get_session_status("s"), Some(ConnectionStatus::PingPending { .. })));
    manager.check_connection_health(11);
    assert_eq!(manager.get_session_status("s"), Some(&ConnectionStatus::Degraded { missed_count: 1 }));
    assert_eq!(manager.sessions[0].timeouts, 1);

    manager.record_ping("s", 20, None).unwrap();
    manager.check_connection_health(31);
    assert!(manager.get_session_status("s").is_none());
}

#[test]
fn test_connection_status_transitions() {
    let status = ConnectionStatus::Healthy;
    assert_eq!(status, ConnectionStatus::Healthy);

    let ping_status = ConnectionStatus::PingPending { sent_at_ms: 0 };
    assert!(matches!(ping_status, ConnectionStatus::PingPending { .. }));

    let degraded_status = ConnectionStatus::Degraded { missed_count: 1 };
    assert!(matches!(degraded_status, ConnectionStatus::Degraded { missed_count: 1 }));

    let dead_status = ConnectionStatus::Dead { reason: "timeout".to_string() };
    assert!(matches!(dead_status, ConnectionStatus::Dead { .. }));
}

#[test]
fn test_connection_limit() {
    let mut limiter = ConnectionLimiter::new(2, RateLimits::default(), 0);

    assert!(limiter.try_acquire(0, false).is_ok());
    assert!(limiter.try_acquire(0, false).is_ok());

    // Third should fail
    assert_eq!(
        limiter.try_acquire(0, false),
        Err(RateLimitError::ConnectionLimitExceeded { current: 2, max: 2 })
    );

    limiter.release();

    // Now should succeed again
    assert!(limiter.try_acquire(0, false).is_ok());
}

#[test]
fn test_rate_limit_reset() {
    let mut limits = RateLimits::default();
    limits.max_connections_per_second = 1;
    let mut limiter = ConnectionLimiter::new(100, limits, 0);

    assert!(limiter.try_acquire(0, false).is_ok());

    // Second connection within the same second fails on the rate limit
    match limiter.try_acquire(500, false) {
        Err(RateLimitError::RateLimitExceeded { rate, window }) => {
            assert_eq!(rate, 1);
            assert_eq!(window, "second");
        }
        other => panic!("unexpected {:?}", other),
    }

    // A second later the bucket has refilled
    assert!(limiter.try_acquire(1100, false).is_ok());
}

#[test]
fn test_connection_stats() {
    let mut limiter = ConnectionLimiter::new(10, RateLimits::default(), 0);

    assert_eq!(limiter.stats.active_connections, 0);
    assert_eq!(limiter.stats.total_attempts, 0);

    limiter.try_acquire(0, false).unwrap();

    assert_eq!(limiter.stats.active_connections, 1);
    assert_eq!(limiter.stats.total_attempts, 1);
    assert_eq!(limiter.stats.successful_connections, 1);
    assert_eq!(limiter.available_permits(), 9);
}

#[test]
fn test_backpressure_threshold() {
    let mut limiter = ConnectionLimiter::new(4, RateLimits::default(), 0);
    assert!(limiter.try_acquire(0, false).is_ok());
    assert!(limiter.try_acquire(0, false).is_ok());
    // the caller found the load at the threshold
    assert_eq!(limiter.try_acquire(0, true), Err(RateLimitError::BackpressureActive));
    assert_eq!(limiter.stats.active_connections, 2);
    assert_eq!(limiter.stats.total_attempts, 3);
}

#[test]
fn minute_bucket_limits_too() {
    let mut limits = RateLimits::default();
    limits.max_connections_per_minute = 2;
    let mut limiter = ConnectionLimiter::new(100, limits, 0);
    assert!(limiter.try_acquire(0, false).is_ok());
    assert!(limiter.try_acquire(1000, false).is_ok());
    match limiter.try_acquire(2000, false) {
        Err(RateLimitError::RateLimitExceeded { rate, window }) => {
            assert_eq!(rate, 2);
            assert_eq!(window, "minute");
        }
        other => panic!("unexpected {:?}", other),
    }
}

#[test]
fn emergency_close_drops_held_connections() {
    let mut limiter = ConnectionLimiter::new(5, RateLimits::default(), 0);
    assert_eq!(limiter.emergency_close(3), 0);
    limiter.try_acquire(0, false).unwrap();
    limiter.try_acquire(0, false).unwrap();
    assert_eq!(limiter.emergency_close(1), 1);
    assert_eq!(limiter.stats.active_connections, 1);
    assert_eq!(limiter.emergency_close(5), 5);
    assert_eq!(limiter.stats.active_connections, 0);
}
