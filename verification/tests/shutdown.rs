use std::sync::atomic::{AtomicBool, AtomicUsize, Ordering};
use std::sync::Arc;
use std::time::Duration;

use dbgif_protocol::server::shutdown::{
    components_outcome, next_phase, ComponentShutdown, ShutdownCoordinator, ShutdownError, ShutdownPhase,
};
use dbgif_protocol::shutdown::{
    needs_force, shutdown_order, shutdown_outcome, ClosureComponent, ShutdownComponent, ShutdownManager, ShutdownReason,
    ShutdownSignal, StageOutcome,
};

#[test]
fn test_shutdown_manager_creation() {
    let manager: ShutdownManager<Box<dyn ShutdownComponent>> =
        ShutdownManager::new(Duration::from_secs(5), Duration::from_secs(1));

    assert!(!manager.is_shutting_down());
    assert!(manager.shutdown_reason().is_none());
    assert_eq!(manager.graceful_timeout(), Duration::from_secs(5));
    assert_eq!(manager.force_timeout(), Duration::from_secs(1));
}

#[test]
fn manager_component_registration() {
    let mut manager: ShutdownManager<Box<dyn ShutdownComponent>> =
        ShutdownManager::new(Duration::from_secs(5), Duration::from_secs(1));

    let component = ClosureComponent::new("test", || Ok(()));
    manager.register_component(Box::new(component));
}

#[test]
fn test_graceful_shutdown() {
    let mut manager: ShutdownManager<Box<dyn ShutdownComponent>> =
        ShutdownManager::new(Duration::from_secs(1), Duration::from_millis(500));

    let shutdown_called = Arc::new(AtomicBool::new(false));
    let shutdown_called_clone = Arc::clone(&shutdown_called);

    let component = ClosureComponent::new("test", move || {
        shutdown_called_clone.store(true, Ordering::SeqCst);
        Ok(())
    });

    manager.register_component(Box::new(component));

    let result = manager.shutdown(ShutdownReason::UserRequested);
    assert!(result.is_ok());

    assert!(shutdown_called.load(Ordering::SeqCst));
    assert!(manager.is_shutting_down());

    let reason = manager.shutdown_reason();
    assert_eq!(reason, Some(ShutdownReason::UserRequested));
}

#[test]
fn components_shut_down_last_registered_first_and_once() {
    let mut manager: ShutdownManager<Box<dyn ShutdownComponent>> =
        ShutdownManager::new(Duration::from_secs(1), Duration::from_millis(500));
    let log = Arc::new(std::sync::Mutex::new(Vec::new()));
    for name in ["first", "second", "third"] {
        let log = Arc::clone(&log);
        manager.register_component(Box::new(ClosureComponent::new(name, move || {
            log.lock().unwrap().push(name);
            Err("failing does not stop the others".to_string())
        })));
    }
    assert!(manager.shutdown(ShutdownReason::AdminCommand).is_ok());
    assert_eq!(*log.lock().unwrap(), vec!["third", "second", "first"]);
    // a second shutdown does nothing and keeps the first reason
    assert!(manager.shutdown(ShutdownReason::ConfigReload).is_ok());
    assert_eq!(log.lock().unwrap().len(), 3);
    assert_eq!(manager.shutdown_reason(), Some(ShutdownReason::AdminCommand));
}

#[test]
fn test_shutdown_signal() {
    let signal = ShutdownSignal::new(ShutdownReason::UserRequested, Duration::from_secs(5));

    assert_eq!(signal.reason, ShutdownReason::UserRequested);
    assert_eq!(signal.graceful_timeout, Duration::from_secs(5));
}

#[test]
fn test_shutdown_reason_display() {
    let reasons = vec![
        ShutdownReason::UserRequested,
        ShutdownReason::SystemSignal("SIGTERM".to_string()),
        ShutdownReason::ApplicationError("test error".to_string()),
        ShutdownReason::ConfigReload,
        ShutdownReason::AdminCommand,
        ShutdownReason::ResourceExhaustion("memory".to_string()),
        ShutdownReason::InternalError("internal".to_string()),
    ];

    for reason in reasons {
        let display = reason.to_string();
        assert!(!display.is_empty());
    }
    assert_eq!(ShutdownReason::SystemSignal("SIGTERM".to_string()).to_string(), "System signal: SIGTERM");
    assert_eq!(ShutdownReason::UserRequested.to_string(), "User requested");
}

#[test]
fn test_closure_component() {
    let called = Arc::new(AtomicBool::new(false));
    let called_clone = Arc::clone(&called);

    let component = ClosureComponent::new("test", move || {
        called_clone.store(true, Ordering::SeqCst);
        Ok(())
    });

    assert_eq!(component.name(), "test");

    let result = component.shutdown();
    assert!(result.is_ok());
    assert!(called.load(Ordering::SeqCst));
}

#[test]
fn forced_shutdown_uses_its_own_closure_or_falls_back() {
    let graceful = Arc::new(AtomicUsize::new(0));
    let forced = Arc::new(AtomicUsize::new(0));
    let (g1, f1) = (Arc::clone(&graceful), Arc::clone(&forced));
    let both = ClosureComponent::with_force_shutdown(
        "both",
        move || {
            g1.fetch_add(1, Ordering::SeqCst);
            Ok(())
        },
        move || {
            f1.fetch_add(1, Ordering::SeqCst);
            Err("forced".to_string())
        },
    );
    assert_eq!(both.force_shutdown(), Err("forced".to_string()));
    assert_eq!((graceful.load(Ordering::SeqCst), forced.load(Ordering::SeqCst)), (0, 1));

    let g2 = Arc::clone(&graceful);
    let only = ClosureComponent::new("only", move || {
        g2.fetch_add(1, Ordering::SeqCst);
        Ok(())
    });
    assert!(only.force_shutdown().is_ok());
    assert_eq!(graceful.load(Ordering::SeqCst), 1);
}

#[test]
fn shutdown_outcomes() {
    assert!(!needs_force(&StageOutcome::Completed(Ok(()))));
    assert!(needs_force(&StageOutcome::TimedOut));
    assert_eq!(shutdown_outcome(StageOutcome::Completed(Ok(())), StageOutcome::TimedOut), Ok(()));
    assert_eq!(
        shutdown_outcome(StageOutcome::TimedOut, StageOutcome::Completed(Ok(()))),
        Err("Shutdown timed out".to_string())
    );
    assert_eq!(
        shutdown_outcome(StageOutcome::TimedOut, StageOutcome::TimedOut),
        Err("Shutdown timed out".to_string())
    );
    assert_eq!(
        shutdown_outcome(StageOutcome::Completed(Err("g".to_string())), StageOutcome::Completed(Err("f".to_string()))),
        Err("f".to_string())
    );
    assert_eq!(
        shutdown_outcome(StageOutcome::Completed(Err("g".to_string())), StageOutcome::Completed(Ok(()))),
        Err("g".to_string())
    );
    assert_eq!(shutdown_order(3), vec![2, 1, 0]);
    assert!(shutdown_order(0).is_empty());
}

#[test]
fn test_shutdown_coordinator_creation() {
    let coordinator = ShutdownCoordinator::new();
    assert!(!coordinator.is_shutting_down());
    assert_eq!(coordinator.current_phase(), ShutdownPhase::Running);
}

#[test]
fn shutdown_test_component_registration() {
    let mut coordinator = ShutdownCoordinator::new();
    coordinator.register_component("test-component".to_string());
    assert_eq!(coordinator.components, vec!["test-component".to_string()]);
}

#[test]
fn coordinator_refuses_a_second_shutdown_and_walks_the_phases() {
    let mut coordinator = ShutdownCoordinator::new();
    assert!(coordinator.begin_shutdown().is_ok());
    assert_eq!(coordinator.begin_shutdown(), Err(ShutdownError::AlreadyShuttingDown));
    let mut phase = coordinator.current_phase();
    let mut seen = vec![phase];
    while phase != ShutdownPhase::Complete {
        phase = coordinator.advance();
        seen.push(phase);
    }
    assert_eq!(
        seen,
        vec![
            ShutdownPhase::Running,
            ShutdownPhase::Initiated,
            ShutdownPhase::StoppingConnections,
            ShutdownPhase::DrainingConnections,
            ShutdownPhase::Cleanup,
            ShutdownPhase::Complete,
        ]
    );
    assert_eq!(next_phase(ShutdownPhase::Complete), ShutdownPhase::Complete);
    coordinator.fail();
    assert_eq!(coordinator.current_phase(), ShutdownPhase::Failed);
}

#[test]
fn component_reports_give_the_first_failure() {
    let reports = vec![
        ComponentShutdown { component_name: "a".to_string(), shutdown_result: Ok(()), shutdown_duration_ms: 1 },
        ComponentShutdown { component_name: "b".to_string(), shutdown_result: Err("boom".to_string()), shutdown_duration_ms: 2 },
        ComponentShutdown { component_name: "c".to_string(), shutdown_result: Err("later".to_string()), shutdown_duration_ms: 3 },
    ];
    assert_eq!(
        components_outcome(&reports),
        Err(ShutdownError::ComponentError { component: "b".to_string(), error: "boom".to_string() })
    );
    let fine = vec![ComponentShutdown { component_name: "a".to_string(), shutdown_result: Ok(()), shutdown_duration_ms: 1 }];
    assert!(components_outcome(&fine).is_ok());
}
