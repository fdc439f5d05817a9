use session_engine::shutdown::GRACE_WINDOW_SECS;
use session_engine::{
    ConnectionRegistry, ExitReason, Role, Session, SessionAction, SessionEvent, ShutdownCoordinator,
};

#[test]
fn initiate_is_idempotent() {
    let mut c = ShutdownCoordinator::new();
    assert!(!c.is_initiated());
    assert!(c.should_accept());
    assert!(c.initiate());
    assert!(c.is_initiated());
    assert!(!c.should_accept());
    // a second trigger is not a fresh broadcast and changes nothing
    assert!(!c.initiate());
    assert!(c.is_initiated());
}

#[test]
fn subscriptions_are_counted() {
    let mut c = ShutdownCoordinator::new();
    assert_eq!(c.receivers, 0);
    c.subscribe();
    c.subscribe();
    assert_eq!(c.receivers, 2);
    c.initiate();
    c.subscribe();
    // a receiver subscribed after initiation still observes it
    assert_eq!(c.receivers, 3);
    assert!(c.is_initiated());
}

#[test]
fn grace_window_is_one_second() {
    assert_eq!(GRACE_WINDOW_SECS, 1);
}

#[test]
fn shutdown_reaches_every_live_session_and_count_returns_to_zero() {
    // three live sessions of mixed roles, counted by the registry
    let mut registry = ConnectionRegistry::new();
    let mut sessions = vec![
        Session::new(Role::Initiator),
        Session::new(Role::Acceptor),
        Session::new(Role::Acceptor),
    ];
    for _ in 0..sessions.len() {
        registry.increment();
    }
    assert_eq!(registry.current(), 3);

    let mut coordinator = ShutdownCoordinator::new();
    assert!(coordinator.initiate());

    // every session observes the notification, terminates for that reason,
    // and decrements the registry on its way out
    for s in sessions.iter_mut() {
        let action = s.step(SessionEvent::Shutdown);
        assert_eq!(action, SessionAction::Exit(ExitReason::ShutdownRequested));
        registry.decrement();
    }
    assert_eq!(registry.current(), 0);
}
