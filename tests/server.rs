use opcua_server::server::{discovery_registration_interval, PollingStart, Server, ServerStateType, DISCOVERY_REGISTRATION_INTERVAL_MS};

#[test]
fn graceful_abort() {
    let mut s = Server::new();
    assert!(s.run(1).is_empty());
    assert!(s.handle_connection(1));
    assert!(s.handle_connection(2));
    assert!(!s.abort_poll(&vec![Some(true), Some(true)]));
    assert_eq!(s.connection_count(), 2);
    s.abort();
    assert!(s.is_abort());
    assert!(!s.handle_connection(3));
    assert_eq!(s.connection_count(), 2);
    assert!(!s.abort_poll(&vec![Some(false), None]));
    assert_eq!(s.connection_count(), 2);
    assert!(!s.abort_poll(&vec![Some(true), Some(false)]));
    assert_eq!(s.connection_count(), 1);
    assert!(s.abort_poll(&vec![Some(true)]));
    assert_eq!(s.connection_count(), 0);
    s.stopped();
}

#[test]
fn polling_actions_wait_for_run() {
    let mut s = Server::new();
    assert_eq!(s.add_polling_action(100, 7), PollingStart::Queued);
    assert_eq!(s.add_polling_action(200, 8), PollingStart::Queued);
    assert_eq!(s.run(5), vec![(100, 7), (200, 8)]);
    assert_eq!(s.add_polling_action(300, 9), PollingStart::StartNow);
    assert!(s.run(6).is_empty());
    let _ = ServerStateType::Running;
}

#[test]
fn discovery_every_five_minutes() {
    assert_eq!(discovery_registration_interval(true), Some(DISCOVERY_REGISTRATION_INTERVAL_MS));
    assert_eq!(DISCOVERY_REGISTRATION_INTERVAL_MS, 300_000);
    assert_eq!(discovery_registration_interval(false), None);
}
