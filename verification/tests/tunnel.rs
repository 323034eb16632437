use pojde_rs::error::Error;
use pojde_rs::tunnel::{Flow, Forwarder, TunnelAction, TunnelEvent};

#[test]
fn forwarder_starts_listening_without_connections() {
    let forwarder = Forwarder::listen();
    assert!(forwarder.is_listening());
    assert_eq!(forwarder.open_connections(), 0);
    assert!(!forwarder.is_open(1));
}

#[test]
fn each_accepted_connection_is_connected_onward() {
    let mut forwarder = Forwarder::listen();
    for id in 1..=5 {
        assert_eq!(forwarder.step(TunnelEvent::Accepted(id)), TunnelAction::Connect(id));
    }
    assert_eq!(forwarder.open_connections(), 5);
    for id in 1..=5 {
        assert!(forwarder.is_open(id));
    }
}

#[test]
fn accepting_a_number_twice_changes_nothing() {
    let mut forwarder = Forwarder::listen();
    assert_eq!(forwarder.step(TunnelEvent::Accepted(1)), TunnelAction::Connect(1));
    assert_eq!(forwarder.step(TunnelEvent::Accepted(1)), TunnelAction::Nothing);
    assert_eq!(forwarder.open_connections(), 1);
}

#[test]
fn bytes_are_passed_on_through_their_connection() {
    let mut forwarder = Forwarder::listen();
    forwarder.step(TunnelEvent::Accepted(1));
    forwarder.step(TunnelEvent::Accepted(2));
    assert_eq!(
        forwarder.step(TunnelEvent::Received(2, Flow::Forth, b"GET /".to_vec())),
        TunnelAction::Send(2, Flow::Forth, b"GET /".to_vec())
    );
    assert_eq!(
        forwarder.step(TunnelEvent::Received(1, Flow::Back, b"200 OK".to_vec())),
        TunnelAction::Send(1, Flow::Back, b"200 OK".to_vec())
    );
    assert_eq!(forwarder.open_connections(), 2);
}

#[test]
fn bytes_of_an_unknown_connection_are_dropped() {
    let mut forwarder = Forwarder::listen();
    assert_eq!(
        forwarder.step(TunnelEvent::Received(9, Flow::Forth, vec![1])),
        TunnelAction::Nothing
    );
}

#[test]
fn closing_one_connection_leaves_the_others() {
    let mut forwarder = Forwarder::listen();
    for id in 1..=3 {
        forwarder.step(TunnelEvent::Accepted(id));
    }
    assert_eq!(forwarder.step(TunnelEvent::Closed(2)), TunnelAction::Close(2, None));
    assert!(forwarder.is_listening());
    assert!(forwarder.is_open(1));
    assert!(!forwarder.is_open(2));
    assert!(forwarder.is_open(3));
    assert_eq!(
        forwarder.step(TunnelEvent::Received(3, Flow::Forth, vec![42])),
        TunnelAction::Send(3, Flow::Forth, vec![42])
    );
    assert_eq!(
        forwarder.step(TunnelEvent::Received(2, Flow::Forth, vec![42])),
        TunnelAction::Nothing
    );
    assert_eq!(forwarder.step(TunnelEvent::Accepted(4)), TunnelAction::Connect(4));
    assert_eq!(forwarder.open_connections(), 3);
}

#[test]
fn failure_of_one_connection_is_reported_for_it_alone() {
    let mut forwarder = Forwarder::listen();
    forwarder.step(TunnelEvent::Accepted(1));
    forwarder.step(TunnelEvent::Accepted(2));
    assert_eq!(
        forwarder.step(TunnelEvent::Failed(1, "connection reset".to_string())),
        TunnelAction::Close(1, Some(Error::TunnelError("connection reset".to_string())))
    );
    assert!(forwarder.is_listening());
    assert!(forwarder.is_open(2));
    assert!(!forwarder.is_open(1));
}

#[test]
fn closing_an_unknown_connection_changes_nothing() {
    let mut forwarder = Forwarder::listen();
    forwarder.step(TunnelEvent::Accepted(1));
    assert_eq!(forwarder.step(TunnelEvent::Closed(7)), TunnelAction::Nothing);
    assert_eq!(forwarder.step(TunnelEvent::Failed(7, "x".to_string())), TunnelAction::Nothing);
    assert_eq!(forwarder.step(TunnelEvent::Closed(1)), TunnelAction::Close(1, None));
    assert_eq!(forwarder.step(TunnelEvent::Closed(1)), TunnelAction::Nothing);
    assert!(forwarder.is_listening());
}

#[test]
fn cancelling_tears_every_connection_down() {
    let mut forwarder = Forwarder::listen();
    for id in [5, 3, 8] {
        forwarder.step(TunnelEvent::Accepted(id));
    }
    assert_eq!(forwarder.step(TunnelEvent::Cancelled), TunnelAction::TearDown(vec![5, 3, 8], None));
    assert!(!forwarder.is_listening());
    assert_eq!(forwarder.open_connections(), 0);
}

#[test]
fn session_failure_aborts_the_forward() {
    let mut forwarder = Forwarder::listen();
    forwarder.step(TunnelEvent::Accepted(1));
    assert_eq!(
        forwarder.step(TunnelEvent::SessionFailed("session closed".to_string())),
        TunnelAction::TearDown(vec![1], Some(Error::TunnelError("session closed".to_string())))
    );
    assert!(!forwarder.is_listening());
    assert!(!forwarder.is_open(1));
}

#[test]
fn stopped_forwarder_asks_for_nothing() {
    let mut forwarder = Forwarder::listen();
    forwarder.step(TunnelEvent::Cancelled);
    assert_eq!(forwarder.step(TunnelEvent::Accepted(1)), TunnelAction::Nothing);
    assert_eq!(
        forwarder.step(TunnelEvent::Received(1, Flow::Forth, vec![1])),
        TunnelAction::Nothing
    );
    assert_eq!(forwarder.step(TunnelEvent::Closed(1)), TunnelAction::Nothing);
    assert_eq!(forwarder.step(TunnelEvent::Cancelled), TunnelAction::Nothing);
    assert_eq!(
        forwarder.step(TunnelEvent::SessionFailed("x".to_string())),
        TunnelAction::Nothing
    );
    assert_eq!(forwarder.open_connections(), 0);
}

#[test]
fn forwarder_keeps_listening_through_idle_traffic() {
    let mut forwarder = Forwarder::listen();
    for round in 0..100u64 {
        forwarder.step(TunnelEvent::Accepted(round));
        forwarder.step(TunnelEvent::Received(round, Flow::Forth, vec![0]));
        forwarder.step(TunnelEvent::Closed(round));
        assert!(forwarder.is_listening());
    }
    assert_eq!(forwarder.open_connections(), 0);
}

#[test]
fn run_serves_concurrent_connections_independently() {
    let mut forwarder = Forwarder::listen();
    let actions = forwarder.run(vec![
        TunnelEvent::Accepted(1),
        TunnelEvent::Accepted(2),
        TunnelEvent::Accepted(3),
        TunnelEvent::Received(1, Flow::Forth, b"a".to_vec()),
        TunnelEvent::Received(2, Flow::Forth, b"b".to_vec()),
        TunnelEvent::Closed(1),
        TunnelEvent::Received(3, Flow::Back, b"c".to_vec()),
        TunnelEvent::Received(1, Flow::Back, b"late".to_vec()),
        TunnelEvent::Failed(2, "reset".to_string()),
        TunnelEvent::Received(3, Flow::Forth, b"d".to_vec()),
    ]);
    assert_eq!(
        actions,
        vec![
            TunnelAction::Connect(1),
            TunnelAction::Connect(2),
            TunnelAction::Connect(3),
            TunnelAction::Send(1, Flow::Forth, b"a".to_vec()),
            TunnelAction::Send(2, Flow::Forth, b"b".to_vec()),
            TunnelAction::Close(1, None),
            TunnelAction::Send(3, Flow::Back, b"c".to_vec()),
            TunnelAction::Nothing,
            TunnelAction::Close(2, Some(Error::TunnelError("reset".to_string()))),
            TunnelAction::Send(3, Flow::Forth, b"d".to_vec()),
        ]
    );
    assert!(forwarder.is_listening());
    assert_eq!(forwarder.open_connections(), 1);
    assert!(forwarder.is_open(3));
}
