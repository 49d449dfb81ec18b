use lemon_colonies_client::ws::{WsState, WsStep};

#[test]
fn a_socket_that_opens_becomes_the_connection() {
    let mut s: WsState<u32, f64> = WsState::default();
    assert!(matches!(s, WsState::Idle));
    assert!(s.can_connect());
    assert!(!s.is_connected());

    s.begin_connecting(Ok((7, 0.5)));
    assert!(matches!(s, WsState::Connecting((7, t)) if t == 0.5));
    assert!(!s.can_connect());

    assert_eq!(s.update(false, false), WsStep::Wait);
    assert!(matches!(s, WsState::Connecting((7, _))));

    assert_eq!(s.update(true, false), WsStep::ReadMessages);
    assert!(matches!(s, WsState::Connected(7)));
    assert!(s.is_connected());

    assert_eq!(s.update(true, true), WsStep::ReadMessages);
    assert!(matches!(s, WsState::Connected(7)));
}

#[test]
fn connecting_twice_keeps_the_first_socket() {
    let mut s: WsState<u32, f64> = WsState::default();
    s.begin_connecting(Ok((1, 0.0)));
    s.begin_connecting(Ok((2, 1.0)));
    assert!(matches!(s, WsState::Connecting((1, _))));
    s.update(true, false);
    s.begin_connecting(Ok((3, 2.0)));
    assert!(matches!(s, WsState::Connected(1)));
}

#[test]
fn connecting_that_takes_too_long_fails() {
    let mut s: WsState<u32, f64> = WsState::default();
    s.begin_connecting(Ok((1, 0.0)));
    assert_eq!(
        s.update(false, true),
        WsStep::Report("Connection timed out.".to_string())
    );
    assert!(matches!(&s, WsState::Error(m) if m == "Connection timed out."));
    assert!(s.can_connect());
}

#[test]
fn a_closed_socket_loses_the_connection() {
    let mut s: WsState<u32, f64> = WsState::default();
    s.begin_connecting(Ok((1, 0.0)));
    s.update(true, false);
    assert_eq!(
        s.update(false, false),
        WsStep::Report("Disconnected from server.".to_string())
    );
    assert!(matches!(&s, WsState::Error(m) if m == "Lost connection to server."));
    assert!(!s.is_connected());

    s.begin_connecting(Ok((2, 5.0)));
    assert!(matches!(s, WsState::Connecting((2, _))));
}

#[test]
fn a_socket_that_cannot_open() {
    let mut s: WsState<u32, f64> = WsState::default();
    s.begin_connecting(Err("refused".to_string()));
    assert!(matches!(&s, WsState::Error(m) if m == "refused"));
    assert!(s.can_connect());
    assert_eq!(s.update(true, true), WsStep::Wait);
    assert!(matches!(&s, WsState::Error(m) if m == "refused"));
}

#[test]
fn disconnecting() {
    let mut s: WsState<u32, f64> = WsState::default();
    s.begin_connecting(Ok((1, 0.0)));
    s.update(true, false);
    s.disconnect("Server stopped answering.");
    assert!(matches!(&s, WsState::Error(m) if m == "Server stopped answering."));
    assert!(!s.is_connected());
}

#[test]
fn an_idle_state_waits() {
    let mut s: WsState<u32, f64> = WsState::default();
    assert_eq!(s.update(true, true), WsStep::Wait);
    assert!(matches!(s, WsState::Idle));
}
