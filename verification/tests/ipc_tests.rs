use serde_ipc::ipc::{Action, Handshake, SocketEvent, CLIENT_ID_LEN};

fn received(bytes: &[u8]) -> SocketEvent {
    SocketEvent::Received(bytes.to_vec())
}

fn is_close(action: &Action) -> bool {
    matches!(action, Action::Close)
}

#[test]
fn a_handshake_goes_through_id_and_sentinel() {
    let mut state = Handshake::AwaitId;
    let id = b"0123456789abcdef";
    assert_eq!(id.len(), CLIENT_ID_LEN);
    match state.step(received(id)) {
        Action::Echo(echoed) => assert_eq!(echoed, id.to_vec()),
        _ => panic!("the id was not echoed"),
    }
    assert_eq!(state, Handshake::AwaitSentinel);
    assert!(matches!(state.step(received(&[0])), Action::Serve));
    assert_eq!(state, Handshake::Established);
    assert!(matches!(state.step(received(b"frame")), Action::Continue));
    assert_eq!(state, Handshake::Established);
}

#[test]
fn a_short_id_is_echoed_as_it_came() {
    let mut state = Handshake::AwaitId;
    match state.step(received(b"id")) {
        Action::Echo(echoed) => assert_eq!(echoed, b"id".to_vec()),
        _ => panic!("the id was not echoed"),
    }
    assert_eq!(state, Handshake::AwaitSentinel);
}

#[test]
fn an_id_of_the_wrong_length_closes() {
    let mut state = Handshake::AwaitId;
    assert!(is_close(&state.step(received(b""))));
    assert_eq!(state, Handshake::Closed);
    let mut state = Handshake::AwaitId;
    assert!(is_close(&state.step(received(&[1u8; 17]))));
    assert_eq!(state, Handshake::Closed);
}

#[test]
fn an_empty_sentinel_closes() {
    let mut state = Handshake::AwaitSentinel;
    assert!(is_close(&state.step(received(b""))));
    assert_eq!(state, Handshake::Closed);
}

#[test]
fn a_failure_closes_in_every_state() {
    for start in [Handshake::AwaitId, Handshake::AwaitSentinel, Handshake::Established] {
        let mut state = start;
        assert!(is_close(&state.step(SocketEvent::Failed)));
        assert_eq!(state, Handshake::Closed);
    }
}

#[test]
fn a_closed_connection_stays_closed() {
    let mut state = Handshake::Closed;
    assert!(is_close(&state.step(received(b"0123456789abcdef"))));
    assert_eq!(state, Handshake::Closed);
    assert!(is_close(&state.step(SocketEvent::Failed)));
    assert_eq!(state, Handshake::Closed);
}
