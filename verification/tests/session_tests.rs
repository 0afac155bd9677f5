use relay::decoder::Event;
use relay::registry::Registry;
use relay::router::deliver;
use relay::session::{handle_event, parse_identifier, start_session, stream_header, Action};

#[test]
fn handshake_line_is_trimmed() {
    assert_eq!(parse_identifier(&b"  alice \r\n".to_vec()), Some(b"alice".to_vec()));
}

#[test]
fn handshake_registers_identifier() {
    let mut reg = Registry::new();
    let sess = start_session(&mut reg, &b"alice\n".to_vec(), 7);
    assert!(sess.is_some());
    assert_eq!(reg.lookup(&b"alice".to_vec()), Some(7));
}

#[test]
fn handshake_invalid_utf8_never_registers() {
    let mut reg = Registry::new();
    let line: Vec<u8> = vec![0xff, 0xfe, b'\n'];
    assert!(parse_identifier(&line).is_none());
    assert!(start_session(&mut reg, &line, 7).is_none());
    assert_eq!(reg.count(), 0);
}

#[test]
fn stream_open_is_answered_with_the_fixed_header() {
    let mut reg = Registry::new();
    let sess = start_session(&mut reg, &b"a\n".to_vec(), 1).unwrap();
    match handle_event(&sess, &mut reg, Event::StreamOpened) {
        Action::Reply { payload } => {
            assert_eq!(
                payload,
                b"<?xml version='1.0'?><stream:stream from='localhost' xmlns='jabber:client' xmlns:stream='http://etherx.jabber.org/streams' version='1.0'>".to_vec()
            );
        }
        _ => panic!("expected a reply"),
    }
}

#[test]
fn header_function_matches_reply() {
    assert!(stream_header().starts_with(b"<?xml version='1.0'?>"));
}

#[test]
fn message_is_routed_to_registered_target() {
    let mut reg = Registry::new();
    let sess = start_session(&mut reg, &b"a\n".to_vec(), 1).unwrap();
    start_session(&mut reg, &b"b\n".to_vec(), 2).unwrap();
    let ev = Event::Message { to: b"b".to_vec(), body: b"hello".to_vec() };
    match handle_event(&sess, &mut reg, ev) {
        Action::Forward { conn, payload } => {
            assert_eq!(conn, 2);
            assert_eq!(payload, b"hello".to_vec());
        }
        _ => panic!("expected a forward"),
    }
}

#[test]
fn message_to_unknown_target_is_dropped() {
    let mut reg = Registry::new();
    let sess = start_session(&mut reg, &b"a\n".to_vec(), 1).unwrap();
    let ev = Event::Message { to: b"nobody".to_vec(), body: b"hello".to_vec() };
    match handle_event(&sess, &mut reg, ev) {
        Action::Continue => {}
        _ => panic!("an unknown target drops the message quietly"),
    }
    assert_eq!(reg.count(), 1);
}

#[test]
fn deliver_on_empty_registry_finds_nothing() {
    let reg = Registry::new();
    assert!(deliver(&reg, &b"x".to_vec(), &b"hi".to_vec()).is_none());
}

#[test]
fn stream_end_unregisters() {
    let mut reg = Registry::new();
    let sess = start_session(&mut reg, &b"a\n".to_vec(), 1).unwrap();
    match handle_event(&sess, &mut reg, Event::Ended) {
        Action::HangUp => {}
        _ => panic!("expected the session to end"),
    }
    assert_eq!(reg.lookup(&b"a".to_vec()), None);
}

#[test]
fn decode_failure_unregisters_too() {
    let mut reg = Registry::new();
    let sess = start_session(&mut reg, &b"a\n".to_vec(), 1).unwrap();
    match handle_event(&sess, &mut reg, Event::Failed) {
        Action::HangUp => {}
        _ => panic!("expected the session to end"),
    }
    assert_eq!(reg.lookup(&b"a".to_vec()), None);
}

#[test]
fn need_input_asks_for_more() {
    let mut reg = Registry::new();
    let sess = start_session(&mut reg, &b"a\n".to_vec(), 1).unwrap();
    match handle_event(&sess, &mut reg, Event::NeedInput) {
        Action::ReadMore => {}
        _ => panic!("expected a read"),
    }
}
