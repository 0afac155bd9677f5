//! Whole-library flows: two clients against one registry, driven the way
//! the surrounding program drives them, with the sockets played by the
//! test.

use relay::decoder::{Decoder, Event};
use relay::registry::Registry;
use relay::session::{handle_event, start_session, Action, Session};

/// Feeds one client's whole input through its decoder and session,
/// collecting what would be written where.
fn drive(
    sess: &Session,
    reg: &mut Registry,
    input: &[u8],
) -> (Vec<Vec<u8>>, Vec<(u64, Vec<u8>)>, bool) {
    let mut dec = Decoder::new();
    dec.feed(input);
    dec.close();
    let mut replies = Vec::new();
    let mut forwards = Vec::new();
    loop {
        let ev = dec.next_event();
        let failed = matches!(ev, Event::Failed);
        match handle_event(sess, reg, ev) {
            Action::ReadMore => panic!("input was closed"),
            Action::Continue => {}
            Action::Reply { payload } => replies.push(payload),
            Action::Forward { conn, payload } => forwards.push((conn, payload)),
            Action::HangUp => return (replies, forwards, failed),
        }
    }
}

#[test]
fn end_to_end_hello() {
    let mut reg = Registry::new();
    let a = start_session(&mut reg, &b"a\n".to_vec(), 1).unwrap();
    let _b = start_session(&mut reg, &b"b\n".to_vec(), 2).unwrap();

    let (replies, forwards, failed) = drive(
        &a,
        &mut reg,
        b"<stream:stream xmlns='jabber:client' xmlns:stream='http://etherx.jabber.org/streams'>\
          <message to='b'><body>hello</body></message>",
    );
    assert!(!failed);
    assert_eq!(replies.len(), 1);
    assert!(replies[0].starts_with(b"<?xml version='1.0'?><stream:stream"));
    assert_eq!(forwards, vec![(2, b"hello".to_vec())]);

    // a's stream ended, so its identifier is gone; b's is still there.
    assert_eq!(reg.lookup(&b"a".to_vec()), None);
    assert_eq!(reg.lookup(&b"b".to_vec()), Some(2));
}

#[test]
fn message_to_never_registered_id_goes_nowhere() {
    let mut reg = Registry::new();
    let a = start_session(&mut reg, &b"a\n".to_vec(), 1).unwrap();
    let (_, forwards, failed) =
        drive(&a, &mut reg, b"<message to='ghost'><body>hello</body></message>");
    assert!(!failed);
    assert!(forwards.is_empty());
}

#[test]
fn malformed_input_ends_only_that_connection() {
    let mut reg = Registry::new();
    let a = start_session(&mut reg, &b"a\n".to_vec(), 1).unwrap();
    let b = start_session(&mut reg, &b"b\n".to_vec(), 2).unwrap();

    // a's stream is malformed: an unterminated tag.
    let (_, forwards_a, failed_a) = drive(&a, &mut reg, b"<message to='b'><body>hi</bo");
    assert!(failed_a);
    assert!(forwards_a.is_empty());
    assert_eq!(reg.lookup(&b"a".to_vec()), None);

    // b goes on being served.
    assert_eq!(reg.lookup(&b"b".to_vec()), Some(2));
    let (_, forwards_b, failed_b) =
        drive(&b, &mut reg, b"<message to='b'><body>still here</body></message>");
    assert!(!failed_b);
    assert_eq!(forwards_b, vec![(2, b"still here".to_vec())]);
}
