use relay::decoder::{Decoder, Event};

/// Feeds the whole input, closes it, and collects every completed message
/// as `(to, body)` pairs, stopping at the stream's end.
fn run_to_end(input: &[u8]) -> (Vec<(Vec<u8>, Vec<u8>)>, bool) {
    let mut dec = Decoder::new();
    dec.feed(input);
    dec.close();
    let mut messages = Vec::new();
    loop {
        match dec.next_event() {
            Event::NeedInput => panic!("input was closed"),
            Event::Handled => {}
            Event::StreamOpened => {}
            Event::Message { to, body } => messages.push((to, body)),
            Event::Ended => return (messages, false),
            Event::Failed => return (messages, true),
        }
    }
}

#[test]
fn stream_open_is_reported() {
    let mut dec = Decoder::new();
    dec.feed(b"<stream:stream xmlns='jabber:client'>");
    match dec.next_event() {
        Event::StreamOpened => {}
        _ => panic!("expected the stream-open event"),
    }
}

#[test]
fn message_with_body_is_emitted() {
    let (msgs, failed) = run_to_end(b"<message to='b'><body>hello</body></message>");
    assert!(!failed);
    assert_eq!(msgs.len(), 1);
    assert_eq!(msgs[0].0, b"b".to_vec());
    assert_eq!(msgs[0].1, b"hello".to_vec());
}

#[test]
fn later_text_run_wins() {
    let (msgs, failed) = run_to_end(b"<message to='b'>first<body>second</body></message>");
    assert!(!failed);
    assert_eq!(msgs.len(), 1);
    assert_eq!(msgs[0].1, b"second".to_vec());
}

#[test]
fn whitespace_only_run_does_not_overwrite() {
    let (msgs, failed) = run_to_end(b"<message to='b'>kept<body> \n\t </body></message>");
    assert!(!failed);
    assert_eq!(msgs.len(), 1);
    assert_eq!(msgs[0].1, b"kept".to_vec());
}

#[test]
fn text_runs_are_trimmed() {
    let (msgs, _) = run_to_end(b"<message to='b'><body>  hello \n</body></message>");
    assert_eq!(msgs[0].1, b"hello".to_vec());
}

#[test]
fn entities_are_unescaped_in_body() {
    let (msgs, failed) = run_to_end(b"<message to='b'><body>a&amp;b &lt;c&gt; &apos;&quot;</body></message>");
    assert!(!failed);
    assert_eq!(msgs[0].1, b"a&b <c> '\"".to_vec());
}

#[test]
fn entities_are_unescaped_in_target() {
    let (msgs, failed) = run_to_end(b"<message to='a&amp;b'><body>x</body></message>");
    assert!(!failed);
    assert_eq!(msgs[0].0, b"a&b".to_vec());
}

#[test]
fn message_without_to_is_ignored() {
    let (msgs, failed) = run_to_end(b"<message><body>x</body></message>");
    assert!(!failed);
    assert_eq!(msgs.len(), 0);
}

#[test]
fn first_to_attribute_wins() {
    let (msgs, _) = run_to_end(b"<message to='b' to='c'><body>x</body></message>");
    assert_eq!(msgs[0].0, b"b".to_vec());
}

#[test]
fn namespaced_to_is_not_the_routing_attribute() {
    let (msgs, failed) = run_to_end(b"<message xml:to='c' to='b'><body>x</body></message>");
    assert!(!failed);
    assert_eq!(msgs[0].0, b"b".to_vec());
}

#[test]
fn message_close_alone_emits_too() {
    let (msgs, failed) = run_to_end(b"<message to='b'>hi</message>");
    assert!(!failed);
    assert_eq!(msgs.len(), 1);
    assert_eq!(msgs[0].1, b"hi".to_vec());
}

#[test]
fn empty_body_is_delivered_empty() {
    let (msgs, failed) = run_to_end(b"<message to='b'><body></body></message>");
    assert!(!failed);
    assert_eq!(msgs.len(), 1);
    assert_eq!(msgs[0].1, Vec::<u8>::new());
}

#[test]
fn end_of_stream_mid_message_delivers_nothing() {
    let (msgs, failed) = run_to_end(b"<message to='b'><body>hi");
    assert!(!failed);
    assert_eq!(msgs.len(), 0);
}

#[test]
fn unterminated_tag_fails() {
    let (msgs, failed) = run_to_end(b"<message to='b");
    assert!(failed);
    assert_eq!(msgs.len(), 0);
}

#[test]
fn unknown_entity_fails() {
    let (msgs, failed) = run_to_end(b"<message to='b'><body>&nope;</body></message>");
    assert!(failed);
    assert_eq!(msgs.len(), 0);
}

#[test]
fn unterminated_entity_fails() {
    let (msgs, failed) = run_to_end(b"<message to='b'><body>a&amp</body></message>");
    assert!(failed);
}

#[test]
fn invalid_utf8_body_fails() {
    let mut input: Vec<u8> = b"<message to='b'><body>".to_vec();
    input.push(0xff);
    input.extend_from_slice(b"</body></message>");
    let (msgs, failed) = run_to_end(&input);
    assert!(failed);
    assert_eq!(msgs.len(), 0);
}

#[test]
fn multibyte_utf8_body_is_accepted() {
    let (msgs, failed) = run_to_end("<message to='b'><body>приве́т</body></message>".as_bytes());
    assert!(!failed);
    assert_eq!(msgs[0].1, "приве́т".as_bytes().to_vec());
}

#[test]
fn declarations_and_comments_are_ignored() {
    let mut dec = Decoder::new();
    dec.feed(b"<?xml version='1.0'?><stream:stream>");
    match dec.next_event() {
        Event::Handled => {}
        _ => panic!("expected the declaration to be consumed quietly"),
    }
    match dec.next_event() {
        Event::StreamOpened => {}
        _ => panic!("expected the stream-open event"),
    }
}

#[test]
fn self_closing_tag_is_ignored() {
    let (msgs, failed) = run_to_end(b"<message to='b'/><message to='c'><body>x</body></message>");
    assert!(!failed);
    assert_eq!(msgs.len(), 1);
    assert_eq!(msgs[0].0, b"c".to_vec());
}

#[test]
fn chunk_boundaries_do_not_matter() {
    let mut dec = Decoder::new();
    dec.feed(b"<mess");
    match dec.next_event() {
        Event::NeedInput => {}
        _ => panic!("an incomplete tag is no token yet"),
    }
    dec.feed(b"age to='b'><body>hel");
    let mut saw_message = false;
    loop {
        match dec.next_event() {
            Event::NeedInput => dec.feed(b"lo</body></message>"),
            Event::Handled => {}
            Event::Message { to, body } => {
                assert_eq!(to, b"b".to_vec());
                assert_eq!(body, b"hello".to_vec());
                saw_message = true;
                break;
            }
            _ => panic!("unexpected event"),
        }
    }
    assert!(saw_message);
}

#[test]
fn normal_end_of_stream_is_not_a_failure() {
    let (msgs, failed) = run_to_end(b"<stream:stream>");
    assert!(!failed);
    assert_eq!(msgs.len(), 0);
}

#[test]
fn repeated_stream_opens_are_each_reported() {
    let mut dec = Decoder::new();
    dec.feed(b"<stream:stream><stream:stream>");
    match dec.next_event() {
        Event::StreamOpened => {}
        _ => panic!("expected the first stream-open"),
    }
    match dec.next_event() {
        Event::StreamOpened => {}
        _ => panic!("a stream-open leaves the machine waiting for content"),
    }
}

#[test]
fn stray_text_outside_messages_is_ignored() {
    let (msgs, failed) = run_to_end(b"noise<stream:stream>more noise<message to='b'><body>x</body></message>");
    assert!(!failed);
    assert_eq!(msgs.len(), 1);
    assert_eq!(msgs[0].1, b"x".to_vec());
}

#[test]
fn two_messages_in_sequence() {
    let (msgs, failed) = run_to_end(
        b"<message to='b'><body>one</body></message><message to='c'><body>two</body></message>",
    );
    assert!(!failed);
    assert_eq!(msgs.len(), 2);
    assert_eq!(msgs[0].0, b"b".to_vec());
    assert_eq!(msgs[0].1, b"one".to_vec());
    assert_eq!(msgs[1].0, b"c".to_vec());
    assert_eq!(msgs[1].1, b"two".to_vec());
}
