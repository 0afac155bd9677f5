use relay::registry::Registry;

#[test]
fn register_then_lookup() {
    let mut reg = Registry::new();
    reg.register(b"alice".to_vec(), 7);
    assert_eq!(reg.lookup(&b"alice".to_vec()), Some(7));
}

#[test]
fn lookup_unknown_is_none() {
    let reg = Registry::new();
    assert_eq!(reg.lookup(&b"nobody".to_vec()), None);
}

#[test]
fn register_replaces_earlier_entry() {
    let mut reg = Registry::new();
    reg.register(b"alice".to_vec(), 7);
    reg.register(b"alice".to_vec(), 9);
    assert_eq!(reg.lookup(&b"alice".to_vec()), Some(9));
    assert_eq!(reg.count(), 1);
}

#[test]
fn other_ids_do_not_disturb_lookup() {
    let mut reg = Registry::new();
    reg.register(b"alice".to_vec(), 7);
    reg.register(b"bob".to_vec(), 8);
    reg.unregister(&b"bob".to_vec());
    assert_eq!(reg.lookup(&b"alice".to_vec()), Some(7));
}

#[test]
fn unregister_removes_entry() {
    let mut reg = Registry::new();
    reg.register(b"alice".to_vec(), 7);
    reg.unregister(&b"alice".to_vec());
    assert_eq!(reg.lookup(&b"alice".to_vec()), None);
    assert_eq!(reg.count(), 0);
}

#[test]
fn unregister_absent_is_noop() {
    let mut reg = Registry::new();
    reg.register(b"alice".to_vec(), 7);
    reg.unregister(&b"bob".to_vec());
    assert_eq!(reg.count(), 1);
    assert_eq!(reg.lookup(&b"alice".to_vec()), Some(7));
}

#[test]
fn two_distinct_registrations_both_present() {
    let mut reg = Registry::new();
    reg.register(b"a".to_vec(), 1);
    reg.register(b"b".to_vec(), 2);
    assert_eq!(reg.count(), 2);
    assert_eq!(reg.lookup(&b"a".to_vec()), Some(1));
    assert_eq!(reg.lookup(&b"b".to_vec()), Some(2));
}

#[test]
fn two_distinct_registrations_either_order() {
    let mut reg = Registry::new();
    reg.register(b"b".to_vec(), 2);
    reg.register(b"a".to_vec(), 1);
    assert_eq!(reg.count(), 2);
    assert_eq!(reg.lookup(&b"a".to_vec()), Some(1));
    assert_eq!(reg.lookup(&b"b".to_vec()), Some(2));
}

#[test]
fn empty_identifier_can_register() {
    let mut reg = Registry::new();
    reg.register(Vec::new(), 3);
    assert_eq!(reg.lookup(&Vec::new()), Some(3));
}
