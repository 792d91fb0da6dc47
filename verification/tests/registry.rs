use system_bridge::BridgeError;
use system_bridge::CallbackId;
use system_bridge::SystemBridge;

fn cb(id: u64) -> CallbackId {
    CallbackId { id }
}

#[test]
fn new_rejects_zero_capacity() {
    let r = SystemBridge::new(0);
    assert_eq!(r.err(), Some(BridgeError::Configuration));
}

#[test]
fn new_accepts_positive_capacity() {
    let b = SystemBridge::new(1).unwrap();
    assert_eq!(b.listeners_of("anything"), vec![]);
    assert_eq!(b.queued_payloads("anything"), vec![]);
}

#[test]
fn add_listener_appends_in_order() {
    let mut b = SystemBridge::new(4).unwrap();
    b.add_listener("e".to_string(), cb(1));
    b.add_listener("e".to_string(), cb(2));
    b.add_listener("e".to_string(), cb(1));
    assert_eq!(b.listeners_of("e"), vec![cb(1), cb(2), cb(1)]);
    assert_eq!(b.listeners_of("other"), vec![]);
}

#[test]
fn remove_listener_removes_every_match() {
    let mut b = SystemBridge::new(4).unwrap();
    b.add_listener("e".to_string(), cb(1));
    b.add_listener("e".to_string(), cb(2));
    b.add_listener("e".to_string(), cb(1));
    b.remove_listener("e".to_string(), cb(1));
    assert_eq!(b.listeners_of("e"), vec![cb(2)]);
}

#[test]
fn remove_listener_without_entry_is_a_no_op() {
    let mut b = SystemBridge::new(4).unwrap();
    b.remove_listener("ghostly".to_string(), cb(1));
    assert_eq!(b.listeners_of("ghostly"), vec![]);
}

#[test]
fn add_then_remove_leaves_entry_empty() {
    let mut b = SystemBridge::new(4).unwrap();
    b.add_listener("e".to_string(), cb(7));
    b.remove_listener("e".to_string(), cb(7));
    assert_eq!(b.listeners_of("e"), vec![]);
}

#[test]
fn pick_keeps_first_two_of_five() {
    let mut b = SystemBridge::new(4).unwrap();
    for id in 1..=5 {
        b.add_listener("e".to_string(), cb(id));
    }
    b.pick("e".to_string(), 2);
    assert_eq!(b.listeners_of("e"), vec![cb(1), cb(2)]);
}

#[test]
fn pick_beyond_length_keeps_everything() {
    let mut b = SystemBridge::new(4).unwrap();
    b.add_listener("e".to_string(), cb(1));
    b.pick("e".to_string(), 10);
    assert_eq!(b.listeners_of("e"), vec![cb(1)]);
}

#[test]
fn transform_replaces_each_listener_in_order() {
    let mut b = SystemBridge::new(4).unwrap();
    b.add_listener("e".to_string(), cb(1));
    b.add_listener("e".to_string(), cb(2));
    // The host maps each snapshotted listener to a fresh callable.
    let mapped: Vec<CallbackId> = b.listeners_of("e").iter().map(|c| cb(c.id + 100)).collect();
    b.transform("e".to_string(), mapped);
    assert_eq!(b.listeners_of("e"), vec![cb(101), cb(102)]);
}

#[test]
fn transform_without_entry_is_a_no_op() {
    let mut b = SystemBridge::new(4).unwrap();
    b.transform("nobody".to_string(), vec![]);
    assert_eq!(b.listeners_of("nobody"), vec![]);
}

#[test]
fn conditional_filter_keeps_flagged_listeners() {
    let mut b = SystemBridge::new(4).unwrap();
    b.add_listener("e".to_string(), cb(1));
    b.add_listener("e".to_string(), cb(2));
    b.add_listener("e".to_string(), cb(3));
    b.conditional_filter("e".to_string(), vec![true, false, true]);
    assert_eq!(b.listeners_of("e"), vec![cb(1), cb(3)]);
}

#[test]
fn conditional_filter_treats_false_flags_as_dropped() {
    let mut b = SystemBridge::new(4).unwrap();
    b.add_listener("e".to_string(), cb(1));
    // A predicate failure is reported as false by the host: the listener goes.
    b.conditional_filter("e".to_string(), vec![false]);
    assert_eq!(b.listeners_of("e"), vec![]);
}

#[test]
fn registry_ops_leave_other_events_alone() {
    let mut b = SystemBridge::new(4).unwrap();
    b.add_listener("a".to_string(), cb(1));
    b.add_listener("b".to_string(), cb(2));
    b.remove_listener("a".to_string(), cb(1));
    b.pick("b".to_string(), 0);
    assert_eq!(b.listeners_of("a"), vec![]);
    assert_eq!(b.listeners_of("b"), vec![]);
    b.add_listener("a".to_string(), cb(3));
    assert_eq!(b.listeners_of("a"), vec![cb(3)]);
    assert_eq!(b.listeners_of("b"), vec![]);
}
