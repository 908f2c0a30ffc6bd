use pubsub::broker::{Broker, GetOutcome};
use pubsub::errors::AckError;

fn s(text: &str) -> String {
    String::from(text)
}

fn frames(parts: &[&[u8]]) -> Vec<Vec<u8>> {
    parts.iter().map(|p| p.to_vec()).collect()
}

#[test]
fn no_subscriber_fast_ack() {
    let mut b = Broker::new();
    let (ack, stored) = b.handle_publish(&s("news"), s("m1"), 7);
    assert_eq!(ack, "7");
    assert!(!stored);
    assert!(!b.queue.has_messages(&s("news")));
}

#[test]
fn publish_enqueues_for_current_subscribers() {
    let mut b = Broker::new();
    b.handle_subscribe(&s("a"), &s("news"));
    let (ack, stored) = b.handle_publish(&s("news"), s("m1"), 9);
    assert_eq!(ack, "9");
    assert!(stored);
    assert!(b.queue.has_messages(&s("news")));
}

#[test]
fn fanout_snapshot_excludes_later_subscriber() {
    let mut b = Broker::new();
    b.handle_subscribe(&s("a"), &s("t"));
    b.handle_subscribe(&s("b"), &s("t"));
    b.handle_publish(&s("t"), s("m1"), 1);
    b.handle_subscribe(&s("c"), &s("t"));
    assert!(matches!(b.handle_get(&s("c"), &s("t")), GetOutcome::NoneForId));
    assert!(matches!(b.handle_get(&s("a"), &s("t")), GetOutcome::Message(1, body) if body == "m1"));
}

#[test]
fn per_recipient_independence() {
    let mut b = Broker::new();
    b.handle_subscribe(&s("a"), &s("t"));
    b.handle_subscribe(&s("b"), &s("t"));
    b.handle_publish(&s("t"), s("m1"), 5);
    assert!(matches!(b.handle_get(&s("a"), &s("t")), GetOutcome::Message(5, body) if body == "m1"));
    assert_eq!(b.handle_gc_ack(&s("a"), &s("t")), Ok(true));
    assert!(matches!(b.handle_get(&s("b"), &s("t")), GetOutcome::Message(5, body) if body == "m1"));
    assert!(matches!(b.handle_get(&s("a"), &s("t")), GetOutcome::NoneForId));
}

#[test]
fn full_consumption_removes_message() {
    let mut b = Broker::new();
    b.handle_subscribe(&s("a"), &s("t"));
    b.handle_subscribe(&s("b"), &s("t"));
    b.handle_publish(&s("t"), s("m1"), 5);
    assert_eq!(b.handle_gc_ack(&s("a"), &s("t")), Ok(true));
    assert_eq!(b.handle_gc_ack(&s("b"), &s("t")), Ok(true));
    b.sweep();
    assert!(!b.queue.has_messages(&s("t")));
    assert!(matches!(b.handle_get(&s("a"), &s("t")), GetOutcome::NoMessages));
    assert!(matches!(b.handle_get(&s("b"), &s("t")), GetOutcome::NoMessages));
}

#[test]
fn unsubscribe_purges_pending() {
    let mut b = Broker::new();
    b.handle_subscribe(&s("a"), &s("t"));
    b.handle_publish(&s("t"), s("m1"), 3);
    let (reg_changed, q_changed) = b.handle_unsubscribe(&s("a"), &s("t"));
    assert!(reg_changed);
    assert!(q_changed);
    assert!(matches!(b.handle_get(&s("a"), &s("t")), GetOutcome::NotSubscribed));
    b.sweep();
    assert!(!b.queue.has_messages(&s("t")));
    assert!(!b.registry.contains_topic(&s("t")));
}

#[test]
fn unsubscribe_purges_other_topics_too() {
    let mut b = Broker::new();
    b.handle_subscribe(&s("a"), &s("t1"));
    b.handle_subscribe(&s("a"), &s("t2"));
    b.handle_subscribe(&s("b"), &s("t2"));
    b.handle_publish(&s("t1"), s("m1"), 1);
    b.handle_publish(&s("t2"), s("m2"), 2);
    let (_, q_changed) = b.handle_unsubscribe(&s("a"), &s("t1"));
    assert!(q_changed);
    // the purge covers every topic, not just the named one
    assert!(matches!(b.handle_get(&s("a"), &s("t2")), GetOutcome::NoneForId));
    assert!(matches!(b.handle_get(&s("b"), &s("t2")), GetOutcome::Message(2, body) if body == "m2"));
}

#[test]
fn unsubscribe_of_unknown_topic_is_noop() {
    let mut b = Broker::new();
    let (reg_changed, q_changed) = b.handle_unsubscribe(&s("a"), &s("ghost"));
    assert!(!reg_changed);
    assert!(!q_changed);
}

#[test]
fn idempotent_subscribe() {
    let mut b = Broker::new();
    assert!(b.handle_subscribe(&s("a"), &s("t")));
    assert!(!b.handle_subscribe(&s("a"), &s("t")));
    assert!(b.registry.is_subscribed(&s("t"), &s("a")));
    // still a one-element membership: a single publish is owed once
    b.handle_publish(&s("t"), s("m"), 4);
    assert_eq!(b.handle_gc_ack(&s("a"), &s("t")), Ok(true));
    b.sweep();
    assert!(!b.queue.has_messages(&s("t")));
}

#[test]
fn get_validation_order() {
    let mut b = Broker::new();
    assert!(matches!(b.handle_get(&s("a"), &s("t")), GetOutcome::TopicMissing));
    b.handle_subscribe(&s("b"), &s("t"));
    assert!(matches!(b.handle_get(&s("a"), &s("t")), GetOutcome::NotSubscribed));
    b.handle_subscribe(&s("a"), &s("t"));
    assert!(matches!(b.handle_get(&s("a"), &s("t")), GetOutcome::NoMessages));
    b.handle_publish(&s("t"), s("m"), 8);
    assert_eq!(b.handle_gc_ack(&s("a"), &s("t")), Ok(true));
    assert!(matches!(b.handle_get(&s("a"), &s("t")), GetOutcome::NoneForId));
}

#[test]
fn get_scans_past_satisfied_head() {
    let mut b = Broker::new();
    b.handle_subscribe(&s("a"), &s("t"));
    b.handle_publish(&s("t"), s("m1"), 1);
    b.handle_subscribe(&s("b"), &s("t"));
    b.handle_publish(&s("t"), s("m2"), 2);
    // the head is still owed to a, but b's first pending message is the second
    assert!(matches!(b.handle_get(&s("b"), &s("t")), GetOutcome::Message(2, body) if body == "m2"));
}

#[test]
fn gc_ack_fails_on_empty_topic() {
    let mut b = Broker::new();
    assert_eq!(b.handle_gc_ack(&s("a"), &s("t")), Err(AckError::NotFound));
}

#[test]
fn gc_ack_targets_head_only() {
    let mut b = Broker::new();
    b.handle_subscribe(&s("a"), &s("t"));
    b.handle_publish(&s("t"), s("m1"), 1);
    b.handle_publish(&s("t"), s("m2"), 2);
    assert_eq!(b.handle_gc_ack(&s("a"), &s("t")), Ok(true));
    // a second ack hits the head again, which no longer owes a anything
    assert_eq!(b.handle_gc_ack(&s("a"), &s("t")), Ok(false));
    b.sweep();
    assert!(matches!(b.handle_get(&s("a"), &s("t")), GetOutcome::Message(2, body) if body == "m2"));
}

#[test]
fn snapshot_roundtrip_preserves_state() {
    let mut b = Broker::new();
    b.handle_subscribe(&s("a"), &s("t"));
    b.handle_subscribe(&s("b"), &s("t"));
    b.handle_subscribe(&s("c"), &s("u"));
    b.handle_publish(&s("t"), s("m1"), 11);
    b.handle_publish(&s("u"), s("m2"), 22);
    assert_eq!(b.handle_gc_ack(&s("a"), &s("t")), Ok(true));
    b.sweep();

    let (rs, qs) = b.to_snapshots();
    let mut r = Broker::from_snapshots(rs, qs);

    assert!(r.registry.is_subscribed(&s("t"), &s("a")));
    assert!(r.registry.is_subscribed(&s("t"), &s("b")));
    assert!(r.registry.is_subscribed(&s("u"), &s("c")));
    assert!(!r.registry.is_subscribed(&s("t"), &s("c")));
    assert!(matches!(r.handle_get(&s("a"), &s("t")), GetOutcome::NoneForId));
    assert!(matches!(r.handle_get(&s("b"), &s("t")), GetOutcome::Message(11, body) if body == "m1"));
    assert!(matches!(r.handle_get(&s("c"), &s("u")), GetOutcome::Message(22, body) if body == "m2"));
}

#[test]
fn restore_of_broken_snapshot_starts_empty() {
    let mut b = Broker::new();
    b.handle_subscribe(&s("a"), &s("t"));
    let (mut rs, qs) = b.to_snapshots();
    // duplicate topic entries break the snapshot's invariant
    let extra = pubsub::registry::RegEntry { topic: s("t"), ids: vec![s("x")] };
    rs.push(extra);
    let r = Broker::from_snapshots(rs, qs);
    assert!(!r.registry.contains_topic(&s("t")));
}

#[test]
fn restore_of_queue_with_duplicate_pending_starts_empty() {
    let mut b = Broker::new();
    b.handle_subscribe(&s("a"), &s("t"));
    b.handle_publish(&s("t"), s("m"), 1);
    let (rs, mut qs) = b.to_snapshots();
    // a duplicated pending subscriber breaks the snapshot's invariant
    let broken = pubsub::queue::QEntry {
        topic: s("u"),
        msgs: vec![pubsub::queue::PendingMessage {
            nonce: 2,
            body: s("m2"),
            pending: vec![s("x"), s("x")],
        }],
    };
    qs.push(broken);
    let mut r = Broker::from_snapshots(rs, qs);
    // the registry survived; the queue restarted empty
    assert!(r.registry.is_subscribed(&s("t"), &s("a")));
    assert!(!r.queue.has_messages(&s("t")));
    assert!(matches!(r.handle_get(&s("a"), &s("t")), GetOutcome::NoMessages));
}

#[test]
fn publish_frames_echo_nonce_text() {
    let mut b = Broker::new();
    let (reply, stored) = b.handle_publish_frames(&frames(&[b"t", b"m", b"007"]));
    assert_eq!(reply, vec![s("007")]);
    assert!(!stored);
}

#[test]
fn publish_frames_malformed() {
    let mut b = Broker::new();
    let (reply, stored) = b.handle_publish_frames(&frames(&[b"t", b"m"]));
    assert_eq!(reply, vec![s("-1")]);
    assert!(!stored);
    let (reply, _) = b.handle_publish_frames(&frames(&[b"t", b"m", b"x7"]));
    assert_eq!(reply, vec![s("-1")]);
    let (reply, _) = b.handle_publish_frames(&frames(&[&[0xff], b"m", b"7"]));
    assert_eq!(reply, vec![s("-1")]);
    assert!(!b.queue.has_messages(&s("t")));
}

#[test]
fn command_frames_subscribe_and_get() {
    let mut b = Broker::new();
    let (reply, reg_changed, q_changed) =
        b.handle_command_frames(&frames(&[b"a", b"subscribe", b"t"]));
    assert_eq!(reply, vec![s("a")]);
    assert!(reg_changed);
    assert!(!q_changed);
    b.handle_publish_frames(&frames(&[b"t", b"hello", b"99"]));
    let (reply, _, _) = b.handle_command_frames(&frames(&[b"a", b"get", b"t"]));
    assert_eq!(reply, vec![s("99"), s("hello")]);
}

#[test]
fn command_frames_get_errors() {
    let mut b = Broker::new();
    let (reply, _, _) = b.handle_command_frames(&frames(&[b"a", b"get", b"t"]));
    assert_eq!(reply, vec![s("a"), s("-1"), s("Topic does not exist")]);
    b.handle_command_frames(&frames(&[b"b", b"subscribe", b"t"]));
    let (reply, _, _) = b.handle_command_frames(&frames(&[b"a", b"get", b"t"]));
    assert_eq!(reply, vec![s("a"), s("-1"), s("Not subscribed")]);
    let (reply, _, _) = b.handle_command_frames(&frames(&[b"b", b"get", b"t"]));
    assert_eq!(reply, vec![s("b"), s("-1"), s("No new messages")]);
}

#[test]
fn command_frames_unsubscribe() {
    let mut b = Broker::new();
    b.handle_command_frames(&frames(&[b"a", b"subscribe", b"t"]));
    b.handle_publish_frames(&frames(&[b"t", b"m", b"1"]));
    let (reply, reg_changed, q_changed) =
        b.handle_command_frames(&frames(&[b"a", b"unsubscribe", b"t"]));
    assert_eq!(reply, vec![s("a")]);
    assert!(reg_changed);
    assert!(q_changed);
}

#[test]
fn unknown_operation_is_refused_without_mutation() {
    let mut b = Broker::new();
    let (reply, reg_changed, q_changed) =
        b.handle_command_frames(&frames(&[b"a", b"frobnicate", b"t"]));
    assert_eq!(reply, vec![s("a"), s("-1"), s("Unknown Operation")]);
    assert!(!reg_changed);
    assert!(!q_changed);
    assert!(!b.registry.contains_topic(&s("t")));
    assert!(!b.queue.has_messages(&s("t")));
}

#[test]
fn operation_names_are_case_sensitive() {
    let mut b = Broker::new();
    let (reply, _, _) = b.handle_command_frames(&frames(&[b"a", b"Subscribe", b"t"]));
    assert_eq!(reply, vec![s("a"), s("-1"), s("Unknown Operation")]);
}

#[test]
fn command_frames_malformed() {
    let mut b = Broker::new();
    let (reply, _, _) = b.handle_command_frames(&frames(&[b"a", b"subscribe"]));
    assert_eq!(reply, vec![s("-1")]);
    let (reply, _, _) = b.handle_command_frames(&frames(&[b"a", &[0x80], b"t"]));
    assert_eq!(reply, vec![s("-1")]);
}

#[test]
fn gc_frames_ack_and_abort() {
    let mut b = Broker::new();
    b.handle_command_frames(&frames(&[b"a", b"subscribe", b"t"]));
    b.handle_publish_frames(&frames(&[b"t", b"m", b"6"]));
    let (reply, changed) = b.handle_gc_frames(&frames(&[b"a", b"6", b"t"]));
    assert_eq!(reply, vec![s("a")]);
    assert!(changed);
    // the nonce is accepted but not validated against the queue
    b.handle_publish_frames(&frames(&[b"t", b"m2", b"7"]));
    let (reply, _) = b.handle_gc_frames(&frames(&[b"a", b"12345", b"t"]));
    assert_eq!(reply, vec![s("a")]);
    // a topic with nothing queued gets the abort sentinel
    let (reply, changed) = b.handle_gc_frames(&frames(&[b"a", b"6", b"empty"]));
    assert_eq!(reply, vec![s("-1")]);
    assert!(!changed);
}

#[test]
fn gc_frames_malformed() {
    let mut b = Broker::new();
    let (reply, _) = b.handle_gc_frames(&frames(&[b"a", b"notanumber", b"t"]));
    assert_eq!(reply, vec![s("-1")]);
    let (reply, _) = b.handle_gc_frames(&frames(&[b"a", b"1"]));
    assert_eq!(reply, vec![s("-1")]);
    let (reply, _) = b.handle_gc_frames(&frames(&[&[0xc0], b"1", b"t"]));
    assert_eq!(reply, vec![s("-1")]);
}
