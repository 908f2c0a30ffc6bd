use pubsub::broker::Broker;
use pubsub::channel::{
    check_ack, check_gc_reply, check_get_reply, check_publish_reply, command_frames, gc_frames,
    publish_frames, RetryState, SubOperation,
};
use pubsub::errors::PubSubError;

fn s(text: &str) -> String {
    String::from(text)
}

fn to_bytes(parts: &[&str]) -> Vec<Vec<u8>> {
    parts.iter().map(|p| p.as_bytes().to_vec()).collect()
}

#[test]
fn retry_exhaustion_makes_exactly_three_attempts() {
    let mut state = RetryState::new(3);
    let mut attempts: u32 = 0;
    let mut unreachable_broker = false;
    while state.can_attempt() {
        // one attempt: connect, send, wait — and here the wait always times out
        attempts += 1;
        if state.record_timeout() {
            unreachable_broker = true;
        }
    }
    assert_eq!(attempts, 3);
    assert_eq!(state.attempts_made, 3);
    assert!(unreachable_broker);
}

#[test]
fn retry_with_zero_budget_never_attempts() {
    let state = RetryState::new(0);
    assert!(!state.can_attempt());
}

#[test]
fn wire_names() {
    assert_eq!(SubOperation::Subscribe.wire_name(), "subscribe");
    assert_eq!(SubOperation::Unsubscribe.wire_name(), "unsubscribe");
    assert_eq!(SubOperation::Get.wire_name(), "get");
}

#[test]
fn check_ack_accepts_matching_token() {
    let rep = to_bytes(&["client-1"]);
    assert_eq!(check_ack(&rep, 1, &s("client-1")), Ok(s("client-1")));
}

#[test]
fn check_ack_rejects_stale_token() {
    let rep = to_bytes(&["someone-else"]);
    assert_eq!(check_ack(&rep, 1, &s("client-1")), Err(PubSubError::InvalidAck));
}

#[test]
fn check_ack_rejects_wrong_frame_count() {
    let rep = to_bytes(&["client-1", "extra"]);
    assert_eq!(check_ack(&rep, 1, &s("client-1")), Err(PubSubError::MalformedReply));
    assert_eq!(check_ack(&rep, 0, &s("client-1")), Err(PubSubError::MalformedReply));
}

#[test]
fn check_ack_decodes_lossily() {
    // an invalid byte decodes to the replacement character, not to nothing
    let rep = vec![vec![0xff]];
    assert_eq!(check_ack(&rep, 1, &s("\u{FFFD}")), Ok(s("\u{FFFD}")));
    assert_eq!(check_ack(&rep, 1, &s("client-1")), Err(PubSubError::InvalidAck));
}

#[test]
fn publish_reply_matching_nonce() {
    assert_eq!(check_publish_reply(&b"42".to_vec(), 42), Ok(()));
}

#[test]
fn publish_reply_stale_nonce() {
    assert_eq!(check_publish_reply(&b"41".to_vec(), 42), Err(PubSubError::InvalidNonce));
}

#[test]
fn publish_reply_malformed() {
    assert_eq!(check_publish_reply(&b"abc".to_vec(), 42), Err(PubSubError::MalformedReply));
    assert_eq!(check_publish_reply(&b"".to_vec(), 42), Err(PubSubError::MalformedReply));
}

#[test]
fn publish_reply_invalid_utf8_is_empty() {
    assert_eq!(check_publish_reply(&vec![0xff, 0xfe], 42), Err(PubSubError::EmptyReply));
}

#[test]
fn get_reply_success() {
    let rep = to_bytes(&["5", "hello"]);
    assert_eq!(check_get_reply(&rep, &s("a")), Ok((5, s("hello"))));
}

#[test]
fn get_reply_rejection_is_terminal() {
    let rep = to_bytes(&["a", "-1", "No new messages"]);
    assert_eq!(check_get_reply(&rep, &s("a")), Err(PubSubError::InvalidStateBroker));
}

#[test]
fn get_reply_rejection_for_someone_else_is_stale() {
    let rep = to_bytes(&["b", "-1", "No new messages"]);
    assert_eq!(check_get_reply(&rep, &s("a")), Err(PubSubError::InvalidAck));
}

#[test]
fn get_reply_malformed() {
    assert_eq!(check_get_reply(&to_bytes(&["x"]), &s("a")), Err(PubSubError::MalformedReply));
    assert_eq!(
        check_get_reply(&to_bytes(&["nope", "body"]), &s("a")),
        Err(PubSubError::MalformedReply)
    );
    assert_eq!(
        check_get_reply(&to_bytes(&["a", "0", "reason"]), &s("a")),
        Err(PubSubError::MalformedReply)
    );
    assert_eq!(
        check_get_reply(&to_bytes(&["a", "b", "c", "d"]), &s("a")),
        Err(PubSubError::MalformedReply)
    );
}

#[test]
fn gc_reply_acknowledged() {
    assert_eq!(check_gc_reply(&to_bytes(&["a"]), &s("a")), Ok(true));
}

#[test]
fn gc_reply_nothing_to_acknowledge() {
    assert_eq!(check_gc_reply(&to_bytes(&["-1"]), &s("a")), Ok(false));
}

#[test]
fn gc_reply_stale() {
    assert_eq!(check_gc_reply(&to_bytes(&["b"]), &s("a")), Err(PubSubError::InvalidAck));
    assert_eq!(
        check_gc_reply(&to_bytes(&["a", "a"]), &s("a")),
        Err(PubSubError::MalformedReply)
    );
}

#[test]
fn request_frame_builders() {
    assert_eq!(publish_frames(&s("t"), &s("m"), 9), vec![s("t"), s("m"), s("9")]);
    assert_eq!(
        command_frames(&s("a"), SubOperation::Subscribe, &s("t")),
        vec![s("a"), s("subscribe"), s("t")]
    );
    assert_eq!(
        command_frames(&s("a"), SubOperation::Get, &s("t")),
        vec![s("a"), s("get"), s("t")]
    );
    assert_eq!(gc_frames(&s("a"), 31, &s("t")), vec![s("a"), s("31"), s("t")]);
}

fn encode(parts: &[String]) -> Vec<Vec<u8>> {
    parts.iter().map(|p| p.as_bytes().to_vec()).collect()
}

#[test]
fn end_to_end_publish_roundtrip() {
    let mut b = Broker::new();
    let req = publish_frames(&s("t"), &s("m"), 42);
    let (reply, _) = b.handle_publish_frames(&encode(&req));
    assert_eq!(check_publish_reply(&reply[0].as_bytes().to_vec(), 42), Ok(()));
    assert_eq!(check_publish_reply(&reply[0].as_bytes().to_vec(), 43), Err(PubSubError::InvalidNonce));
}

#[test]
fn end_to_end_subscribe_get_gc() {
    let mut b = Broker::new();
    let id = s("client-7");
    let topic = s("t");

    let req = command_frames(&id, SubOperation::Subscribe, &topic);
    let (reply, _, _) = b.handle_command_frames(&encode(&req));
    assert_eq!(check_ack(&encode(&reply), 1, &id), Ok(id.clone()));

    let req = publish_frames(&topic, &s("payload"), 314);
    let (reply, stored) = b.handle_publish_frames(&encode(&req));
    assert!(stored);
    assert_eq!(check_publish_reply(&reply[0].as_bytes().to_vec(), 314), Ok(()));

    let req = command_frames(&id, SubOperation::Get, &topic);
    let (reply, _, _) = b.handle_command_frames(&encode(&req));
    let (nonce, body) = check_get_reply(&encode(&reply), &id).unwrap();
    assert_eq!(nonce, 314);
    assert_eq!(body, "payload");

    let req = gc_frames(&id, nonce, &topic);
    let (reply, _) = b.handle_gc_frames(&encode(&req));
    assert_eq!(check_gc_reply(&encode(&reply), &id), Ok(true));

    b.sweep();
    let req = gc_frames(&id, nonce, &topic);
    let (reply, _) = b.handle_gc_frames(&encode(&req));
    assert_eq!(check_gc_reply(&encode(&reply), &id), Ok(false));
}
