use ceylon::{
    CodecError, Config, Core, DataMessage, DataType, Message, MessageType, StatusMessage,
};

fn join(peer: &str) -> Message {
    Message::new_status(peer.to_string(), StatusMessage::new_join(format!("{peer} joined")))
}

fn leave(peer: &str) -> Message {
    Message::new_status(peer.to_string(), StatusMessage::new_leave(format!("{peer} left")))
}

fn assert_greeting(m: &Message, local: &str) {
    assert_eq!(m.message_type, MessageType::DATA);
    assert_eq!(m.peer_id, local);
    let data = DataMessage::decode(m.data.clone()).unwrap();
    assert_eq!(data.status_type, DataType::SYSTEM);
    assert_eq!(data.meta, format!("Hello from {local}").into_bytes());
}

#[test]
fn join_of_new_peer_greets_once() {
    let mut core = Core::new(Config::dynamic(), "me".to_string());
    let r = core.handle_message(join("p1"));
    let greeting = r.greeting.expect("a greeting");
    assert_greeting(&greeting, "me");
    assert!(r.error.is_none());
    let node = core.node();
    assert_eq!(node.len(), 1);
    assert!(node.has_child("p1".to_string()));
}

#[test]
fn greeting_payload_has_exact_bytes() {
    let mut core = Core::new(Config::dynamic(), "ab".to_string());
    let r = core.handle_message(join("p1"));
    let greeting = r.greeting.unwrap();
    let mut expected = vec![0u8, 13];
    expected.extend_from_slice(b"Hello from ab");
    assert_eq!(greeting.data, expected);
}

#[test]
fn duplicate_join_still_greets() {
    let mut core = Core::new(Config::dynamic(), "me".to_string());
    core.handle_message(join("p1"));
    let r = core.handle_message(join("p1"));
    assert_greeting(&r.greeting.expect("a greeting"), "me");
    assert_eq!(core.node().len(), 1);
}

#[test]
fn leave_on_empty_tree_does_not_greet() {
    let mut core = Core::new(Config::dynamic(), "me".to_string());
    let r = core.handle_message(leave("p1"));
    assert!(r.greeting.is_none());
    assert_eq!(core.node().len(), 0);
}

#[test]
fn leave_of_only_child_keeps_membership_and_greets() {
    let mut core = Core::new(Config::dynamic(), "me".to_string());
    core.handle_message(join("p1"));
    let r = core.handle_message(leave("p1"));
    assert_greeting(&r.greeting.expect("a greeting"), "me");
    assert_eq!(core.node().len(), 1);
}

#[test]
fn data_message_is_forwarded_without_greeting() {
    let mut core = Core::new(Config::dynamic(), "me".to_string());
    core.handle_message(join("p1"));
    let m = Message::new_data("p1".to_string(), vec![1, 2, 3]);
    let r = core.handle_message(m);
    assert!(r.greeting.is_none());
    assert_eq!(r.forward.message_type, MessageType::DATA);
    assert_eq!(r.forward.peer_id, "p1");
    assert_eq!(r.forward.data, vec![1, 2, 3]);
}

#[test]
fn every_message_is_forwarded_unchanged() {
    let mut core = Core::new(Config::dynamic(), "me".to_string());
    let inputs = vec![
        join("a"),
        Message::new_data("b".to_string(), vec![9]),
        leave("a"),
        Message::new(MessageType::STATUS, "c".to_string(), vec![5]),
        join("a"),
    ];
    for m in inputs {
        let r = core.handle_message(m.clone());
        assert_eq!(r.forward.message_type, m.message_type);
        assert_eq!(r.forward.peer_id, m.peer_id);
        assert_eq!(r.forward.data, m.data);
    }
}

#[test]
fn malformed_status_is_dropped_with_error() {
    let mut core = Core::new(Config::dynamic(), "me".to_string());
    core.handle_message(join("p1"));
    let m = Message::new(MessageType::STATUS, "p2".to_string(), vec![0, 3, b'x']);
    let r = core.handle_message(m);
    assert_eq!(r.error, Some(CodecError::UnexpectedEnd));
    assert!(r.greeting.is_none());
    assert_eq!(r.forward.data, vec![0, 3, b'x']);
    assert_eq!(core.node().len(), 1);
    assert!(!core.node().has_child("p2".to_string()));
}

#[test]
fn new_status_carries_encoded_status() {
    let m = Message::new_status("p".to_string(), StatusMessage::new_leave("bye".to_string()));
    assert_eq!(m.message_type, MessageType::STATUS);
    assert_eq!(m.peer_id, "p");
    assert_eq!(m.data, vec![1, 3, b'b', b'y', b'e']);
}
