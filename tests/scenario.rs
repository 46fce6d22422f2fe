use ceylon::{
    transport_reaction, Config, Core, DataMessage, DataType, Message, MessageType,
    TransportAction, TransportEvent,
};

/// Feeds one transport event to a core, the way the runtime does: delivered
/// messages go to the core, its greetings go back to the transport, and what
/// the transport publishes is returned, together with what the core forwarded.
fn pump(core: &mut Core, event: TransportEvent, connected: usize) -> (Vec<Vec<u8>>, Vec<Message>) {
    let mut published = Vec::new();
    let mut forwarded = Vec::new();
    for action in transport_reaction(event, connected) {
        match action {
            TransportAction::Deliver(m) => {
                let reaction = core.handle_message(m);
                forwarded.push(reaction.forward);
                if let Some(g) = reaction.greeting {
                    for a in transport_reaction(TransportEvent::Outgoing(g), connected) {
                        if let TransportAction::Publish(bytes) = a {
                            published.push(bytes);
                        }
                    }
                }
            }
            TransportAction::Publish(bytes) => published.push(bytes),
            _ => {}
        }
    }
    (published, forwarded)
}

#[test]
fn two_cores_discover_each_other_and_greet() {
    let mut a = Core::new(Config::dynamic(), "peer-a".to_string());
    let mut b = Core::new(Config::dynamic(), "peer-b".to_string());

    let (from_a, _) = pump(&mut a, TransportEvent::PeersDiscovered(vec!["peer-b".to_string()]), 1);
    let (from_b, _) = pump(&mut b, TransportEvent::PeersDiscovered(vec!["peer-a".to_string()]), 1);

    assert_eq!(a.node().len(), 1);
    assert!(a.node().has_child("peer-b".to_string()));
    assert_eq!(b.node().len(), 1);
    assert!(b.node().has_child("peer-a".to_string()));
    assert_eq!(from_a.len(), 1);
    assert_eq!(from_b.len(), 1);

    let (_, at_b) = pump(
        &mut b,
        TransportEvent::FrameReceived { source: "peer-a".to_string(), data: from_a[0].clone() },
        1,
    );
    assert_eq!(at_b.len(), 1);
    assert_eq!(at_b[0].message_type, MessageType::DATA);
    assert_eq!(at_b[0].peer_id, "peer-a");
    let greeting = DataMessage::decode(at_b[0].data.clone()).unwrap();
    assert_eq!(greeting.status_type, DataType::SYSTEM);
    assert_eq!(greeting.meta, b"Hello from peer-a".to_vec());

    let (_, at_a) = pump(
        &mut a,
        TransportEvent::FrameReceived { source: "peer-b".to_string(), data: from_b[0].clone() },
        1,
    );
    let greeting = DataMessage::decode(at_a[0].data.clone()).unwrap();
    assert_eq!(greeting.meta, b"Hello from peer-b".to_vec());
}

#[test]
fn greeting_is_not_published_without_connected_peers() {
    let mut a = Core::new(Config::dynamic(), "peer-a".to_string());
    let (published, forwarded) =
        pump(&mut a, TransportEvent::PeersDiscovered(vec!["peer-b".to_string()]), 0);
    assert!(published.is_empty());
    assert_eq!(forwarded.len(), 1);
    assert_eq!(forwarded[0].message_type, MessageType::STATUS);
    assert_eq!(a.node().len(), 1);
}
