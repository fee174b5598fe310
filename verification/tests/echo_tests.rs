use maelstrom_node::echo::EchoData;
use maelstrom_node::message::{Body, Event, Message};
use maelstrom_node::node::{HandlerError, MaelstromNode};

fn init_message(node_id: &str, msg_id: u64) -> Message {
    Message {
        src: "c1".to_string(),
        dst: node_id.to_string(),
        body: Body::Init {
            msg_id,
            node_id: node_id.to_string(),
            node_ids: vec![node_id.to_string()],
        },
    }
}

fn echo_message(msg_id: u64, echo: &str) -> Message {
    Message {
        src: "c1".to_string(),
        dst: "n1".to_string(),
        body: Body::Echo { msg_id, echo: echo.to_string() },
    }
}

#[test]
fn echo_scenario_two_replies() {
    let mut node: MaelstromNode<EchoData> = MaelstromNode::new(EchoData);
    assert!(node.handle_event(Event::Message(init_message("n1", 1))).is_none());
    assert!(node.handle_event(Event::Message(echo_message(2, "hi"))).is_none());
    let out = node.take_outbox();
    assert_eq!(out.len(), 2);
    assert_eq!(out[0].src, "n1");
    assert_eq!(out[0].dst, "c1");
    assert!(matches!(out[0].body, Body::InitOk { in_reply_to: 1 }));
    assert_eq!(out[1].src, "n1");
    assert_eq!(out[1].dst, "c1");
    match &out[1].body {
        Body::EchoOk { in_reply_to, echo, .. } => {
            assert_eq!(*in_reply_to, 2);
            assert_eq!(echo, "hi");
        }
        other => panic!("expected echo_ok, got {}", other.as_str()),
    }
}

#[test]
fn echo_msg_ids_strictly_increase() {
    let mut node: MaelstromNode<EchoData> = MaelstromNode::new(EchoData);
    node.handle_event(Event::Message(init_message("n1", 1)));
    node.handle_event(Event::Message(echo_message(2, "a")));
    node.handle_event(Event::Message(echo_message(3, "b")));
    node.handle_event(Event::Message(echo_message(4, "c")));
    let out = node.take_outbox();
    assert_eq!(out.len(), 4);
    let mut ids = Vec::new();
    for m in &out {
        if let Body::EchoOk { msg_id, .. } = &m.body {
            ids.push(*msg_id);
        }
    }
    assert_eq!(ids.len(), 3);
    assert!(ids[0] < ids[1]);
    assert!(ids[1] < ids[2]);
}

#[test]
fn unknown_type_is_dropped_and_node_keeps_working() {
    let mut node: MaelstromNode<EchoData> = MaelstromNode::new(EchoData);
    node.handle_event(Event::Message(init_message("n1", 1)));
    let unknown = Message {
        src: "c1".to_string(),
        dst: "n1".to_string(),
        body: Body::Unknown,
    };
    let r = node.process_event(Event::Message(unknown));
    assert!(r.is_none());
    let r = node.process_event(Event::Message(echo_message(5, "still here")));
    match r {
        Some(Ok(m)) => match m.body {
            Body::EchoOk { in_reply_to, echo, .. } => {
                assert_eq!(in_reply_to, 5);
                assert_eq!(echo, "still here");
            }
            _ => panic!("expected echo_ok"),
        },
        _ => panic!("expected a reply"),
    }
}

#[test]
fn echo_before_init_is_a_missing_identity_error() {
    let mut node: MaelstromNode<EchoData> = MaelstromNode::new(EchoData);
    let r = node.process_event(Event::Message(echo_message(1, "early")));
    match r {
        Some(Err(HandlerError::MissingIdentity)) => {}
        _ => panic!("expected the missing-identity error"),
    }
    assert_eq!(HandlerError::MissingIdentity.as_str(), "node id is not assigned");
}

#[test]
fn second_init_is_unhandled_and_identity_is_kept() {
    let mut node: MaelstromNode<EchoData> = MaelstromNode::new(EchoData);
    let first = node.process_event(Event::Message(init_message("n1", 1)));
    assert!(matches!(first, Some(Ok(_))));
    let second = node.process_event(Event::Message(init_message("n9", 2)));
    assert!(second.is_none());
    assert_eq!(node.node_id.as_str(), Some("n1".to_string()));
}

#[test]
fn ticks_are_silent_for_the_echo_node() {
    let mut node: MaelstromNode<EchoData> = MaelstromNode::new(EchoData);
    node.handle_event(Event::Message(init_message("n1", 1)));
    assert!(node.process_event(Event::Action("do_gossip".to_string())).is_none());
    assert_eq!(node.take_outbox().len(), 1);
}
