use maelstrom_node::message::{Body, Event, Message};
use maelstrom_node::node::{HandlerError, MaelstromNode};
use maelstrom_node::unique_id::{make_unique_id, u64_to_dec, GenerateData};

fn init_message(node_id: &str, msg_id: u64) -> Message {
    Message {
        src: "c1".to_string(),
        dst: node_id.to_string(),
        body: Body::Init {
            msg_id,
            node_id: node_id.to_string(),
            node_ids: vec![node_id.to_string()],
        },
    }
}

fn generate_message(msg_id: u64) -> Message {
    Message {
        src: "c1".to_string(),
        dst: "n1".to_string(),
        body: Body::Generate { msg_id },
    }
}

#[test]
fn decimal_rendering_exact_values() {
    assert_eq!(u64_to_dec(0), "0");
    assert_eq!(u64_to_dec(7), "7");
    assert_eq!(u64_to_dec(10), "10");
    assert_eq!(u64_to_dec(12345), "12345");
    assert_eq!(u64_to_dec(u64::MAX), "18446744073709551615");
}

#[test]
fn minted_id_shape() {
    assert_eq!(make_unique_id(&"n1".to_string(), 0), "n1_0");
    assert_eq!(make_unique_id(&"n1".to_string(), 42), "n1_42");
    assert_eq!(make_unique_id(&"node_7".to_string(), 11), "node_7_11");
}

#[test]
fn two_generates_yield_distinct_ids() {
    let mut node: MaelstromNode<GenerateData> = MaelstromNode::new(GenerateData);
    node.handle_event(Event::Message(init_message("n1", 1)));
    node.handle_event(Event::Message(generate_message(1)));
    node.handle_event(Event::Message(generate_message(2)));
    let out = node.take_outbox();
    assert_eq!(out.len(), 3);
    let mut ids = Vec::new();
    for m in &out {
        if let Body::GenerateOk { in_reply_to, id } = &m.body {
            assert!(*in_reply_to == 1 || *in_reply_to == 2);
            assert!(id.starts_with("n1_"));
            ids.push(id.clone());
        }
    }
    assert_eq!(ids.len(), 2);
    assert_ne!(ids[0], ids[1]);
}

#[test]
fn nodes_with_different_ids_mint_disjoint_ids() {
    let mut a: MaelstromNode<GenerateData> = MaelstromNode::new(GenerateData);
    let mut b: MaelstromNode<GenerateData> = MaelstromNode::new(GenerateData);
    a.handle_event(Event::Message(init_message("n1", 1)));
    b.handle_event(Event::Message(init_message("n2", 1)));
    for k in 0..4 {
        a.handle_event(Event::Message(generate_message(k)));
        b.handle_event(Event::Message(generate_message(k)));
    }
    let mut ids = Vec::new();
    for m in a.take_outbox().iter().chain(b.take_outbox().iter()) {
        if let Body::GenerateOk { id, .. } = &m.body {
            ids.push(id.clone());
        }
    }
    assert_eq!(ids.len(), 8);
    for i in 0..ids.len() {
        for j in (i + 1)..ids.len() {
            assert_ne!(ids[i], ids[j]);
        }
    }
}

#[test]
fn generate_before_init_is_a_missing_identity_error() {
    let mut node: MaelstromNode<GenerateData> = MaelstromNode::new(GenerateData);
    let r = node.process_event(Event::Message(generate_message(1)));
    assert!(matches!(r, Some(Err(HandlerError::MissingIdentity))));
}
