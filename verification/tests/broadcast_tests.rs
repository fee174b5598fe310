use maelstrom_node::broadcast::BroadcastData;
use maelstrom_node::message::{Body, Event, Message};
use maelstrom_node::node::{HandlerError, MaelstromNode};
use maelstrom_node::topology::TopologyMap;
use maelstrom_node::value::{OpaqueValue, SeenSet};

fn value(text: &str) -> OpaqueValue {
    OpaqueValue::new(text.as_bytes().to_vec())
}

fn init_message(node_id: &str, msg_id: u64) -> Message {
    Message {
        src: "c1".to_string(),
        dst: node_id.to_string(),
        body: Body::Init {
            msg_id,
            node_id: node_id.to_string(),
            node_ids: vec!["n1".to_string(), "n2".to_string()],
        },
    }
}

fn broadcast_message(msg_id: u64, text: &str) -> Message {
    Message {
        src: "c1".to_string(),
        dst: "n1".to_string(),
        body: Body::Broadcast { msg_id, message: value(text) },
    }
}

fn read_message(msg_id: u64) -> Message {
    Message {
        src: "c1".to_string(),
        dst: "n1".to_string(),
        body: Body::Read { msg_id },
    }
}

fn topology_message(msg_id: u64, entries: Vec<(&str, Vec<&str>)>) -> Message {
    let entries = entries
        .into_iter()
        .map(|(k, ns)| (k.to_string(), ns.into_iter().map(|n| n.to_string()).collect()))
        .collect();
    Message {
        src: "c1".to_string(),
        dst: "n1".to_string(),
        body: Body::Topology { msg_id, topology: TopologyMap::new(entries) },
    }
}

fn new_node() -> MaelstromNode<BroadcastData> {
    MaelstromNode::new(BroadcastData::new())
}

fn read_values(node: &mut MaelstromNode<BroadcastData>, msg_id: u64) -> Vec<Vec<u8>> {
    match node.process_event(Event::Message(read_message(msg_id))) {
        Some(Ok(m)) => match m.body {
            Body::ReadOk { in_reply_to, messages } => {
                assert_eq!(in_reply_to, msg_id);
                messages.items.into_iter().map(|v| v.bytes).collect()
            }
            _ => panic!("expected read_ok"),
        },
        _ => panic!("expected a reply to read"),
    }
}

#[test]
fn single_node_broadcast_and_read() {
    let mut node = new_node();
    node.handle_event(Event::Message(init_message("n1", 1)));
    match node.process_event(Event::Message(topology_message(2, vec![("n1", vec![])]))) {
        Some(Ok(m)) => {
            assert_eq!(m.dst, "c1");
            assert_eq!(m.src, "n1");
            assert!(matches!(m.body, Body::TopologyOk { in_reply_to: 2 }));
        }
        _ => panic!("expected topology_ok"),
    }
    match node.process_event(Event::Message(broadcast_message(3, "42"))) {
        Some(Ok(m)) => assert!(matches!(m.body, Body::BroadcastOk { in_reply_to: 3 })),
        _ => panic!("expected broadcast_ok"),
    }
    let values = read_values(&mut node, 4);
    assert_eq!(values, vec![b"42".to_vec()]);
}

#[test]
fn duplicate_broadcasts_are_absorbed() {
    let mut node = new_node();
    node.handle_event(Event::Message(init_message("n1", 1)));
    node.handle_event(Event::Message(broadcast_message(2, "7")));
    node.handle_event(Event::Message(broadcast_message(3, "7")));
    node.handle_event(Event::Message(broadcast_message(4, "8")));
    let mut values = read_values(&mut node, 5);
    values.sort();
    assert_eq!(values, vec![b"7".to_vec(), b"8".to_vec()]);
}

#[test]
fn gossip_is_unioned_in_without_a_reply() {
    let mut node = new_node();
    node.handle_event(Event::Message(init_message("n1", 1)));
    node.handle_event(Event::Message(broadcast_message(2, "2")));
    let mut carried = SeenSet::new();
    carried.insert(value("1"));
    carried.insert(value("2"));
    let gossip = Message {
        src: "n2".to_string(),
        dst: "n1".to_string(),
        body: Body::Gossip { message: carried },
    };
    let r = node.process_event(Event::Message(gossip));
    assert!(r.is_none());
    let mut values = read_values(&mut node, 3);
    values.sort();
    assert_eq!(values, vec![b"1".to_vec(), b"2".to_vec()]);
}

#[test]
fn gossip_tick_sends_the_whole_set_to_every_neighbor() {
    let mut node = new_node();
    node.handle_event(Event::Message(init_message("n1", 1)));
    node.handle_event(Event::Message(topology_message(2, vec![
        ("n1", vec!["n2", "n3"]),
        ("n2", vec!["n1"]),
    ])));
    node.handle_event(Event::Message(broadcast_message(3, "5")));
    node.take_outbox();
    node.handle_event(Event::Action("do_gossip".to_string()));
    let out = node.take_outbox();
    assert_eq!(out.len(), 2);
    assert_eq!(out[0].dst, "n2");
    assert_eq!(out[1].dst, "n3");
    for m in &out {
        assert_eq!(m.src, "n1");
        match &m.body {
            Body::Gossip { message } => {
                assert_eq!(message.len(), 1);
                assert!(message.items[0].value_eq(&value("5")));
            }
            _ => panic!("expected gossip"),
        }
    }
}

#[test]
fn two_nodes_converge_after_one_gossip_round() {
    let mut n1 = new_node();
    let mut n2 = new_node();
    n1.handle_event(Event::Message(init_message("n1", 1)));
    n2.handle_event(Event::Message(init_message("n2", 1)));
    let topo = vec![("n1", vec!["n2"]), ("n2", vec!["n1"])];
    n1.handle_event(Event::Message(topology_message(2, topo.clone())));
    n2.handle_event(Event::Message(topology_message(2, topo)));
    n1.handle_event(Event::Message(broadcast_message(3, "7")));
    n1.take_outbox();
    n1.handle_event(Event::Action("do_gossip".to_string()));
    let out = n1.take_outbox();
    let mut delivered = false;
    for m in out {
        if m.dst == "n2" {
            n2.handle_event(Event::Message(m));
            delivered = true;
        }
    }
    assert!(delivered);
    let values = read_values(&mut n2, 4);
    assert_eq!(values, vec![b"7".to_vec()]);
}

#[test]
fn gossip_tick_without_a_topology_entry_is_dropped() {
    let mut node = new_node();
    node.handle_event(Event::Message(init_message("n1", 1)));
    node.take_outbox();
    node.handle_event(Event::Action("do_gossip".to_string()));
    assert_eq!(node.take_outbox().len(), 0);
}

#[test]
fn other_tick_names_are_dropped() {
    let mut node = new_node();
    node.handle_event(Event::Message(init_message("n1", 1)));
    node.handle_event(Event::Message(topology_message(2, vec![("n1", vec!["n2"])])));
    node.take_outbox();
    node.handle_event(Event::Action("do_compaction".to_string()));
    assert_eq!(node.take_outbox().len(), 0);
}

#[test]
fn broadcast_before_init_is_a_missing_identity_error() {
    let mut node = new_node();
    let r = node.process_event(Event::Message(broadcast_message(1, "1")));
    assert!(matches!(r, Some(Err(HandlerError::MissingIdentity))));
    let r = node.process_event(Event::Message(read_message(2)));
    assert!(matches!(r, Some(Err(HandlerError::MissingIdentity))));
    let r = node.process_event(Event::Message(topology_message(3, vec![])));
    assert!(matches!(r, Some(Err(HandlerError::MissingIdentity))));
}
