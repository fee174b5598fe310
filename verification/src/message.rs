//! The message model: envelopes, tagged bodies, and the events the loop
//! dispatches on.
//!
//! A wire message is an envelope `src`/`dest`/`body`; the body is a tagged
//! union whose tag is the `type` field of the wire object. A body of a type
//! the node does not know decodes to [`Body::Unknown`], which every
//! dispatcher drops. The event loop treats inbound messages and internal
//! timer ticks uniformly through [`Event`].

use vstd::prelude::*;
use crate::topology::TopologyMap;
use crate::value::{OpaqueValue, SeenSet};

verus! {

/// One wire message.
pub struct Message {
    pub src: String,
    pub dst: String,
    pub body: Body,
}

/// The tagged body of a message.
pub enum Body {
    Echo { msg_id: u64, echo: String },
    EchoOk { msg_id: u64, in_reply_to: u64, echo: String },
    Init { msg_id: u64, node_id: String, node_ids: Vec<String> },
    InitOk { in_reply_to: u64 },
    Generate { msg_id: u64 },
    GenerateOk { in_reply_to: u64, id: String },
    Topology { msg_id: u64, topology: TopologyMap },
    TopologyOk { in_reply_to: u64 },
    Broadcast { msg_id: u64, message: OpaqueValue },
    BroadcastOk { in_reply_to: u64 },
    Read { msg_id: u64 },
    ReadOk { in_reply_to: u64, messages: SeenSet },
    Gossip { message: SeenSet },
    /// A body whose `type` the node does not know; always dropped.
    Unknown,
}

/// What the event loop consumes: an inbound message or a named timer tick.
pub enum Event {
    Message(Message),
    Action(String),
}

/// The mathematical shape of a body.
#[verifier::ext_equal]
pub enum BodyView {
    Echo { msg_id: u64, echo: Seq<char> },
    EchoOk { msg_id: u64, in_reply_to: u64, echo: Seq<char> },
    Init { msg_id: u64, node_id: Seq<char>, node_ids: Seq<Seq<char>> },
    InitOk { in_reply_to: u64 },
    Generate { msg_id: u64 },
    GenerateOk { in_reply_to: u64, id: Seq<char> },
    Topology { msg_id: u64, topology: Map<Seq<char>, Seq<Seq<char>>> },
    TopologyOk { in_reply_to: u64 },
    Broadcast { msg_id: u64, message: Seq<u8> },
    BroadcastOk { in_reply_to: u64 },
    Read { msg_id: u64 },
    ReadOk { in_reply_to: u64, messages: Set<Seq<u8>> },
    Gossip { message: Set<Seq<u8>> },
    Unknown,
}

/// The mathematical shape of a message.
#[verifier::ext_equal]
pub struct MessageView {
    pub src: Seq<char>,
    pub dst: Seq<char>,
    pub body: BodyView,
}

/// The mathematical shape of an event.
#[verifier::ext_equal]
pub enum EventView {
    Message(MessageView),
    Action(Seq<char>),
}

impl View for Body {
    type V = BodyView;

    open spec fn view(&self) -> BodyView {
        match self {
            Body::Echo { msg_id, echo } => BodyView::Echo { msg_id: *msg_id, echo: echo@ },
            Body::EchoOk { msg_id, in_reply_to, echo } => BodyView::EchoOk {
                msg_id: *msg_id,
                in_reply_to: *in_reply_to,
                echo: echo@,
            },
            Body::Init { msg_id, node_id, node_ids } => BodyView::Init {
                msg_id: *msg_id,
                node_id: node_id@,
                node_ids: node_ids.deep_view(),
            },
            Body::InitOk { in_reply_to } => BodyView::InitOk { in_reply_to: *in_reply_to },
            Body::Generate { msg_id } => BodyView::Generate { msg_id: *msg_id },
            Body::GenerateOk { in_reply_to, id } => BodyView::GenerateOk {
                in_reply_to: *in_reply_to,
                id: id@,
            },
            Body::Topology { msg_id, topology } => BodyView::Topology {
                msg_id: *msg_id,
                topology: topology@,
            },
            Body::TopologyOk { in_reply_to } => BodyView::TopologyOk { in_reply_to: *in_reply_to },
            Body::Broadcast { msg_id, message } => BodyView::Broadcast {
                msg_id: *msg_id,
                message: message@,
            },
            Body::BroadcastOk { in_reply_to } => BodyView::BroadcastOk {
                in_reply_to: *in_reply_to,
            },
            Body::Read { msg_id } => BodyView::Read { msg_id: *msg_id },
            Body::ReadOk { in_reply_to, messages } => BodyView::ReadOk {
                in_reply_to: *in_reply_to,
                messages: messages@,
            },
            Body::Gossip { message } => BodyView::Gossip { message: message@ },
            Body::Unknown => BodyView::Unknown,
        }
    }
}

impl View for Message {
    type V = MessageView;

    open spec fn view(&self) -> MessageView {
        MessageView { src: self.src@, dst: self.dst@, body: self.body@ }
    }
}

impl View for Event {
    type V = EventView;

    open spec fn view(&self) -> EventView {
        match self {
            Event::Message(m) => EventView::Message(m@),
            Event::Action(name) => EventView::Action(name@),
        }
    }
}

/// The dispatch key of a body: its wire `type` tag.
pub open spec fn spec_body_key(b: BodyView) -> Seq<char> {
    match b {
        BodyView::Echo { .. } => "echo"@,
        BodyView::EchoOk { .. } => "echo_ok"@,
        BodyView::Init { .. } => "init"@,
        BodyView::InitOk { .. } => "init_ok"@,
        BodyView::Generate { .. } => "generate"@,
        BodyView::GenerateOk { .. } => "generate_ok"@,
        BodyView::Topology { .. } => "topology"@,
        BodyView::TopologyOk { .. } => "topology_ok"@,
        BodyView::Broadcast { .. } => "broadcast"@,
        BodyView::BroadcastOk { .. } => "broadcast_ok"@,
        BodyView::Read { .. } => "read"@,
        BodyView::ReadOk { .. } => "read_ok"@,
        BodyView::Gossip { .. } => "gossip"@,
        BodyView::Unknown => "unknown"@,
    }
}

impl Body {
    /// The wire `type` tag under which this body dispatches.
    pub fn as_str(&self) -> (r: &'static str)
        ensures
            r@ == spec_body_key(self@),
    {
        match self {
            Body::Echo { .. } => "echo",
            Body::EchoOk { .. } => "echo_ok",
            Body::Init { .. } => "init",
            Body::InitOk { .. } => "init_ok",
            Body::Generate { .. } => "generate",
            Body::GenerateOk { .. } => "generate_ok",
            Body::Topology { .. } => "topology",
            Body::TopologyOk { .. } => "topology_ok",
            Body::Broadcast { .. } => "broadcast",
            Body::BroadcastOk { .. } => "broadcast_ok",
            Body::Read { .. } => "read",
            Body::ReadOk { .. } => "read_ok",
            Body::Gossip { .. } => "gossip",
            Body::Unknown => "unknown",
        }
    }
}

/// The request id a body carries, if any.
pub open spec fn spec_body_msg_id(b: BodyView) -> Option<u64> {
    match b {
        BodyView::Echo { msg_id, .. } => Some(msg_id),
        BodyView::EchoOk { msg_id, .. } => Some(msg_id),
        BodyView::Init { msg_id, .. } => Some(msg_id),
        BodyView::Generate { msg_id } => Some(msg_id),
        BodyView::Topology { msg_id, .. } => Some(msg_id),
        BodyView::Broadcast { msg_id, .. } => Some(msg_id),
        BodyView::Read { msg_id } => Some(msg_id),
        BodyView::InitOk { .. } => None,
        BodyView::GenerateOk { .. } => None,
        BodyView::TopologyOk { .. } => None,
        BodyView::BroadcastOk { .. } => None,
        BodyView::ReadOk { .. } => None,
        BodyView::Gossip { .. } => None,
        BodyView::Unknown => None,
    }
}

/// The request id a reply body answers, if any.
pub open spec fn spec_body_in_reply_to(b: BodyView) -> Option<u64> {
    match b {
        BodyView::EchoOk { in_reply_to, .. } => Some(in_reply_to),
        BodyView::InitOk { in_reply_to } => Some(in_reply_to),
        BodyView::GenerateOk { in_reply_to, .. } => Some(in_reply_to),
        BodyView::TopologyOk { in_reply_to } => Some(in_reply_to),
        BodyView::BroadcastOk { in_reply_to } => Some(in_reply_to),
        BodyView::ReadOk { in_reply_to, .. } => Some(in_reply_to),
        _ => None,
    }
}

} // verus!
