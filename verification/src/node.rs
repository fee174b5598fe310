//! The node core: identity, the send-id counter, the outbox, and the
//! framework-provided `init` handling shared by every workload.
//!
//! A node starts with its identity unassigned; the first `init` request
//! assigns it, once and for all, and is answered with `init_ok`. Outbound
//! messages are queued on the node's outbox in send order; the code around
//! the library writes them out and gets, for each queued message, one
//! increment of the send-id counter already accounted for.

use vstd::prelude::*;
use crate::message::{spec_body_msg_id, Body, BodyView, Message, MessageView};

verus! {

/// The node's identity: unassigned until the first `init`, then fixed.
pub enum MaelstromNodeId {
    Unassigned,
    Assigned(String),
}

impl MaelstromNodeId {
    /// The assigned id, if any.
    pub open spec fn id(&self) -> Option<Seq<char>> {
        match self {
            MaelstromNodeId::Unassigned => None,
            MaelstromNodeId::Assigned(s) => Some(s@),
        }
    }

    /// The assigned id as an owned string, or `None` while unassigned.
    pub fn as_str(&self) -> (r: Option<String>)
        ensures
            match r {
                Some(s) => self.id() == Some(s@),
                None => self.id() is None,
            },
    {
        match self {
            MaelstromNodeId::Assigned(id) => Some(id.clone()),
            MaelstromNodeId::Unassigned => None,
        }
    }
}

impl From<String> for MaelstromNodeId {
    fn from(value: String) -> (r: Self) {
        Self::Assigned(value)
    }
}

impl vstd::std_specs::convert::FromSpecImpl<String> for MaelstromNodeId {
    open spec fn obeys_from_spec() -> bool {
        true
    }

    open spec fn from_spec(value: String) -> Self {
        MaelstromNodeId::Assigned(value)
    }
}

/// What a handler can report instead of a reply. Reading the identity before
/// `init` is a programmer error and is fatal to the process.
pub enum HandlerError {
    MissingIdentity,
}

impl HandlerError {
    pub fn as_str(&self) -> (r: &'static str)
        ensures
            r@ == "node id is not assigned"@,
    {
        match self {
            HandlerError::MissingIdentity => "node id is not assigned",
        }
    }
}

/// What one dispatch decides: stay silent, write a reply, or report an error.
#[verifier::ext_equal]
pub enum Outcome {
    Silent,
    Reply(MessageView),
    Fail(HandlerError),
}

/// Whether an exec dispatch result realizes a decided outcome.
pub open spec fn outcome_ok(r: Option<Result<Message, HandlerError>>, out: Outcome) -> bool {
    match r {
        Option::None => out is Silent,
        Option::Some(res) => match res {
            Result::Ok(m) => out == Outcome::Reply(m@),
            Result::Err(e) => out == Outcome::Fail(e),
        },
    }
}

/// The mathematical shape of a node.
#[verifier::ext_equal]
pub struct NodeView<E> {
    pub node_id: Option<Seq<char>>,
    pub next_send_id: u64,
    pub outbox: Seq<MessageView>,
    pub extra: E,
}

/// The state a node is born with: unassigned, counter at zero, nothing
/// queued.
pub open spec fn fresh_node_view<E>(extra: E) -> NodeView<E> {
    NodeView { node_id: None, next_send_id: 0, outbox: Seq::empty(), extra }
}

/// Every queued message that carries a `msg_id` got it from a counter reading
/// below the current one.
pub open spec fn outbox_ids_bounded<E>(v: NodeView<E>) -> bool {
    forall|i: int|
        0 <= i < v.outbox.len() ==> match spec_body_msg_id(#[trigger] v.outbox[i].body) {
            Some(x) => x < v.next_send_id,
            None => true,
        }
}

/// Among the queued messages, `msg_id`s strictly increase in queue order.
pub open spec fn outbox_ids_increasing<E>(v: NodeView<E>) -> bool {
    forall|i: int, j: int|
        0 <= i < j < v.outbox.len() ==> match (
            spec_body_msg_id(#[trigger] v.outbox[i].body),
            spec_body_msg_id(#[trigger] v.outbox[j].body),
        ) {
            (Some(x), Some(y)) => x < y,
            _ => true,
        }
}

/// Nothing is queued before the identity is assigned, and everything queued
/// afterwards carries the assigned id as its source.
pub open spec fn outbox_src_assigned<E>(v: NodeView<E>) -> bool {
    match v.node_id {
        None => v.outbox.len() == 0,
        Some(id) => forall|i: int| 0 <= i < v.outbox.len() ==> (#[trigger] v.outbox[i].src) == id,
    }
}

/// One node: identity, send-id counter, queued outbound messages, and the
/// workload's own state.
pub struct MaelstromNode<Extra> {
    pub node_id: MaelstromNodeId,
    pub next_send_id: u64,
    pub outbox: Vec<Message>,
    pub extra_data: Extra,
}

impl<Extra: View> View for MaelstromNode<Extra> {
    type V = NodeView<<Extra as View>::V>;

    open spec fn view(&self) -> NodeView<<Extra as View>::V> {
        NodeView {
            node_id: self.node_id.id(),
            next_send_id: self.next_send_id,
            outbox: self.outbox@.map_values(|m: Message| m@),
            extra: self.extra_data@,
        }
    }
}

/// What the first `init` does to a node: assign the identity and reply
/// `init_ok`; any other event, and any later `init`, is left to the workload
/// or dropped.
pub open spec fn init_step<E>(pre: NodeView<E>, m: MessageView) -> (NodeView<E>, Outcome) {
    match m.body {
        BodyView::Init { msg_id, node_id, .. } => {
            if pre.node_id is None {
                (
                    NodeView { node_id: Some(node_id), ..pre },
                    Outcome::Reply(
                        MessageView {
                            src: node_id,
                            dst: m.src,
                            body: BodyView::InitOk { in_reply_to: msg_id },
                        },
                    ),
                )
            } else {
                (pre, Outcome::Silent)
            }
        },
        _ => (pre, Outcome::Silent),
    }
}

impl<Extra: View> MaelstromNode<Extra> {
    /// A fresh node around the given workload state: unassigned, counter at
    /// zero, nothing queued.
    pub fn new(extra_data: Extra) -> (r: MaelstromNode<Extra>)
        ensures
            r@.node_id is None,
            r@.next_send_id == 0,
            r@.outbox =~= Seq::<MessageView>::empty(),
            r@.extra == extra_data@,
    {
        let r = MaelstromNode {
            node_id: MaelstromNodeId::Unassigned,
            next_send_id: 0,
            outbox: Vec::new(),
            extra_data,
        };
        proof {
            assert(r@.outbox =~= Seq::<MessageView>::empty());
        }
        r
    }

    /// Queue one outbound message and account for its send id.
    pub fn send(&mut self, msg: Message)
        requires
            old(self).next_send_id < u64::MAX,
        ensures
            final(self)@ =~= (NodeView {
                next_send_id: (old(self).next_send_id + 1) as u64,
                outbox: old(self)@.outbox.push(msg@),
                ..old(self)@
            }),
            final(self).node_id == old(self).node_id,
            final(self).extra_data == old(self).extra_data,
    {
        let ghost pre = self@.outbox;
        let ghost mv = msg@;
        self.outbox.push(msg);
        self.next_send_id = self.next_send_id + 1;
        proof {
            assert(self@.outbox =~= pre.push(mv));
        }
    }

    /// Hand out the queued messages, oldest first, leaving the queue empty.
    pub fn take_outbox(&mut self) -> (r: Vec<Message>)
        ensures
            final(self)@ =~= (NodeView { outbox: Seq::<MessageView>::empty(), ..old(self)@ }),
            r@.map_values(|m: Message| m@) == old(self)@.outbox,
    {
        let mut taken: Vec<Message> = Vec::new();
        core::mem::swap(&mut taken, &mut self.outbox);
        proof {
            assert(self@.outbox =~= Seq::<MessageView>::empty());
        }
        taken
    }

    /// The framework's own handler for `init` requests (and nothing else):
    /// the first one assigns the identity and is answered `init_ok`; any
    /// other message is not this handler's business and is left untouched.
    pub fn handle_init(&mut self, msg: Message) -> (r: Option<Result<Message, HandlerError>>)
        ensures
            final(self).extra_data == old(self).extra_data,
            ({
                let (post, out) = init_step(old(self)@, msg@);
                final(self)@ =~= post && outcome_ok(r, out)
            }),
    {
        match msg.body {
            Body::Init { msg_id, node_id, node_ids: _ } => {
                match self.node_id {
                    MaelstromNodeId::Unassigned => {
                        let src = node_id.clone();
                        self.node_id = MaelstromNodeId::Assigned(node_id);
                        Some(
                            Ok(
                                Message {
                                    src,
                                    dst: msg.src,
                                    body: Body::InitOk { in_reply_to: msg_id },
                                },
                            ),
                        )
                    },
                    MaelstromNodeId::Assigned(_) => None,
                }
            },
            _ => None,
        }
    }
}

} // verus!
