//! The echo workload: reply to every `echo` request with an `echo_ok` that
//! carries the same payload, stamped with the node's next send id.

use vstd::prelude::*;
use crate::message::{
    spec_body_in_reply_to, spec_body_msg_id, Body, BodyView, Event, EventView, Message,
    MessageView,
};
use crate::node::{
    fresh_node_view, init_step, outbox_ids_bounded, outbox_ids_increasing, outbox_src_assigned,
    outcome_ok, HandlerError, MaelstromNode, NodeView, Outcome,
};

verus! {

/// The echo workload keeps no state of its own.
pub struct EchoData;

impl View for EchoData {
    type V = ();

    open spec fn view(&self) -> () {
        ()
    }
}

/// What one event does to an echo node.
pub open spec fn echo_step(pre: NodeView<()>, ev: EventView) -> (NodeView<()>, Outcome) {
    match ev {
        EventView::Message(m) => match m.body {
            BodyView::Init { .. } => init_step(pre, m),
            BodyView::Echo { msg_id, echo } => match pre.node_id {
                Some(id) => (
                    pre,
                    Outcome::Reply(
                        MessageView {
                            src: id,
                            dst: m.src,
                            body: BodyView::EchoOk {
                                msg_id: pre.next_send_id,
                                in_reply_to: msg_id,
                                echo,
                            },
                        },
                    ),
                ),
                None => (pre, Outcome::Fail(HandlerError::MissingIdentity)),
            },
            _ => (pre, Outcome::Silent),
        },
        EventView::Action(_) => (pre, Outcome::Silent),
    }
}

impl MaelstromNode<EchoData> {
    /// Dispatch one event: `init` to the framework handler, `echo` to the
    /// echo handler, everything else dropped.
    pub fn process_event(&mut self, event: Event) -> (r: Option<Result<Message, HandlerError>>)
        ensures
            ({
                let (post, out) = echo_step(old(self)@, event@);
                final(self)@ =~= post && outcome_ok(r, out)
            }),
    {
        match event {
            Event::Message(msg) => match &msg.body {
                Body::Init { .. } => self.handle_init(msg),
                Body::Echo { msg_id, echo } => {
                    let id = match self.node_id.as_str() {
                        Some(id) => id,
                        None => {
                            return Some(Err(HandlerError::MissingIdentity));
                        },
                    };
                    Some(
                        Ok(
                            Message {
                                src: id,
                                dst: msg.src.clone(),
                                body: Body::EchoOk {
                                    msg_id: self.next_send_id,
                                    in_reply_to: *msg_id,
                                    echo: echo.clone(),
                                },
                            },
                        ),
                    )
                },
                _ => None,
            },
            Event::Action(_) => None,
        }
    }

    /// One turn of the event loop: dispatch the event and queue the reply, if
    /// any. A reply is dropped, rather than given a reused id, in the
    /// unreachable case that the send-id counter is exhausted.
    pub fn handle_event(&mut self, event: Event) -> (r: Option<HandlerError>)
        ensures
            ({
                let (post, err) = echo_loop_once(old(self)@, event@);
                final(self)@ =~= post && r == err
            }),
    {
        match self.process_event(event) {
            Some(Ok(m)) => {
                if self.next_send_id < u64::MAX {
                    self.send(m);
                }
                None
            },
            Some(Err(e)) => Some(e),
            None => None,
        }
    }
}

/// One turn of the event loop on an echo node: the step, then the queueing of
/// its reply.
pub open spec fn echo_loop_once(pre: NodeView<()>, ev: EventView) -> (
    NodeView<()>,
    Option<HandlerError>,
) {
    let (post, out) = echo_step(pre, ev);
    match out {
        Outcome::Silent => (post, None),
        Outcome::Fail(e) => (post, Some(e)),
        Outcome::Reply(m) => (
            if post.next_send_id < u64::MAX {
                NodeView {
                    next_send_id: (post.next_send_id + 1) as u64,
                    outbox: post.outbox.push(m),
                    ..post
                }
            } else {
                post
            },
            None,
        ),
    }
}

/// The echo loop run over a whole sequence of events.
pub open spec fn echo_loop_run(pre: NodeView<()>, evs: Seq<EventView>) -> NodeView<()>
    decreases evs.len(),
{
    if evs.len() == 0 {
        pre
    } else {
        echo_loop_once(echo_loop_run(pre, evs.drop_last()), evs.last()).0
    }
}

/// Every reply of the echo node answers the message that caused it: it goes
/// back to the sender, carries the node's assigned id as its source, and its
/// `in_reply_to` is the request's `msg_id`.
pub proof fn lemma_echo_reply_correlation(pre: NodeView<()>, m: MessageView)
    ensures
        ({
            let (post, out) = echo_step(pre, EventView::Message(m));
            out matches Outcome::Reply(rep) ==> {
                &&& rep.dst == m.src
                &&& post.node_id == Some(rep.src)
                &&& spec_body_in_reply_to(rep.body) == spec_body_msg_id(m.body)
            }
        }),
{
}

/// One loop turn keeps the outbox ordered: ids stay below the counter and
/// strictly increase, sources stay the assigned id, the queue only grows, and
/// an assigned identity never changes.
pub proof fn lemma_echo_loop_once_order(pre: NodeView<()>, ev: EventView)
    requires
        outbox_ids_bounded(pre),
        outbox_ids_increasing(pre),
        outbox_src_assigned(pre),
    ensures
        ({
            let post = echo_loop_once(pre, ev).0;
            &&& outbox_ids_bounded(post)
            &&& outbox_ids_increasing(post)
            &&& outbox_src_assigned(post)
            &&& pre.next_send_id <= post.next_send_id
            &&& pre.outbox.len() <= post.outbox.len()
            &&& (forall|i: int| 0 <= i < pre.outbox.len() ==> post.outbox[i] == pre.outbox[i])
            &&& (pre.node_id is Some ==> post.node_id == pre.node_id)
        }),
{
    let (post, _) = echo_loop_once(pre, ev);
    let (stepped, out) = echo_step(pre, ev);
    match out {
        Outcome::Reply(m) => {
            if stepped.next_send_id < u64::MAX {
                assert(post.outbox == stepped.outbox.push(m));
                assert(forall|i: int|
                    0 <= i < stepped.outbox.len() ==> post.outbox[i] == stepped.outbox[i]);
            }
        },
        _ => {},
    }
}

/// Send-id monotonicity and source identity for the echo node: across any
/// run of its loop from a fresh node, messages later in the output stream
/// carry strictly greater `msg_id`s, and every output's `src` is the node id
/// assigned by `init`.
pub proof fn lemma_echo_run_order(evs: Seq<EventView>)
    ensures
        ({
            let post = echo_loop_run(fresh_node_view(()), evs);
            &&& outbox_ids_increasing(post)
            &&& outbox_ids_bounded(post)
            &&& outbox_src_assigned(post)
        }),
    decreases evs.len(),
{
    let start = fresh_node_view(());
    if evs.len() == 0 {
    } else {
        lemma_echo_run_order(evs.drop_last());
        lemma_echo_loop_once_order(echo_loop_run(start, evs.drop_last()), evs.last());
    }
}

} // verus!
