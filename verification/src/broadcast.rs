//! The broadcast workload: accept values from clients, answer `read` with the
//! accumulated set, and flood the set to the topology neighbors on every
//! gossip tick.
//!
//! Convergence rests on three facts stated in the contracts here: the seen
//! set only grows and absorbs duplicates, a gossip tick sends the whole set
//! to every neighbor, and an inbound `gossip` unions the carried set in. The
//! timer that fires the ticks lives outside the library and feeds the loop an
//! [`Event::Action`] named `do_gossip`.

use vstd::prelude::*;
use vstd::string::StringExecFns;
use crate::message::{
    spec_body_in_reply_to, spec_body_msg_id, Body, BodyView, Event, EventView, Message,
    MessageView,
};
use crate::node::{
    fresh_node_view, init_step, outbox_ids_bounded, outbox_ids_increasing, outbox_src_assigned,
    outcome_ok, HandlerError, MaelstromNode, NodeView, Outcome,
};
use crate::topology::TopologyMap;
use crate::value::SeenSet;

verus! {

/// The broadcast workload's own state.
pub struct BroadcastData {
    pub topology: TopologyMap,
    pub seen: SeenSet,
}

/// The mathematical shape of the broadcast state.
#[verifier::ext_equal]
pub struct BroadcastView {
    pub topology: Map<Seq<char>, Seq<Seq<char>>>,
    pub seen: Set<Seq<u8>>,
}

impl View for BroadcastData {
    type V = BroadcastView;

    open spec fn view(&self) -> BroadcastView {
        BroadcastView { topology: self.topology@, seen: self.seen@ }
    }
}

impl BroadcastData {
    /// Empty topology, nothing seen.
    pub fn new() -> (r: BroadcastData)
        ensures
            r@.topology =~= Map::<Seq<char>, Seq<Seq<char>>>::empty(),
            r@.seen =~= Set::<Seq<u8>>::empty(),
            r.seen.wf(),
    {
        BroadcastData { topology: TopologyMap::empty(), seen: SeenSet::new() }
    }
}

/// The gossip messages one tick addresses to the given neighbors: each
/// carries the same snapshot of the seen set.
pub open spec fn gossip_messages(
    id: Seq<char>,
    neighbors: Seq<Seq<char>>,
    seen: Set<Seq<u8>>,
) -> Seq<MessageView> {
    Seq::new(
        neighbors.len(),
        |i: int| MessageView { src: id, dst: neighbors[i], body: BodyView::Gossip { message: seen } },
    )
}

/// What a `do_gossip` tick does: queue one gossip message per neighbor of
/// this node. The tick is dropped when the node is not initialized, has no
/// topology entry, or the send-id counter could not cover the fan-out.
pub open spec fn gossip_tick_step(pre: NodeView<BroadcastView>) -> NodeView<BroadcastView> {
    match pre.node_id {
        None => pre,
        Some(id) => {
            if !pre.extra.topology.dom().contains(id) {
                pre
            } else {
                let neighbors = pre.extra.topology[id];
                if pre.next_send_id + neighbors.len() <= u64::MAX {
                    NodeView {
                        next_send_id: (pre.next_send_id + neighbors.len()) as u64,
                        outbox: pre.outbox + gossip_messages(id, neighbors, pre.extra.seen),
                        ..pre
                    }
                } else {
                    pre
                }
            }
        },
    }
}

/// What one event does to a broadcast node.
pub open spec fn broadcast_step(pre: NodeView<BroadcastView>, ev: EventView) -> (
    NodeView<BroadcastView>,
    Outcome,
) {
    match ev {
        EventView::Message(m) => match m.body {
            BodyView::Init { .. } => init_step(pre, m),
            BodyView::Topology { msg_id, topology } => match pre.node_id {
                Some(id) => (
                    NodeView { extra: BroadcastView { topology, ..pre.extra }, ..pre },
                    Outcome::Reply(
                        MessageView {
                            src: id,
                            dst: m.src,
                            body: BodyView::TopologyOk { in_reply_to: msg_id },
                        },
                    ),
                ),
                None => (pre, Outcome::Fail(HandlerError::MissingIdentity)),
            },
            BodyView::Broadcast { msg_id, message } => match pre.node_id {
                Some(id) => (
                    NodeView {
                        extra: BroadcastView { seen: pre.extra.seen.insert(message), ..pre.extra },
                        ..pre
                    },
                    Outcome::Reply(
                        MessageView {
                            src: id,
                            dst: m.src,
                            body: BodyView::BroadcastOk { in_reply_to: msg_id },
                        },
                    ),
                ),
                None => (pre, Outcome::Fail(HandlerError::MissingIdentity)),
            },
            BodyView::Read { msg_id } => match pre.node_id {
                Some(id) => (
                    pre,
                    Outcome::Reply(
                        MessageView {
                            src: id,
                            dst: m.src,
                            body: BodyView::ReadOk {
                                in_reply_to: msg_id,
                                messages: pre.extra.seen,
                            },
                        },
                    ),
                ),
                None => (pre, Outcome::Fail(HandlerError::MissingIdentity)),
            },
            BodyView::Gossip { message } => (
                NodeView {
                    extra: BroadcastView { seen: pre.extra.seen.union(message), ..pre.extra },
                    ..pre
                },
                Outcome::Silent,
            ),
            _ => (pre, Outcome::Silent),
        },
        EventView::Action(name) => {
            if name == "do_gossip"@ {
                (gossip_tick_step(pre), Outcome::Silent)
            } else {
                (pre, Outcome::Silent)
            }
        },
    }
}

impl MaelstromNode<BroadcastData> {
    /// Dispatch one event: `init` to the framework handler, the broadcast
    /// bodies to their handlers, the `do_gossip` tick to the gossip fan-out,
    /// everything else dropped.
    pub fn process_event(&mut self, event: Event) -> (r: Option<Result<Message, HandlerError>>)
        requires
            old(self).extra_data.seen.wf(),
        ensures
            final(self).extra_data.seen.wf(),
            ({
                let (post, out) = broadcast_step(old(self)@, event@);
                final(self)@ =~= post && outcome_ok(r, out)
            }),
    {
        match event {
            Event::Message(msg) => match msg.body {
                Body::Init { msg_id, node_id, node_ids } => self.handle_init(
                    Message {
                        src: msg.src,
                        dst: msg.dst,
                        body: Body::Init { msg_id, node_id, node_ids },
                    },
                ),
                Body::Topology { msg_id, topology } => {
                    let id = match self.node_id.as_str() {
                        Some(id) => id,
                        None => {
                            return Some(Err(HandlerError::MissingIdentity));
                        },
                    };
                    self.extra_data.topology = topology;
                    Some(
                        Ok(
                            Message {
                                src: id,
                                dst: msg.src,
                                body: Body::TopologyOk { in_reply_to: msg_id },
                            },
                        ),
                    )
                },
                Body::Broadcast { msg_id, message } => {
                    let id = match self.node_id.as_str() {
                        Some(id) => id,
                        None => {
                            return Some(Err(HandlerError::MissingIdentity));
                        },
                    };
                    self.extra_data.seen.insert(message);
                    Some(
                        Ok(
                            Message {
                                src: id,
                                dst: msg.src,
                                body: Body::BroadcastOk { in_reply_to: msg_id },
                            },
                        ),
                    )
                },
                Body::Read { msg_id } => {
                    let id = match self.node_id.as_str() {
                        Some(id) => id,
                        None => {
                            return Some(Err(HandlerError::MissingIdentity));
                        },
                    };
                    let snapshot = self.extra_data.seen.snapshot();
                    Some(
                        Ok(
                            Message {
                                src: id,
                                dst: msg.src,
                                body: Body::ReadOk { in_reply_to: msg_id, messages: snapshot },
                            },
                        ),
                    )
                },
                Body::Gossip { message } => {
                    self.extra_data.seen.absorb(&message);
                    None
                },
                _ => None,
            },
            Event::Action(name) => {
                let key = String::from_str("do_gossip");
                if name == key {
                    self.do_gossip();
                    None
                } else {
                    None
                }
            },
        }
    }

    /// One gossip tick: queue the current seen set to every neighbor.
    fn do_gossip(&mut self)
        requires
            old(self).extra_data.seen.wf(),
        ensures
            final(self).extra_data.seen.wf(),
            final(self)@ =~= gossip_tick_step(old(self)@),
    {
        let id = match self.node_id.as_str() {
            Some(id) => id,
            None => {
                return ;
            },
        };
        let neighbors = match self.extra_data.topology.neighbors_of(&id) {
            Some(ns) => ns,
            None => {
                return ;
            },
        };
        let fan_out = neighbors.len() as u64;
        if self.next_send_id > u64::MAX - fan_out {
            return ;
        }
        let ghost idv = id@;
        let ghost ns = neighbors.deep_view();
        let ghost seenv = self.extra_data.seen@;
        let ghost pre = old(self)@;
        let n = neighbors.len();
        let mut i: usize = 0;
        while i < n
            invariant
                n == neighbors@.len(),
                ns == neighbors.deep_view(),
                i <= n,
                id@ == idv,
                self.node_id == old(self).node_id,
                self.extra_data == old(self).extra_data,
                self.extra_data.seen@ == seenv,
                old(self).next_send_id + n <= u64::MAX,
                self.next_send_id == old(self).next_send_id + i,
                self@.outbox =~= pre.outbox + gossip_messages(idv, ns, seenv).take(i as int),
            decreases n - i,
        {
            let gossip = Message {
                src: id.clone(),
                dst: neighbors[i].clone(),
                body: Body::Gossip { message: self.extra_data.seen.snapshot() },
            };
            proof {
                assert(gossip@ == gossip_messages(idv, ns, seenv)[i as int]) by {
                    assert(gossip@.body =~= BodyView::Gossip { message: seenv });
                    assert(gossip@ =~= gossip_messages(idv, ns, seenv)[i as int]);
                }
            }
            self.send(gossip);
            proof {
                assert(self@.outbox =~= pre.outbox + gossip_messages(idv, ns, seenv).take(
                    i + 1,
                ));
            }
            i = i + 1;
        }
        proof {
            assert(gossip_messages(idv, ns, seenv).take(n as int) =~= gossip_messages(
                idv,
                ns,
                seenv,
            ));
            assert(self@ =~= gossip_tick_step(pre));
        }
    }

    /// One turn of the event loop: dispatch the event and queue the reply, if
    /// any. A reply is dropped in the unreachable case that the send-id
    /// counter is exhausted.
    pub fn handle_event(&mut self, event: Event) -> (r: Option<HandlerError>)
        requires
            old(self).extra_data.seen.wf(),
        ensures
            final(self).extra_data.seen.wf(),
            ({
                let (post, err) = broadcast_loop_once(old(self)@, event@);
                final(self)@ =~= post && r == err
            }),
    {
        match self.process_event(event) {
            Some(Ok(m)) => {
                if self.next_send_id < u64::MAX {
                    self.send(m);
                }
                None
            },
            Some(Err(e)) => Some(e),
            None => None,
        }
    }
}

/// One turn of the event loop on a broadcast node: the step, then the
/// queueing of its reply.
pub open spec fn broadcast_loop_once(pre: NodeView<BroadcastView>, ev: EventView) -> (
    NodeView<BroadcastView>,
    Option<HandlerError>,
) {
    let (post, out) = broadcast_step(pre, ev);
    match out {
        Outcome::Silent => (post, None),
        Outcome::Fail(e) => (post, Some(e)),
        Outcome::Reply(m) => (
            if post.next_send_id < u64::MAX {
                NodeView {
                    next_send_id: (post.next_send_id + 1) as u64,
                    outbox: post.outbox.push(m),
                    ..post
                }
            } else {
                post
            },
            None,
        ),
    }
}

/// The broadcast loop run over a whole sequence of events.
pub open spec fn broadcast_loop_run(
    pre: NodeView<BroadcastView>,
    evs: Seq<EventView>,
) -> NodeView<BroadcastView>
    decreases evs.len(),
{
    if evs.len() == 0 {
        pre
    } else {
        broadcast_loop_once(broadcast_loop_run(pre, evs.drop_last()), evs.last()).0
    }
}

/// The values a sequence of events inserts: each `broadcast` contributes its
/// value, each `gossip` the whole set it carries.
pub open spec fn inserted_values(evs: Seq<EventView>) -> Set<Seq<u8>>
    decreases evs.len(),
{
    if evs.len() == 0 {
        Set::empty()
    } else {
        let rest = inserted_values(evs.drop_last());
        match evs.last() {
            EventView::Message(m) => match m.body {
                BodyView::Broadcast { message, .. } => rest.insert(message),
                BodyView::Gossip { message } => rest.union(message),
                _ => rest,
            },
            _ => rest,
        }
    }
}

/// Every reply of the broadcast node answers the message that caused it: it
/// goes back to the sender, carries the node's assigned id as its source, and
/// its `in_reply_to` is the request's `msg_id`.
pub proof fn lemma_broadcast_reply_correlation(pre: NodeView<BroadcastView>, m: MessageView)
    ensures
        ({
            let (post, out) = broadcast_step(pre, EventView::Message(m));
            out matches Outcome::Reply(rep) ==> {
                &&& rep.dst == m.src
                &&& post.node_id == Some(rep.src)
                &&& spec_body_in_reply_to(rep.body) == spec_body_msg_id(m.body)
            }
        }),
{
}

/// A gossip tick queues exactly one message per topology neighbor, each from
/// this node, to that neighbor, carrying the whole current seen set; it
/// touches nothing else of the node's state.
pub proof fn lemma_gossip_tick_outputs(pre: NodeView<BroadcastView>)
    requires
        pre.node_id is Some,
        pre.extra.topology.dom().contains(pre.node_id.unwrap()),
        pre.next_send_id + pre.extra.topology[pre.node_id.unwrap()].len() <= u64::MAX,
    ensures
        ({
            let post = gossip_tick_step(pre);
            let neighbors = pre.extra.topology[pre.node_id.unwrap()];
            &&& post.extra == pre.extra
            &&& post.node_id == pre.node_id
            &&& post.outbox.len() == pre.outbox.len() + neighbors.len()
            &&& (forall|i: int| 0 <= i < pre.outbox.len() ==> post.outbox[i] == pre.outbox[i])
            &&& (forall|k: int|
                0 <= k < neighbors.len() ==> (#[trigger] post.outbox[pre.outbox.len() + k])
                    =~= (MessageView {
                    src: pre.node_id.unwrap(),
                    dst: neighbors[k],
                    body: BodyView::Gossip { message: pre.extra.seen },
                }))
        }),
{
}

/// One loop turn keeps every queued message stamped with the assigned
/// identity as its source — the replies and the gossip fan-out alike — and
/// an assigned identity never changes.
pub proof fn lemma_broadcast_loop_once_src(pre: NodeView<BroadcastView>, ev: EventView)
    requires
        outbox_src_assigned(pre),
        outbox_ids_bounded(pre),
        outbox_ids_increasing(pre),
    ensures
        ({
            let post = broadcast_loop_once(pre, ev).0;
            &&& outbox_src_assigned(post)
            &&& outbox_ids_bounded(post)
            &&& outbox_ids_increasing(post)
            &&& (pre.node_id is Some ==> post.node_id == pre.node_id)
        }),
{
    let (post, _) = broadcast_loop_once(pre, ev);
    let (stepped, out) = broadcast_step(pre, ev);
    match out {
        Outcome::Reply(m) => {
            if stepped.next_send_id < u64::MAX {
                assert(post.outbox == stepped.outbox.push(m));
                assert(forall|i: int|
                    0 <= i < stepped.outbox.len() ==> post.outbox[i] == stepped.outbox[i]);
            }
        },
        _ => {
            match ev {
                EventView::Action(name) => {
                    if name == "do_gossip"@ && pre.node_id is Some {
                        let id = pre.node_id.unwrap();
                        if pre.extra.topology.dom().contains(id) {
                            let neighbors = pre.extra.topology[id];
                            if pre.next_send_id + neighbors.len() <= u64::MAX {
                                assert(post.outbox == pre.outbox + gossip_messages(
                                    id,
                                    neighbors,
                                    pre.extra.seen,
                                ));
                                assert forall|i: int|
                                    0 <= i < post.outbox.len() implies (#[trigger] post.outbox[i].src)
                                    == id by {
                                    if i < pre.outbox.len() {
                                        assert(post.outbox[i] == pre.outbox[i]);
                                    } else {
                                        assert(post.outbox[i] == gossip_messages(
                                            id,
                                            neighbors,
                                            pre.extra.seen,
                                        )[i - pre.outbox.len()]);
                                    }
                                }
                            }
                        }
                    }
                },
                _ => {},
            }
        },
    }
}

/// Source identity and send-id order for the broadcast node: across any run
/// of its loop from a fresh node, every output — reply or gossip — carries
/// the node id assigned by `init` as its `src`, and among outputs that carry
/// a `msg_id`, later ones carry strictly greater ids.
pub proof fn lemma_broadcast_run_src(extra: BroadcastView, evs: Seq<EventView>)
    ensures
        outbox_src_assigned(broadcast_loop_run(fresh_node_view(extra), evs)),
        outbox_ids_bounded(broadcast_loop_run(fresh_node_view(extra), evs)),
        outbox_ids_increasing(broadcast_loop_run(fresh_node_view(extra), evs)),
    decreases evs.len(),
{
    let start = fresh_node_view(extra);
    if evs.len() == 0 {
    } else {
        lemma_broadcast_run_src(extra, evs.drop_last());
        lemma_broadcast_loop_once_src(broadcast_loop_run(start, evs.drop_last()), evs.last());
    }
}

/// Broadcast absorption: after any finite sequence of events, an initialized
/// node's seen set is exactly what it started with united with every value
/// the events inserted — nothing is lost, duplicates are absorbed. The
/// node's identity does not change along the way.
pub proof fn lemma_broadcast_absorption(pre: NodeView<BroadcastView>, evs: Seq<EventView>)
    requires
        pre.node_id is Some,
    ensures
        broadcast_loop_run(pre, evs).node_id == pre.node_id,
        broadcast_loop_run(pre, evs).extra.seen =~= pre.extra.seen.union(inserted_values(evs)),
    decreases evs.len(),
{
    if evs.len() == 0 {
        assert(pre.extra.seen.union(Set::empty()) =~= pre.extra.seen);
    } else {
        lemma_broadcast_absorption(pre, evs.drop_last());
        let mid = broadcast_loop_run(pre, evs.drop_last());
        let rest = inserted_values(evs.drop_last());
        let post = broadcast_loop_once(mid, evs.last()).0;
        match evs.last() {
            EventView::Message(m) => match m.body {
                BodyView::Broadcast { message, .. } => {
                    assert(post.extra.seen =~= mid.extra.seen.insert(message));
                    assert(pre.extra.seen.union(rest).insert(message) =~= pre.extra.seen.union(
                        rest.insert(message),
                    ));
                },
                BodyView::Gossip { message } => {
                    assert(post.extra.seen =~= mid.extra.seen.union(message));
                    assert(pre.extra.seen.union(rest).union(message) =~= pre.extra.seen.union(
                        rest.union(message),
                    ));
                },
                _ => {
                    assert(post.extra.seen =~= mid.extra.seen);
                },
            },
            _ => {
                assert(post.extra.seen =~= mid.extra.seen);
            },
        }
    }
}

/// The kernel of convergence, one delivered gossip round: when a gossip tick
/// of node `a` queues its message for the `k`-th neighbor and that message is
/// delivered to any node `b`, everything `a` had seen is afterwards in `b`'s
/// seen set. Repeated rounds along a connected topology therefore spread
/// every value to every node; how fast depends on the timer and on message
/// loss, which lie outside the library.
pub proof fn lemma_gossip_round_transfers_seen(
    a: NodeView<BroadcastView>,
    b: NodeView<BroadcastView>,
    k: int,
)
    requires
        a.node_id is Some,
        a.extra.topology.dom().contains(a.node_id.unwrap()),
        a.next_send_id + a.extra.topology[a.node_id.unwrap()].len() <= u64::MAX,
        0 <= k < a.extra.topology[a.node_id.unwrap()].len(),
    ensures
        ({
            let m = gossip_tick_step(a).outbox[a.outbox.len() + k];
            let (post_b, out) = broadcast_step(b, EventView::Message(m));
            &&& m.dst == a.extra.topology[a.node_id.unwrap()][k]
            &&& out is Silent
            &&& post_b.extra.seen =~= b.extra.seen.union(a.extra.seen)
        }),
{
    lemma_gossip_tick_outputs(a);
}

/// What `read` returns after any run: a `read_ok` back to the asker whose
/// `messages` field is exactly the union of the initial seen set and every
/// value inserted since — the seen set as absorption left it.
pub proof fn lemma_broadcast_read_after_run(
    pre: NodeView<BroadcastView>,
    evs: Seq<EventView>,
    m: MessageView,
)
    requires
        pre.node_id is Some,
        m.body is Read,
    ensures
        ({
            let run = broadcast_loop_run(pre, evs);
            let (_, out) = broadcast_step(run, EventView::Message(m));
            out matches Outcome::Reply(rep) && rep.dst == m.src && rep.body == (BodyView::ReadOk {
                in_reply_to: spec_body_msg_id(m.body).unwrap(),
                messages: pre.extra.seen.union(inserted_values(evs)),
            })
        }),
{
    lemma_broadcast_absorption(pre, evs);
    let run = broadcast_loop_run(pre, evs);
    let (_, out) = broadcast_step(run, EventView::Message(m));
    match m.body {
        BodyView::Read { msg_id } => {
            assert(out matches Outcome::Reply(rep) ==> rep.body matches BodyView::ReadOk {
                messages,
                ..
            } && messages =~= pre.extra.seen.union(inserted_values(evs)));
        },
        _ => {},
    }
}

} // verus!
