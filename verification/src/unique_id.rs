//! The unique-id workload: answer each `generate` request with an id that no
//! node of the cluster ever hands out twice.
//!
//! The id is the node's own id, an underscore, and the decimal send-id
//! counter. The harness guarantees node ids are cluster-unique and the
//! counter grows with every outbound write, so the pair, and with it the id
//! (see [`lemma_unique_id_injective`]), is unique across the cluster.

use vstd::prelude::*;
use vstd::string::StringExecFns;
use crate::message::{
    spec_body_in_reply_to, spec_body_msg_id, Body, BodyView, Event, EventView, Message,
    MessageView,
};
use crate::node::{
    fresh_node_view, init_step, outbox_ids_bounded, outbox_ids_increasing, outbox_src_assigned,
    outcome_ok, HandlerError, MaelstromNode, NodeView, Outcome,
};

verus! {

/// The decimal digit characters.
pub open spec fn digit_char(d: nat) -> char {
    if d == 0 {
        '0'
    } else if d == 1 {
        '1'
    } else if d == 2 {
        '2'
    } else if d == 3 {
        '3'
    } else if d == 4 {
        '4'
    } else if d == 5 {
        '5'
    } else if d == 6 {
        '6'
    } else if d == 7 {
        '7'
    } else if d == 8 {
        '8'
    } else {
        '9'
    }
}

/// The decimal digits of `n`, most significant first.
pub open spec fn dec_digits(n: nat) -> Seq<char>
    decreases n,
{
    if n < 10 {
        seq![digit_char(n)]
    } else {
        dec_digits(n / 10).push(digit_char(n % 10))
    }
}

/// The id minted for counter value `n` on the node named `node_id`.
pub open spec fn spec_unique_id(node_id: Seq<char>, n: u64) -> Seq<char> {
    node_id + seq!['_'] + dec_digits(n as nat)
}

pub proof fn lemma_dec_digits_len(n: nat)
    ensures
        dec_digits(n).len() >= 1,
    decreases n,
{
    if n >= 10 {
        lemma_dec_digits_len(n / 10);
    }
}

pub proof fn lemma_dec_digits_no_underscore(n: nat)
    ensures
        forall|i: int| 0 <= i < dec_digits(n).len() ==> dec_digits(n)[i] != '_',
    decreases n,
{
    if n < 10 {
        assert(dec_digits(n)[0] == digit_char(n));
    } else {
        lemma_dec_digits_no_underscore(n / 10);
        let prefix = dec_digits(n / 10);
        assert forall|i: int| 0 <= i < dec_digits(n).len() implies dec_digits(n)[i] != '_' by {
            if i < prefix.len() {
                assert(dec_digits(n)[i] == prefix[i]);
            } else {
                assert(dec_digits(n)[i] == digit_char(n % 10));
            }
        }
    }
}

pub proof fn lemma_dec_digits_injective(m: nat, n: nat)
    requires
        dec_digits(m) == dec_digits(n),
    ensures
        m == n,
    decreases m,
{
    lemma_dec_digits_len(m);
    lemma_dec_digits_len(n);
    if m < 10 && n < 10 {
        assert(dec_digits(m)[0] == digit_char(m));
        assert(dec_digits(n)[0] == digit_char(n));
        assert(digit_char(m) == digit_char(n));
    } else if m < 10 && n >= 10 {
        lemma_dec_digits_len(n / 10);
        assert(dec_digits(n).len() == dec_digits(n / 10).len() + 1);
        assert(dec_digits(m).len() == 1);
        assert(false);
    } else if m >= 10 && n < 10 {
        lemma_dec_digits_len(m / 10);
        assert(dec_digits(m).len() == dec_digits(m / 10).len() + 1);
        assert(dec_digits(n).len() == 1);
        assert(false);
    } else {
        let dm = dec_digits(m / 10);
        let dn = dec_digits(n / 10);
        assert(dec_digits(m) == dm.push(digit_char(m % 10)));
        assert(dec_digits(n) == dn.push(digit_char(n % 10)));
        assert(dec_digits(m).last() == digit_char(m % 10));
        assert(dec_digits(n).last() == digit_char(n % 10));
        assert(digit_char(m % 10) == digit_char(n % 10));
        assert(m % 10 == n % 10);
        assert(dm.len() == dec_digits(m).len() - 1);
        assert(dn.len() == dec_digits(n).len() - 1);
        assert forall|i: int| 0 <= i < dm.len() implies dm[i] == dn[i] by {
            assert(dec_digits(m)[i] == dm[i]);
            assert(dec_digits(n)[i] == dn[i]);
        }
        assert(dm =~= dn);
        lemma_dec_digits_injective(m / 10, n / 10);
        assert(m == 10 * (m / 10) + m % 10);
        assert(n == 10 * (n / 10) + n % 10);
    }
}

/// Two different nodes, or two different counter readings on one node, never
/// mint the same id: the digits carry no underscore, so the suffix after the
/// last underscore of an id recovers the counter, and what precedes it the
/// node id.
pub proof fn lemma_unique_id_injective(a: Seq<char>, m: u64, b: Seq<char>, n: u64)
    requires
        spec_unique_id(a, m) == spec_unique_id(b, n),
    ensures
        a == b,
        m == n,
{
    let s = spec_unique_id(a, m);
    let da = dec_digits(m as nat);
    let db = dec_digits(n as nat);
    lemma_dec_digits_len(m as nat);
    lemma_dec_digits_len(n as nat);
    lemma_dec_digits_no_underscore(m as nat);
    lemma_dec_digits_no_underscore(n as nat);
    assert(s.len() == a.len() + 1 + da.len());
    assert(s.len() == b.len() + 1 + db.len());
    assert(s[a.len() as int] == '_');
    assert(s[b.len() as int] == '_');
    assert forall|j: int| a.len() < j < s.len() implies s[j] != '_' by {
        assert(s[j] == da[j - a.len() - 1]);
    }
    assert forall|j: int| b.len() < j < s.len() implies s[j] != '_' by {
        assert(s[j] == db[j - b.len() - 1]);
    }
    if a.len() < b.len() {
        assert(s[b.len() as int] != '_');
        assert(false);
    }
    if b.len() < a.len() {
        assert(s[a.len() as int] != '_');
        assert(false);
    }
    assert forall|i: int| 0 <= i < a.len() implies a[i] == b[i] by {
        assert(s[i] == a[i]);
        assert(s[i] == b[i]);
    }
    assert(a =~= b);
    assert forall|i: int| 0 <= i < da.len() implies da[i] == db[i] by {
        assert(s[a.len() + 1 + i] == da[i]);
        assert(s[b.len() + 1 + i] == db[i]);
    }
    assert(da =~= db);
    lemma_dec_digits_injective(m as nat, n as nat);
}

/// The decimal digit `d` as a string.
fn digit_str(d: u64) -> (r: &'static str)
    requires
        d < 10,
    ensures
        r@ =~= seq![digit_char(d as nat)],
{
    proof {
        reveal_strlit("0");
        reveal_strlit("1");
        reveal_strlit("2");
        reveal_strlit("3");
        reveal_strlit("4");
        reveal_strlit("5");
        reveal_strlit("6");
        reveal_strlit("7");
        reveal_strlit("8");
        reveal_strlit("9");
    }
    if d == 0 {
        "0"
    } else if d == 1 {
        "1"
    } else if d == 2 {
        "2"
    } else if d == 3 {
        "3"
    } else if d == 4 {
        "4"
    } else if d == 5 {
        "5"
    } else if d == 6 {
        "6"
    } else if d == 7 {
        "7"
    } else if d == 8 {
        "8"
    } else {
        "9"
    }
}

/// The decimal rendering of `n`.
pub fn u64_to_dec(n: u64) -> (s: String)
    ensures
        s@ == dec_digits(n as nat),
    decreases n,
{
    if n < 10 {
        String::from_str(digit_str(n))
    } else {
        let mut s = u64_to_dec(n / 10);
        s.append(digit_str(n % 10));
        proof {
            assert(s@ =~= dec_digits(n as nat));
        }
        s
    }
}

/// The id minted for counter value `n` on the node named `node_id`.
pub fn make_unique_id(node_id: &String, n: u64) -> (r: String)
    ensures
        r@ == spec_unique_id(node_id@, n),
{
    proof {
        reveal_strlit("_");
    }
    let mut s = node_id.clone();
    s.append("_");
    let digits = u64_to_dec(n);
    s.append(digits.as_str());
    proof {
        assert(s@ =~= spec_unique_id(node_id@, n));
    }
    s
}

/// The unique-id workload keeps no state of its own.
pub struct GenerateData;

impl View for GenerateData {
    type V = ();

    open spec fn view(&self) -> () {
        ()
    }
}

/// What one event does to a unique-id node.
pub open spec fn generate_step(pre: NodeView<()>, ev: EventView) -> (NodeView<()>, Outcome) {
    match ev {
        EventView::Message(m) => match m.body {
            BodyView::Init { .. } => init_step(pre, m),
            BodyView::Generate { msg_id } => match pre.node_id {
                Some(id) => (
                    pre,
                    Outcome::Reply(
                        MessageView {
                            src: id,
                            dst: m.src,
                            body: BodyView::GenerateOk {
                                in_reply_to: msg_id,
                                id: spec_unique_id(id, pre.next_send_id),
                            },
                        },
                    ),
                ),
                None => (pre, Outcome::Fail(HandlerError::MissingIdentity)),
            },
            _ => (pre, Outcome::Silent),
        },
        EventView::Action(_) => (pre, Outcome::Silent),
    }
}

impl MaelstromNode<GenerateData> {
    /// Dispatch one event: `init` to the framework handler, `generate` to the
    /// id-minting handler, everything else dropped.
    pub fn process_event(&mut self, event: Event) -> (r: Option<Result<Message, HandlerError>>)
        ensures
            ({
                let (post, out) = generate_step(old(self)@, event@);
                final(self)@ =~= post && outcome_ok(r, out)
            }),
    {
        match event {
            Event::Message(msg) => match &msg.body {
                Body::Init { .. } => self.handle_init(msg),
                Body::Generate { msg_id } => {
                    let id = match self.node_id.as_str() {
                        Some(id) => id,
                        None => {
                            return Some(Err(HandlerError::MissingIdentity));
                        },
                    };
                    let minted = make_unique_id(&id, self.next_send_id);
                    Some(
                        Ok(
                            Message {
                                src: id,
                                dst: msg.src.clone(),
                                body: Body::GenerateOk { in_reply_to: *msg_id, id: minted },
                            },
                        ),
                    )
                },
                _ => None,
            },
            Event::Action(_) => None,
        }
    }

    /// One turn of the event loop: dispatch the event and queue the reply, if
    /// any. A reply is dropped, rather than given a reused id, in the
    /// unreachable case that the send-id counter is exhausted.
    pub fn handle_event(&mut self, event: Event) -> (r: Option<HandlerError>)
        ensures
            ({
                let (post, err) = generate_loop_once(old(self)@, event@);
                final(self)@ =~= post && r == err
            }),
    {
        match self.process_event(event) {
            Some(Ok(m)) => {
                if self.next_send_id < u64::MAX {
                    self.send(m);
                }
                None
            },
            Some(Err(e)) => Some(e),
            None => None,
        }
    }
}

/// One turn of the event loop on a unique-id node: the step, then the
/// queueing of its reply.
pub open spec fn generate_loop_once(pre: NodeView<()>, ev: EventView) -> (
    NodeView<()>,
    Option<HandlerError>,
) {
    let (post, out) = generate_step(pre, ev);
    match out {
        Outcome::Silent => (post, None),
        Outcome::Fail(e) => (post, Some(e)),
        Outcome::Reply(m) => (
            if post.next_send_id < u64::MAX {
                NodeView {
                    next_send_id: (post.next_send_id + 1) as u64,
                    outbox: post.outbox.push(m),
                    ..post
                }
            } else {
                post
            },
            None,
        ),
    }
}

/// The unique-id loop run over a whole sequence of events.
pub open spec fn generate_loop_run(pre: NodeView<()>, evs: Seq<EventView>) -> NodeView<()>
    decreases evs.len(),
{
    if evs.len() == 0 {
        pre
    } else {
        generate_loop_once(generate_loop_run(pre, evs.drop_last()), evs.last()).0
    }
}

/// Every reply of the unique-id node answers the message that caused it: it
/// goes back to the sender, carries the node's assigned id as its source, and
/// its `in_reply_to` is the request's `msg_id`.
pub proof fn lemma_generate_reply_correlation(pre: NodeView<()>, m: MessageView)
    ensures
        ({
            let (post, out) = generate_step(pre, EventView::Message(m));
            out matches Outcome::Reply(rep) ==> {
                &&& rep.dst == m.src
                &&& post.node_id == Some(rep.src)
                &&& spec_body_in_reply_to(rep.body) == spec_body_msg_id(m.body)
            }
        }),
{
}

/// Every queued `generate_ok` carries an id minted from this node's assigned
/// id and a counter reading below the current one.
pub open spec fn gen_outputs_stamped(v: NodeView<()>) -> bool {
    match v.node_id {
        None => true,
        Some(id) => forall|i: int|
            0 <= i < v.outbox.len() ==> match (#[trigger] v.outbox[i].body) {
                BodyView::GenerateOk { id: gid, .. } => exists|c: u64|
                    c < v.next_send_id && gid == spec_unique_id(id, c),
                _ => true,
            },
    }
}

/// No two queued `generate_ok` replies carry the same id.
pub open spec fn gen_outputs_distinct(v: NodeView<()>) -> bool {
    forall|i: int, j: int|
        0 <= i < j < v.outbox.len() ==> match (
            (#[trigger] v.outbox[i].body),
            (#[trigger] v.outbox[j].body),
        ) {
            (BodyView::GenerateOk { id: g1, .. }, BodyView::GenerateOk { id: g2, .. }) => g1 != g2,
            _ => true,
        }
}

/// One loop turn keeps the minted ids unique: a new `generate_ok` is stamped
/// with the current counter, which no earlier reply used.
pub proof fn lemma_generate_loop_once_unique(pre: NodeView<()>, ev: EventView)
    requires
        outbox_src_assigned(pre),
        outbox_ids_bounded(pre),
        outbox_ids_increasing(pre),
        gen_outputs_stamped(pre),
        gen_outputs_distinct(pre),
    ensures
        ({
            let post = generate_loop_once(pre, ev).0;
            &&& outbox_src_assigned(post)
            &&& outbox_ids_bounded(post)
            &&& outbox_ids_increasing(post)
            &&& gen_outputs_stamped(post)
            &&& gen_outputs_distinct(post)
            &&& (pre.node_id is Some ==> post.node_id == pre.node_id)
        }),
{
    let (post, _) = generate_loop_once(pre, ev);
    let (stepped, out) = generate_step(pre, ev);
    match out {
        Outcome::Reply(m) => {
            if stepped.next_send_id < u64::MAX {
                assert(post.outbox == stepped.outbox.push(m));
                assert(forall|i: int|
                    0 <= i < stepped.outbox.len() ==> post.outbox[i] == stepped.outbox[i]);
                match m.body {
                    BodyView::GenerateOk { id: gid, .. } => {
                        let id = pre.node_id.unwrap();
                        assert(gid == spec_unique_id(id, pre.next_send_id));
                        assert forall|i: int, j: int|
                            0 <= i < j < post.outbox.len() implies match (
                            (#[trigger] post.outbox[i].body),
                            (#[trigger] post.outbox[j].body),
                        ) {
                            (
                                BodyView::GenerateOk { id: g1, .. },
                                BodyView::GenerateOk { id: g2, .. },
                            ) => g1 != g2,
                            _ => true,
                        } by {
                            if j == pre.outbox.len() {
                                match post.outbox[i].body {
                                    BodyView::GenerateOk { id: g1, .. } => {
                                        let c = choose|c: u64|
                                            c < pre.next_send_id && g1 == spec_unique_id(id, c);
                                        if g1 == gid {
                                            lemma_unique_id_injective(
                                                id,
                                                c,
                                                id,
                                                pre.next_send_id,
                                            );
                                            assert(false);
                                        }
                                    },
                                    _ => {},
                                }
                            }
                        }
                    },
                    _ => {},
                }
            }
        },
        _ => {},
    }
}

/// Unique-id uniqueness within one node: across any run of the unique-id
/// loop from a fresh node, no two queued `generate_ok` replies carry the
/// same id. Alongside it, the send-id order of the output stream: among
/// queued messages that carry a `msg_id`, later ones carry strictly greater
/// ids, and every output's `src` is the assigned node id.
pub proof fn lemma_generate_run_ids_unique(evs: Seq<EventView>)
    ensures
        ({
            let post = generate_loop_run(fresh_node_view(()), evs);
            &&& outbox_src_assigned(post)
            &&& outbox_ids_bounded(post)
            &&& outbox_ids_increasing(post)
            &&& gen_outputs_stamped(post)
            &&& gen_outputs_distinct(post)
        }),
    decreases evs.len(),
{
    let start = fresh_node_view(());
    if evs.len() == 0 {
    } else {
        lemma_generate_run_ids_unique(evs.drop_last());
        lemma_generate_loop_once_unique(generate_loop_run(start, evs.drop_last()), evs.last());
    }
}

/// Unique-id uniqueness across the cluster: two nodes that were assigned
/// different ids never queue `generate_ok` replies with a common id, whatever
/// events each one saw.
pub proof fn lemma_generate_cluster_ids_unique(evs_a: Seq<EventView>, evs_b: Seq<EventView>)
    ensures
        ({
            let pa = generate_loop_run(fresh_node_view(()), evs_a);
            let pb = generate_loop_run(fresh_node_view(()), evs_b);
            (pa.node_id is Some && pb.node_id is Some && pa.node_id != pb.node_id)
                ==> forall|i: int, j: int|
                0 <= i < pa.outbox.len() && 0 <= j < pb.outbox.len() ==> match (
                    (#[trigger] pa.outbox[i].body),
                    (#[trigger] pb.outbox[j].body),
                ) {
                    (
                        BodyView::GenerateOk { id: g1, .. },
                        BodyView::GenerateOk { id: g2, .. },
                    ) => g1 != g2,
                    _ => true,
                }
        }),
{
    lemma_generate_run_ids_unique(evs_a);
    lemma_generate_run_ids_unique(evs_b);
    let pa = generate_loop_run(fresh_node_view(()), evs_a);
    let pb = generate_loop_run(fresh_node_view(()), evs_b);
    if pa.node_id is Some && pb.node_id is Some && pa.node_id != pb.node_id {
        let ida = pa.node_id.unwrap();
        let idb = pb.node_id.unwrap();
        assert forall|i: int, j: int|
            0 <= i < pa.outbox.len() && 0 <= j < pb.outbox.len() implies match (
            (#[trigger] pa.outbox[i].body),
            (#[trigger] pb.outbox[j].body),
        ) {
            (BodyView::GenerateOk { id: g1, .. }, BodyView::GenerateOk { id: g2, .. }) => g1 != g2,
            _ => true,
        } by {
            match (pa.outbox[i].body, pb.outbox[j].body) {
                (BodyView::GenerateOk { id: g1, .. }, BodyView::GenerateOk { id: g2, .. }) => {
                    let ca = choose|c: u64| c < pa.next_send_id && g1 == spec_unique_id(ida, c);
                    let cb = choose|c: u64| c < pb.next_send_id && g2 == spec_unique_id(idb, c);
                    if g1 == g2 {
                        lemma_unique_id_injective(ida, ca, idb, cb);
                        assert(false);
                    }
                },
                _ => {},
            }
        }
    }
}

} // verus!
