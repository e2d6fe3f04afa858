use vstd::prelude::*;

use crate::messages::{BodyKind, BodyView, MessageView};
use crate::router::{dispatch, tick_effect, RouterView};
use crate::workloads::broadcast::{
    broadcast_ack, forward_body, lemma_on_broadcast_ok_wf, lemma_on_broadcast_wf, neighbors_of,
    on_broadcast, on_read, on_topology, overdue, resends, targets, BroadcastView, NeighborView,
    PendingView,
};
use crate::{lemma_dispatch_wf, step_effect, MaelstromView, ServerView};

verus! {

/// Broadcasting a value a second time, from any sender and under any id,
/// changes nothing but sends an acknowledgement; a read afterwards holds
/// the value exactly once.
pub proof fn lemma_broadcast_idempotent(
    s: BroadcastView,
    c: MaelstromView,
    value: Seq<char>,
    src1: Seq<char>,
    dest1: Seq<char>,
    id1: u64,
    now1: u64,
    src2: Seq<char>,
    dest2: Seq<char>,
    id2: u64,
    now2: u64,
    reader: Seq<char>,
    read_id: u64,
)
    requires
        s.wf(),
        s.ids_below(c.counter),
        c.counter + s.neighbors.len() <= u64::MAX,
    ensures
        ({
            let e1 = on_broadcast(s, c, src1, dest1, value, id1, now1);
            let e2 = on_broadcast(e1.state, e1.ctx, src2, dest2, value, id2, now2);
            let seen = on_read(e2.state, e2.ctx, reader, dest2, read_id).sent[0].body->ReadOk_messages;
            &&& e2.state == e1.state
            &&& e2.ctx == e1.ctx
            &&& e2.sent == seq![broadcast_ack(src2, dest2, id2)]
            &&& exists|i: int|
                0 <= i < seen.len() && seen[i] == value && forall|j: int|
                    0 <= j < seen.len() && j != i ==> seen[j] != value
        }),
{
    let e1 = on_broadcast(s, c, src1, dest1, value, id1, now1);
    lemma_on_broadcast_wf(s, c, src1, dest1, value, id1, now1);
    let m = e1.state.messages;
    assert(m.contains(value)) by {
        if !s.messages.contains(value) {
            assert(m[s.messages.len() as int] == value);
        }
    }
    let i = choose|i: int| 0 <= i < m.len() && m[i] == value;
    let e2 = on_broadcast(e1.state, e1.ctx, src2, dest2, value, id2, now2);
    assert(e2.state == e1.state);
    let seen = on_read(e2.state, e2.ctx, reader, dest2, read_id).sent[0].body->ReadOk_messages;
    assert(seen == m);
    assert(m.no_duplicates());
    assert forall|j: int| 0 <= j < m.len() && j != i implies m[j] != value by {
        assert(m[j] != m[i]);
    }
    assert(0 <= i < seen.len() && seen[i] == value && forall|j: int|
        0 <= j < seen.len() && j != i ==> seen[j] != value);
}

/// Once a topology gives this node the neighbors `n1` and `n2`, a new value
/// that arrives from `n1` is forwarded to `n2` alone, and `n1` only gets
/// the acknowledgement.
pub proof fn lemma_fan_out_excludes_sender(
    s: BroadcastView,
    c: MaelstromView,
    topology: Seq<(Seq<char>, Seq<Seq<char>>)>,
    topology_src: Seq<char>,
    topology_dest: Seq<char>,
    topology_id: u64,
    n1: Seq<char>,
    n2: Seq<char>,
    dest: Seq<char>,
    value: Seq<char>,
    msg_id: u64,
    now: u64,
)
    requires
        neighbors_of(topology, c.node_id) == Some(seq![n1, n2]),
        n1 != n2,
        !s.messages.contains(value),
    ensures
        ({
            let s1 = on_topology(s, c.node_id, topology_src, topology_dest, topology, topology_id).0;
            let e = on_broadcast(s1, c, n1, dest, value, msg_id, now);
            e.sent == seq![
                MessageView { src: c.node_id, dest: n2, body: forward_body(value, c.counter) },
                broadcast_ack(n1, dest, msg_id),
            ]
        }),
{
    let s1 = on_topology(s, c.node_id, topology_src, topology_dest, topology, topology_id).0;
    let a = NeighborView { name: n1, newest_unack: None, newest_ack: None };
    let b = NeighborView { name: n2, newest_unack: None, newest_ack: None };
    assert(s1.neighbors =~= seq![a, b]);
    assert(seq![a, b] =~= Seq::<NeighborView>::empty().push(a).push(b));
    reveal(Seq::filter);
    Seq::<NeighborView>::empty().lemma_filter_push(a, |n: NeighborView| n.name != n1);
    Seq::<NeighborView>::empty().push(a).lemma_filter_push(b, |n: NeighborView| n.name != n1);
    assert(targets(s1.neighbors, n1) =~= seq![b]);
    let e = on_broadcast(s1, c, n1, dest, value, msg_id, now);
    assert(e.sent =~= seq![
        MessageView { src: c.node_id, dest: n2, body: forward_body(value, c.counter) },
        broadcast_ack(n1, dest, msg_id),
    ]);
}

/// Whatever a tick sends again is the message of some pending copy.
proof fn lemma_resent_is_pending(pending: Seq<PendingView>, now: u64, k: int)
    requires
        0 <= k < resends(pending, now).len(),
    ensures
        exists|j: int|
            0 <= j < pending.len() && #[trigger] pending[j].message == resends(pending, now)[k],
{
    let f = pending.filter(|p: PendingView| overdue(p.sent_at, now));
    assert(f.contains(f[k]));
    pending.lemma_filter_contains_rev(|p: PendingView| overdue(p.sent_at, now), f[k]);
    let j = choose|j: int| 0 <= j < pending.len() && pending[j] == f[k];
    assert(pending[j].message == resends(pending, now)[k]);
}

/// A tick on a well-formed state sends no copy keyed by an id that is not
/// pending.
proof fn lemma_tick_skips(s: BroadcastView, now: u64, id: u64)
    requires
        s.wf(),
        !s.has_pending(id),
    ensures
        forall|k: int|
            0 <= k < resends(s.pending, now).len() && (#[trigger] resends(s.pending, now)[k]).body is Broadcast
                ==> resends(s.pending, now)[k].body->Broadcast_msg_id != id,
{
    assert forall|k: int|
        0 <= k < resends(s.pending, now).len() && (#[trigger] resends(s.pending, now)[k]).body is Broadcast
        implies resends(s.pending, now)[k].body->Broadcast_msg_id != id by {
        lemma_resent_is_pending(s.pending, now, k);
        let j = choose|j: int|
            0 <= j < s.pending.len() && #[trigger] s.pending[j].message == resends(s.pending, now)[k];
        assert(s.pending[j].msg_id != id);
    }
}

/// Whether a copy keyed `id` is among `sent`.
pub open spec fn sends_copy(sent: Seq<MessageView>, id: u64) -> bool {
    exists|k: int|
        0 <= k < sent.len() && (#[trigger] sent[k]).body is Broadcast && sent[k].body->Broadcast_msg_id
            == id
}

/// Once no copy is pending under an id that has been handed out, no turn of
/// the main loop sends a copy under it, and none is pending under it after;
/// so by induction over the turns, it is never sent again.
pub proof fn lemma_no_resend_after_clear(
    v: ServerView,
    msg: Option<MessageView>,
    now: u64,
    gid: Seq<char>,
    id: u64,
)
    requires
        v.wf(),
        v.has_id_room(),
        !v.state.has_pending(id),
        id < v.ctx.counter,
    ensures
        ({
            let e = step_effect(v, msg, now, gid);
            &&& !e.state.has_pending(id)
            &&& id < e.ctx.counter
            &&& !sends_copy(e.sent, id)
        }),
{
    let e1 = match msg {
        Some(m) => dispatch(v.router, m, now, v.state, v.ctx, gid),
        None => crate::Effect { state: v.state, ctx: v.ctx, sent: seq![] },
    };
    if let Some(m) = msg {
        lemma_dispatch_wf(v.router, m, now, v.state, v.ctx, gid);
        lemma_dispatch_skips(v.router, m, now, v.state, v.ctx, gid, id);
    }
    let e2 = tick_effect(v.router, e1.state, e1.ctx, now);
    lemma_tick_skips(e1.state, now, id);
    let e = step_effect(v, msg, now, gid);
    assert(e.sent == e1.sent + e2.sent);
    if sends_copy(e.sent, id) {
        let k = choose|k: int|
            0 <= k < e.sent.len() && (#[trigger] e.sent[k]).body is Broadcast && e.sent[k].body->Broadcast_msg_id
                == id;
        if k < e1.sent.len() {
            assert(e.sent[k] == e1.sent[k]);
        } else {
            assert(e.sent[k] == e2.sent[k - e1.sent.len()]);
        }
    }
}

/// Handling one message under the conditions above sends no copy keyed
/// `id` and leaves none pending under it.
proof fn lemma_dispatch_skips(
    r: RouterView,
    m: MessageView,
    now: u64,
    s: BroadcastView,
    c: MaelstromView,
    gid: Seq<char>,
    id: u64,
)
    requires
        (ServerView { router: r, state: s, ctx: c }).wf(),
        (ServerView { router: r, state: s, ctx: c }).has_id_room(),
        !s.has_pending(id),
        id < c.counter,
    ensures
        ({
            let e = dispatch(r, m, now, s, c, gid);
            &&& !e.state.has_pending(id)
            &&& id < e.ctx.counter
            &&& !sends_copy(e.sent, id)
        }),
{
    lemma_dispatch_wf(r, m, now, s, c, gid);
    let e = dispatch(r, m, now, s, c, gid);
    if r.handlers.contains_key(m.body.kind()) {
        match m.body {
            BodyView::Broadcast { message, msg_id } => {
                if !s.messages.contains(message) {
                    let t = targets(s.neighbors, m.src);
                    let n_old = s.pending.len();
                    assert forall|i: int| 0 <= i < e.state.pending.len() implies #[trigger] e.state.pending[i].msg_id
                        != id by {
                        if i >= n_old {
                            assert(e.state.pending[i].msg_id == c.counter + (i - n_old));
                        } else {
                            assert(e.state.pending[i] == s.pending[i]);
                        }
                    }
                    if sends_copy(e.sent, id) {
                        let k = choose|k: int|
                            0 <= k < e.sent.len() && (#[trigger] e.sent[k]).body is Broadcast
                                && e.sent[k].body->Broadcast_msg_id == id;
                        if k < t.len() {
                            assert(e.sent[k].body->Broadcast_msg_id == c.counter + k);
                        }
                    }
                }
            },
            BodyView::BroadcastOk { in_reply_to, .. } => {
                lemma_on_broadcast_ok_wf(s, m.src, in_reply_to, now, c.counter);
            },
            _ => {},
        }
    }
}

/// An acknowledgement for a pending copy, handled in a turn of the main
/// loop, stops that copy: the same turn's tick does not send it, and it is
/// no longer pending, so the lemma above covers every later turn.
pub proof fn lemma_ack_clears_retry(
    v: ServerView,
    ack: MessageView,
    now: u64,
    gid: Seq<char>,
)
    requires
        v.wf(),
        v.has_id_room(),
        v.router.handlers.contains_key(BodyKind::BroadcastOk),
        ack.body is BroadcastOk,
        v.state.has_pending(ack.body->BroadcastOk_in_reply_to),
    ensures
        ({
            let id = ack.body->BroadcastOk_in_reply_to;
            let e = step_effect(v, Some(ack), now, gid);
            &&& !e.state.has_pending(id)
            &&& id < e.ctx.counter
            &&& !sends_copy(e.sent, id)
        }),
{
    let id = ack.body->BroadcastOk_in_reply_to;
    let j = choose|j: int| 0 <= j < v.state.pending.len() && #[trigger] v.state.pending[j].msg_id == id;
    assert(v.state.pending[j].msg_id < v.ctx.counter);
    lemma_on_broadcast_ok_wf(v.state, ack.src, id, now, v.ctx.counter);
    let e1 = dispatch(v.router, ack, now, v.state, v.ctx, gid);
    lemma_tick_skips(e1.state, now, id);
    let e2 = tick_effect(v.router, e1.state, e1.ctx, now);
    let e = step_effect(v, Some(ack), now, gid);
    assert(e1.sent == Seq::<MessageView>::empty());
    assert(e.sent =~= e2.sent);
}

/// A forwarded copy that no acknowledgement has cleared is sent again,
/// identical, by a tick past the retry threshold. Its id was fresh when it
/// was forwarded: no copy pending before had it, no other copy of the same
/// broadcast has it, and it differs from the request's own id unless the
/// sender happened to pick one of the ids handed out for this broadcast.
pub proof fn lemma_silence_brings_resend(
    s: BroadcastView,
    c: MaelstromView,
    src: Seq<char>,
    dest: Seq<char>,
    value: Seq<char>,
    msg_id: u64,
    sent_at: u64,
    now: u64,
    k: int,
)
    requires
        s.wf(),
        s.ids_below(c.counter),
        c.counter + s.neighbors.len() <= u64::MAX,
        !s.messages.contains(value),
        0 <= k < targets(s.neighbors, src).len(),
        overdue(sent_at, now),
        msg_id < c.counter || c.counter + targets(s.neighbors, src).len() <= msg_id,
    ensures
        ({
            let e = on_broadcast(s, c, src, dest, value, msg_id, sent_at);
            let copy = e.sent[k];
            &&& copy.dest == targets(s.neighbors, src)[k].name
            &&& copy.body == forward_body(value, (c.counter + k) as u64)
            &&& resends(e.state.pending, now).contains(copy)
            &&& !s.has_pending((c.counter + k) as u64)
            &&& (c.counter + k) as u64 != msg_id
            &&& forall|j: int|
                0 <= j < targets(s.neighbors, src).len() && j != k ==> (#[trigger] e.sent[j]).body
                    != copy.body
        }),
{
    let e = on_broadcast(s, c, src, dest, value, msg_id, sent_at);
    let t = targets(s.neighbors, src);
    s.neighbors.lemma_filter_len(|n: NeighborView| n.name != src);
    let n_old = s.pending.len();
    let p = e.state.pending;
    let entry = p[n_old + k];
    assert(entry.message == e.sent[k]);
    assert(entry.sent_at == sent_at);
    let pred = |q: PendingView| overdue(q.sent_at, now);
    p.filter_lemma(pred);
    assert(p.filter(pred).contains(entry));
    let f = p.filter(pred);
    let i = choose|i: int| 0 <= i < f.len() && f[i] == entry;
    assert(resends(p, now)[i] == entry.message);
    if s.has_pending((c.counter + k) as u64) {
        let j = choose|j: int| 0 <= j < s.pending.len() && #[trigger] s.pending[j].msg_id == (c.counter + k) as u64;
        assert(s.pending[j].msg_id < c.counter);
    }
}

/// A node that has seen no value answers a read with an empty list.
pub proof fn lemma_read_before_broadcast_empty(
    r: RouterView,
    m: MessageView,
    now: u64,
    s: BroadcastView,
    c: MaelstromView,
    gid: Seq<char>,
)
    requires
        r.handlers.contains_key(BodyKind::Read),
        m.body is Read,
        s.messages == Seq::<Seq<char>>::empty(),
    ensures
        dispatch(r, m, now, s, c, gid).sent == seq![
            MessageView {
                src: m.dest,
                dest: m.src,
                body: BodyView::ReadOk {
                    in_reply_to: m.body->Read_msg_id,
                    msg_id: None,
                    messages: Seq::<Seq<char>>::empty(),
                },
            },
        ],
{
}

} // verus!
