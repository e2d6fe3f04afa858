use vstd::prelude::*;

use crate::messages::{
    copy_strings, messages_view, strings_view, Body, BodyView, Broadcast, BroadcastOk, Message,
    MessageView, Read, ReadOk, Topology, TopologyOk, topology_view,
};
use crate::router::{Handler, Router, RouterView, TickHandler};
use crate::{Effect, Maelstrom, MaelstromView};

verus! {

/// How long a forwarded copy may stay unacknowledged before it is sent again.
pub const RETRY_AFTER_MS: u64 = 200;

/// A node this node forwards values to, with when it last sent to it and
/// last heard an acknowledgement from it.
#[derive(Debug)]
pub struct Neighbor {
    pub name: String,
    pub newest_unack: Option<u64>,
    pub newest_ack: Option<u64>,
}

/// A forwarded copy that waits for its acknowledgement.
#[derive(Debug)]
pub struct Pending {
    pub msg_id: u64,
    pub sent_at: u64,
    pub message: Message,
}

/// The state of the broadcast workload: every value seen, the neighbors,
/// and the forwarded copies not yet acknowledged.
#[derive(Debug)]
pub struct SimpleBroadcast {
    messages: Vec<String>,
    neighbors: Vec<Neighbor>,
    unack_messages: Vec<Pending>,
}

/// The mathematical content of a [`Neighbor`].
pub struct NeighborView {
    pub name: Seq<char>,
    pub newest_unack: Option<u64>,
    pub newest_ack: Option<u64>,
}

/// The mathematical content of a [`Pending`] copy.
pub struct PendingView {
    pub msg_id: u64,
    pub sent_at: u64,
    pub message: MessageView,
}

/// The mathematical content of a [`SimpleBroadcast`]: the values seen, in
/// the order first seen, the neighbors, and the pending copies, oldest first.
pub struct BroadcastView {
    pub messages: Seq<Seq<char>>,
    pub neighbors: Seq<NeighborView>,
    pub pending: Seq<PendingView>,
}

impl View for Neighbor {
    type V = NeighborView;

    open spec fn view(&self) -> NeighborView {
        NeighborView { name: self.name@, newest_unack: self.newest_unack, newest_ack: self.newest_ack }
    }
}

impl View for Pending {
    type V = PendingView;

    open spec fn view(&self) -> PendingView {
        PendingView { msg_id: self.msg_id, sent_at: self.sent_at, message: self.message@ }
    }
}

/// Views of a list of neighbors.
pub open spec fn neighbors_view(v: Seq<Neighbor>) -> Seq<NeighborView> {
    v.map_values(|n: Neighbor| n@)
}

/// Views of a list of pending copies.
pub open spec fn pending_view(v: Seq<Pending>) -> Seq<PendingView> {
    v.map_values(|p: Pending| p@)
}

impl View for SimpleBroadcast {
    type V = BroadcastView;

    closed spec fn view(&self) -> BroadcastView {
        BroadcastView {
            messages: strings_view(self.messages@),
            neighbors: neighbors_view(self.neighbors@),
            pending: pending_view(self.unack_messages@),
        }
    }
}

/// The body of a forwarded copy: the value and its own correlation id.
pub open spec fn forward_body(value: Seq<char>, id: u64) -> BodyView {
    BodyView::Broadcast { message: value, msg_id: id }
}

impl BroadcastView {
    /// Each value once; each pending copy under its own id, carrying a value
    /// that has been seen, as a broadcast whose correlation id is its key.
    pub open spec fn wf(self) -> bool {
        &&& self.messages.no_duplicates()
        &&& forall|i: int, j: int|
            0 <= i < j < self.pending.len() ==> #[trigger] self.pending[i].msg_id
                != #[trigger] self.pending[j].msg_id
        &&& forall|i: int|
            0 <= i < self.pending.len() ==> {
                let p = #[trigger] self.pending[i];
                &&& p.message.body is Broadcast
                &&& p.message.body->Broadcast_msg_id == p.msg_id
                &&& self.messages.contains(p.message.body->Broadcast_message)
            }
    }

    /// Whether some pending copy is keyed by `id`.
    pub open spec fn has_pending(self, id: u64) -> bool {
        exists|i: int| 0 <= i < self.pending.len() && #[trigger] self.pending[i].msg_id == id
    }

    /// Every pending id lies below `bound`.
    pub open spec fn ids_below(self, bound: u64) -> bool {
        forall|i: int| 0 <= i < self.pending.len() ==> #[trigger] self.pending[i].msg_id < bound
    }
}

/// The neighbors that get a copy of a value that came from `src`.
pub open spec fn targets(neighbors: Seq<NeighborView>, src: Seq<char>) -> Seq<NeighborView> {
    neighbors.filter(|n: NeighborView| n.name != src)
}

/// The copies forwarded to `targets`, the k-th one under id `first + k`.
pub open spec fn forwards(
    node_id: Seq<char>,
    targets: Seq<NeighborView>,
    value: Seq<char>,
    first: u64,
) -> Seq<MessageView> {
    Seq::new(
        targets.len(),
        |k: int|
            MessageView {
                src: node_id,
                dest: targets[k].name,
                body: forward_body(value, (first + k) as u64),
            },
    )
}

/// The pending entries for forwarded copies sent at `now`.
pub open spec fn pending_for(sent: Seq<MessageView>, first: u64, now: u64) -> Seq<PendingView> {
    Seq::new(
        sent.len(),
        |k: int| PendingView { msg_id: (first + k) as u64, sent_at: now, message: sent[k] },
    )
}

/// Records a send at `now` on every neighbor except `src`.
pub open spec fn mark_sent(neighbors: Seq<NeighborView>, src: Seq<char>, now: u64) -> Seq<
    NeighborView,
> {
    neighbors.map_values(
        |n: NeighborView|
            if n.name != src {
                NeighborView { name: n.name, newest_unack: Some(now), newest_ack: n.newest_ack }
            } else {
                n
            },
    )
}

/// Records an acknowledgement at `now` on every neighbor named `src`.
pub open spec fn mark_acked(neighbors: Seq<NeighborView>, src: Seq<char>, now: u64) -> Seq<
    NeighborView,
> {
    neighbors.map_values(
        |n: NeighborView|
            if n.name == src {
                NeighborView { name: n.name, newest_unack: n.newest_unack, newest_ack: Some(now) }
            } else {
                n
            },
    )
}

/// The acknowledgement of a broadcast request.
pub open spec fn broadcast_ack(request_src: Seq<char>, request_dest: Seq<char>, msg_id: u64) -> MessageView {
    MessageView {
        src: request_dest,
        dest: request_src,
        body: BodyView::BroadcastOk { in_reply_to: msg_id, msg_id: None },
    }
}

/// A broadcast of `value` from `src`: a new value is recorded and forwarded
/// to every neighbor but `src` under fresh ids; the request is always
/// acknowledged.
pub open spec fn on_broadcast(
    s: BroadcastView,
    ctx: MaelstromView,
    src: Seq<char>,
    dest: Seq<char>,
    value: Seq<char>,
    msg_id: u64,
    now: u64,
) -> Effect {
    let ack = broadcast_ack(src, dest, msg_id);
    if s.messages.contains(value) {
        Effect { state: s, ctx, sent: seq![ack] }
    } else {
        let t = targets(s.neighbors, src);
        let copies = forwards(ctx.node_id, t, value, ctx.counter);
        Effect {
            state: BroadcastView {
                messages: s.messages.push(value),
                neighbors: mark_sent(s.neighbors, src, now),
                pending: s.pending + pending_for(copies, ctx.counter, now),
            },
            ctx: MaelstromView { node_id: ctx.node_id, counter: (ctx.counter + t.len()) as u64 },
            sent: copies.push(ack),
        }
    }
}

/// The copies not keyed by `id`.
pub open spec fn not_keyed(id: u64) -> spec_fn(PendingView) -> bool {
    |p: PendingView| p.msg_id != id
}

/// An acknowledgement from `src` for the copy keyed `id`: that copy stops
/// waiting and `src` is noted as heard from; an unknown id changes nothing.
pub open spec fn on_broadcast_ok(s: BroadcastView, src: Seq<char>, id: u64, now: u64) -> BroadcastView {
    if s.has_pending(id) {
        BroadcastView {
            messages: s.messages,
            neighbors: mark_acked(s.neighbors, src, now),
            pending: s.pending.filter(not_keyed(id)),
        }
    } else {
        s
    }
}

/// A read: every value seen, in the order first seen.
pub open spec fn on_read(
    s: BroadcastView,
    ctx: MaelstromView,
    src: Seq<char>,
    dest: Seq<char>,
    msg_id: u64,
) -> Effect {
    Effect {
        state: s,
        ctx,
        sent: seq![
            MessageView {
                src: dest,
                dest: src,
                body: BodyView::ReadOk { in_reply_to: msg_id, msg_id: None, messages: s.messages },
            },
        ],
    }
}

/// The neighbor list that a topology gives `node`: that of the first entry
/// named `node`, if any.
pub open spec fn neighbors_of(t: Seq<(Seq<char>, Seq<Seq<char>>)>, node: Seq<char>) -> Option<
    Seq<Seq<char>>,
>
    decreases t.len(),
{
    if t.len() == 0 {
        None
    } else if t[0].0 == node {
        Some(t[0].1)
    } else {
        neighbors_of(t.drop_first(), node)
    }
}

/// Neighbors with these names, not yet sent to nor heard from.
pub open spec fn fresh_neighbors(names: Seq<Seq<char>>) -> Seq<NeighborView> {
    names.map_values(|n: Seq<char>| NeighborView { name: n, newest_unack: None, newest_ack: None })
}

/// A topology: when it names this node, its list replaces the neighbors and
/// the request is acknowledged; otherwise nothing happens.
pub open spec fn on_topology(
    s: BroadcastView,
    node_id: Seq<char>,
    src: Seq<char>,
    dest: Seq<char>,
    t: Seq<(Seq<char>, Seq<Seq<char>>)>,
    msg_id: u64,
) -> (BroadcastView, Seq<MessageView>) {
    match neighbors_of(t, node_id) {
        Some(names) => (
            BroadcastView { neighbors: fresh_neighbors(names), ..s },
            seq![
                MessageView {
                    src: dest,
                    dest: src,
                    body: BodyView::TopologyOk { in_reply_to: msg_id, msg_id: None },
                },
            ],
        ),
        None => (s, seq![]),
    }
}

/// Whether a copy sent at `sent_at` is overdue at `now`.
pub open spec fn overdue(sent_at: u64, now: u64) -> bool {
    now - sent_at > RETRY_AFTER_MS
}

/// The copies that a tick at `now` sends again, in pending order.
pub open spec fn resends(pending: Seq<PendingView>, now: u64) -> Seq<MessageView> {
    pending.filter(|p: PendingView| overdue(p.sent_at, now)).map_values(
        |p: PendingView| p.message,
    )
}

/// A tick: every overdue copy goes out again unchanged and keeps waiting.
pub open spec fn on_tick(s: BroadcastView, ctx: MaelstromView, now: u64) -> Effect {
    Effect { state: s, ctx, sent: resends(s.pending, now) }
}

proof fn lemma_resends_push(pending: Seq<PendingView>, p: PendingView, now: u64)
    ensures
        resends(pending.push(p), now) == if overdue(p.sent_at, now) {
            resends(pending, now).push(p.message)
        } else {
            resends(pending, now)
        },
{
    let f = |q: PendingView| overdue(q.sent_at, now);
    pending.lemma_filter_push(p, f);
    let g = |q: PendingView| q.message;
    if overdue(p.sent_at, now) {
        assert(pending.filter(f).push(p).map_values(g) =~= pending.filter(f).map_values(g).push(
            p.message,
        ));
    }
}

proof fn lemma_filter_keeps_all(s: Seq<PendingView>, id: u64)
    requires
        forall|j: int| 0 <= j < s.len() ==> #[trigger] s[j].msg_id != id,
    ensures
        s.filter(not_keyed(id)) == s,
    decreases s.len(),
{
    if s.len() == 0 {
        reveal(Seq::filter);
    } else {
        let t = s.drop_last();
        lemma_filter_keeps_all(t, id);
        t.lemma_filter_push(s.last(), not_keyed(id));
        assert(t.push(s.last()) =~= s);
    }
}

/// With distinct keys, dropping the copies keyed `id` drops exactly the one
/// at `i`.
proof fn lemma_filter_drops_one(s: Seq<PendingView>, id: u64, i: int)
    requires
        0 <= i < s.len(),
        s[i].msg_id == id,
        forall|a: int, b: int| 0 <= a < b < s.len() ==> #[trigger] s[a].msg_id != #[trigger] s[b].msg_id,
    ensures
        s.filter(not_keyed(id)) == s.remove(i),
{
    let pre = s.subrange(0, i);
    let mid = seq![s[i]];
    let post = s.subrange(i + 1, s.len() as int);
    assert(s =~= pre + mid + post);
    assert forall|j: int| 0 <= j < pre.len() implies #[trigger] pre[j].msg_id != id by {
        assert(s[j].msg_id != s[i].msg_id);
    }
    assert forall|j: int| 0 <= j < post.len() implies #[trigger] post[j].msg_id != id by {
        assert(s[i].msg_id != s[i + 1 + j].msg_id);
    }
    lemma_filter_keeps_all(pre, id);
    lemma_filter_keeps_all(post, id);
    Seq::filter_distributes_over_add(pre + mid, post, not_keyed(id));
    Seq::filter_distributes_over_add(pre, mid, not_keyed(id));
    Seq::<PendingView>::empty().lemma_filter_push(s[i], not_keyed(id));
    reveal(Seq::filter);
    assert(Seq::<PendingView>::empty().push(s[i]) =~= mid);
    assert(s.remove(i) =~= pre + post);
}

proof fn lemma_targets_push(neighbors: Seq<NeighborView>, n: NeighborView, src: Seq<char>)
    ensures
        targets(neighbors.push(n), src) == if n.name != src {
            targets(neighbors, src).push(n)
        } else {
            targets(neighbors, src)
        },
{
    neighbors.lemma_filter_push(n, |m: NeighborView| m.name != src);
}

/// Handling a broadcast keeps the state well formed and every pending id
/// below the next fresh one.
pub proof fn lemma_on_broadcast_wf(
    s: BroadcastView,
    ctx: MaelstromView,
    src: Seq<char>,
    dest: Seq<char>,
    value: Seq<char>,
    msg_id: u64,
    now: u64,
)
    requires
        s.wf(),
        s.ids_below(ctx.counter),
        ctx.counter + s.neighbors.len() <= u64::MAX,
    ensures
        ({
            let e = on_broadcast(s, ctx, src, dest, value, msg_id, now);
            &&& e.state.wf()
            &&& e.state.ids_below(e.ctx.counter)
            &&& e.ctx.node_id == ctx.node_id
            &&& ctx.counter <= e.ctx.counter
        }),
{
    if !s.messages.contains(value) {
        let e = on_broadcast(s, ctx, src, dest, value, msg_id, now);
        let t = targets(s.neighbors, src);
        s.neighbors.lemma_filter_len(|n: NeighborView| n.name != src);
        let copies = forwards(ctx.node_id, t, value, ctx.counter);
        let added = pending_for(copies, ctx.counter, now);
        let p = e.state.pending;
        assert(p == s.pending + added);
        let n_old = s.pending.len();
        assert forall|k: int| 0 <= k < added.len() implies #[trigger] added[k].msg_id == ctx.counter + k by {}
        assert forall|i: int| 0 <= i < p.len() implies (#[trigger] p[i]).msg_id < e.ctx.counter by {
            if i >= n_old {
                assert(p[i] == added[i - n_old]);
            } else {
                assert(p[i] == s.pending[i]);
            }
        }
        assert forall|i: int, j: int| 0 <= i < j < p.len() implies #[trigger] p[i].msg_id
            != #[trigger] p[j].msg_id by {
            if j < n_old {
                assert(p[i] == s.pending[i] && p[j] == s.pending[j]);
            } else if i < n_old {
                assert(p[i] == s.pending[i] && p[j] == added[j - n_old]);
            } else {
                assert(p[i] == added[i - n_old] && p[j] == added[j - n_old]);
            }
        }
        assert forall|i: int| 0 <= i < p.len() implies {
            let q = #[trigger] p[i];
            &&& q.message.body is Broadcast
            &&& q.message.body->Broadcast_msg_id == q.msg_id
            &&& e.state.messages.contains(q.message.body->Broadcast_message)
        } by {
            if i >= n_old {
                assert(p[i] == added[i - n_old]);
                assert(e.state.messages[s.messages.len() as int] == value);
            } else {
                assert(p[i] == s.pending[i]);
                let w = choose|w: int|
                    0 <= w < s.messages.len() && s.messages[w] == p[i].message.body->Broadcast_message;
                assert(e.state.messages[w] == s.messages[w]);
            }
        }
        assert(e.state.messages.no_duplicates()) by {
            assert forall|i: int, j: int|
                0 <= i < e.state.messages.len() && 0 <= j < e.state.messages.len() && i != j implies
                e.state.messages[i] != e.state.messages[j] by {
                if i == s.messages.len() {
                    assert(!s.messages.contains(value));
                    assert(e.state.messages[j] == s.messages[j]);
                } else if j == s.messages.len() {
                    assert(e.state.messages[i] == s.messages[i]);
                }
            }
        }
    }
}

/// Handling an acknowledgement keeps the state well formed, and the
/// acknowledged id is no longer pending.
pub proof fn lemma_on_broadcast_ok_wf(s: BroadcastView, src: Seq<char>, id: u64, now: u64, bound: u64)
    requires
        s.wf(),
        s.ids_below(bound),
    ensures
        on_broadcast_ok(s, src, id, now).wf(),
        on_broadcast_ok(s, src, id, now).ids_below(bound),
        !on_broadcast_ok(s, src, id, now).has_pending(id),
        forall|k: u64| #[trigger] on_broadcast_ok(s, src, id, now).has_pending(k) ==> s.has_pending(k),
{
    if s.has_pending(id) {
        let i = choose|i: int| 0 <= i < s.pending.len() && #[trigger] s.pending[i].msg_id == id;
        lemma_filter_drops_one(s.pending, id, i);
        let p = s.pending.remove(i);
        let r = on_broadcast_ok(s, src, id, now);
        assert(r.pending == p);
        assert forall|j: int| 0 <= j < p.len() implies #[trigger] p[j] == s.pending[if j < i { j } else { j + 1 }] by {}
        assert forall|a: int, b: int| 0 <= a < b < p.len() implies #[trigger] p[a].msg_id
            != #[trigger] p[b].msg_id by {
            assert(p[a] == s.pending[if a < i { a } else { a + 1 }]);
            assert(p[b] == s.pending[if b < i { b } else { b + 1 }]);
        }
        assert forall|j: int| 0 <= j < p.len() implies (#[trigger] p[j]).msg_id != id by {
            assert(p[j] == s.pending[if j < i { j } else { j + 1 }]);
        }
        assert forall|k: u64| #[trigger] r.has_pending(k) implies s.has_pending(k) by {
            let j = choose|j: int| 0 <= j < p.len() && #[trigger] p[j].msg_id == k;
            assert(p[j] == s.pending[if j < i { j } else { j + 1 }]);
        }
    }
}

impl SimpleBroadcast {
    /// A node that has seen nothing and has no neighbors yet.
    pub fn new() -> (r: SimpleBroadcast)
        ensures
            r@.messages == Seq::<Seq<char>>::empty(),
            r@.neighbors == Seq::<NeighborView>::empty(),
            r@.pending == Seq::<PendingView>::empty(),
            r@.wf(),
    {
        let r = SimpleBroadcast { messages: Vec::new(), neighbors: Vec::new(), unack_messages: Vec::new() };
        assert(r@.messages =~= Seq::<Seq<char>>::empty());
        assert(r@.neighbors =~= Seq::<NeighborView>::empty());
        assert(r@.pending =~= Seq::<PendingView>::empty());
        r
    }

    /// Whether `value` has been seen.
    fn has_seen(&self, value: &String) -> (r: bool)
        ensures
            r == self@.messages.contains(value@),
    {
        let mut i: usize = 0;
        while i < self.messages.len()
            invariant
                i <= self.messages@.len(),
                forall|j: int| 0 <= j < i ==> self.messages@[j]@ != value@,
            decreases self.messages@.len() - i,
        {
            if self.messages[i] == *value {
                assert(self@.messages[i as int] == value@);
                return true;
            }
            i = i + 1;
        }
        assert(!self@.messages.contains(value@)) by {
            if self@.messages.contains(value@) {
                let j = choose|j: int| 0 <= j < self@.messages.len() && self@.messages[j] == value@;
                assert(self.messages@[j]@ == value@);
            }
        }
        false
    }

    /// Whether a copy sent at `sent_at` is overdue at `now`.
    fn is_overdue(sent_at: u64, now: u64) -> (r: bool)
        ensures
            r == overdue(sent_at, now),
    {
        now > sent_at && now - sent_at > RETRY_AFTER_MS
    }

    /// Notes an acknowledgement at `now` on every neighbor named `src`.
    fn mark_neighbors_acked(&mut self, src: &String, now: u64)
        ensures
            final(self)@ == (BroadcastView {
                neighbors: mark_acked(old(self)@.neighbors, src@, now),
                ..old(self)@
            }),
    {
        let ghost n0 = old(self)@.neighbors;
        let mut j: usize = 0;
        while j < self.neighbors.len()
            invariant
                j <= n0.len(),
                self.messages@ == old(self).messages@,
                self.unack_messages@ == old(self).unack_messages@,
                self.neighbors@.len() == n0.len(),
                forall|k: int| 0 <= k < j ==> #[trigger] self.neighbors@[k]@ == mark_acked(n0, src@, now)[k],
                forall|k: int| j <= k < n0.len() ==> #[trigger] self.neighbors@[k]@ == n0[k],
            decreases n0.len() - j,
        {
            assert(self.neighbors@[j as int]@ == n0[j as int]);
            if self.neighbors[j].name == *src {
                self.neighbors[j].newest_ack = Some(now);
            }
            j = j + 1;
        }
        assert(self@.neighbors =~= mark_acked(n0, src@, now));
    }

    /// Notes a send at `now` on every neighbor except `src`.
    fn mark_neighbors_sent(&mut self, src: &String, now: u64)
        ensures
            final(self)@ == (BroadcastView {
                neighbors: mark_sent(old(self)@.neighbors, src@, now),
                ..old(self)@
            }),
    {
        let ghost n0 = old(self)@.neighbors;
        let mut j: usize = 0;
        while j < self.neighbors.len()
            invariant
                j <= n0.len(),
                self.messages@ == old(self).messages@,
                self.unack_messages@ == old(self).unack_messages@,
                self.neighbors@.len() == n0.len(),
                forall|k: int| 0 <= k < j ==> #[trigger] self.neighbors@[k]@ == mark_sent(n0, src@, now)[k],
                forall|k: int| j <= k < n0.len() ==> #[trigger] self.neighbors@[k]@ == n0[k],
            decreases n0.len() - j,
        {
            assert(self.neighbors@[j as int]@ == n0[j as int]);
            if !(self.neighbors[j].name == *src) {
                self.neighbors[j].newest_unack = Some(now);
            }
            j = j + 1;
        }
        assert(self@.neighbors =~= mark_sent(n0, src@, now));
    }

    /// Starts waiting for the acknowledgement of `msg`, sent at `now` under
    /// `msg_id`.
    fn store(&mut self, msg: Message, msg_id: u64, now: u64)
        ensures
            final(self)@ == (BroadcastView {
                pending: old(self)@.pending.push(
                    PendingView { msg_id, sent_at: now, message: msg@ },
                ),
                ..old(self)@
            }),
    {
        self.unack_messages.push(Pending { msg_id, sent_at: now, message: msg });
        assert(self@.pending =~= old(self)@.pending.push(
            PendingView { msg_id, sent_at: now, message: msg@ },
        ));
    }

    /// Stops waiting for the copy keyed `msg_id`, if there is one, and notes
    /// that `node` answered.
    fn clear(&mut self, node: &String, msg_id: u64, now: u64)
        requires
            old(self)@.wf(),
        ensures
            final(self)@ == on_broadcast_ok(old(self)@, node@, msg_id, now),
    {
        let mut i: usize = 0;
        while i < self.unack_messages.len()
            invariant
                self@ == old(self)@,
                self@.wf(),
                i <= self@.pending.len(),
                forall|j: int| 0 <= j < i ==> self@.pending[j].msg_id != msg_id,
            decreases self@.pending.len() - i,
        {
            if self.unack_messages[i].msg_id == msg_id {
                proof {
                    lemma_filter_drops_one(self@.pending, msg_id, i as int);
                }
                let ghost before = self@;
                self.unack_messages.remove(i);
                assert(self@.pending =~= before.pending.remove(i as int));
                self.mark_neighbors_acked(node, now);
                return;
            }
            i = i + 1;
        }
        assert(!self@.has_pending(msg_id));
    }

    /// The number of neighbors.
    pub fn neighbor_count(&self) -> (r: usize)
        ensures
            r == self@.neighbors.len(),
    {
        self.neighbors.len()
    }
}

/// Sends again, unchanged, every forwarded copy that has waited longer than
/// the retry threshold; each stays pending.
pub fn tick(now: u64, out: &mut Vec<Message>, data: &SimpleBroadcast)
    ensures
        messages_view(final(out)@) == messages_view(old(out)@) + resends(data@.pending, now),
{
    let ghost out0 = out@;
    let mut i: usize = 0;
    while i < data.unack_messages.len()
        invariant
            i <= data@.pending.len(),
            messages_view(out@) == messages_view(out0) + resends(
                data@.pending.subrange(0, i as int),
                now,
            ),
        decreases data@.pending.len() - i,
    {
        let pending = &data.unack_messages[i];
        proof {
            assert(data@.pending.subrange(0, i + 1) =~= data@.pending.subrange(0, i as int).push(
                pending@,
            ));
            lemma_resends_push(data@.pending.subrange(0, i as int), pending@, now);
        }
        if SimpleBroadcast::is_overdue(pending.sent_at, now) {
            let copy = pending.message.clone();
            let ghost before = out@;
            out.push(copy);
            assert(messages_view(out@) =~= messages_view(before).push(copy@));
        }
        i = i + 1;
    }
    assert(data@.pending.subrange(0, i as int) =~= data@.pending);
}

/// Handles a broadcast request: a value not seen before is recorded and
/// forwarded, under a fresh id for each copy, to every neighbor except the
/// sender, and each copy waits for its acknowledgement; the request is
/// acknowledged whether or not the value was new.
pub fn broadcast(
    b: &Broadcast,
    request: &Message,
    now: u64,
    out: &mut Vec<Message>,
    maelstrom: &mut Maelstrom,
    data: &mut SimpleBroadcast,
)
    requires
        old(maelstrom)@.counter + old(data)@.neighbors.len() <= u64::MAX,
    ensures
        ({
            let e = on_broadcast(
                old(data)@,
                old(maelstrom)@,
                request.src@,
                request.dest@,
                b.message@,
                b.msg_id,
                now,
            );
            &&& final(data)@ == e.state
            &&& final(maelstrom)@ == e.ctx
            &&& messages_view(final(out)@) == messages_view(old(out)@) + e.sent
        }),
{
    let ghost s0 = data@;
    let ghost c0 = maelstrom@;
    let ghost out0 = out@;
    let ghost value = b.message@;
    let ghost src = request.src@;
    if !data.has_seen(&b.message) {
        data.messages.push(b.message.clone());
        assert(data@.messages =~= s0.messages.push(value));
        let mut i: usize = 0;
        while i < data.neighbors.len()
            invariant
                i <= s0.neighbors.len(),
                src == request.src@,
                value == b.message@,
                data@.neighbors == s0.neighbors,
                data@.messages == s0.messages.push(value),
                c0.counter + s0.neighbors.len() <= u64::MAX,
                targets(s0.neighbors.subrange(0, i as int), src).len() <= i,
                maelstrom@.node_id == c0.node_id,
                maelstrom@.counter == c0.counter + targets(
                    s0.neighbors.subrange(0, i as int),
                    src,
                ).len(),
                messages_view(out@) == messages_view(out0) + forwards(
                    c0.node_id,
                    targets(s0.neighbors.subrange(0, i as int), src),
                    value,
                    c0.counter,
                ),
                data@.pending == s0.pending + pending_for(
                    forwards(
                        c0.node_id,
                        targets(s0.neighbors.subrange(0, i as int), src),
                        value,
                        c0.counter,
                    ),
                    c0.counter,
                    now,
                ),
            decreases s0.neighbors.len() - i,
        {
            let ghost t = targets(s0.neighbors.subrange(0, i as int), src);
            let ghost n = s0.neighbors[i as int];
            proof {
                assert(s0.neighbors.subrange(0, i + 1) =~= s0.neighbors.subrange(0, i as int).push(n));
                lemma_targets_push(s0.neighbors.subrange(0, i as int), n, src);
            }
            assert(data.neighbors@[i as int]@ == n);
            if !(data.neighbors[i].name == request.src) {
                let id = maelstrom.generate_id();
                let body = Body::Broadcast(Broadcast { message: b.message.clone(), msg_id: id });
                let copy = maelstrom.create_message(&data.neighbors[i].name, body);
                let ghost out_before = out@;
                let ghost pending_before = data@.pending;
                data.store(copy.clone(), id, now);
                out.push(copy);
                proof {
                    let t1 = t.push(n);
                    let f0 = forwards(c0.node_id, t, value, c0.counter);
                    let f1 = forwards(c0.node_id, t1, value, c0.counter);
                    assert(f1 =~= f0.push(copy@));
                    assert(messages_view(out@) =~= messages_view(out_before).push(copy@));
                    assert(pending_for(f1, c0.counter, now) =~= pending_for(f0, c0.counter, now).push(
                        PendingView { msg_id: id, sent_at: now, message: copy@ },
                    ));
                    assert(data@.pending =~= pending_before.push(
                        PendingView { msg_id: id, sent_at: now, message: copy@ },
                    ));
                }
            }
            i = i + 1;
        }
        assert(s0.neighbors.subrange(0, i as int) =~= s0.neighbors);
        data.mark_neighbors_sent(&request.src, now);
    }
    let body = Body::BroadcastOk(BroadcastOk { msg_id: None, in_reply_to: b.msg_id });
    let ack = request.create_response(body);
    let ghost out_before = out@;
    out.push(ack);
    assert(messages_view(out@) =~= messages_view(out_before).push(ack@));
    proof {
        let e = on_broadcast(s0, c0, src, request.dest@, value, b.msg_id, now);
        assert(messages_view(out@) =~= messages_view(out0) + e.sent);
        assert(data@ =~= e.state);
    }
}

/// Takes on the neighbors that a topology lists for this node, in place of
/// any earlier ones, and acknowledges it; a topology that does not name this
/// node is dropped without a reply.
pub fn topology(
    topology: &Topology,
    request: &Message,
    out: &mut Vec<Message>,
    maelstrom: &Maelstrom,
    data: &mut SimpleBroadcast,
)
    ensures
        ({
            let (state, sent) = on_topology(
                old(data)@,
                maelstrom@.node_id,
                request.src@,
                request.dest@,
                topology_view(topology.topology@),
                topology.msg_id,
            );
            &&& final(data)@ == state
            &&& messages_view(final(out)@) == messages_view(old(out)@) + sent
        }),
{
    let ghost tv = topology_view(topology.topology@);
    let node_id = maelstrom.node_id();
    let mut i: usize = 0;
    assert(tv.skip(0) =~= tv);
    while i < topology.topology.len()
        invariant
            i <= tv.len(),
            tv == topology_view(topology.topology@),
            node_id@ == maelstrom@.node_id,
            data@ == old(data)@,
            out@ == old(out)@,
            neighbors_of(tv, node_id@) == neighbors_of(tv.skip(i as int), node_id@),
        decreases tv.len() - i,
    {
        let entry = &topology.topology[i];
        assert(tv.skip(i as int)[0] == tv[i as int]);
        if entry.0 == *node_id {
            let names = &entry.1;
            let mut fresh: Vec<Neighbor> = Vec::new();
            let mut j: usize = 0;
            while j < names.len()
                invariant
                    j <= names@.len(),
                    fresh@.len() == j,
                    forall|k: int|
                        0 <= k < j ==> #[trigger] fresh@[k]@ == (NeighborView {
                            name: names@[k]@,
                            newest_unack: None,
                            newest_ack: None,
                        }),
                decreases names@.len() - j,
            {
                fresh.push(Neighbor { name: names[j].clone(), newest_unack: None, newest_ack: None });
                j = j + 1;
            }
            assert(neighbors_view(fresh@) =~= fresh_neighbors(strings_view(names@)));
            data.neighbors = fresh;
            let body = Body::TopologyOk(TopologyOk { msg_id: None, in_reply_to: topology.msg_id });
            let reply = request.create_response(body);
            out.push(reply);
            proof {
                assert(neighbors_of(tv, node_id@) == Some(strings_view(names@)));
                assert(data@ =~= on_topology(old(data)@, node_id@, request.src@, request.dest@, tv, topology.msg_id).0);
                assert(messages_view(out@) =~= messages_view(old(out)@).push(reply@));
            }
            return;
        }
        assert(tv.skip(i as int).drop_first() =~= tv.skip(i + 1));
        i = i + 1;
    }
}

/// Takes note of an acknowledgement.
pub fn broadcast_ok(ok: &BroadcastOk, request: &Message, now: u64, data: &mut SimpleBroadcast)
    requires
        old(data)@.wf(),
    ensures
        final(data)@ == on_broadcast_ok(old(data)@, request.src@, ok.in_reply_to, now),
{
    data.clear(&request.src, ok.in_reply_to, now);
}

/// Answers a read with every value seen.
pub fn read(read: &Read, request: &Message, out: &mut Vec<Message>, data: &SimpleBroadcast)
    ensures
        messages_view(final(out)@) == messages_view(old(out)@) + seq![
            MessageView {
                src: request.dest@,
                dest: request.src@,
                body: BodyView::ReadOk {
                    in_reply_to: read.msg_id,
                    msg_id: None,
                    messages: data@.messages,
                },
            },
        ],
{
    let body = Body::ReadOk(
        ReadOk { msg_id: None, in_reply_to: read.msg_id, messages: copy_strings(&data.messages) },
    );
    let reply = request.create_response(body);
    let ghost before = out@;
    out.push(reply);
    assert(messages_view(out@) =~= messages_view(before) + seq![reply@]);
}

/// Registers the broadcast handlers and the retry tick.
pub fn insert_broadcast_simple_handlers(router: &mut Router)
    ensures
        final(router)@ == (RouterView {
            tick: Some(TickHandler::ResendOverdue),
            ..old(router)@
        }).register(Handler::Broadcast).register(Handler::BroadcastOk).register(
            Handler::Read,
        ).register(Handler::Topology),
{
    router.set_tick(TickHandler::ResendOverdue);
    router.on(Handler::Broadcast);
    router.on(Handler::BroadcastOk);
    router.on(Handler::Read);
    router.on(Handler::Topology);
}

} // verus!
