use vstd::prelude::*;

pub mod messages;
pub mod router;
pub mod laws;
pub mod workloads;

use messages::{messages_view, Body, BodyKind, Message, MessageView};
use router::{dispatch, tick_effect, Router, RouterView};
use workloads::broadcast::{
    lemma_on_broadcast_ok_wf, lemma_on_broadcast_wf, BroadcastView, NeighborView, PendingView,
    SimpleBroadcast,
};
use workloads::unique_id::is_uuid_v4_text;

verus! {

/// The node's own context, handed to every handler: its name in the
/// cluster and the source of fresh correlation ids.
#[derive(Debug)]
pub struct Maelstrom {
    node_id: String,
    counter: u64,
}

/// What handling one message or one tick does: the workload state and the
/// context afterwards, and the messages sent, in order.
pub struct Effect {
    pub state: BroadcastView,
    pub ctx: MaelstromView,
    pub sent: Seq<MessageView>,
}

/// The mathematical content of a [`Maelstrom`].
pub struct MaelstromView {
    pub node_id: Seq<char>,
    pub counter: u64,
}

impl View for Maelstrom {
    type V = MaelstromView;

    closed spec fn view(&self) -> MaelstromView {
        MaelstromView { node_id: self.node_id@, counter: self.counter }
    }
}

impl Maelstrom {
    /// A context with no name yet and ids starting at zero.
    pub fn new() -> (r: Maelstrom)
        ensures
            r@.node_id == Seq::<char>::empty(),
            r@.counter == 0,
    {
        Maelstrom { node_id: String::new(), counter: 0 }
    }

    /// The node's name.
    pub fn node_id(&self) -> (r: &String)
        ensures
            r@ == self@.node_id,
    {
        &self.node_id
    }

    /// Takes on the name the cluster gave this node.
    pub fn set_node_id(&mut self, node_id: String)
        ensures
            final(self)@.node_id == node_id@,
            final(self)@.counter == old(self)@.counter,
    {
        self.node_id = node_id;
    }

    /// A message from this node to `dest`.
    pub fn create_message(&self, dest: &String, body: Body) -> (r: Message)
        ensures
            r.src@ == self@.node_id,
            r.dest == *dest,
            r.body == body,
    {
        Message { src: self.node_id.clone(), dest: dest.clone(), body }
    }

    /// The id the next call of `generate_id` hands out.
    pub fn next_id(&self) -> (r: u64)
        ensures
            r == self@.counter,
    {
        self.counter
    }

    /// Hands out the next correlation id; each call gives a new one.
    pub fn generate_id(&mut self) -> (id: u64)
        requires
            old(self)@.counter < u64::MAX,
        ensures
            id == old(self)@.counter,
            final(self)@.counter == old(self)@.counter + 1,
            final(self)@.node_id == old(self)@.node_id,
    {
        let id = self.counter;
        self.counter = self.counter + 1;
        id
    }
}

impl Default for Maelstrom {
    fn default() -> (r: Maelstrom)
        ensures
            r@.node_id == Seq::<char>::empty(),
            r@.counter == 0,
    {
        Maelstrom::new()
    }
}

/// A node: its router, its workload state and its context, driven one
/// turn at a time.
#[derive(Debug)]
pub struct Server {
    router: Router,
    user_data: SimpleBroadcast,
    maelstrom_data: Maelstrom,
}

/// The mathematical content of a [`Server`].
pub struct ServerView {
    pub router: RouterView,
    pub state: BroadcastView,
    pub ctx: MaelstromView,
}

impl ServerView {
    /// The workload state is well formed and every pending id lies below
    /// the next fresh one.
    pub open spec fn wf(self) -> bool {
        self.state.wf() && self.state.ids_below(self.ctx.counter)
    }

    /// There are fresh ids left for one copy to each neighbor.
    pub open spec fn has_id_room(self) -> bool {
        self.ctx.counter + self.state.neighbors.len() <= u64::MAX
    }
}

impl View for Server {
    type V = ServerView;

    closed spec fn view(&self) -> ServerView {
        ServerView { router: self.router@, state: self.user_data@, ctx: self.maelstrom_data@ }
    }
}

/// The view of a message that may or may not have come.
pub open spec fn message_option_view(m: Option<Message>) -> Option<MessageView> {
    match m {
        Some(m) => Some(m@),
        None => None,
    }
}

/// One turn of the main loop: the message, if one came, is handled, and
/// then the tick runs whether or not one came.
pub open spec fn step_effect(
    v: ServerView,
    msg: Option<MessageView>,
    now: u64,
    id: Seq<char>,
) -> Effect {
    let e1 = match msg {
        Some(m) => dispatch(v.router, m, now, v.state, v.ctx, id),
        None => Effect { state: v.state, ctx: v.ctx, sent: seq![] },
    };
    let e2 = tick_effect(v.router, e1.state, e1.ctx, now);
    Effect { state: e2.state, ctx: e2.ctx, sent: e1.sent + e2.sent }
}

/// Handling any message keeps the node well formed.
pub proof fn lemma_dispatch_wf(
    r: RouterView,
    m: MessageView,
    now: u64,
    s: BroadcastView,
    c: MaelstromView,
    id: Seq<char>,
)
    requires
        (ServerView { router: r, state: s, ctx: c }).wf(),
        (ServerView { router: r, state: s, ctx: c }).has_id_room(),
    ensures
        ({
            let e = dispatch(r, m, now, s, c, id);
            &&& (ServerView { router: r, state: e.state, ctx: e.ctx }).wf()
            &&& c.counter <= e.ctx.counter
        }),
{
    if r.handlers.contains_key(m.body.kind()) {
        match m.body {
            messages::BodyView::Broadcast { message, msg_id } => {
                lemma_on_broadcast_wf(s, c, m.src, m.dest, message, msg_id, now);
            },
            messages::BodyView::BroadcastOk { in_reply_to, .. } => {
                lemma_on_broadcast_ok_wf(s, m.src, in_reply_to, now, c.counter);
            },
            _ => {},
        }
    }
}

impl Server {
    /// A node with no name yet, nothing seen and no neighbors, served by
    /// `router`.
    pub fn new(router: Router) -> (r: Server)
        ensures
            r@.router == router@,
            r@.state.messages == Seq::<Seq<char>>::empty(),
            r@.state.neighbors == Seq::<NeighborView>::empty(),
            r@.state.pending == Seq::<PendingView>::empty(),
            r@.ctx.node_id == Seq::<char>::empty(),
            r@.ctx.counter == 0,
            r@.wf(),
    {
        Server { router, user_data: SimpleBroadcast::new(), maelstrom_data: Maelstrom::new() }
    }

    /// Whether fresh ids are left for one copy to each neighbor.
    pub fn has_id_room(&self) -> (r: bool)
        ensures
            r == self@.has_id_room(),
    {
        let neighbors = self.user_data.neighbor_count() as u64;
        self.maelstrom_data.next_id() <= u64::MAX - neighbors
    }

    /// One turn of the main loop: handles `msg`, if one came, then ticks.
    /// Returns what is to be sent, in order.
    pub fn step(&mut self, msg: Option<Message>, now: u64) -> (out: Vec<Message>)
        requires
            old(self)@.wf(),
            old(self)@.has_id_room(),
        ensures
            final(self)@.wf(),
            final(self)@.router == old(self)@.router,
            exists|id: Seq<char>|
                {
                    let e = #[trigger] step_effect(old(self)@, message_option_view(msg), now, id);
                    &&& (msg matches Some(m) && m@.body is Generate
                        && old(self)@.router.handlers.contains_key(BodyKind::Generate))
                        ==> is_uuid_v4_text(id)
                    &&& final(self)@.state == e.state
                    &&& final(self)@.ctx == e.ctx
                    &&& messages_view(out@) == e.sent
                },
    {
        let ghost v0 = self@;
        let ghost mv = message_option_view(msg);
        let mut out: Vec<Message> = Vec::new();
        let ghost mut id = Seq::<char>::empty();
        match msg {
            Some(m) => {
                let ghost m_view = m@;
                self.router.handle(
                    m,
                    now,
                    &mut out,
                    &mut self.maelstrom_data,
                    &mut self.user_data,
                );
                proof {
                    id = choose|id: Seq<char>|
                        {
                            let e = #[trigger] dispatch(v0.router, m_view, now, v0.state, v0.ctx, id);
                            &&& m_view.body is Generate && v0.router.handlers.contains_key(BodyKind::Generate)
                                ==> is_uuid_v4_text(id)
                            &&& self@.state == e.state
                            &&& self@.ctx == e.ctx
                            &&& messages_view(out@) == messages_view(Seq::<Message>::empty()) + e.sent
                        };
                    lemma_dispatch_wf(v0.router, m_view, now, v0.state, v0.ctx, id);
                }
            },
            None => {},
        }
        let ghost out1 = out@;
        self.router.tick(now, &mut out, &self.maelstrom_data, &self.user_data);
        proof {
            let e = step_effect(v0, mv, now, id);
            assert(messages_view(Seq::<Message>::empty()) =~= Seq::<MessageView>::empty());
            assert(messages_view(out@) =~= e.sent);
        }
        out
    }
}

} // verus!
