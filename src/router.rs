use vstd::prelude::*;

use crate::messages::{messages_view, Body, BodyKind, BodyView, Message, MessageView};
use crate::workloads::broadcast::{
    self, on_broadcast, on_broadcast_ok, on_read, on_tick, on_topology, BroadcastView,
    SimpleBroadcast,
};
use crate::workloads::echo::{self, echo_reply};
use crate::workloads::init::{self, init_reply, on_init};
use crate::workloads::unique_id::{self, generate_reply, is_uuid_v4_text};
use crate::{Effect, Maelstrom, MaelstromView};

verus! {

/// The handlers a router can bind, one for each kind of request it serves.
#[derive(Debug, Clone, Copy, PartialEq, Eq, Structural)]
pub enum Handler {
    Init,
    Echo,
    Generate,
    Broadcast,
    BroadcastOk,
    Read,
    Topology,
}

/// The periodic callbacks a router can bind.
#[derive(Debug, Clone, Copy, PartialEq, Eq, Structural)]
pub enum TickHandler {
    /// Sends again every broadcast copy that waits too long for its
    /// acknowledgement.
    ResendOverdue,
}

impl Handler {
    /// The kind of message this handler takes.
    pub open spec fn spec_kind(self) -> BodyKind {
        match self {
            Handler::Init => BodyKind::Init,
            Handler::Echo => BodyKind::Echo,
            Handler::Generate => BodyKind::Generate,
            Handler::Broadcast => BodyKind::Broadcast,
            Handler::BroadcastOk => BodyKind::BroadcastOk,
            Handler::Read => BodyKind::Read,
            Handler::Topology => BodyKind::Topology,
        }
    }

    /// The kind of message this handler takes.
    pub fn kind(&self) -> (k: BodyKind)
        ensures
            k == self.spec_kind(),
    {
        match self {
            Handler::Init => BodyKind::Init,
            Handler::Echo => BodyKind::Echo,
            Handler::Generate => BodyKind::Generate,
            Handler::Broadcast => BodyKind::Broadcast,
            Handler::BroadcastOk => BodyKind::BroadcastOk,
            Handler::Read => BodyKind::Read,
            Handler::Topology => BodyKind::Topology,
        }
    }
}

/// Binds message kinds to handlers, and at most one tick callback.
#[derive(Debug)]
pub struct Router {
    handlers: Vec<Handler>,
    tick: Option<TickHandler>,
}

/// The mathematical content of a [`Router`].
pub struct RouterView {
    pub handlers: Map<BodyKind, Handler>,
    pub tick: Option<TickHandler>,
}

impl RouterView {
    /// The router after binding `h` to its kind, in place of any earlier one.
    pub open spec fn register(self, h: Handler) -> RouterView {
        RouterView { handlers: self.handlers.insert(h.spec_kind(), h), tick: self.tick }
    }
}

/// The bindings made by registering `v` in order: a later one wins.
pub open spec fn registry(v: Seq<Handler>) -> Map<BodyKind, Handler>
    decreases v.len(),
{
    if v.len() == 0 {
        Map::empty()
    } else {
        registry(v.drop_last()).insert(v.last().spec_kind(), v.last())
    }
}

impl View for Router {
    type V = RouterView;

    closed spec fn view(&self) -> RouterView {
        RouterView { handlers: registry(self.handlers@), tick: self.tick }
    }
}

/// What handling `m` does, with `id` as the id a generate request is
/// answered with: the handler bound to the message's kind acts, and a kind
/// with no handler is ignored.
pub open spec fn dispatch(
    r: RouterView,
    m: MessageView,
    now: u64,
    s: BroadcastView,
    c: MaelstromView,
    id: Seq<char>,
) -> Effect {
    let unchanged = Effect { state: s, ctx: c, sent: seq![] };
    if !r.handlers.contains_key(m.body.kind()) {
        unchanged
    } else {
        match m.body {
            BodyView::Init { msg_id, node_id, .. } => Effect {
                state: s,
                ctx: on_init(c, node_id),
                sent: seq![init_reply(m.src, m.dest, msg_id)],
            },
            BodyView::Echo { msg_id, echo } => Effect {
                state: s,
                ctx: c,
                sent: seq![echo_reply(m.src, m.dest, msg_id, echo)],
            },
            BodyView::Generate { msg_id } => Effect {
                state: s,
                ctx: c,
                sent: seq![generate_reply(m.src, m.dest, msg_id, id)],
            },
            BodyView::Broadcast { message, msg_id } => on_broadcast(
                s,
                c,
                m.src,
                m.dest,
                message,
                msg_id,
                now,
            ),
            BodyView::BroadcastOk { in_reply_to, .. } => Effect {
                state: on_broadcast_ok(s, m.src, in_reply_to, now),
                ctx: c,
                sent: seq![],
            },
            BodyView::Read { msg_id } => on_read(s, c, m.src, m.dest, msg_id),
            BodyView::Topology { msg_id, topology } => {
                let (state, sent) = on_topology(s, c.node_id, m.src, m.dest, topology, msg_id);
                Effect { state, ctx: c, sent }
            },
            _ => unchanged,
        }
    }
}

/// What a tick does: the bound callback acts, if there is one.
pub open spec fn tick_effect(r: RouterView, s: BroadcastView, c: MaelstromView, now: u64) -> Effect {
    match r.tick {
        Some(TickHandler::ResendOverdue) => on_tick(s, c, now),
        None => Effect { state: s, ctx: c, sent: seq![] },
    }
}

impl Router {
    /// A router with nothing bound.
    pub fn new() -> (r: Router)
        ensures
            r@.handlers == Map::<BodyKind, Handler>::empty(),
            r@.tick is None,
    {
        Router { handlers: Vec::new(), tick: None }
    }

    /// Binds `handler` to the kind of message it takes; a later binding for
    /// the same kind replaces an earlier one.
    pub fn on(&mut self, handler: Handler)
        ensures
            final(self)@ == old(self)@.register(handler),
    {
        let ghost v0 = self.handlers@;
        self.handlers.push(handler);
        assert(self.handlers@.drop_last() =~= v0);
    }

    /// Binds the tick callback, in place of any earlier one.
    pub fn set_tick(&mut self, handler: TickHandler)
        ensures
            final(self)@ == (RouterView { tick: Some(handler), ..old(self)@ }),
    {
        self.tick = Some(handler);
    }

    /// The handler bound to `kind`, if any.
    fn handler_for(&self, kind: BodyKind) -> (r: Option<Handler>)
        ensures
            r == (if self@.handlers.contains_key(kind) {
                Some(self@.handlers[kind])
            } else {
                None
            }),
    {
        let mut i: usize = self.handlers.len();
        assert(self.handlers@.subrange(0, i as int) =~= self.handlers@);
        while i > 0
            invariant
                i <= self.handlers@.len(),
                registry(self.handlers@.subrange(0, i as int)).contains_key(kind)
                    == registry(self.handlers@).contains_key(kind),
                registry(self.handlers@.subrange(0, i as int)).contains_key(kind) ==> registry(
                    self.handlers@.subrange(0, i as int),
                )[kind] == registry(self.handlers@)[kind],
            decreases i,
        {
            let ghost prefix = self.handlers@.subrange(0, i as int);
            assert(prefix.drop_last() =~= self.handlers@.subrange(0, i - 1));
            let h = self.handlers[i - 1];
            if h.kind() == kind {
                return Some(h);
            }
            i = i - 1;
        }
        None
    }

    /// Calls the tick callback, if one is bound.
    pub fn tick(&self, now: u64, out: &mut Vec<Message>, maelstrom: &Maelstrom, data: &SimpleBroadcast)
        ensures
            messages_view(final(out)@) == messages_view(old(out)@) + tick_effect(
                self@,
                data@,
                maelstrom@,
                now,
            ).sent,
    {
        match self.tick {
            Some(TickHandler::ResendOverdue) => broadcast::tick(now, out, data),
            None => {
                assert(messages_view(out@) =~= messages_view(old(out)@) + seq![]);
            },
        }
    }

    /// Hands `msg` to the handler bound to its kind; a message of a kind
    /// with no handler is ignored. A generate request is answered with a
    /// random id.
    pub fn handle(
        &self,
        msg: Message,
        now: u64,
        out: &mut Vec<Message>,
        maelstrom: &mut Maelstrom,
        data: &mut SimpleBroadcast,
    )
        requires
            old(data)@.wf(),
            old(maelstrom)@.counter + old(data)@.neighbors.len() <= u64::MAX,
        ensures
            exists|id: Seq<char>|
                {
                    let e = #[trigger] dispatch(self@, msg@, now, old(data)@, old(maelstrom)@, id);
                    &&& msg@.body is Generate && self@.handlers.contains_key(BodyKind::Generate)
                        ==> is_uuid_v4_text(id)
                    &&& final(data)@ == e.state
                    &&& final(maelstrom)@ == e.ctx
                    &&& messages_view(final(out)@) == messages_view(old(out)@) + e.sent
                },
    {
        let ghost m = msg@;
        let ghost out0 = out@;
        let ghost mut id = Seq::<char>::empty();
        let kind = msg.body.kind();
        if self.handler_for(kind).is_some() {
            match &msg.body {
                Body::Init(b) => init::init(b, &msg, out, maelstrom),
                Body::Echo(b) => echo::echo(b, &msg, out),
                Body::Generate(b) => {
                    unique_id::generate(b, &msg, out);
                    proof {
                        id = choose|id: Seq<char>|
                            is_uuid_v4_text(id) && messages_view(out@) == messages_view(out0).push(
                                generate_reply(msg.src@, msg.dest@, b.msg_id, id),
                            );
                    }
                },
                Body::Broadcast(b) => broadcast::broadcast(b, &msg, now, out, maelstrom, data),
                Body::BroadcastOk(b) => broadcast::broadcast_ok(b, &msg, now, data),
                Body::Read(b) => broadcast::read(b, &msg, out, data),
                Body::Topology(b) => broadcast::topology(b, &msg, out, &*maelstrom, data),
                _ => {},
            }
        }
        proof {
            let e = dispatch(self@, m, now, old(data)@, old(maelstrom)@, id);
            assert(messages_view(out@) =~= messages_view(out0) + e.sent);
            assert(data@ == e.state);
            assert(maelstrom@ == e.ctx);
        }
    }
}

} // verus!
