use vstd::prelude::*;

use crate::messages::{messages_view, Body, BodyView, Init, InitOk, Message, MessageView};
use crate::router::{Handler, Router};
use crate::{Maelstrom, MaelstromView};

verus! {

/// The reply to an init request.
pub open spec fn init_reply(src: Seq<char>, dest: Seq<char>, msg_id: u64) -> MessageView {
    MessageView { src: dest, dest: src, body: BodyView::InitOk { in_reply_to: msg_id } }
}

/// An init request: the node takes on the name it is given.
pub open spec fn on_init(ctx: MaelstromView, node_id: Seq<char>) -> MaelstromView {
    MaelstromView { node_id, counter: ctx.counter }
}

/// Takes on the name the cluster gives this node and acknowledges it.
pub fn init(init: &Init, request: &Message, out: &mut Vec<Message>, maelstrom: &mut Maelstrom)
    ensures
        final(maelstrom)@ == on_init(old(maelstrom)@, init.node_id@),
        messages_view(final(out)@) == messages_view(old(out)@).push(
            init_reply(request.src@, request.dest@, init.msg_id),
        ),
{
    maelstrom.set_node_id(init.node_id.clone());
    let reply = request.create_response(Body::InitOk(InitOk { in_reply_to: init.msg_id }));
    let ghost before = out@;
    out.push(reply);
    assert(messages_view(out@) =~= messages_view(before).push(reply@));
}

/// Registers the init handler.
pub fn insert_handlers(router: &mut Router)
    ensures
        final(router)@ == old(router)@.register(Handler::Init),
{
    router.on(Handler::Init);
}

/// A router that answers init requests and nothing else.
pub fn create_router() -> (r: Router)
    ensures
        r@.handlers == Map::<crate::messages::BodyKind, Handler>::empty().insert(
            crate::messages::BodyKind::Init,
            Handler::Init,
        ),
        r@.tick is None,
{
    let mut router = Router::new();
    insert_handlers(&mut router);
    router
}

} // verus!
