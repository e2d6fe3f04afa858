use vstd::prelude::*;

use crate::messages::{messages_view, Body, BodyView, Echo, EchoOk, Message, MessageView};
use crate::router::{Handler, Router};

verus! {

/// The reply to an echo request: the same text back.
pub open spec fn echo_reply(src: Seq<char>, dest: Seq<char>, msg_id: u64, echo: Seq<char>) -> MessageView {
    MessageView {
        src: dest,
        dest: src,
        body: BodyView::EchoOk { msg_id: None, in_reply_to: msg_id, echo },
    }
}

/// Sends the text of an echo request back to its sender.
pub fn echo(echo: &Echo, request: &Message, out: &mut Vec<Message>)
    ensures
        messages_view(final(out)@) == messages_view(old(out)@).push(
            echo_reply(request.src@, request.dest@, echo.msg_id, echo.echo@),
        ),
{
    let body = Body::EchoOk(EchoOk { msg_id: None, in_reply_to: echo.msg_id, echo: echo.echo.clone() });
    let reply = request.create_response(body);
    let ghost before = out@;
    out.push(reply);
    assert(messages_view(out@) =~= messages_view(before).push(reply@));
}

/// Registers the echo handler.
pub fn insert_echo_handlers(router: &mut Router)
    ensures
        final(router)@ == old(router)@.register(Handler::Echo),
{
    router.on(Handler::Echo);
}

} // verus!
