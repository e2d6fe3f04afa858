use vstd::prelude::*;

use crate::messages::{messages_view, Body, BodyView, Generate, GenerateOk, Message, MessageView};
use crate::router::{Handler, Router};

verus! {

/// The text form of a random version-4 UUID: 36 characters, dashes at
/// 8, 13, 18 and 23, and the version digit `4` at 14.
pub open spec fn is_uuid_v4_text(s: Seq<char>) -> bool {
    &&& s.len() == 36
    &&& s[8] == '-'
    &&& s[13] == '-'
    &&& s[18] == '-'
    &&& s[23] == '-'
    &&& s[14] == '4'
}

/// Relies on uuid's `Uuid::new_v4` for a random id and on its `Display`,
/// which writes the hyphenated lower-case form.
#[verifier::external_body]
fn new_unique_id() -> (r: String)
    ensures
        is_uuid_v4_text(r@),
{
    uuid::Uuid::new_v4().to_string()
}

/// The reply to a generate request carrying `id`.
pub open spec fn generate_reply(src: Seq<char>, dest: Seq<char>, msg_id: u64, id: Seq<char>) -> MessageView {
    MessageView {
        src: dest,
        dest: src,
        body: BodyView::GenerateOk { in_reply_to: msg_id, msg_id: None, id },
    }
}

/// Answers a generate request with the id it is handed.
pub fn generate_with(generate: &Generate, request: &Message, id: String, out: &mut Vec<Message>)
    ensures
        messages_view(final(out)@) == messages_view(old(out)@).push(
            generate_reply(request.src@, request.dest@, generate.msg_id, id@),
        ),
{
    let body = Body::GenerateOk(GenerateOk { msg_id: None, in_reply_to: generate.msg_id, id });
    let reply = request.create_response(body);
    let ghost before = out@;
    out.push(reply);
    assert(messages_view(out@) =~= messages_view(before).push(reply@));
}

/// Answers a generate request with a fresh random id.
pub fn generate(generate: &Generate, request: &Message, out: &mut Vec<Message>)
    ensures
        exists|id: Seq<char>|
            is_uuid_v4_text(id) && messages_view(final(out)@) == messages_view(old(out)@).push(
                generate_reply(request.src@, request.dest@, generate.msg_id, id),
            ),
{
    let id = new_unique_id();
    let ghost text = id@;
    generate_with(generate, request, id, out);
    assert(is_uuid_v4_text(text));
}

/// Registers the unique-id handler.
pub fn insert_unique_id_handlers(router: &mut Router)
    ensures
        final(router)@ == old(router)@.register(Handler::Generate),
{
    router.on(Handler::Generate);
}

} // verus!
