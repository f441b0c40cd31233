use crate::chat_service::{
    discord_service, matrix_service, opt_view, views_of, FullMessage, Message, MessageView,
};
use crate::config::{destination, destination_of, find_pairing, first_pairing, Entry, Outer};
use crate::markup::{html_of, is_renderable, render_markdown, renderable};
use crate::puppet::{display_of, persona_display};
use crate::reply::{reply_target, resolve_reply_target};
use crate::sanitize::{sanitize, sanitized};
use crate::store::{message_origin, message_relays, origin_of, relays_of, CorrelationStore, EdgeView};
use vstd::prelude::*;

verus! {

/// A message to send through the adapter of the destination service.
pub struct Delivery {
    /// The destination room; the id is empty until the message is sent.
    pub target: Message,
    /// The webhook of the pairing, used by webhook-based adapters.
    pub webhook: String,
    /// The text to send, with broadcast mentions neutralized.
    pub content: String,
    /// The rendered HTML of `content`, for destinations that take HTML.
    pub html: Option<String>,
    /// The name to show for the author.
    pub sender_display: String,
    /// The message on the destination service to thread the new one against.
    pub reply_to: Option<Message>,
}

/// An edit to apply to one mirrored copy.
pub struct EditRequest {
    pub target: Message,
    pub content: String,
    pub html: Option<String>,
}

/// Whether the destination service takes HTML beside the plain text.
pub open spec fn takes_html(service: Seq<char>) -> bool {
    service == matrix_service()
}

/// The HTML that goes with `content` on `service`; none for a text that the renderer
/// cannot take, which is then sent as plain text.
pub open spec fn html_for(service: Seq<char>, content: Seq<char>) -> Option<Seq<char>> {
    if takes_html(service) && renderable(content) {
        Some(html_of(content))
    } else {
        None
    }
}

pub open spec fn opt_string_view(o: Option<String>) -> Option<Seq<char>> {
    match o {
        Some(s) => Some(s@),
        None => None,
    }
}

/// Whether the service's adapter can edit messages.
pub open spec fn can_edit(service: Seq<char>) -> bool {
    service == discord_service() || service == matrix_service()
}

/// The targets among `rs` whose service can edit, in order.
pub open spec fn editable(rs: Seq<MessageView>) -> Seq<MessageView>
    decreases rs.len(),
{
    if rs.len() == 0 {
        Seq::empty()
    } else if can_edit(rs.last().service) {
        editable(rs.drop_last()).push(rs.last())
    } else {
        editable(rs.drop_last())
    }
}

/// The origin as a sequence of zero or one messages.
pub open spec fn origin_list(o: Option<MessageView>) -> Seq<MessageView> {
    match o {
        Some(m) => seq![m],
        None => Seq::empty(),
    }
}

/// The copies to delete when `m` is deleted: every relay of `m`, then its origin.
pub open spec fn deletions(edges: Seq<EdgeView>, m: MessageView) -> Seq<MessageView> {
    relays_of(edges, m) + origin_list(origin_of(edges, m))
}

/// `d` is what relaying `message` sends, for the pairing rooms and recorded edges given.
pub open spec fn planned_delivery(
    rooms: Seq<Entry>,
    edges: Seq<EdgeView>,
    message: FullMessage,
    d: Delivery,
) -> bool {
    match first_pairing(rooms, message.message@) {
        None => false,
        Some(i) => {
            let dest = destination(rooms[i], message.message@);
            &&& d.target@ == dest
            &&& d.webhook@ == rooms[i].webhook@
            &&& d.content@ == sanitized(message.content@)
            &&& opt_string_view(d.html) == html_for(dest.service, d.content@)
            &&& d.sender_display@ == display_of(message.user)
            &&& opt_view(d.reply_to) == match message.reply {
                Some(p) => reply_target(edges, dest.service, p@),
                None => None,
            }
        },
    }
}

fn html_for_exec(service: &String, content: &String) -> (r: Option<String>)
    ensures
        opt_string_view(r) == html_for(service@, content@),
{
    if *service == crate::chat_service::matrix_name() && is_renderable(content.as_str()) {
        Some(render_markdown(content.as_str()))
    } else {
        None
    }
}

/// Plans the relay of a new message: `None` when its room is not paired, else what to
/// send, where, as whom and in reply to what.
pub fn relay_message(config: &Outer, store: &CorrelationStore, message: &FullMessage) -> (r: Option<
    Delivery,
>)
    ensures
        r is None <==> first_pairing(config.room@, message.message@) is None,
        r matches Some(d) ==> planned_delivery(config.room@, store@, *message, d),
{
    let i = match find_pairing(&config.room, &message.message) {
        Some(i) => i,
        None => return None,
    };
    let entry = &config.room[i];
    let target = destination_of(entry, &message.message);
    let content = sanitize(message.content.clone());
    let html = html_for_exec(&target.service, &content);
    let reply_to = match &message.reply {
        Some(p) => resolve_reply_target(store, &target.service, &**p),
        None => None,
    };
    Some(
        Delivery {
            target,
            webhook: entry.webhook.clone(),
            content,
            html,
            sender_display: persona_display(&message.user),
            reply_to,
        },
    )
}

/// Plans an edit: one request for each recorded copy on a service that can edit, in
/// the order the copies were recorded.
pub fn edit_message(store: &CorrelationStore, message: &FullMessage) -> (r: Vec<EditRequest>)
    ensures
        r@.len() == editable(relays_of(store@, message.message@)).len(),
        forall|k: int|
            0 <= k < r@.len() ==> {
                &&& (#[trigger] r@[k]).target@ == editable(relays_of(store@, message.message@))[k]
                &&& r@[k].content@ == sanitized(message.content@)
                &&& opt_string_view(r@[k].html) == html_for(r@[k].target.service@, r@[k].content@)
            },
        relays_of(store@, message.message@).len() == 0 ==> r@.len() == 0,
{
    let relays = message_relays(store, &message.message);
    let ghost rs = relays_of(store@, message.message@);
    let discord = crate::chat_service::discord_name();
    let matrix = crate::chat_service::matrix_name();
    let mut out: Vec<EditRequest> = Vec::new();
    let mut i: usize = 0;
    while i < relays.len()
        invariant
            i <= relays.len(),
            views_of(relays@) == rs,
            discord@ == discord_service(),
            matrix@ == matrix_service(),
            out@.len() == editable(rs.subrange(0, i as int)).len(),
            forall|k: int|
                0 <= k < out@.len() ==> {
                    &&& (#[trigger] out@[k]).target@ == editable(rs.subrange(0, i as int))[k]
                    &&& out@[k].content@ == sanitized(message.content@)
                    &&& opt_string_view(out@[k].html) == html_for(
                        out@[k].target.service@,
                        out@[k].content@,
                    )
                },
        decreases relays.len() - i,
    {
        assert(rs.subrange(0, i + 1).drop_last() == rs.subrange(0, i as int));
        assert(rs[i as int] == relays@[i as int]@);
        let t = &relays[i];
        if t.service == discord || t.service == matrix {
            let content = sanitize(message.content.clone());
            let html = html_for_exec(&t.service, &content);
            out.push(EditRequest { target: t.copy(), content, html });
        }
        i = i + 1;
    }
    assert(rs.subrange(0, i as int) == rs);
    out
}

/// Plans a delete: every recorded copy of `message`, then the message it was itself
/// relayed from, if any.
pub fn delete_message(store: &CorrelationStore, message: &Message) -> (r: Vec<Message>)
    ensures
        views_of(r@) == deletions(store@, message@),
{
    let mut out = message_relays(store, message);
    match message_origin(store, message) {
        Some(o) => {
            let ghost before = out@;
            out.push(o);
            assert(views_of(out@) =~= views_of(before) + origin_list(origin_of(store@, message@)));
        },
        None => {
            assert(views_of(out@) =~= views_of(out@) + origin_list(origin_of(store@, message@)));
        },
    }
    out
}

/// Deleting either copy of a relayed message reaches the other: after relaying `a` to
/// `b` in a new store, deleting `a` deletes `b` alone, and deleting `b` deletes its origin
/// `a` alone, `b` having no relays of its own.
pub proof fn lemma_delete_reaches_other_copy(a: MessageView, b: MessageView)
    requires
        a != b,
    ensures
        ({
            let e = crate::store::recorded(Seq::empty(), a, b);
            &&& deletions(e, a) == seq![b]
            &&& relays_of(e, b).len() == 0
            &&& deletions(e, b) == seq![a]
        }),
{
    let e0 = Seq::<EdgeView>::empty();
    let e = crate::store::recorded(e0, a, b);
    assert(origin_of(e0, b) is None && origin_of(e0, a) is None);
    assert(e.drop_last() == e0);
    assert(relays_of(e0, a).len() == 0 && relays_of(e0, b).len() == 0);
    assert(relays_of(e, a) == seq![b]);
    assert(origin_of(e, a) is None);
    assert(deletions(e, a) =~= seq![b]);
    assert(deletions(e, b) =~= seq![a]);
}

} // verus!
