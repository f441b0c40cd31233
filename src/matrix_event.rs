use crate::chat_service::{opt_view, Message};
use crate::engine::{opt_string_view, Delivery};
use crate::sanitize::{sanitize, sanitized};
use crate::text::{find_ping, mapped_ping, quoted_reply, reply_quote};
use vstd::prelude::*;

verus! {

/// The body (`content.body`) and sender (`sender`) string fields of a Matrix event in
/// JSON form, when the text parses and both fields are strings: what `serde_json::from_str`
/// followed by `Value::get` and `Value::as_str` on those paths gives.
pub uninterp spec fn event_fields(json: Seq<char>) -> Option<(Seq<char>, Seq<char>)>;

pub open spec fn opt_pair_view(o: Option<(String, String)>) -> Option<(Seq<char>, Seq<char>)> {
    match o {
        Some((a, b)) => Some((a@, b@)),
        None => None,
    }
}

/// Relies on `serde_json::from_str` to parse the event JSON; the two string fields are
/// then picked from the parsed value. The result depends on the text alone.
#[verifier::external_body]
fn body_and_sender(json: &str) -> (r: Option<(String, String)>)
    ensures
        opt_pair_view(r) == event_fields(json@),
{
    let v: serde_json::Value = serde_json::from_str(json).ok()?;
    let body = v.get("content")?.get("body")?.as_str()?;
    let sender = v.get("sender")?.as_str()?;
    Some((body.to_owned(), sender.to_owned()))
}

/// The Discord text of a Matrix reply, when the replied-to event can be read.
pub open spec fn reply_text(
    event_json: Seq<char>,
    bot_localpart: Seq<char>,
    link: Option<Message>,
    body: Seq<char>,
) -> Option<Seq<char>> {
    match event_fields(event_json) {
        Some((quoted, sender)) => Some(
            quoted_reply(mapped_ping(sender, bot_localpart), quoted, opt_view(link), body),
        ),
        None => None,
    }
}

/// Composes the Discord text of a Matrix reply from the replied-to event (as JSON): a
/// header quoting its author and first line, then the new body; `None` when the event
/// lacks a string body or sender.
pub fn quote_replied_event(event_json: &str, bot_localpart: &str, link: &Option<Message>, body: String) -> (r:
    Option<String>)
    ensures
        r matches Some(s) ==> reply_text(event_json@, bot_localpart@, *link, body@) == Some(s@),
        r is None ==> reply_text(event_json@, bot_localpart@, *link, body@) is None,
{
    match body_and_sender(event_json) {
        Some((quoted, sender)) => {
            let author_ping = find_ping(sender, bot_localpart);
            Some(reply_quote(author_ping.as_str(), quoted, link, body))
        },
        None => None,
    }
}

/// The text to post on Discord for a planned Matrix message: when the message replies
/// to an event whose JSON is at hand and readable, the quoted reply (linked to the
/// planned reply target) with broadcast mentions neutralized; else the planned text.
pub open spec fn discord_text(
    d: Delivery,
    event_json: Option<Seq<char>>,
    bot_localpart: Seq<char>,
    body: Seq<char>,
) -> Seq<char> {
    match event_json {
        Some(j) => match reply_text(j, bot_localpart, d.reply_to, body) {
            Some(t) => sanitized(t),
            None => d.content@,
        },
        None => d.content@,
    }
}

/// Chooses the text to post on Discord for the planned delivery `d` of a Matrix message
/// with body `body`, given the JSON of the event it replies to, if any.
pub fn discord_reply_content(
    d: &Delivery,
    event_json: Option<String>,
    bot_localpart: &str,
    body: String,
) -> (r: String)
    ensures
        r@ == discord_text(*d, opt_string_view(event_json), bot_localpart@, body@),
{
    match event_json {
        Some(j) => match quote_replied_event(j.as_str(), bot_localpart, &d.reply_to, body) {
            Some(t) => sanitize(t),
            None => d.content.clone(),
        },
        None => d.content.clone(),
    }
}

} // verus!
