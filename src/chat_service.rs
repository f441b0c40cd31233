use vstd::prelude::*;
use vstd::string::*;

verus! {

/// The service name under which Discord messages are recorded.
pub open spec fn discord_service() -> Seq<char> {
    "discord"@
}

/// The service name under which Matrix messages are recorded.
pub open spec fn matrix_service() -> Seq<char> {
    "matrix"@
}

pub fn discord_name() -> (r: String)
    ensures
        r@ == discord_service(),
{
    String::from_str("discord")
}

pub fn matrix_name() -> (r: String)
    ensures
        r@ == matrix_service(),
{
    String::from_str("matrix")
}

/// The author of a message, as seen by the service it was written on.
#[derive(Clone, Debug)]
pub struct User {
    /// Service the author belongs to, e.g. "matrix" or "discord".
    pub source: String,
    /// The author's id on that service.
    pub id: String,
    /// Text that mentions the author.
    pub ping: String,
    /// Short tag shown beside the display name.
    pub tag: String,
    /// Display name.
    pub display: String,
    /// Avatar reference, where the service has one.
    pub avatar: Option<String>,
}

/// One message on one service.
#[derive(Clone, Debug)]
pub struct Message {
    pub service: String,
    /// Server (guild) id where the service has one, else empty.
    pub server_id: String,
    pub room_id: String,
    pub id: String,
}

/// A normalized new or edited message.
#[derive(Clone, Debug)]
pub struct FullMessage {
    pub user: User,
    pub message: Message,
    pub content: String,
    pub reply: Option<Box<Message>>,
}

/// The identity of a message as plain sequences.
pub struct MessageView {
    pub service: Seq<char>,
    pub server_id: Seq<char>,
    pub room_id: Seq<char>,
    pub id: Seq<char>,
}

impl View for Message {
    type V = MessageView;

    open spec fn view(&self) -> MessageView {
        MessageView {
            service: self.service@,
            server_id: self.server_id@,
            room_id: self.room_id@,
            id: self.id@,
        }
    }
}

/// The identities of a sequence of messages.
pub open spec fn views_of(s: Seq<Message>) -> Seq<MessageView> {
    s.map_values(|m: Message| m@)
}

/// The text that mentions user `id`: `<@id>`.
pub open spec fn mention_of(id: Seq<char>) -> Seq<char> {
    "<@"@ + id + ">"@
}

fn mention(id: &String) -> (r: String)
    ensures
        r@ == mention_of(id@),
{
    let mut out = String::from_str("<@");
    out.append(id.as_str());
    out.append(">");
    out
}

/// The author of a Discord message; the member's nickname, where set, is the display name.
pub fn discord_author(
    id: String,
    tag: String,
    name: String,
    nick: Option<String>,
    avatar: Option<String>,
) -> (r: User)
    ensures
        r.source@ == discord_service(),
        r.id == id,
        r.ping@ == mention_of(id@),
        r.tag == tag,
        r.display == (match nick {
            Some(n) => n,
            None => name,
        }),
        r.avatar == avatar,
{
    let ping = mention(&id);
    let display = match nick {
        Some(n) => n,
        None => name,
    };
    User { source: discord_name(), id, ping, tag, display, avatar }
}

/// The author of a Matrix message: its full user id serves as id, tag and display name.
pub fn matrix_author(sender: String) -> (r: User)
    ensures
        r.source@ == matrix_service(),
        r.id == sender,
        r.ping@ == mention_of(sender@),
        r.tag == sender,
        r.display == sender,
        r.avatar is None,
{
    User {
        source: matrix_name(),
        id: sender.clone(),
        ping: mention(&sender),
        tag: sender.clone(),
        display: sender,
        avatar: None,
    }
}

/// The identity of an optional message.
pub open spec fn opt_view(o: Option<Message>) -> Option<MessageView> {
    match o {
        Some(m) => Some(m@),
        None => None,
    }
}

impl Message {
    pub fn new(service: String, server_id: String, room_id: String, id: String) -> (r: Message)
        ensures
            r.service == service,
            r.server_id == server_id,
            r.room_id == room_id,
            r.id == id,
    {
        Message { service, server_id, room_id, id }
    }

    /// Whether both values name the same message.
    pub fn same_as(&self, other: &Message) -> (r: bool)
        ensures
            r == (self@ == other@),
    {
        self.service == other.service && self.server_id == other.server_id && self.room_id
            == other.room_id && self.id == other.id
    }

    pub fn copy(&self) -> (r: Message)
        ensures
            r@ == self@,
    {
        Message {
            service: self.service.clone(),
            server_id: self.server_id.clone(),
            room_id: self.room_id.clone(),
            id: self.id.clone(),
        }
    }
}

} // verus!
