use crate::chat_service::{discord_service, matrix_service, Message, MessageView};
use vstd::prelude::*;

verus! {

/// Bridge configuration: credentials, endpoints and the paired rooms.
#[derive(Clone, Debug)]
pub struct Outer {
    pub discord_token: String,
    pub host: String,
    pub homeserver_url: String,
    pub server_name: String,
    pub room: Vec<Entry>,
}

/// One room pairing: a Discord channel (with its guild and webhook) and a Matrix room.
#[derive(Clone, Debug)]
pub struct Entry {
    pub discord: String,
    pub discord_guild: String,
    pub matrix: String,
    pub webhook: String,
}

/// Whether `e` pairs the room that message `m` was posted in.
pub open spec fn entry_pairs(e: Entry, m: MessageView) -> bool {
    ||| (m.service == discord_service() && e.discord@ == m.room_id)
    ||| (m.service == matrix_service() && e.matrix@ == m.room_id)
}

/// The first pairing at or after position `i` that pairs the room of `m`.
pub open spec fn pairing_from(rooms: Seq<Entry>, m: MessageView, i: int) -> Option<int>
    decreases rooms.len() - i,
{
    if i < 0 || i >= rooms.len() {
        None
    } else if entry_pairs(rooms[i], m) {
        Some(i)
    } else {
        pairing_from(rooms, m, i + 1)
    }
}

/// The first pairing that pairs the room of `m`.
pub open spec fn first_pairing(rooms: Seq<Entry>, m: MessageView) -> Option<int> {
    pairing_from(rooms, m, 0)
}

/// The room, on the other service, that pairing `e` mirrors the room of `m` into; the
/// message id is left empty.
pub open spec fn destination(e: Entry, m: MessageView) -> MessageView {
    if m.service == discord_service() {
        MessageView {
            service: matrix_service(),
            server_id: Seq::empty(),
            room_id: e.matrix@,
            id: Seq::empty(),
        }
    } else {
        MessageView {
            service: discord_service(),
            server_id: e.discord_guild@,
            room_id: e.discord@,
            id: Seq::empty(),
        }
    }
}

/// Whether `e` pairs the room of `message`.
pub fn pairs(e: &Entry, message: &Message) -> (r: bool)
    ensures
        r == entry_pairs(*e, message@),
{
    let discord = crate::chat_service::discord_name();
    let matrix = crate::chat_service::matrix_name();
    (message.service == discord && e.discord == message.room_id) || (message.service == matrix
        && e.matrix == message.room_id)
}

/// Finds the first pairing for the room of `message`.
pub fn find_pairing(rooms: &Vec<Entry>, message: &Message) -> (r: Option<usize>)
    ensures
        r matches Some(i) ==> i < rooms@.len() && first_pairing(rooms@, message@) == Some(i as int),
        r is None ==> first_pairing(rooms@, message@) is None,
{
    let mut i: usize = 0;
    while i < rooms.len()
        invariant
            i <= rooms.len(),
            pairing_from(rooms@, message@, i as int) == first_pairing(rooms@, message@),
        decreases rooms.len() - i,
    {
        if pairs(&rooms[i], message) {
            return Some(i);
        }
        i = i + 1;
    }
    None
}

/// The room that pairing `e` mirrors the room of `message` into.
pub fn destination_of(e: &Entry, message: &Message) -> (r: Message)
    ensures
        r@ == destination(*e, message@),
{
    if message.service == crate::chat_service::discord_name() {
        Message {
            service: crate::chat_service::matrix_name(),
            server_id: String::new(),
            room_id: e.matrix.clone(),
            id: String::new(),
        }
    } else {
        Message {
            service: crate::chat_service::discord_name(),
            server_id: e.discord_guild.clone(),
            room_id: e.discord.clone(),
            id: String::new(),
        }
    }
}

} // verus!
