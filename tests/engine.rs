use chat_relay::chat_service::{discord_author, matrix_author, FullMessage, Message};
use chat_relay::config::{find_pairing, Entry, Outer};
use chat_relay::engine::{delete_message, edit_message, relay_message};
use chat_relay::reply::resolve_reply_target;
use chat_relay::store::{create_message, CorrelationStore};

fn msg(service: &str, server_id: &str, room_id: &str, id: &str) -> Message {
    Message::new(service.to_owned(), server_id.to_owned(), room_id.to_owned(), id.to_owned())
}

fn same(a: &Message, b: &Message) -> bool {
    a.service == b.service && a.server_id == b.server_id && a.room_id == b.room_id && a.id == b.id
}

fn config() -> Outer {
    Outer {
        discord_token: "SECRET-REDACTED".to_owned(),
        host: "0.0.0.0:9000".to_owned(),
        homeserver_url: "http://localhost:8008".to_owned(),
        server_name: "example.org".to_owned(),
        room: vec![
            Entry {
                discord: "111".to_owned(),
                discord_guild: "900".to_owned(),
                matrix: "!one:example.org".to_owned(),
                webhook: "https://hook/one".to_owned(),
            },
            Entry {
                discord: "222".to_owned(),
                discord_guild: "900".to_owned(),
                matrix: "!two:example.org".to_owned(),
                webhook: "https://hook/two".to_owned(),
            },
        ],
    }
}

fn full(message: Message, content: &str, reply: Option<Message>) -> FullMessage {
    let user = if message.service == "discord" {
        discord_author("42".to_owned(), "ann#0001".to_owned(), "ann".to_owned(), None, None)
    } else {
        matrix_author("@bob:example.org".to_owned())
    };
    FullMessage { user, message, content: content.to_owned(), reply: reply.map(Box::new) }
}

#[test]
fn delete_reaches_both_copies() {
    let mut store = CorrelationStore::new();
    let a = msg("discord", "900", "111", "5");
    let b = msg("matrix", "", "!one:example.org", "$b");
    assert!(create_message(&mut store, a.clone(), b.clone()).is_ok());
    let from_a = delete_message(&store, &a);
    assert_eq!(from_a.len(), 1);
    assert!(same(&from_a[0], &b));
    let from_b = delete_message(&store, &b);
    assert_eq!(from_b.len(), 1);
    assert!(same(&from_b[0], &a));
}

#[test]
fn delete_of_unknown_message_does_nothing() {
    let store = CorrelationStore::new();
    assert!(delete_message(&store, &msg("discord", "1", "2", "3")).is_empty());
}

#[test]
fn reply_resolves_forward_and_back() {
    let mut store = CorrelationStore::new();
    let x = msg("discord", "900", "111", "5");
    let y = msg("matrix", "", "!one:example.org", "$y");
    assert!(create_message(&mut store, x.clone(), y.clone()).is_ok());
    let fwd = resolve_reply_target(&store, &"matrix".to_owned(), &x).unwrap();
    assert!(same(&fwd, &y));
    let back = resolve_reply_target(&store, &"discord".to_owned(), &y).unwrap();
    assert!(same(&back, &x));
    assert!(resolve_reply_target(&store, &"discord".to_owned(), &x).is_none());
}

#[test]
fn reply_prefers_latest_mirror() {
    let mut store = CorrelationStore::new();
    let x = msg("discord", "900", "111", "5");
    let y1 = msg("matrix", "", "!one:example.org", "$y1");
    let z = msg("other", "", "r", "z");
    let y2 = msg("matrix", "", "!two:example.org", "$y2");
    assert!(create_message(&mut store, x.clone(), y1).is_ok());
    assert!(create_message(&mut store, x.clone(), y2.clone()).is_ok());
    assert!(create_message(&mut store, x.clone(), z).is_ok());
    let got = resolve_reply_target(&store, &"matrix".to_owned(), &x).unwrap();
    assert!(same(&got, &y2));
}

#[test]
fn edit_without_relays_plans_nothing() {
    let store = CorrelationStore::new();
    let edited = full(msg("discord", "900", "111", "5"), "changed @everyone", None);
    assert!(edit_message(&store, &edited).is_empty());
}

#[test]
fn edit_targets_every_editable_copy() {
    let mut store = CorrelationStore::new();
    let a = msg("matrix", "", "!one:example.org", "$a");
    let b = msg("discord", "900", "111", "7");
    let c = msg("irc", "", "#x", "9");
    assert!(create_message(&mut store, a.clone(), b.clone()).is_ok());
    assert!(create_message(&mut store, a.clone(), c).is_ok());
    let plans = edit_message(&store, &full(a, "now @here", None));
    assert_eq!(plans.len(), 1);
    assert!(same(&plans[0].target, &b));
    assert_eq!(plans[0].content, "now @\u{200B}here");
    assert!(plans[0].html.is_none());
}

#[test]
fn unpaired_room_is_skipped() {
    let store = CorrelationStore::new();
    let m = full(msg("discord", "900", "333", "1"), "hi", None);
    assert!(relay_message(&config(), &store, &m).is_none());
    let m = full(msg("matrix", "", "111", "1"), "hi", None);
    assert!(relay_message(&config(), &store, &m).is_none());
}

#[test]
fn discord_message_goes_to_paired_matrix_room() {
    let store = CorrelationStore::new();
    let m = full(msg("discord", "900", "222", "1"), "**hi** @everyone", None);
    let d = relay_message(&config(), &store, &m).unwrap();
    assert!(same(&d.target, &msg("matrix", "", "!two:example.org", "")));
    assert_eq!(d.webhook, "https://hook/two");
    assert_eq!(d.content, "**hi** @\u{200B}everyone");
    let html = d.html.unwrap();
    assert!(html.contains("<strong>hi</strong>"));
    assert_ne!(html, d.content);
    assert_eq!(d.sender_display, "ann (ann#0001)");
    assert!(d.reply_to.is_none());
}

#[test]
fn matrix_reply_goes_to_discord_with_thread() {
    let mut store = CorrelationStore::new();
    let parent = msg("discord", "900", "111", "5");
    let mirror = msg("matrix", "", "!one:example.org", "$p");
    assert!(create_message(&mut store, parent.clone(), mirror.clone()).is_ok());
    let m = full(msg("matrix", "", "!one:example.org", "$r"), "reply", Some(mirror));
    let d = relay_message(&config(), &store, &m).unwrap();
    assert!(same(&d.target, &msg("discord", "900", "111", "")));
    assert_eq!(d.webhook, "https://hook/one");
    assert!(d.html.is_none());
    assert_eq!(d.sender_display, "@bob:example.org (@bob:example.org)");
    assert!(same(&d.reply_to.unwrap(), &parent));
}

#[test]
fn first_pairing_wins() {
    let mut cfg = config();
    cfg.room.push(Entry {
        discord: "111".to_owned(),
        discord_guild: "901".to_owned(),
        matrix: "!three:example.org".to_owned(),
        webhook: "https://hook/three".to_owned(),
    });
    assert_eq!(find_pairing(&cfg.room, &msg("discord", "900", "111", "1")), Some(0));
    assert_eq!(find_pairing(&cfg.room, &msg("matrix", "", "!three:example.org", "1")), Some(2));
    assert_eq!(find_pairing(&cfg.room, &msg("slack", "", "111", "1")), None);
}

#[test]
fn authors_are_normalized() {
    let u = discord_author(
        "42".to_owned(),
        "ann#0001".to_owned(),
        "ann".to_owned(),
        Some("Annie".to_owned()),
        Some("hash".to_owned()),
    );
    assert_eq!(u.source, "discord");
    assert_eq!(u.ping, "<@42>");
    assert_eq!(u.display, "Annie");
    assert_eq!(u.avatar.as_deref(), Some("hash"));
    let v = matrix_author("@bob:example.org".to_owned());
    assert_eq!(v.source, "matrix");
    assert_eq!(v.ping, "<@@bob:example.org>");
    assert_eq!(v.tag, "@bob:example.org");
    assert!(v.avatar.is_none());
}

#[test]
fn unrenderable_text_goes_plain() {
    let store = CorrelationStore::new();
    let m = full(msg("discord", "900", "111", "1"), "éé```", None);
    let d = relay_message(&config(), &store, &m).unwrap();
    assert_eq!(d.content, "éé```");
    assert!(d.html.is_none());
    for text in ["- ", "* \n\nmore", "> - ", "1. ", "7 "] {
        let m = full(msg("discord", "900", "111", "3"), text, None);
        let d = relay_message(&config(), &store, &m).unwrap();
        assert!(d.html.is_none());
    }
    let m = full(msg("discord", "900", "111", "4"), "- one\n- two", None);
    let d = relay_message(&config(), &store, &m).unwrap();
    assert!(d.html.unwrap().contains("<li>"));
    let m = full(msg("discord", "900", "111", "2"), "```\nlet x = 1;\n```", None);
    let d = relay_message(&config(), &store, &m).unwrap();
    assert!(d.html.unwrap().contains("<pre><code>"));
}

#[test]
fn every_admitted_short_text_renders() {
    let store = CorrelationStore::new();
    let alphabet = ['-', ' ', '\n', '1', '.', 'é', '`', '>', '*', 'a', '\r', 'i', '_', '[', '#', '+'];
    let mut texts: Vec<String> = vec![String::new()];
    let mut frontier: Vec<String> = vec![String::new()];
    for _ in 0..4 {
        let mut next = Vec::new();
        for t in &frontier {
            for c in alphabet {
                let mut u = t.clone();
                u.push(c);
                next.push(u);
            }
        }
        texts.extend(next.iter().cloned());
        frontier = next;
    }
    let mut rendered = 0;
    for text in texts {
        let m = full(msg("discord", "900", "111", "1"), &text, None);
        let d = relay_message(&config(), &store, &m).unwrap();
        if d.html.is_some() {
            rendered += 1;
        }
    }
    assert!(rendered > 0);
}
