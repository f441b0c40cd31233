use chat_relay::chat_service::{matrix_author, FullMessage, Message};
use chat_relay::config::{Entry, Outer};
use chat_relay::engine::relay_message;
use chat_relay::markup::is_renderable;
use chat_relay::matrix_event::{discord_reply_content, quote_replied_event};
use chat_relay::store::CorrelationStore;
use chat_relay::sanitize::sanitize;
use chat_relay::text::{discord_message_url, find_ping, reply_quote, strip_reply};

#[test]
fn sanitize_neutralizes_everyone() {
    let out = sanitize("hello @everyone".to_owned());
    assert_eq!(out, "hello @\u{200B}everyone");
    assert!(out.contains("@\u{200B}everyone"));
}

#[test]
fn sanitize_leaves_plain_mentions() {
    assert_eq!(sanitize("hello @alice".to_owned()), "hello @alice");
}

#[test]
fn sanitize_handles_here_and_repeats() {
    assert_eq!(
        sanitize("@here and @everyone, @here!".to_owned()),
        "@\u{200B}here and @\u{200B}everyone, @\u{200B}here!"
    );
    assert_eq!(sanitize("@@here".to_owned()), "@@\u{200B}here");
}

#[test]
fn sanitize_edge_cases() {
    assert_eq!(sanitize(String::new()), "");
    assert_eq!(sanitize("@".to_owned()), "@");
    assert_eq!(sanitize("@her".to_owned()), "@her");
    assert_eq!(sanitize("@everyon".to_owned()), "@everyon");
    assert_eq!(sanitize("é @here ü".to_owned()), "é @\u{200B}here ü");
}

#[test]
fn strip_reply_drops_quoted_preamble() {
    let body = "> <@alice:x> earlier words\n> more\n\nmy answer\n> kept quote\n".to_owned();
    assert_eq!(strip_reply(body), "my answer\n> kept quote\n");
}

#[test]
fn strip_reply_plain_and_empty() {
    assert_eq!(strip_reply("hi".to_owned()), "hi\n");
    assert_eq!(strip_reply("a\r\nb".to_owned()), "a\nb\n");
    assert_eq!(strip_reply(String::new()), "");
    assert_eq!(strip_reply("> only quote".to_owned()), "");
    assert_eq!(strip_reply("\n\nx\n\ny".to_owned()), "x\n\ny\n");
}

#[test]
fn find_ping_maps_puppets_to_discord_mentions() {
    assert_eq!(find_ping("@_discord_1234:example.org".to_owned(), "_discord_"), "<@1234>");
    assert_eq!(find_ping("<@_discord_99:example.org>".to_owned(), "_discord_"), "<@99>");
}

#[test]
fn find_ping_keeps_other_users() {
    assert_eq!(find_ping("@alice:example.org".to_owned(), "_discord_"), "@alice:example.org");
    assert_eq!(find_ping("<@bob:example.org>".to_owned(), "_discord_"), "@bob:example.org");
}

#[test]
fn discord_url_of_message() {
    let m = Message::new("discord".to_owned(), "1".to_owned(), "2".to_owned(), "3".to_owned());
    assert_eq!(discord_message_url(&m), "https://discord.com/channels/1/2/3");
}

#[test]
fn reply_quote_links_discord_copy() {
    let link = Some(Message::new(
        "discord".to_owned(),
        "10".to_owned(),
        "20".to_owned(),
        "30".to_owned(),
    ));
    let out = reply_quote(
        "<@77>",
        "> older\nfirst line\nsecond".to_owned(),
        &link,
        "> <@x:y> first line\n\nthanks".to_owned(),
    );
    assert_eq!(
        out,
        "> <@77> [first line](https://discord.com/channels/10/20/30)\nthanks\n"
    );
}

#[test]
fn reply_quote_shortens_long_lines() {
    let long: String = "x".repeat(70);
    let out = reply_quote("@a:b", long, &None, "ok".to_owned());
    let expected = format!("> @a:b {}...\nok\n", "x".repeat(64));
    assert_eq!(out, expected);
    let exact: String = "y".repeat(64);
    let out = reply_quote("@a:b", exact.clone(), &None, "ok".to_owned());
    assert_eq!(out, format!("> @a:b {}\nok\n", exact));
}

#[test]
fn reply_quote_without_discord_link() {
    let link = Some(Message::new(
        "matrix".to_owned(),
        String::new(),
        "!r:x".to_owned(),
        "$e".to_owned(),
    ));
    let out = reply_quote("@a:b", "hello".to_owned(), &link, "yes".to_owned());
    assert_eq!(out, "> @a:b hello\nyes\n");
    let out = reply_quote("@a:b", String::new(), &None, "yes".to_owned());
    assert_eq!(out, "> @a:b \nyes\n");
}

#[test]
fn replied_event_is_quoted() {
    let event = r#"{"type":"m.room.message","sender":"@_discord_55:example.org","content":{"msgtype":"m.text","body":"> <@x:y> old\n\nthe point"}}"#;
    let out = quote_replied_event(event, "_discord_", &None, "agreed".to_owned()).unwrap();
    assert_eq!(out, "> <@55> the point\nagreed\n");
}

#[test]
fn replied_event_without_fields_is_refused() {
    assert!(quote_replied_event("not json", "_discord_", &None, "x".to_owned()).is_none());
    assert!(quote_replied_event(r#"{"sender":"@a:b","content":{}}"#, "_discord_", &None, "x".to_owned()).is_none());
    assert!(quote_replied_event(r#"{"sender":7,"content":{"body":"hi"}}"#, "_discord_", &None, "x".to_owned()).is_none());
}

#[test]
fn sanitize_neutralizes_room() {
    assert_eq!(sanitize("ping @room now".to_owned()), "ping @\u{200B}room now");
}

#[test]
fn renderable_texts() {
    assert!(is_renderable("**bold** and ```code```"));
    assert!(is_renderable("héllo wörld"));
    assert!(!is_renderable("éé```"));
    assert!(!is_renderable("ü\n```\ncode\n```"));
    assert!(is_renderable(&">".repeat(200)));
    assert!(!is_renderable(&">".repeat(201)));
    assert!(!is_renderable(&"1".repeat(300)));
    assert!(!is_renderable("- "));
    assert!(!is_renderable("a list:\n* \nnext"));
    assert!(!is_renderable("> - "));
    assert!(!is_renderable("- \r\n"));
    assert!(!is_renderable("1. "));
    assert!(!is_renderable("i. \n"));
    assert!(!is_renderable("score 10 "));
    assert!(is_renderable("- item\n+ other\n1. first"));
    assert!(is_renderable("a - b"));
}

#[test]
fn reply_content_for_discord() {
    let store = CorrelationStore::new();
    let cfg = Outer {
        discord_token: String::new(),
        host: String::new(),
        homeserver_url: String::new(),
        server_name: String::new(),
        room: vec![Entry {
            discord: "111".to_owned(),
            discord_guild: "900".to_owned(),
            matrix: "!one:x".to_owned(),
            webhook: "https://hook".to_owned(),
        }],
    };
    let m = FullMessage {
        user: matrix_author("@bob:x".to_owned()),
        message: Message::new("matrix".to_owned(), String::new(), "!one:x".to_owned(), "$r".to_owned()),
        content: "sure @here".to_owned(),
        reply: None,
    };
    let d = relay_message(&cfg, &store, &m).unwrap();
    assert_eq!(discord_reply_content(&d, None, "_discord_", m.content.clone()), "sure @\u{200B}here");
    let event = r#"{"sender":"@carol:x","content":{"body":"@everyone look"}}"#.to_owned();
    assert_eq!(
        discord_reply_content(&d, Some(event), "_discord_", m.content.clone()),
        "> @carol:x @\u{200B}everyone look\nsure @\u{200B}here\n"
    );
    assert_eq!(
        discord_reply_content(&d, Some("{}".to_owned()), "_discord_", m.content.clone()),
        "sure @\u{200B}here"
    );
}
