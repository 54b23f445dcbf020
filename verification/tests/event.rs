use chat_message::event::body_cow_content;
use chat_message::event::body_cow_reason;
use chat_message::event::bracketed;
use chat_message::event::FormattedBody;
use chat_message::event::MessageEvent;
use chat_message::event::MessageFormat;
use chat_message::event::MessageType;
use chat_message::event::Relation;
use chat_message::event::RoomMessageEventContent;
use chat_message::html::StyleTree;
use chat_message::html::StyleTreeNode;
use chat_message::message::Message;
use chat_message::style::Style;
use chat_message::style::ITALIC;
use chat_message::style::REVERSED;
use chat_message::timestamp::MessageTimeStamp::LocalEcho;
use chat_message::timestamp::MessageTimeStamp::OriginServer;

fn content(msgtype: MessageType) -> RoomMessageEventContent {
    RoomMessageEventContent { msgtype, relates_to: None }
}

fn text(body: &str) -> MessageType {
    MessageType::Text { body: body.to_string(), formatted: None }
}

fn html_text(body: &str, html: &str) -> MessageType {
    MessageType::Text {
        body: body.to_string(),
        formatted: Some(FormattedBody { format: MessageFormat::Html, body: html.to_string() }),
    }
}

fn original(id: &str, msgtype: MessageType) -> MessageEvent {
    MessageEvent::Original { event_id: id.to_string(), content: content(msgtype) }
}

fn tree(body: &str) -> StyleTree {
    StyleTree {
        reply: vec![],
        body: vec![StyleTreeNode::Text { text: body.to_string(), style: Style::default() }],
    }
}

#[test]
fn test_body_of_text_kinds() {
    assert_eq!(body_cow_content(&content(text("hello"))), "hello");
    assert_eq!(body_cow_content(&content(text(""))), "");
    let emote = MessageType::Emote { body: "waves".to_string() };
    assert_eq!(body_cow_content(&content(emote)), "waves");
    let notice = MessageType::Notice { body: "be nice".to_string() };
    assert_eq!(body_cow_content(&content(notice)), "be nice");
    let server = MessageType::ServerNotice { body: "maintenance".to_string() };
    assert_eq!(body_cow_content(&content(server)), "maintenance");
    assert_eq!(
        body_cow_content(&content(MessageType::VerificationRequest)),
        "[Verification Request]"
    );
}

#[test]
fn test_body_of_attachments() {
    let audio = MessageType::Audio { body: "song.ogg".to_string() };
    assert_eq!(body_cow_content(&content(audio)), "[Attached Audio: song.ogg]");
    let file = MessageType::File { body: "notes.txt".to_string() };
    assert_eq!(body_cow_content(&content(file)), "[Attached File: notes.txt]");
    let image = MessageType::Image { body: "cat.png".to_string() };
    assert_eq!(body_cow_content(&content(image)), "[Attached Image: cat.png]");
    let video = MessageType::Video { body: "clip.mp4".to_string() };
    assert_eq!(body_cow_content(&content(video)), "[Attached Video: clip.mp4]");
}

#[test]
fn test_body_of_unknown_kind() {
    let other = MessageType::Other { msgtype: "m.location".to_string() };
    assert_eq!(body_cow_content(&content(other)), "[Unknown message type: \"m.location\"]");
    let odd = MessageType::Other { msgtype: "a\"b\n".to_string() };
    assert_eq!(body_cow_content(&content(odd)), "[Unknown message type: \"a\\\"b\\n\"]");
}

#[test]
fn test_body_of_redaction() {
    assert_eq!(body_cow_reason(&None), "[Redacted]");
    assert_eq!(body_cow_reason(&Some("spam".to_string())), "[Redacted: \"spam\"]");
    assert_eq!(body_cow_reason(&Some("".to_string())), "[Redacted: \"\"]");
}

#[test]
fn test_event_body_by_shape() {
    let undecryptable = MessageEvent::EncryptedOriginal { event_id: "$e1".to_string() };
    assert_eq!(undecryptable.body(), "[Unable to decrypt message]");
    let enc_redacted = MessageEvent::EncryptedRedacted {
        event_id: "$e2".to_string(),
        reason: Some("leak".to_string()),
    };
    assert_eq!(enc_redacted.body(), "[Redacted: \"leak\"]");
    let redacted = MessageEvent::Redacted { event_id: "$e3".to_string(), reason: None };
    assert_eq!(redacted.body(), "[Redacted]");
    assert_eq!(original("$e4", text("plain")).body(), "plain");
    let local = MessageEvent::Local {
        event_id: "$e5".to_string(),
        content: content(MessageType::Image { body: "a.png".to_string() }),
    };
    assert_eq!(local.body(), "[Attached Image: a.png]");
}

#[test]
fn test_event_id_and_content() {
    let events = [
        MessageEvent::EncryptedOriginal { event_id: "$a".to_string() },
        MessageEvent::EncryptedRedacted { event_id: "$b".to_string(), reason: None },
        original("$c", text("x")),
        MessageEvent::Redacted { event_id: "$d".to_string(), reason: None },
        MessageEvent::Local { event_id: "$e".to_string(), content: content(text("y")) },
    ];
    let ids = ["$a", "$b", "$c", "$d", "$e"];
    let has_content = [false, false, true, false, true];
    for i in 0..events.len() {
        assert_eq!(events[i].event_id(), ids[i]);
        assert_eq!(events[i].content().is_some(), has_content[i]);
    }
    assert_eq!(events[2].content(), Some(&content(text("x"))));
    assert_eq!(events[4].content(), Some(&content(text("y"))));
}

#[test]
fn test_is_emote() {
    assert!(original("$a", MessageType::Emote { body: "x".to_string() }).is_emote());
    assert!(!original("$a", text("x")).is_emote());
    assert!(!MessageEvent::EncryptedOriginal { event_id: "$a".to_string() }.is_emote());
    assert!(!MessageEvent::Redacted { event_id: "$a".to_string(), reason: None }.is_emote());
    let local = MessageEvent::Local {
        event_id: "$a".to_string(),
        content: content(MessageType::Emote { body: "x".to_string() }),
    };
    assert!(local.is_emote());
}

#[test]
fn test_html_only_for_text_in_html_format() {
    let with_html = original("$a", html_text("hi", "<b>hi</b>"));
    assert_eq!(with_html.html(), Some(&"<b>hi</b>".to_string()));
    assert_eq!(original("$a", text("hi")).html(), None);
    let other_format = MessageType::Text {
        body: "hi".to_string(),
        formatted: Some(FormattedBody { format: MessageFormat::Other, body: "*hi*".to_string() }),
    };
    assert_eq!(original("$a", other_format).html(), None);
    assert_eq!(original("$a", MessageType::Emote { body: "x".to_string() }).html(), None);
    assert_eq!(MessageEvent::EncryptedOriginal { event_id: "$a".to_string() }.html(), None);
    assert_eq!(
        MessageEvent::EncryptedRedacted { event_id: "$a".to_string(), reason: None }.html(),
        None
    );
    assert_eq!(MessageEvent::Redacted { event_id: "$a".to_string(), reason: None }.html(), None);
    let local = MessageEvent::Local {
        event_id: "$a".to_string(),
        content: content(html_text("hi", "<i>hi</i>")),
    };
    assert_eq!(local.html(), Some(&"<i>hi</i>".to_string()));
}

#[test]
fn test_reply_to_only_from_plain_and_pending() {
    let reply = RoomMessageEventContent {
        msgtype: text("yes"),
        relates_to: Some(Relation::Reply { event_id: "$target".to_string() }),
    };
    let other = RoomMessageEventContent { msgtype: text("yes"), relates_to: Some(Relation::Other) };
    let plain = MessageEvent::Original { event_id: "$a".to_string(), content: reply.clone() };
    assert_eq!(plain.reply_to(), Some("$target".to_string()));
    let local = MessageEvent::Local { event_id: "$a".to_string(), content: reply.clone() };
    assert_eq!(local.reply_to(), Some("$target".to_string()));
    let unrelated = MessageEvent::Original { event_id: "$a".to_string(), content: other };
    assert_eq!(unrelated.reply_to(), None);
    assert_eq!(original("$a", text("x")).reply_to(), None);
    assert_eq!(MessageEvent::EncryptedOriginal { event_id: "$a".to_string() }.reply_to(), None);
    assert_eq!(
        MessageEvent::Redacted { event_id: "$a".to_string(), reason: None }.reply_to(),
        None
    );
    let msg = Message::new(plain, "@a:b".to_string(), OriginServer(5), None);
    assert_eq!(msg.reply_to(), Some("$target".to_string()));
}

#[test]
fn test_redact_plain_message() {
    let mut ev = original("$a", text("secret"));
    ev.redact(Some("oops".to_string()));
    assert_eq!(
        ev,
        MessageEvent::Redacted { event_id: "$a".to_string(), reason: Some("oops".to_string()) }
    );
    assert_eq!(ev.body(), "[Redacted: \"oops\"]");
    assert_eq!(ev.event_id(), "$a");
    // A second redaction changes nothing.
    ev.redact(None);
    assert_eq!(
        ev,
        MessageEvent::Redacted { event_id: "$a".to_string(), reason: Some("oops".to_string()) }
    );
    let mut plain = original("$b", text("secret"));
    plain.redact(None);
    assert_eq!(plain, MessageEvent::Redacted { event_id: "$b".to_string(), reason: None });
}

#[test]
fn test_redact_is_a_no_op_on_other_shapes() {
    let shapes = [
        MessageEvent::EncryptedOriginal { event_id: "$a".to_string() },
        MessageEvent::EncryptedRedacted { event_id: "$b".to_string(), reason: None },
        MessageEvent::Redacted { event_id: "$d".to_string(), reason: Some("r".to_string()) },
        MessageEvent::Local { event_id: "$e".to_string(), content: content(text("y")) },
    ];
    for shape in shapes {
        let mut ev = shape.clone();
        ev.redact(Some("why".to_string()));
        assert_eq!(ev, shape);
    }
}

#[test]
fn test_message_new() {
    let ev = original("$a", html_text("hi", "<b>hi</b>"));
    let msg = Message::new(ev.clone(), "@alice:example.com".to_string(), OriginServer(9), None);
    assert_eq!(msg.event, ev);
    assert_eq!(msg.sender, "@alice:example.com");
    assert_eq!(msg.timestamp, OriginServer(9));
    assert!(!msg.downloaded);
    assert_eq!(msg.html, None);
    assert_eq!(msg.to_string(), "hi");
    let styled = Message::new(ev, "@alice:example.com".to_string(), OriginServer(9), Some(tree("hi")));
    assert_eq!(styled.html, Some(tree("hi")));
    // Styled content is dropped where the event has no HTML alternative.
    let plain = Message::new(original("$b", text("hi")), "@a:b".to_string(), LocalEcho, Some(tree("hi")));
    assert_eq!(plain.html, None);
}

#[test]
fn test_render_style() {
    let confirmed = Message::new(original("$a", text("x")), "@a:b".to_string(), OriginServer(1), None);
    let pending = Message::new(original("$a", text("x")), "@a:b".to_string(), LocalEcho, None);
    assert_eq!(confirmed.get_render_style(false), Style::default());
    assert_eq!(confirmed.get_render_style(true).add_modifier, REVERSED);
    assert_eq!(pending.get_render_style(false).add_modifier, ITALIC);
    assert_eq!(pending.get_render_style(true).add_modifier, REVERSED | ITALIC);
    assert_eq!(pending.get_render_style(true).sub_modifier, 0);
    assert_eq!(pending.get_render_style(true).fg, None);
    assert_eq!(pending.get_render_style(true).bg, None);
}

#[test]
fn test_bracketed() {
    assert_eq!(bracketed("[", "x", "]"), "[x]");
    assert_eq!(bracketed("", "", ""), "");
    assert_eq!(bracketed("[Redacted: ", "\"why\"", "]"), "[Redacted: \"why\"]");
}
