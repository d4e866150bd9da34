use mamkilover::address::Url;
use mamkilover::entity::{copy_entities, MessageEntity, MessageEntityKind, User};
use mamkilover::formatter::defaults::default_rules;
use mamkilover::message::{
    build_message_forward, can_forward, can_link, compose, format_message, message_link,
    message_link_text, quote_html, sender_mention, Chat, ChatKind,
    LinkPreviewOptions, Message, NoSender, OutgoingMessage, RepliedMessage, UnfitMessage,
};
use mamkilover::render::{can_render, leaves_no_trace, render_html};
use mamkilover::text::encode_utf16;

fn user(id: u64, first_name: &str, username: Option<&str>) -> User {
    User {
        id,
        is_bot: false,
        first_name: first_name.to_string(),
        last_name: None,
        username: username.map(|name| name.to_string()),
        language_code: None,
        is_premium: false,
        added_to_attachment_menu: false,
    }
}

fn supergroup(id: i64, username: Option<&str>) -> Chat {
    Chat { id, kind: ChatKind::Supergroup { username: username.map(|name| name.to_string()) } }
}

fn message(text: &str, entities: Vec<MessageEntity>) -> Message {
    Message {
        id: 42,
        chat: supergroup(-1001234567890, None),
        from: Some(user(7, "Ann", Some("ann"))),
        text: Some(text.to_string()),
        entities: Some(entities),
        reply_to: None,
    }
}

fn entity(kind: MessageEntityKind, offset: usize, length: usize) -> MessageEntity {
    MessageEntity { kind, offset, length }
}

fn url(text: &str) -> Url {
    Url::parse(text).ok().unwrap()
}

fn formatted(msg: &Message, quote: bool) -> Option<OutgoingMessage> {
    format_message(msg, quote, &default_rules().ok().unwrap()).ok().unwrap()
}

const LARGE: LinkPreviewOptions = LinkPreviewOptions {
    is_disabled: false,
    prefer_small_media: false,
    prefer_large_media: true,
    show_above_text: true,
};

#[test]
fn mentions() {
    let mut msg = message("", Vec::new());
    assert_eq!(sender_mention(&msg), Some("@ann".to_string()));
    msg.from = Some(user(7, "Ann", None));
    assert_eq!(sender_mention(&msg), Some("Ann".to_string()));
    msg.from = None;
    assert_eq!(sender_mention(&msg), None);
}

#[test]
fn links_by_number() {
    let msg = message("", Vec::new());
    assert_eq!(message_link(&msg).unwrap().as_str(), "https://t.me/c/1234567890/42");
    let channel = Chat { id: -1000000000001, kind: ChatKind::Channel { username: None } };
    assert_eq!(
        message_link_text(&channel, 1),
        Some("https://t.me/c/0000000001/1".to_string())
    );
}

#[test]
fn links_by_name() {
    let mut msg = message("", Vec::new());
    msg.chat = supergroup(-1, Some("group"));
    assert_eq!(message_link(&msg).unwrap().as_str(), "https://t.me/group/42");
    msg.chat.kind = ChatKind::Channel { username: Some("channel".to_string()) };
    assert_eq!(message_link(&msg).unwrap().as_str(), "https://t.me/channel/42");
}

#[test]
fn private_chats_and_groups_have_no_links() {
    let mut msg = message("", Vec::new());
    msg.chat = Chat { id: 5, kind: ChatKind::Private };
    assert!(message_link(&msg).is_none());
    msg.chat = Chat { id: -5, kind: ChatKind::Group };
    assert!(message_link(&msg).is_none());
}

#[test]
fn short_numbers_have_no_links() {
    assert!(!can_link(&supergroup(-99, None)));
    assert!(can_link(&supergroup(-100, None)));
    assert_eq!(
        message_link_text(&supergroup(-100, None), 3),
        Some("https://t.me/c//3".to_string())
    );
    assert!(can_link(&supergroup(-99, Some("group"))));
    assert!(can_link(&Chat { id: 5, kind: ChatKind::Private }));
    assert!(can_link(&Chat { id: 5, kind: ChatKind::Group }));
}

#[test]
fn quoted_message() {
    let mut msg = message("😀 x.com/a?s=1 \n", vec![entity(MessageEntityKind::Url, 3, 11)]);
    msg.reply_to = Some(RepliedMessage { id: 9, chat_id: -1001234567890 });
    let sent = formatted(&msg, true).unwrap();
    assert_eq!(sent.chat_id, -1001234567890);
    assert_eq!(sent.text, "😀 https://i.fixupx.com/a\n— @ann");
    assert_eq!(sent.entities.len(), 2);
    assert!(matches!(sent.entities[0].kind, MessageEntityKind::Url));
    assert_eq!((sent.entities[0].offset, sent.entities[0].length), (3, 22));
    assert!(matches!(sent.entities[1].kind, MessageEntityKind::Blockquote));
    assert_eq!((sent.entities[1].offset, sent.entities[1].length), (0, 25));
    assert_eq!(sent.link_preview, LARGE);
    assert!(sent.disable_notification);
    assert_eq!(sent.reply_to, Some(9));
}

#[test]
fn quote_marks_the_text_and_not_the_mention() {
    let msg = message("", Vec::new());
    let text = "rewritten 😀";
    let units = encode_utf16(text);
    let sent = compose(&msg, &units, Vec::new(), true).unwrap();
    let quote = sent.entities.last().unwrap();
    assert_eq!(encode_utf16(&sent.text)[quote.offset..quote.offset + quote.length], units[..]);
    assert_eq!(sent.text, format!("{}\n— @ann", text));
    assert_eq!(sent.reply_to, None);
}

#[test]
fn plain_message() {
    let mut msg = message("x.com/a", vec![entity(MessageEntityKind::Url, 0, 7)]);
    msg.chat = Chat { id: 7, kind: ChatKind::Private };
    msg.from = None;
    let sent = formatted(&msg, false).unwrap();
    assert_eq!(sent.chat_id, 7);
    assert_eq!(sent.text, "https://i.fixupx.com/a");
    assert_eq!(sent.entities.len(), 1);
    assert_eq!(sent.reply_to, None);
    assert_eq!(sent.link_preview, LARGE);
}

#[test]
fn messages_without_rewritten_urls_stay() {
    let msg = message("y.com/a and x.com", vec![entity(MessageEntityKind::Url, 0, 7)]);
    assert!(formatted(&msg, true).is_none());
    assert!(formatted(&msg, false).is_none());
    assert!(formatted(&message("x.com", Vec::new()), true).is_none());
}

#[test]
fn messages_without_text_or_entities_stay() {
    let mut msg = message("x.com", vec![entity(MessageEntityKind::Url, 0, 5)]);
    msg.text = None;
    assert!(formatted(&msg, false).is_none());
    let mut msg = message("x.com", Vec::new());
    msg.entities = None;
    assert!(formatted(&msg, false).is_none());
}

#[test]
fn quotes_need_a_sender() {
    let mut msg = message("x.com", vec![entity(MessageEntityKind::Url, 0, 5)]);
    msg.from = None;
    assert!(formatted(&msg, true).is_none());
    assert!(formatted(&msg, false).is_some());
}

#[test]
fn unfit_messages_are_refused() {
    let rules = default_rules().ok().unwrap();
    let msg = message("x.com  ", vec![entity(MessageEntityKind::Url, 0, 7)]);
    assert_eq!(format_message(&msg, true, &rules).err(), Some(UnfitMessage));
}

#[test]
fn forwarded_message() {
    let msg = message("a<b> & c", vec![entity(MessageEntityKind::Bold, 0, 1)]);
    assert!(can_forward(&msg));
    assert_eq!(
        build_message_forward(&msg),
        Ok("<blockquote><b>a</b>&lt;b&gt; &amp; c</blockquote>\n— @ann".to_string())
    );
}

#[test]
fn text_without_marks_is_escaped() {
    let msg = message("a<b>", vec![entity(MessageEntityKind::Hashtag, 0, 1)]);
    assert_eq!(
        build_message_forward(&msg),
        Ok("<blockquote>a&lt;b&gt;</blockquote>\n— @ann".to_string())
    );
}

#[test]
fn forwarded_message_without_text() {
    let mut msg = message("", Vec::new());
    msg.text = None;
    msg.entities = None;
    assert!(can_forward(&msg));
    assert_eq!(
        build_message_forward(&msg),
        Ok("<blockquote></blockquote>\n— @ann".to_string())
    );
    assert_eq!(quote_html("<b>a</b>", "Ann"), "<blockquote><b>a</b></blockquote>\n— Ann");
}

#[test]
fn forwards_need_a_sender() {
    let mut msg = message("a", Vec::new());
    msg.from = None;
    assert_eq!(build_message_forward(&msg), Err(NoSender));
}

#[test]
fn bare_kinds_as_html() {
    let cases = [
        (MessageEntityKind::Mention, "ab"),
        (MessageEntityKind::Hashtag, "ab"),
        (MessageEntityKind::Cashtag, "ab"),
        (MessageEntityKind::BotCommand, "ab"),
        (MessageEntityKind::Url, "ab"),
        (MessageEntityKind::Email, "ab"),
        (MessageEntityKind::PhoneNumber, "ab"),
        (MessageEntityKind::Bold, "<b>a</b>b"),
        (MessageEntityKind::Blockquote, "<blockquote>a</blockquote>b"),
        (
            MessageEntityKind::ExpandableBlockquote,
            "<blockquote expandable>a</blockquote>b",
        ),
        (MessageEntityKind::Italic, "<i>a</i>b"),
        (MessageEntityKind::Underline, "<u>a</u>b"),
        (MessageEntityKind::Strikethrough, "<s>a</s>b"),
        (MessageEntityKind::Spoiler, "<tg-spoiler>a</tg-spoiler>b"),
        (MessageEntityKind::Code, "<code>a</code>b"),
    ];
    for (kind, html) in cases {
        let entities = vec![entity(kind, 0, 1)];
        assert_eq!(render_html("ab", &entities), html);
        assert_eq!(render_html("ab", &copy_entities(&entities)), html);
    }
}

#[test]
fn rich_kinds_as_html() {
    let cases = [
        (MessageEntityKind::Pre { language: None }, "<pre>a</pre>b"),
        (
            MessageEntityKind::Pre { language: Some("rust".to_string()) },
            "<pre><code class=\"language-rust\">a</code></pre>b",
        ),
        (
            MessageEntityKind::TextLink { url: url("https://x.com") },
            "<a href=\"https://x.com/\">a</a>b",
        ),
        (
            MessageEntityKind::TextMention { user: user(31, "Bob", None) },
            "<a href=\"tg://user?id=31\">a</a>b",
        ),
        (
            MessageEntityKind::CustomEmoji { custom_emoji_id: "123".to_string() },
            "<tg-emoji emoji-id=\"123\">a</tg-emoji>b",
        ),
    ];
    for (kind, html) in cases {
        let entities = vec![entity(kind, 0, 1)];
        assert_eq!(render_html("ab", &entities), html);
        assert_eq!(render_html("ab", &copy_entities(&entities)), html);
    }
}

#[test]
fn html_keeps_the_places_of_entities() {
    let entities = vec![
        entity(MessageEntityKind::Bold, 0, 5),
        entity(MessageEntityKind::Italic, 3, 2),
        entity(MessageEntityKind::Code, 6, 1),
    ];
    assert_eq!(
        render_html("😀 ab c", &entities),
        "<b>😀 <i>ab</i></b> <code>c</code>"
    );
}

#[test]
fn entities_that_cannot_be_written() {
    assert!(!can_render(&vec![entity(MessageEntityKind::Bold, usize::MAX, 1)]));
    assert!(can_render(&vec![entity(MessageEntityKind::Url, usize::MAX, 1)]));
    let nobody = MessageEntityKind::TextMention { user: user(0, "", None) };
    let msg = message("a", vec![entity(nobody, 0, 1)]);
    assert!(!can_forward(&msg));
    let mention = MessageEntityKind::TextMention { user: user(1, "", None) };
    assert!(can_render(&vec![entity(mention, 0, 1)]));
}

#[test]
fn text_without_traces_is_escaped() {
    let entities = vec![entity(MessageEntityKind::Url, 0, 1)];
    assert!(leaves_no_trace(&entities));
    assert_eq!(render_html("a & b", &entities), "a &amp; b");
    assert!(!leaves_no_trace(&vec![entity(MessageEntityKind::Code, 0, 1)]));
}

#[test]
fn links_that_are_not_read_again_are_forwarded() {
    let label: String = (0..1000).map(|i| char::from_u32(0x4E00 + 20 * i).unwrap()).collect();
    let link = url(&format!("https://{}/", label));
    let href = link.as_str().to_string();
    let msg = message("a", vec![entity(MessageEntityKind::TextLink { url: link }, 0, 1)]);
    assert_eq!(
        build_message_forward(&msg),
        Ok(format!("<blockquote><a href=\"{}\">a</a></blockquote>\n— @ann", href))
    );
}

#[test]
fn formatted_message_needs_no_further_formatting() {
    let msg = message("😀 x.com/a?s=1&u=2 end", vec![entity(MessageEntityKind::Url, 3, 15)]);
    for quote in [true, false] {
        let sent = formatted(&msg, quote).unwrap();
        let mut again = message(&sent.text, Vec::new());
        again.entities = Some(sent.entities);
        assert!(formatted(&again, true).is_none());
        assert!(formatted(&again, false).is_none());
    }
}

#[test]
fn different_messages_have_different_links() {
    let mut links = Vec::new();
    for chat in [-1001, -10010, -1001234567890] {
        for id in [0, 1, 10, 100] {
            links.push(message_link_text(&supergroup(chat, None), id).unwrap());
        }
    }
    for i in 0..links.len() {
        for j in 0..i {
            assert_ne!(links[i], links[j]);
        }
    }
}
