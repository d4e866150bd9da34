//! Messages, and the texts that are made from them.

use vstd::prelude::*;
use vstd::string::StringExecFns;

use crate::address::{optional_chars, url_parsed, Url, UrlView};
use crate::entity::{
    copy_entities, entity_views, EntityView, KindView, MessageEntity, MessageEntityKind, User,
    UserView,
};
use crate::formatter::chain::{after_rules, apply_rules, is_carried_out, walk_of};
use crate::formatter::defaults::FormattingRule;
use crate::formatter::walk::Effect;
use crate::render::{all_renderable, can_render, html_of, render_html};
use crate::text::{
    chars_of, decimal_string, decode_utf16_lossy, encode_utf16, signed_decimal, string_of, trim_end,
    trimmed_end, utf16, utf16_lossy,
};

pub mod laws;

verus! {

/// What a chat is. Supergroups and channels may have a name.
pub enum ChatKind {
    Private,
    Group,
    Supergroup { username: Option<String> },
    Channel { username: Option<String> },
}

/// What a [`ChatKind`] holds, with its texts as characters.
pub enum ChatKindView {
    Private,
    Group,
    Supergroup { username: Option<Seq<char>> },
    Channel { username: Option<Seq<char>> },
}

impl View for ChatKind {
    type V = ChatKindView;

    open spec fn view(&self) -> ChatKindView {
        match self {
            ChatKind::Private => ChatKindView::Private,
            ChatKind::Group => ChatKindView::Group,
            ChatKind::Supergroup { username } => ChatKindView::Supergroup {
                username: optional_chars(*username),
            },
            ChatKind::Channel { username } => ChatKindView::Channel {
                username: optional_chars(*username),
            },
        }
    }
}

/// A chat.
pub struct Chat {
    pub id: i64,
    pub kind: ChatKind,
}

/// What a [`Chat`] holds, with its texts as characters.
pub struct ChatView {
    pub id: i64,
    pub kind: ChatKindView,
}

impl View for Chat {
    type V = ChatView;

    open spec fn view(&self) -> ChatView {
        ChatView { id: self.id, kind: self.kind@ }
    }
}

/// The message that another one answers.
#[derive(Clone, Copy, Debug, PartialEq, Eq, Structural)]
pub struct RepliedMessage {
    pub id: i32,
    pub chat_id: i64,
}

/// A message.
pub struct Message {
    pub id: i32,
    pub chat: Chat,
    pub from: Option<User>,
    pub text: Option<String>,
    pub entities: Option<Vec<MessageEntity>>,
    pub reply_to: Option<RepliedMessage>,
}

/// What a [`Message`] holds, with its texts as characters.
pub struct MessageView {
    pub id: i32,
    pub chat: ChatView,
    pub from: Option<UserView>,
    pub text: Option<Seq<char>>,
    pub entities: Option<Seq<EntityView>>,
    pub reply_to: Option<RepliedMessage>,
}

impl View for Message {
    type V = MessageView;

    open spec fn view(&self) -> MessageView {
        MessageView {
            id: self.id,
            chat: self.chat@,
            from: match self.from {
                Some(user) => Some(user@),
                None => None,
            },
            text: optional_chars(self.text),
            entities: match self.entities {
                Some(entities) => Some(entity_views(entities@)),
                None => None,
            },
            reply_to: self.reply_to,
        }
    }
}

/// How a sender is called: by the user name with `@`, or by the first name without one.
pub open spec fn mention_of(from: Option<UserView>) -> Option<Seq<char>> {
    match from {
        Some(user) => Some(
            match user.username {
                Some(username) => "@"@ + username,
                None => user.first_name,
            },
        ),
        None => None,
    }
}

/// How the sender of a message is called; `None` where it has none.
pub fn sender_mention(msg: &Message) -> (mention: Option<String>)
    ensures
        optional_chars(mention) == mention_of(msg@.from),
{
    match &msg.from {
        Some(user) => match &user.username {
            Some(username) => {
                let mut mention = String::from_str("@");
                mention.append(username.as_str());
                Some(mention)
            },
            None => Some(user.first_name.clone()),
        },
        None => None,
    }
}

/// The part of a link that stands for a chat: its name, or the number without its first four
/// characters. Private chats and basic groups have none.
pub open spec fn chat_path(chat: ChatView) -> Option<Seq<char>> {
    match chat.kind {
        ChatKindView::Private => None,
        ChatKindView::Group => None,
        ChatKindView::Supergroup { username } | ChatKindView::Channel { username } => Some(
            match username {
                Some(username) => username,
                None => "c/"@ + signed_decimal(chat.id as int).skip(4),
            },
        ),
    }
}

/// The text of the link to a message.
pub open spec fn link_text(chat: ChatView, id: i32) -> Option<Seq<char>> {
    match chat_path(chat) {
        Some(path) => Some("https://t.me/"@ + path + "/"@ + signed_decimal(id as int)),
        None => None,
    }
}

/// Whether the number of a chat is long enough where it stands in a link.
pub open spec fn is_linkable(chat: ChatView) -> bool {
    match chat.kind {
        ChatKindView::Supergroup { username: None } | ChatKindView::Channel { username: None } => {
            signed_decimal(chat.id as int).len() >= 4
        },
        _ => true,
    }
}

/// The link to a message.
pub open spec fn link_of(chat: ChatView, id: i32) -> Option<UrlView> {
    match link_text(chat, id) {
        Some(text) => match url_parsed(text) {
            Ok(url) => Some(url),
            Err(_) => None,
        },
        None => None,
    }
}

/// Whether the number of a chat is long enough where it stands in a link.
pub fn can_link(chat: &Chat) -> (possible: bool)
    ensures
        possible == is_linkable(chat@),
{
    match &chat.kind {
        ChatKind::Supergroup { username: None } | ChatKind::Channel { username: None } => {
            chars_of(decimal_string(chat.id).as_str()).len() >= 4
        },
        _ => true,
    }
}

/// The text of the link to a message; `None` in private chats and basic groups, which have no
/// links.
pub fn message_link_text(chat: &Chat, id: i32) -> (text: Option<String>)
    requires
        is_linkable(chat@),
    ensures
        optional_chars(text) == link_text(chat@, id),
{
    let path = match &chat.kind {
        ChatKind::Private => return None,
        ChatKind::Group => return None,
        ChatKind::Supergroup { username } | ChatKind::Channel { username } => match username {
            Some(username) => username.clone(),
            None => {
                let number = chars_of(decimal_string(chat.id).as_str());
                let mut digits = number;
                let tail = digits.split_off(4);
                let mut path = String::from_str("c/");
                path.append(string_of(tail.as_slice()).as_str());
                path
            },
        },
    };
    let mut text = String::from_str("https://t.me/");
    text.append(path.as_str());
    text.append("/");
    text.append(decimal_string(id as i64).as_str());
    Some(text)
}

/// The link to a message; `None` in private chats and basic groups, which have no links.
pub fn message_link(msg: &Message) -> (link: Option<Url>)
    requires
        is_linkable(msg@.chat),
    ensures
        link is Some <==> link_of(msg@.chat, msg.id) is Some,
        link matches Some(url) ==> link_of(msg@.chat, msg.id) == Some(url@),
        msg.chat.kind is Private || msg.chat.kind is Group ==> link is None,
{
    let text = match message_link_text(&msg.chat, msg.id) {
        Some(text) => text,
        None => return None,
    };
    match Url::parse(text.as_str()) {
        Ok(url) => Some(url),
        Err(_) => None,
    }
}

/// The error for a message without a sender.
#[derive(Clone, Copy, Debug, PartialEq, Eq, Structural)]
pub struct NoSender;

/// The HTML form of a forwarded message.
pub open spec fn forward_of(html: Seq<char>, mention: Seq<char>) -> Seq<char> {
    "<blockquote>"@ + html + "</blockquote>\n— "@ + mention
}

/// The text of a message, empty where it has none.
pub open spec fn text_of(msg: MessageView) -> Seq<char> {
    match msg.text {
        Some(text) => text,
        None => Seq::empty(),
    }
}

/// The entities of a message, none where it has none.
pub open spec fn entities_of(msg: MessageView) -> Seq<EntityView> {
    match msg.entities {
        Some(entities) => entities,
        None => Seq::empty(),
    }
}

/// What is sent to a user in place of a message; `None` where it has no sender.
pub open spec fn forwarded(msg: MessageView) -> Option<Seq<char>> {
    match mention_of(msg.from) {
        Some(mention) => Some(forward_of(html_of(text_of(msg), entities_of(msg)), mention)),
        None => None,
    }
}

/// Puts the HTML form of a text in a quote, with the mention of its author below.
pub fn quote_html(html: &str, mention: &str) -> (text: String)
    ensures
        text@ == forward_of(html@, mention@),
{
    let mut text = String::from_str("<blockquote>");
    text.append(html);
    text.append("</blockquote>\n— ");
    text.append(mention);
    text
}

/// Whether every entity of a message can be written as HTML.
pub fn can_forward(msg: &Message) -> (possible: bool)
    ensures
        possible == all_renderable(entities_of(msg@)),
{
    match &msg.entities {
        Some(entities) => can_render(entities),
        None => true,
    }
}

/// The HTML form of a message in which it is forwarded to a user. It fails exactly where the
/// message has no sender.
pub fn build_message_forward(msg: &Message) -> (forward: Result<String, NoSender>)
    requires
        all_renderable(entities_of(msg@)),
    ensures
        forward is Err <==> msg.from is None,
        match forward {
            Ok(text) => forwarded(msg@) == Some(text@),
            Err(_) => forwarded(msg@) is None,
        },
{
    let mention = match sender_mention(msg) {
        Some(mention) => mention,
        None => return Err(NoSender),
    };
    let text = match &msg.text {
        Some(text) => text.clone(),
        None => String::new(),
    };
    let none: Vec<MessageEntity> = Vec::new();
    let entities = match &msg.entities {
        Some(entities) => entities,
        None => &none,
    };
    proof {
        assert(entity_views(none@) == Seq::<EntityView>::empty());
        assert(text@ == text_of(msg@));
        assert(entity_views(entities@) == entities_of(msg@));
    }
    let html = render_html(text.as_str(), entities);
    Ok(quote_html(html.as_str(), mention.as_str()))
}

/// How the preview of a link is shown.
#[derive(Clone, Copy, Debug, PartialEq, Eq, Structural)]
pub struct LinkPreviewOptions {
    pub is_disabled: bool,
    pub prefer_small_media: bool,
    pub prefer_large_media: bool,
    pub show_above_text: bool,
}

/// A large preview above the text.
pub open spec fn large_preview() -> LinkPreviewOptions {
    LinkPreviewOptions {
        is_disabled: false,
        prefer_small_media: false,
        prefer_large_media: true,
        show_above_text: true,
    }
}

/// No preview.
pub open spec fn no_preview() -> LinkPreviewOptions {
    LinkPreviewOptions {
        is_disabled: true,
        prefer_small_media: false,
        prefer_large_media: false,
        show_above_text: false,
    }
}

/// A message to be sent in place of another one, to the same chat.
pub struct OutgoingMessage {
    pub chat_id: i64,
    pub text: String,
    pub entities: Vec<MessageEntity>,
    pub link_preview: LinkPreviewOptions,
    pub disable_notification: bool,
    pub reply_to: Option<i32>,
}

/// What an [`OutgoingMessage`] holds, with its texts as characters.
pub struct OutgoingView {
    pub chat_id: i64,
    pub text: Seq<char>,
    pub entities: Seq<EntityView>,
    pub link_preview: LinkPreviewOptions,
    pub disable_notification: bool,
    pub reply_to: Option<i32>,
}

impl View for OutgoingMessage {
    type V = OutgoingView;

    open spec fn view(&self) -> OutgoingView {
        OutgoingView {
            chat_id: self.chat_id,
            text: self.text@,
            entities: entity_views(self.entities@),
            link_preview: self.link_preview,
            disable_notification: self.disable_notification,
            reply_to: self.reply_to,
        }
    }
}

/// The mark of a quote over a whole text.
pub open spec fn quote_over(text: Seq<u16>) -> EntityView {
    EntityView { kind: KindView::Blockquote, offset: 0, length: text.len() as usize }
}

/// The message to be sent in place of another one, with its rewritten text and entities. As a
/// quote, the text is marked as one and followed by the mention of the sender; `None` where
/// there is no sender then.
pub open spec fn composed(
    msg: MessageView,
    text: Seq<u16>,
    entities: Seq<EntityView>,
    quote: bool,
) -> Option<OutgoingView> {
    let plain = OutgoingView {
        chat_id: msg.chat.id,
        text: utf16_lossy(text),
        entities,
        link_preview: large_preview(),
        disable_notification: true,
        reply_to: match msg.reply_to {
            Some(replied) => Some(replied.id),
            None => None,
        },
    };
    if !quote {
        Some(plain)
    } else {
        match mention_of(msg.from) {
            Some(mention) => Some(
                OutgoingView {
                    text: plain.text + "\n— "@ + mention,
                    entities: entities.push(quote_over(text)),
                    ..plain
                },
            ),
            None => None,
        }
    }
}

/// Composes the message to be sent in place of another one from its rewritten text and
/// entities.
pub fn compose(msg: &Message, text: &Vec<u16>, entities: Vec<MessageEntity>, quote: bool) -> (sent:
    Option<OutgoingMessage>)
    ensures
        match sent {
            Some(sent) => composed(msg@, text@, entity_views(entities@), quote) == Some(sent@),
            None => composed(msg@, text@, entity_views(entities@), quote) is None,
        },
{
    let mut body = decode_utf16_lossy(text.as_slice());
    let mut marks = entities;
    if quote {
        let mention = match sender_mention(msg) {
            Some(mention) => mention,
            None => return None,
        };
        body.append("\n— ");
        body.append(mention.as_str());
        marks.push(
            MessageEntity { kind: MessageEntityKind::Blockquote, offset: 0, length: text.len() },
        );
        proof {
            assert(entity_views(marks@) == entity_views(entities@).push(quote_over(text@)));
        }
    }
    Some(
        OutgoingMessage {
            chat_id: msg.chat.id,
            text: body,
            entities: marks,
            link_preview: LinkPreviewOptions {
                is_disabled: false,
                prefer_small_media: false,
                prefer_large_media: true,
                show_above_text: true,
            },
            disable_notification: true,
            reply_to: match &msg.reply_to {
                Some(replied) => Some(replied.id),
                None => None,
            },
        },
    )
}

/// What becomes of a message: nothing, another one in its place, or no answer where a rule
/// cannot be applied to it.
pub enum Formatting {
    Unchanged,
    Replaced(OutgoingView),
    Refused,
}

/// What the rules make of a message. Without text or entities there is nothing to do.
pub open spec fn formatting(
    msg: MessageView,
    quote: bool,
    rules: Seq<FormattingRule>,
) -> Formatting {
    match (msg.entities, msg.text) {
        (Some(entities), Some(text)) => match after_rules(
            rules,
            utf16(trimmed_end(text)),
            entities,
            rules.len(),
        ) {
            None => Formatting::Refused,
            Some(draft) => if draft.effect == Effect::Skipped {
                Formatting::Unchanged
            } else {
                match composed(msg, draft.text, draft.entities, quote) {
                    Some(sent) => Formatting::Replaced(sent),
                    None => Formatting::Unchanged,
                }
            },
        },
        _ => Formatting::Unchanged,
    }
}

/// The error for a message with an entity that is not within its text or a URL that is too long.
#[derive(Clone, Copy, Debug, PartialEq, Eq, Structural)]
pub struct UnfitMessage;

/// Applies the rules to a message, and gives the message to be sent in its place; `None` where
/// no URL is rewritten, or the message is to be quoted and has no sender.
pub fn format_message(msg: &Message, quote: bool, rules: &Vec<FormattingRule>) -> (sent: Result<
    Option<OutgoingMessage>,
    UnfitMessage,
>)
    ensures
        match sent {
            Ok(Some(sent)) => formatting(msg@, quote, rules@) == Formatting::Replaced(sent@),
            Ok(None) => formatting(msg@, quote, rules@) is Unchanged,
            Err(_) => formatting(msg@, quote, rules@) is Refused,
        },
        sent is Ok && msg.text is Some && msg.entities is Some ==> forall|k: int|
            0 <= k < rules@.len() ==> is_carried_out(
                #[trigger] walk_of(
                    rules@,
                    utf16(trimmed_end(text_of(msg@))),
                    entities_of(msg@),
                    k,
                ),
            ),
{
    let mut entities = match &msg.entities {
        Some(entities) => copy_entities(entities),
        None => return Ok(None),
    };
    let mut text = match &msg.text {
        Some(text) => encode_utf16(trim_end(text.as_str()).as_str()),
        None => return Ok(None),
    };
    match apply_rules(rules, &mut text, &mut entities) {
        Some(Effect::Mutated) => Ok(compose(msg, &text, entities, quote)),
        Some(Effect::Skipped) => Ok(None),
        None => Err(UnfitMessage),
    }
}

} // verus!
