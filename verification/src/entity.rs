//! Users and the entities that mark up a text.

use vstd::prelude::*;

use crate::address::{optional_chars, Url, UrlView};

verus! {

/// A user or a bot.
pub struct User {
    pub id: u64,
    pub is_bot: bool,
    pub first_name: String,
    pub last_name: Option<String>,
    pub username: Option<String>,
    pub language_code: Option<String>,
    pub is_premium: bool,
    pub added_to_attachment_menu: bool,
}

/// What a [`User`] holds, with its texts as characters.
pub struct UserView {
    pub id: u64,
    pub is_bot: bool,
    pub first_name: Seq<char>,
    pub last_name: Option<Seq<char>>,
    pub username: Option<Seq<char>>,
    pub language_code: Option<Seq<char>>,
    pub is_premium: bool,
    pub added_to_attachment_menu: bool,
}

impl View for User {
    type V = UserView;

    open spec fn view(&self) -> UserView {
        UserView {
            id: self.id,
            is_bot: self.is_bot,
            first_name: self.first_name@,
            last_name: optional_chars(self.last_name),
            username: optional_chars(self.username),
            language_code: optional_chars(self.language_code),
            is_premium: self.is_premium,
            added_to_attachment_menu: self.added_to_attachment_menu,
        }
    }
}

/// A copy of a text that may be missing.
pub fn copy_optional(text: &Option<String>) -> (copy: Option<String>)
    ensures
        optional_chars(copy) == optional_chars(*text),
{
    match text {
        Some(text) => Some(text.clone()),
        None => None,
    }
}

impl User {
    /// A copy of the user.
    pub fn copy(&self) -> (user: User)
        ensures
            user@ == self@,
    {
        User {
            id: self.id,
            is_bot: self.is_bot,
            first_name: self.first_name.clone(),
            last_name: copy_optional(&self.last_name),
            username: copy_optional(&self.username),
            language_code: copy_optional(&self.language_code),
            is_premium: self.is_premium,
            added_to_attachment_menu: self.added_to_attachment_menu,
        }
    }
}

/// What an entity marks its text as.
pub enum MessageEntityKind {
    Mention,
    Hashtag,
    Cashtag,
    BotCommand,
    Url,
    Email,
    PhoneNumber,
    Bold,
    Blockquote,
    ExpandableBlockquote,
    Italic,
    Underline,
    Strikethrough,
    Spoiler,
    Code,
    Pre { language: Option<String> },
    TextLink { url: Url },
    TextMention { user: User },
    CustomEmoji { custom_emoji_id: String },
}

/// What a [`MessageEntityKind`] holds, with its texts as characters.
pub enum KindView {
    Mention,
    Hashtag,
    Cashtag,
    BotCommand,
    Url,
    Email,
    PhoneNumber,
    Bold,
    Blockquote,
    ExpandableBlockquote,
    Italic,
    Underline,
    Strikethrough,
    Spoiler,
    Code,
    Pre { language: Option<Seq<char>> },
    TextLink { url: UrlView },
    TextMention { user: UserView },
    CustomEmoji { custom_emoji_id: Seq<char> },
}

impl View for MessageEntityKind {
    type V = KindView;

    open spec fn view(&self) -> KindView {
        match self {
            MessageEntityKind::Mention => KindView::Mention,
            MessageEntityKind::Hashtag => KindView::Hashtag,
            MessageEntityKind::Cashtag => KindView::Cashtag,
            MessageEntityKind::BotCommand => KindView::BotCommand,
            MessageEntityKind::Url => KindView::Url,
            MessageEntityKind::Email => KindView::Email,
            MessageEntityKind::PhoneNumber => KindView::PhoneNumber,
            MessageEntityKind::Bold => KindView::Bold,
            MessageEntityKind::Blockquote => KindView::Blockquote,
            MessageEntityKind::ExpandableBlockquote => KindView::ExpandableBlockquote,
            MessageEntityKind::Italic => KindView::Italic,
            MessageEntityKind::Underline => KindView::Underline,
            MessageEntityKind::Strikethrough => KindView::Strikethrough,
            MessageEntityKind::Spoiler => KindView::Spoiler,
            MessageEntityKind::Code => KindView::Code,
            MessageEntityKind::Pre { language } => KindView::Pre {
                language: optional_chars(*language),
            },
            MessageEntityKind::TextLink { url } => KindView::TextLink { url: url@ },
            MessageEntityKind::TextMention { user } => KindView::TextMention { user: user@ },
            MessageEntityKind::CustomEmoji { custom_emoji_id } => KindView::CustomEmoji {
                custom_emoji_id: custom_emoji_id@,
            },
        }
    }
}

impl MessageEntityKind {
    /// A copy of the kind.
    pub fn copy(&self) -> (kind: MessageEntityKind)
        ensures
            kind@ == self@,
    {
        match self {
            MessageEntityKind::Mention => MessageEntityKind::Mention,
            MessageEntityKind::Hashtag => MessageEntityKind::Hashtag,
            MessageEntityKind::Cashtag => MessageEntityKind::Cashtag,
            MessageEntityKind::BotCommand => MessageEntityKind::BotCommand,
            MessageEntityKind::Url => MessageEntityKind::Url,
            MessageEntityKind::Email => MessageEntityKind::Email,
            MessageEntityKind::PhoneNumber => MessageEntityKind::PhoneNumber,
            MessageEntityKind::Bold => MessageEntityKind::Bold,
            MessageEntityKind::Blockquote => MessageEntityKind::Blockquote,
            MessageEntityKind::ExpandableBlockquote => MessageEntityKind::ExpandableBlockquote,
            MessageEntityKind::Italic => MessageEntityKind::Italic,
            MessageEntityKind::Underline => MessageEntityKind::Underline,
            MessageEntityKind::Strikethrough => MessageEntityKind::Strikethrough,
            MessageEntityKind::Spoiler => MessageEntityKind::Spoiler,
            MessageEntityKind::Code => MessageEntityKind::Code,
            MessageEntityKind::Pre { language } => MessageEntityKind::Pre {
                language: copy_optional(language),
            },
            MessageEntityKind::TextLink { url } => MessageEntityKind::TextLink { url: url.copy() },
            MessageEntityKind::TextMention { user } => MessageEntityKind::TextMention {
                user: user.copy(),
            },
            MessageEntityKind::CustomEmoji { custom_emoji_id } => MessageEntityKind::CustomEmoji {
                custom_emoji_id: custom_emoji_id.clone(),
            },
        }
    }
}

/// A mark on a part of a text, which is counted in UTF-16 code units.
pub struct MessageEntity {
    pub kind: MessageEntityKind,
    pub offset: usize,
    pub length: usize,
}

/// What a [`MessageEntity`] holds, with its texts as characters.
pub struct EntityView {
    pub kind: KindView,
    pub offset: usize,
    pub length: usize,
}

impl View for MessageEntity {
    type V = EntityView;

    open spec fn view(&self) -> EntityView {
        EntityView { kind: self.kind@, offset: self.offset, length: self.length }
    }
}

impl MessageEntity {
    /// A copy of the entity.
    pub fn copy(&self) -> (entity: MessageEntity)
        ensures
            entity@ == self@,
    {
        MessageEntity { kind: self.kind.copy(), offset: self.offset, length: self.length }
    }
}

/// What a list of entities holds.
pub open spec fn entity_views(entities: Seq<MessageEntity>) -> Seq<EntityView> {
    Seq::new(entities.len(), |i: int| entities[i]@)
}

/// A copy of a list of entities.
pub fn copy_entities(entities: &Vec<MessageEntity>) -> (copy: Vec<MessageEntity>)
    ensures
        entity_views(copy@) == entity_views(entities@),
{
    let mut copy: Vec<MessageEntity> = Vec::new();
    let mut i: usize = 0;
    while i < entities.len()
        invariant
            i <= entities@.len(),
            copy@.len() == i,
            forall|k: int| 0 <= k < i ==> #[trigger] copy@[k]@ == entities@[k]@,
        decreases entities@.len() - i,
    {
        copy.push(entities[i].copy());
        i += 1;
    }
    copy
}

/// An entity is known by its place and its kind, and what the kind holds.
pub proof fn law_entity_is_known(entity: MessageEntity)
    ensures
        entity@.offset == entity.offset,
        entity@.length == entity.length,
        entity.kind is Mention <==> entity@.kind is Mention,
        entity.kind is Hashtag <==> entity@.kind is Hashtag,
        entity.kind is Cashtag <==> entity@.kind is Cashtag,
        entity.kind is BotCommand <==> entity@.kind is BotCommand,
        entity.kind is Url <==> entity@.kind is Url,
        entity.kind is Email <==> entity@.kind is Email,
        entity.kind is PhoneNumber <==> entity@.kind is PhoneNumber,
        entity.kind is Bold <==> entity@.kind is Bold,
        entity.kind is Blockquote <==> entity@.kind is Blockquote,
        entity.kind is ExpandableBlockquote <==> entity@.kind is ExpandableBlockquote,
        entity.kind is Italic <==> entity@.kind is Italic,
        entity.kind is Underline <==> entity@.kind is Underline,
        entity.kind is Strikethrough <==> entity@.kind is Strikethrough,
        entity.kind is Spoiler <==> entity@.kind is Spoiler,
        entity.kind is Code <==> entity@.kind is Code,
        entity.kind matches MessageEntityKind::Pre { language } ==> entity@.kind matches KindView::Pre {
            language: known,
        } && (language is None <==> known is None) && (language matches Some(text) ==> known == Some(
            text@,
        )),
        entity.kind matches MessageEntityKind::TextLink { url } ==> entity@.kind
            == (KindView::TextLink { url: url@ }),
        entity.kind matches MessageEntityKind::TextMention { user } ==> entity@.kind
            == (KindView::TextMention { user: user@ }),
        entity.kind matches MessageEntityKind::CustomEmoji { custom_emoji_id } ==> entity@.kind
            == (KindView::CustomEmoji { custom_emoji_id: custom_emoji_id@ }),
{
}

/// A list of entities is known by each of them, in their order.
pub proof fn law_entities_are_known(entities: Seq<MessageEntity>, i: int)
    requires
        0 <= i < entities.len(),
    ensures
        entity_views(entities).len() == entities.len(),
        entity_views(entities)[i] == entities[i]@,
{
}

/// A user is known by their number, their names and what else is told of them.
pub proof fn law_user_is_known(user: User)
    ensures
        user@.id == user.id,
        user@.is_bot == user.is_bot,
        user@.first_name == user.first_name@,
        user@.username is None <==> user.username is None,
        user.username matches Some(name) ==> user@.username == Some(name@),
        user@.last_name is None <==> user.last_name is None,
        user.last_name matches Some(name) ==> user@.last_name == Some(name@),
        user@.language_code is None <==> user.language_code is None,
        user.language_code matches Some(code) ==> user@.language_code == Some(code@),
        user@.is_premium == user.is_premium,
        user@.added_to_attachment_menu == user.added_to_attachment_menu,
{
}

} // verus!
