//! The HTML form of a marked-up text, which the `teloxide` crate writes.

use vstd::prelude::*;

use teloxide::types::{
    CustomEmojiId, MessageEntity as OutsideEntity, MessageEntityKind as O, User as OutsideUser,
    UserId,
};
use teloxide::utils::render::Renderer;
use url::Url as OutsideUrl;

use crate::address::{optional_chars, url_contents};
use crate::entity::{
    entity_views, EntityView, KindView, MessageEntity, MessageEntityKind, MessageEntityKind as K,
    User,
};

verus! {

/// The entity of the `teloxide` crate.
#[verifier::external_type_specification]
#[verifier::external_body]
pub struct DeclaredEntity(OutsideEntity);

/// What an entity of the `teloxide` crate holds.
pub uninterp spec fn entity_contents(entity: OutsideEntity) -> EntityView;

/// What a list of the entities of the `teloxide` crate holds.
pub open spec fn listed_entities(list: Seq<OutsideEntity>) -> Seq<EntityView> {
    Seq::new(list.len(), |i: int| entity_contents(list[i]))
}

/// What `teloxide::utils::render::Renderer::as_html` writes for a text and its entities.
pub uninterp spec fn rendered_html(text: Seq<char>, entities: Seq<EntityView>) -> Seq<char>;

/// The kinds that hold nothing.
pub open spec fn is_bare(kind: KindView) -> bool {
    !(kind is Pre || kind is TextLink || kind is TextMention || kind is CustomEmoji)
}

/// The kinds that leave a trace in HTML.
pub open spec fn is_styled(kind: KindView) -> bool {
    match kind {
        KindView::Mention
        | KindView::Hashtag
        | KindView::Cashtag
        | KindView::BotCommand
        | KindView::Url
        | KindView::Email
        | KindView::PhoneNumber => false,
        _ => true,
    }
}

/// Whether no entity leaves a trace in HTML.
pub open spec fn none_styled(entities: Seq<EntityView>) -> bool {
    forall|i: int| 0 <= i < entities.len() ==> !is_styled((#[trigger] entities[i]).kind)
}

/// Whether an entity can be written: where it ends can be told, and a mentioned user has a
/// number other than zero.
pub open spec fn is_renderable(entity: EntityView) -> bool {
    &&& is_styled(entity.kind) ==> entity.offset + entity.length <= usize::MAX
    &&& entity.kind matches KindView::TextMention { user } ==> user.id != 0
}

/// Whether every entity can be written.
pub open spec fn all_renderable(entities: Seq<EntityView>) -> bool {
    forall|i: int| 0 <= i < entities.len() ==> is_renderable(#[trigger] entities[i])
}

/// A character as it is written in HTML.
pub open spec fn escaped_char(c: char) -> Seq<char> {
    if c == '&' {
        "&amp;"@
    } else if c == '<' {
        "&lt;"@
    } else if c == '>' {
        "&gt;"@
    } else {
        seq![c]
    }
}

/// A text as it is written in HTML.
pub open spec fn escaped(s: Seq<char>) -> Seq<char>
    decreases s.len(),
{
    if s.len() == 0 {
        Seq::empty()
    } else {
        escaped_char(s[0]) + escaped(s.skip(1))
    }
}

/// The HTML form of a text and its entities.
pub open spec fn html_of(text: Seq<char>, entities: Seq<EntityView>) -> Seq<char> {
    if none_styled(entities) {
        escaped(text)
    } else {
        rendered_html(text, entities)
    }
}

/// Calls `teloxide::types::MessageEntity::new` with a kind that holds nothing.
#[verifier::external_body]
fn outside_bare(kind: &MessageEntityKind, offset: usize, length: usize) -> (entity: OutsideEntity)
    requires
        is_bare(kind@),
    ensures
        entity_contents(entity) == (EntityView { kind: kind@, offset, length }),
{
    let kind = match kind {
        K::Mention => O::Mention, K::Hashtag => O::Hashtag, K::Cashtag => O::Cashtag,
        K::BotCommand => O::BotCommand, K::Url => O::Url, K::Email => O::Email,
        K::PhoneNumber => O::PhoneNumber, K::Bold => O::Bold, K::Blockquote => O::Blockquote,
        K::ExpandableBlockquote => O::ExpandableBlockquote, K::Italic => O::Italic, K::Underline => O::Underline,
        K::Strikethrough => O::Strikethrough, K::Spoiler => O::Spoiler, _ => O::Code,
    };
    OutsideEntity::new(kind, offset, length)
}

/// Calls `teloxide::types::MessageEntity::pre`.
#[verifier::external_body]
fn outside_pre(language: &Option<String>, offset: usize, length: usize) -> (entity: OutsideEntity)
    ensures
        entity_contents(entity) == (EntityView {
            kind: KindView::Pre { language: optional_chars(*language) },
            offset,
            length,
        }),
{
    OutsideEntity::pre(language.clone(), offset, length)
}

/// Calls `teloxide::types::MessageEntity::text_link`.
#[verifier::external_body]
fn outside_link(url: &OutsideUrl, offset: usize, length: usize) -> (entity: OutsideEntity)
    ensures
        entity_contents(entity) == (EntityView {
            kind: KindView::TextLink { url: url_contents(*url) },
            offset,
            length,
        }),
{
    OutsideEntity::text_link(url.clone(), offset, length)
}

/// Calls `teloxide::types::MessageEntity::text_mention`.
#[verifier::external_body]
fn outside_mention(user: &User, offset: usize, length: usize) -> (entity: OutsideEntity)
    ensures
        entity_contents(entity) == (EntityView {
            kind: KindView::TextMention { user: user@ },
            offset,
            length,
        }),
{
    let user = OutsideUser {
        id: UserId(user.id),
        is_bot: user.is_bot,
        first_name: user.first_name.clone(),
        last_name: user.last_name.clone(),
        username: user.username.clone(),
        language_code: user.language_code.clone(),
        is_premium: user.is_premium,
        added_to_attachment_menu: user.added_to_attachment_menu,
    };
    OutsideEntity::text_mention(user, offset, length)
}

/// Calls `teloxide::types::MessageEntity::custom_emoji`.
#[verifier::external_body]
fn outside_emoji(custom_emoji_id: &String, offset: usize, length: usize) -> (entity: OutsideEntity)
    ensures
        entity_contents(entity) == (EntityView {
            kind: KindView::CustomEmoji { custom_emoji_id: custom_emoji_id@ },
            offset,
            length,
        }),
{
    OutsideEntity::custom_emoji(CustomEmojiId(custom_emoji_id.clone()), offset, length)
}

/// The entity of the `teloxide` crate that holds what an entity holds.
fn outside_of(entity: &MessageEntity) -> (outside: OutsideEntity)
    ensures
        entity_contents(outside) == entity@,
{
    match &entity.kind {
        MessageEntityKind::Pre { language } => outside_pre(language, entity.offset, entity.length),
        MessageEntityKind::TextLink { url } => {
            outside_link(url.outside(), entity.offset, entity.length)
        },
        MessageEntityKind::TextMention { user } => {
            outside_mention(user, entity.offset, entity.length)
        },
        MessageEntityKind::CustomEmoji { custom_emoji_id } => {
            outside_emoji(custom_emoji_id, entity.offset, entity.length)
        },
        kind => outside_bare(kind, entity.offset, entity.length),
    }
}

/// Calls `teloxide::utils::render::Renderer::new` and `as_html`. Both panic on an entity whose
/// end cannot be told and on a mention of the user with number zero.
#[verifier::external_body]
fn outside_render(text: &str, list: &Vec<OutsideEntity>) -> (html: String)
    requires
        all_renderable(listed_entities(list@)),
    ensures
        html@ == rendered_html(text@, listed_entities(list@)),
{
    Renderer::new(text, list).as_html()
}

/// Calls `teloxide::utils::html::escape`, which writes `&`, `<` and `>` by their names and the
/// other characters as they are.
#[verifier::external_body]
fn outside_escape(text: &str) -> (html: String)
    ensures
        html@ == escaped(text@),
{
    teloxide::utils::html::escape(text)
}

/// Whether a kind leaves a trace in HTML.
fn leaves_trace(kind: &MessageEntityKind) -> (found: bool)
    ensures
        found == is_styled(kind@),
{
    match kind {
        MessageEntityKind::Mention
        | MessageEntityKind::Hashtag
        | MessageEntityKind::Cashtag
        | MessageEntityKind::BotCommand
        | MessageEntityKind::Url
        | MessageEntityKind::Email
        | MessageEntityKind::PhoneNumber => false,
        _ => true,
    }
}

/// Whether no entity leaves a trace in HTML.
pub fn leaves_no_trace(entities: &Vec<MessageEntity>) -> (found: bool)
    ensures
        found == none_styled(entity_views(entities@)),
{
    let mut i: usize = 0;
    while i < entities.len()
        invariant
            i <= entities@.len(),
            forall|k: int|
                0 <= k < i ==> !is_styled((#[trigger] entity_views(entities@)[k]).kind),
        decreases entities@.len() - i,
    {
        if leaves_trace(&entities[i].kind) {
            proof {
                assert(is_styled(entity_views(entities@)[i as int].kind));
            }
            return false;
        }
        i += 1;
    }
    true
}

/// Whether every entity can be written.
pub fn can_render(entities: &Vec<MessageEntity>) -> (possible: bool)
    ensures
        possible == all_renderable(entity_views(entities@)),
{
    let mut i: usize = 0;
    while i < entities.len()
        invariant
            i <= entities@.len(),
            forall|k: int|
                0 <= k < i ==> is_renderable(#[trigger] entity_views(entities@)[k]),
        decreases entities@.len() - i,
    {
        let entity = &entities[i];
        let ghost viewed = entity_views(entities@)[i as int];
        let endless = entity.offset > usize::MAX - entity.length;
        match &entity.kind {
            MessageEntityKind::Mention
            | MessageEntityKind::Hashtag
            | MessageEntityKind::Cashtag
            | MessageEntityKind::BotCommand
            | MessageEntityKind::Url
            | MessageEntityKind::Email
            | MessageEntityKind::PhoneNumber => {},
            MessageEntityKind::TextMention { user } => {
                if endless || user.id == 0 {
                    proof {
                        assert(!is_renderable(viewed));
                    }
                    return false;
                }
            },
            _ => {
                if endless {
                    proof {
                        assert(!is_renderable(viewed));
                    }
                    return false;
                }
            },
        }
        i += 1;
    }
    true
}

/// Writes a text and its entities as HTML.
pub fn render_html(text: &str, entities: &Vec<MessageEntity>) -> (html: String)
    requires
        all_renderable(entity_views(entities@)),
    ensures
        html@ == html_of(text@, entity_views(entities@)),
{
    if leaves_no_trace(entities) {
        return outside_escape(text);
    }
    let mut list: Vec<OutsideEntity> = Vec::new();
    let mut i: usize = 0;
    while i < entities.len()
        invariant
            i <= entities@.len(),
            list@.len() == i,
            forall|k: int|
                0 <= k < i ==> entity_contents(#[trigger] list@[k]) == entities@[k]@,
        decreases entities@.len() - i,
    {
        list.push(outside_of(&entities[i]));
        i += 1;
    }
    proof {
        assert(listed_entities(list@) =~= entity_views(entities@));
    }
    outside_render(text, &list)
}

/// A text is written by the renderer, with all of its entities, where any of them has a form in
/// HTML. Where none has, it is only escaped.
pub proof fn law_marks_are_rendered(text: Seq<char>, entities: Seq<EntityView>)
    ensures
        (exists|i: int|
            0 <= i < entities.len() && {
                let kind = (#[trigger] entities[i]).kind;
                ||| kind is Bold
                ||| kind is Italic
                ||| kind is Underline
                ||| kind is Strikethrough
                ||| kind is Spoiler
                ||| kind is Code
                ||| kind is Pre
                ||| kind is Blockquote
                ||| kind is ExpandableBlockquote
                ||| kind is TextLink
                ||| kind is TextMention
                ||| kind is CustomEmoji
            }) ==> html_of(text, entities) == rendered_html(text, entities),
        (forall|i: int|
            0 <= i < entities.len() ==> {
                let kind = (#[trigger] entities[i]).kind;
                ||| kind is Mention
                ||| kind is Hashtag
                ||| kind is Cashtag
                ||| kind is BotCommand
                ||| kind is Url
                ||| kind is Email
                ||| kind is PhoneNumber
            }) ==> html_of(text, entities) == escaped(text),
{
}

/// Each character is escaped by itself: `&`, `<` and `>` are written by their names, and every
/// other character stays.
pub proof fn law_characters_are_escaped(s: Seq<char>, c: char)
    ensures
        escaped(Seq::empty()).len() == 0,
        c == '&' ==> escaped(seq![c] + s) == "&amp;"@ + escaped(s),
        c == '<' ==> escaped(seq![c] + s) == "&lt;"@ + escaped(s),
        c == '>' ==> escaped(seq![c] + s) == "&gt;"@ + escaped(s),
        c != '&' && c != '<' && c != '>' ==> escaped(seq![c] + s) == seq![c] + escaped(s),
{
    assert((seq![c] + s).skip(1) =~= s);
}

/// Entities can be written unless one with a form in HTML has an end that cannot be told, or a user
/// without a number is mentioned.
pub proof fn law_entities_can_be_rendered(entities: Seq<EntityView>)
    ensures
        all_renderable(entities) <==> forall|i: int|
            0 <= i < entities.len() ==> {
                let entity = #[trigger] entities[i];
                &&& entity.offset + entity.length <= usize::MAX || entity.kind is Mention
                    || entity.kind is Hashtag || entity.kind is Cashtag || entity.kind is BotCommand
                    || entity.kind is Url || entity.kind is Email || entity.kind is PhoneNumber
                &&& entity.kind matches KindView::TextMention { user } ==> user.id != 0
            },
{
    if all_renderable(entities) {
        assert forall|i: int| 0 <= i < entities.len() implies {
            let entity = #[trigger] entities[i];
            &&& entity.offset + entity.length <= usize::MAX || entity.kind is Mention
                || entity.kind is Hashtag || entity.kind is Cashtag || entity.kind is BotCommand
                || entity.kind is Url || entity.kind is Email || entity.kind is PhoneNumber
            &&& entity.kind matches KindView::TextMention { user } ==> user.id != 0
        } by {
            assert(is_renderable(entities[i]));
        }
    }
}

} // verus!
