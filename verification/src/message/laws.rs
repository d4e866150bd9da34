//! What holds of the texts that are made from messages.

use vstd::prelude::*;

use crate::address::{url_parsed, UrlView};
use crate::entity::{entity_views, EntityView, UserView};
use crate::formatter::chain::{
    after_rules, goes_ordinarily, hosts_are_final, law_rules_leave_nothing_to_rewrite,
    law_skipped_where_every_rule_skips, skips,
};
use crate::formatter::defaults::FormattingRule;
use crate::formatter::laws::{end_of, is_settled, law_settled_message_is_skipped, Walk};
use crate::formatter::walk::{decision, Effect, Rewrite, UrlRewriter};
use crate::message::{
    chat_path, composed, entities_of, formatting, forwarded, is_linkable, link_of, link_text,
    mention_of, text_of, ChatKind, ChatKindView, ChatView, Formatting, Message, MessageView,
    OutgoingMessage,
};
use crate::render::html_of;
use crate::text::{
    decimal, is_white_space, law_decimal_is_read_back, law_decimals_differ,
    law_utf16_of_joined_texts, law_utf16_round_trip, signed_decimal, trimmed_end, utf16,
    utf16_lossy,
};

verus! {

/// Whether every rule leaves the text and the entities of a message as they are.
pub open spec fn all_skip(msg: MessageView, rules: Seq<FormattingRule>) -> bool {
    match (msg.entities, msg.text) {
        (Some(entities), Some(text)) => forall|i: int|
            0 <= i < rules.len() ==> skips(#[trigger] rules[i], utf16(trimmed_end(text)), entities),
        _ => true,
    }
}

/// A message is replaced only where it has text and entities and some rule rewrites it. One with
/// a sender, or one that is not to be quoted, is left as it is only where every rule skips it.
pub proof fn law_unchanged_where_every_rule_skips(
    msg: MessageView,
    quote: bool,
    rules: Seq<FormattingRule>,
)
    ensures
        all_skip(msg, rules) ==> formatting(msg, quote, rules) is Unchanged,
        formatting(msg, quote, rules) is Unchanged && (quote ==> msg.from is Some) ==> all_skip(
            msg,
            rules,
        ),
{
    match (msg.entities, msg.text) {
        (Some(entities), Some(text)) => {
            let units = utf16(trimmed_end(text));
            law_skipped_where_every_rule_skips(rules, units, entities);
            match after_rules(rules, units, entities, rules.len()) {
                Some(draft) => {
                    assert(quote ==> msg.from is Some ==> mention_of(msg.from) is Some);
                },
                None => {},
            }
        },
        _ => {},
    }
}

proof fn lemma_utf16_concat(s: Seq<char>, t: Seq<char>)
    ensures
        utf16(s + t) == utf16(s) + utf16(t),
{
    law_utf16_of_joined_texts(s, t);
}

/// A quoted message is the rewritten text with the mention of its author below. Its last entity
/// marks that text as a quote: all of it, and nothing of the mention. The other entities are
/// those of the rewritten text.
pub proof fn law_quote_marks_the_text(msg: MessageView, text: Seq<char>, entities: Seq<EntityView>)
    requires
        msg.from is Some,
        utf16(text).len() <= usize::MAX,
    ensures
        composed(msg, utf16(text), entities, true) matches Some(sent) && {
            let quote = sent.entities.last();
            &&& sent.text == text + "\n— "@ + mention_of(msg.from)->0
            &&& sent.entities.drop_last() == entities
            &&& quote.kind is Blockquote
            &&& quote.offset == 0
            &&& quote.length <= utf16(sent.text).len()
            &&& utf16(sent.text).take(quote.length as int) == utf16(text)
        },
{
    let sent = composed(msg, utf16(text), entities, true)->0;
    let footer = "\n— "@ + mention_of(msg.from)->0;
    law_utf16_round_trip(text);
    assert(sent.text == text + footer);
    lemma_utf16_concat(text, footer);
    assert(sent.entities.drop_last() == entities);
    assert(utf16(sent.text).take(utf16(text).len() as int) == utf16(text));
}

/// A message that is not quoted is the rewritten text with its entities, and nothing else.
pub proof fn law_plain_message_is_the_text(
    msg: MessageView,
    text: Seq<char>,
    entities: Seq<EntityView>,
)
    ensures
        composed(msg, utf16(text), entities, false) matches Some(sent) && {
            &&& sent.text == text
            &&& sent.entities == entities
        },
{
    law_utf16_round_trip(text);
}

/// The number of a supergroup or channel starts with `-100`; in a link without a name stands what
/// follows.
pub proof fn law_link_strips_the_prefix(chat: ChatView, tail: Seq<char>)
    requires
        is_unnamed(chat),
        signed_decimal(chat.id as int) == "-100"@ + tail,
    ensures
        chat_path(chat) == Some("c/"@ + tail),
        is_linkable(chat),
{
    reveal_strlit("-100");
    assert(("-100"@ + tail).skip(4) =~= tail);
}

/// Whether a chat is a supergroup or a channel without a name.
pub open spec fn is_unnamed(chat: ChatView) -> bool {
    ||| chat.kind == (ChatKindView::Supergroup { username: None })
    ||| chat.kind == (ChatKindView::Channel { username: None })
}

/// Whether the number of a chat starts with `-100`.
pub open spec fn has_prefix(chat: ChatView) -> bool {
    "-100"@.is_prefix_of(signed_decimal(chat.id as int))
}

/// What is before the first stroke, and what is after it, can be told.
proof fn lemma_split(a: Seq<char>, b: Seq<char>, x: Seq<char>, y: Seq<char>)
    requires
        forall|i: int| 0 <= i < a.len() ==> #[trigger] a[i] != '/',
        forall|i: int| 0 <= i < x.len() ==> #[trigger] x[i] != '/',
        a + seq!['/'] + b == x + seq!['/'] + y,
    ensures
        a == x,
        b == y,
{
    let whole = a + seq!['/'] + b;
    if a.len() < x.len() {
        assert(whole[a.len() as int] == '/');
        assert(whole[a.len() as int] == x[a.len() as int]);
    }
    if x.len() < a.len() {
        assert(whole[x.len() as int] == '/');
        assert(whole[x.len() as int] == a[x.len() as int]);
    }
    assert(whole.take(a.len() as int) =~= a);
    assert(whole.take(a.len() as int) =~= x);
    assert(whole.skip(a.len() as int + 1) =~= b);
    assert(whole.skip(a.len() as int + 1) =~= y);
}

/// Different messages in supergroups and channels without a name have different links.
pub proof fn law_links_differ(chat: ChatView, id: i32, other_chat: ChatView, other_id: i32)
    requires
        is_unnamed(chat),
        is_unnamed(other_chat),
        has_prefix(chat),
        has_prefix(other_chat),
        chat.id != other_chat.id || id != other_id,
    ensures
        link_text(chat, id) is Some,
        link_text(other_chat, other_id) is Some,
        link_text(chat, id) != link_text(other_chat, other_id),
{
    reveal_strlit("-100");
    reveal_strlit("/");
    let number = signed_decimal(chat.id as int);
    let other_number = signed_decimal(other_chat.id as int);
    let tail = number.skip(4);
    let other_tail = other_number.skip(4);
    assert(chat.id < 0) by {
        if chat.id >= 0 {
            law_decimal_is_read_back(chat.id as nat);
            assert(number[0] == "-100"@[0]);
        }
    }
    assert(other_chat.id < 0) by {
        if other_chat.id >= 0 {
            law_decimal_is_read_back(other_chat.id as nat);
            assert(other_number[0] == "-100"@[0]);
        }
    }
    law_decimal_is_read_back((-chat.id) as nat);
    law_decimal_is_read_back((-other_chat.id) as nat);
    assert forall|i: int| 0 <= i < tail.len() implies #[trigger] tail[i] != '/' by {
        assert(tail[i] == decimal((-chat.id) as nat)[i + 3]);
    }
    assert forall|i: int| 0 <= i < other_tail.len() implies #[trigger] other_tail[i] != '/' by {
        assert(other_tail[i] == decimal((-other_chat.id) as nat)[i + 3]);
    }
    let head = "https://t.me/"@ + "c/"@;
    let end = signed_decimal(id as int);
    let other_end = signed_decimal(other_id as int);
    let text = link_text(chat, id)->0;
    let other_text = link_text(other_chat, other_id)->0;
    assert("/"@ =~= seq!['/']);
    assert(text.skip(head.len() as int) =~= tail + seq!['/'] + end);
    assert(other_text.skip(head.len() as int) =~= other_tail + seq!['/'] + other_end);
    if text == other_text {
        lemma_split(tail, end, other_tail, other_end);
        assert(number =~= "-100"@ + tail);
        assert(other_number =~= "-100"@ + other_tail);
        if chat.id != other_chat.id {
            law_decimals_differ(chat.id as int, other_chat.id as int);
        }
        if id != other_id {
            law_decimals_differ(id as int, other_id as int);
        }
    }
}

/// What is not white space stays at the end of a text, and what is before it.
proof fn lemma_trimmed_keeps(head: Seq<char>, tail: Seq<char>)
    requires
        head.len() > 0,
        !is_white_space(head.last()),
    ensures
        head.is_prefix_of(trimmed_end(head + tail)),
    decreases tail.len(),
{
    if tail.len() == 0 {
        assert(head + tail =~= head);
    } else {
        lemma_trimmed_keeps(head, tail.drop_last());
        assert((head + tail).drop_last() =~= head + tail.drop_last());
    }
}

/// Nothing is left to rewrite in a longer text with further marks that are no URLs.
proof fn lemma_settled_in_longer(
    rewrite: spec_fn(UrlView) -> Rewrite,
    text: Seq<u16>,
    entities: Seq<EntityView>,
    longer: Seq<u16>,
    more: Seq<EntityView>,
)
    requires
        is_settled(rewrite, text, entities),
        text.is_prefix_of(longer),
        entities.is_prefix_of(more),
        forall|i: int| entities.len() <= i < more.len() ==> (#[trigger] more[i]).kind is Blockquote,
    ensures
        is_settled(rewrite, longer, more),
{
    assert forall|i: int| 0 <= i < more.len() implies ({
        &&& (#[trigger] more[i]).kind is Url ==> end_of(more[i]) <= longer.len()
        &&& decision(rewrite, longer, more[i]) is Keep
    }) by {
        if i < entities.len() {
            assert(more[i] == entities[i]);
            if more[i].kind is Url {
                assert(longer.subrange(more[i].offset as int, end_of(more[i])) =~= text.subrange(
                    more[i].offset as int,
                    end_of(more[i]),
                ));
            }
        }
    }
}

/// A formatted message needs no further formatting, if the URLs in its text are tidy, those that
/// are rewritten become URLs with a host that name no file, and no rule is for a host that one of
/// them puts into URLs. The text is not to hold half of a surrogate pair, and without a quote it is
/// not to end in white space.
pub proof fn law_formatted_message_stays(
    msg: MessageView,
    quote: bool,
    rules: Seq<FormattingRule>,
    again: MessageView,
    quote_again: bool,
)
    requires
        formatting(msg, quote, rules) is Replaced,
        hosts_are_final(rules),
        goes_ordinarily(rules, utf16(trimmed_end(text_of(msg))), entities_of(msg)),
        again.text == Some(formatting(msg, quote, rules)->Replaced_0.text),
        again.entities == Some(formatting(msg, quote, rules)->Replaced_0.entities),
        ({
            let text = after_rules(
                rules,
                utf16(trimmed_end(text_of(msg))),
                entities_of(msg),
                rules.len(),
            )->0.text;
            &&& utf16(utf16_lossy(text)) == text
            &&& quote || trimmed_end(utf16_lossy(text)) == utf16_lossy(text)
        }),
    ensures
        formatting(again, quote_again, rules) is Unchanged,
{
    let units = utf16(trimmed_end(text_of(msg)));
    let entities = entities_of(msg);
    let draft = after_rules(rules, units, entities, rules.len())->0;
    let sent = formatting(msg, quote, rules)->Replaced_0;
    let text = utf16_lossy(draft.text);
    let longer = utf16(trimmed_end(sent.text));
    assert(draft.text.is_prefix_of(longer)) by {
        if quote {
            let mention = mention_of(msg.from)->0;
            reveal_strlit("\n— ");
            let head = text + "\n— "@.take(2);
            let tail = "\n— "@.skip(2) + mention;
            assert(head.last() == '—');
            assert(!is_white_space('—'));
            assert(sent.text =~= head + tail);
            lemma_trimmed_keeps(head, tail);
            let rest = trimmed_end(sent.text).skip(text.len() as int);
            assert(trimmed_end(sent.text).take(head.len() as int) =~= head);
            assert(trimmed_end(sent.text) =~= text + rest) by {
                assert forall|i: int| 0 <= i < text.len() implies trimmed_end(sent.text)[i]
                    == text[i] by {
                    assert(trimmed_end(sent.text)[i] == head[i]);
                }
            }
            lemma_utf16_concat(text, rest);
        } else {
            assert(longer == draft.text);
        }
    }
    assert forall|j: int| 0 <= j < rules.len() implies skips(
        #[trigger] rules[j],
        longer,
        sent.entities,
    ) by {
        let rule = rules[j];
        let rewrite = |url: UrlView| rule.rewrite(url);
        law_rules_leave_nothing_to_rewrite(rules, units, entities, j);
        lemma_settled_in_longer(rewrite, draft.text, draft.entities, longer, sent.entities);
        law_settled_message_is_skipped(Walk { rewrite, text: longer, entities: sent.entities });
    }
    law_unchanged_where_every_rule_skips(again, quote_again, rules);
}

/// A sender is called by the user name after `@`, and by the first name without one. Without a
/// sender nobody is called.
pub proof fn law_sender_is_called(user: UserView)
    ensures
        user.username matches Some(name) ==> mention_of(Some(user)) == Some("@"@ + name),
        user.username is None ==> mention_of(Some(user)) == Some(user.first_name),
        mention_of(None) is None,
{
}

/// The link to a message in a supergroup or a channel with a name goes by that name, whatever the
/// number of the chat.
pub proof fn law_link_goes_by_the_name(chat: ChatView, name: Seq<char>, id: i32)
    requires
        chat.kind == (ChatKindView::Supergroup { username: Some(name) }) || chat.kind
            == (ChatKindView::Channel { username: Some(name) }),
    ensures
        is_linkable(chat),
        link_text(chat, id) == Some("https://t.me/"@ + name + "/"@ + signed_decimal(id as int)),
{
}

proof fn lemma_digits(n: nat)
    ensures
        decimal(n).len() >= 3 <==> n >= 100,
        decimal(n).len() >= 4 <==> n >= 1000,
{
    reveal_with_fuel(decimal, 4);
    law_decimal_is_read_back(n / 1000);
}

/// The link to a message in a supergroup or a channel without a name goes by its number, without
/// the first four characters. A number with fewer has no link.
pub proof fn law_link_goes_by_the_number(chat: ChatView, id: i32)
    requires
        chat.kind == (ChatKindView::Supergroup { username: None }) || chat.kind
            == (ChatKindView::Channel { username: None }),
    ensures
        is_linkable(chat) <==> chat.id <= -100 || chat.id >= 1000,
        link_text(chat, id) == Some(
            "https://t.me/c/"@ + signed_decimal(chat.id as int).skip(4) + "/"@ + signed_decimal(
                id as int,
            ),
        ),
{
    reveal_strlit("https://t.me/c/");
    reveal_strlit("https://t.me/");
    reveal_strlit("c/");
    let tail = signed_decimal(chat.id as int).skip(4);
    assert("https://t.me/c/"@ =~= "https://t.me/"@ + "c/"@);
    assert("https://t.me/c/"@ + tail =~= "https://t.me/"@ + ("c/"@ + tail));
    if chat.id < 0 {
        lemma_digits((-chat.id) as nat);
    } else {
        lemma_digits(chat.id as nat);
    }
}

/// There are no links to messages in private chats and basic groups, and nothing keeps from asking
/// for one.
pub proof fn law_some_chats_have_no_links(chat: ChatView, id: i32)
    requires
        chat.kind is Private || chat.kind is Group,
    ensures
        is_linkable(chat),
        link_text(chat, id) is None,
        link_of(chat, id) is None,
{
}

/// The link to a message is what is read in its text.
pub proof fn law_link_is_read(chat: ChatView, id: i32, text: Seq<char>)
    requires
        link_text(chat, id) == Some(text),
    ensures
        url_parsed(text) matches Ok(url) ==> link_of(chat, id) == Some(url),
        url_parsed(text) is Err ==> link_of(chat, id) is None,
{
}

/// A forwarded message is the HTML form of its text with its entities, in a quote, and the mention
/// of its sender below. Without a sender there is none.
pub proof fn law_forward_shows_the_message(msg: MessageView)
    ensures
        msg.from is None ==> forwarded(msg) is None,
        msg.from matches Some(user) ==> forwarded(msg) == Some(
            "<blockquote>"@ + html_of(
                (match msg.text {
                    Some(text) => text,
                    None => Seq::empty(),
                }),
                (match msg.entities {
                    Some(entities) => entities,
                    None => Seq::empty(),
                }),
            ) + "</blockquote>\n— "@ + (match user.username {
                Some(name) => "@"@ + name,
                None => user.first_name,
            }),
        ),
{
}

/// A composed message goes to the chat of the other one, answers what that answered, whether or not
/// it is a quote, has a large preview above the text and comes without a sound. It is missing only
/// where it is to be a quote and there is no sender.
pub proof fn law_composed_message_takes_the_place(
    msg: MessageView,
    text: Seq<u16>,
    entities: Seq<EntityView>,
    quote: bool,
)
    ensures
        composed(msg, text, entities, quote) is None <==> quote && msg.from is None,
        composed(msg, text, entities, quote) matches Some(sent) ==> {
            &&& sent.chat_id == msg.chat.id
            &&& sent.reply_to is Some <==> msg.reply_to is Some
            &&& msg.reply_to matches Some(replied) ==> sent.reply_to == Some(replied.id)
            &&& sent.disable_notification
            &&& !sent.link_preview.is_disabled
            &&& !sent.link_preview.prefer_small_media
            &&& sent.link_preview.prefer_large_media
            &&& sent.link_preview.show_above_text
        },
{
}

/// A composed message holds the text that the units stand for and the entities. As a quote, it
/// holds a mention of the sender below and one more entity, the mark of the quote over all units.
pub proof fn law_composed_message_holds_the_text(
    msg: MessageView,
    text: Seq<u16>,
    entities: Seq<EntityView>,
)
    requires
        text.len() <= usize::MAX,
    ensures
        composed(msg, text, entities, false) matches Some(sent) && sent.text == utf16_lossy(text)
            && sent.entities == entities,
        msg.from matches Some(user) ==> (composed(msg, text, entities, true) matches Some(sent) && {
            &&& sent.text == utf16_lossy(text) + "\n— "@ + (match user.username {
                Some(name) => "@"@ + name,
                None => user.first_name,
            })
            &&& sent.entities.len() == entities.len() + 1
            &&& sent.entities.drop_last() == entities
            &&& sent.entities.last().kind is Blockquote
            &&& sent.entities.last().offset == 0
            &&& sent.entities.last().length == text.len()
        }),
{
    if msg.from is Some {
        let sent = composed(msg, text, entities, true)->0;
        assert(sent.entities.drop_last() =~= entities);
    }
}

/// What becomes of a message: without text or without entities it stays. Otherwise the rules are
/// applied to its text without the white space at the end; what they mutate is composed anew, what
/// they skip stays, and where they cannot be applied the message is refused.
pub proof fn law_message_is_formatted(
    msg: MessageView,
    quote: bool,
    rules: Seq<FormattingRule>,
)
    ensures
        msg.text is None || msg.entities is None ==> formatting(msg, quote, rules) is Unchanged,
        msg.text matches Some(text) ==> msg.entities matches Some(entities) ==> match after_rules(
            rules,
            utf16(trimmed_end(text)),
            entities,
            rules.len(),
        ) {
            None => formatting(msg, quote, rules) is Refused,
            Some(draft) => {
                &&& draft.effect == Effect::Skipped ==> formatting(msg, quote, rules) is Unchanged
                &&& draft.effect == Effect::Mutated && quote && msg.from is None ==> formatting(
                    msg,
                    quote,
                    rules,
                ) is Unchanged
                &&& draft.effect == Effect::Mutated && (quote ==> msg.from is Some) ==> (formatting(
                    msg,
                    quote,
                    rules,
                ) matches Formatting::Replaced(sent) && Some(sent) == composed(
                    msg,
                    draft.text,
                    draft.entities,
                    quote,
                ))
            },
        },
{
}

/// A message is known by its number, its chat, its sender, its text and entities and what it
/// answers.
pub proof fn law_message_is_known(msg: Message)
    ensures
        msg@.id == msg.id,
        msg@.chat.id == msg.chat.id,
        msg.chat.kind is Private <==> msg@.chat.kind is Private,
        msg.chat.kind is Group <==> msg@.chat.kind is Group,
        msg.chat.kind is Supergroup <==> msg@.chat.kind is Supergroup,
        msg.chat.kind is Channel <==> msg@.chat.kind is Channel,
        msg.chat.kind matches ChatKind::Supergroup { username: Some(name) } ==> msg@.chat.kind
            == (ChatKindView::Supergroup { username: Some(name@) }),
        msg.chat.kind matches ChatKind::Supergroup { username: None } ==> msg@.chat.kind
            == (ChatKindView::Supergroup { username: None }),
        msg.chat.kind matches ChatKind::Channel { username: Some(name) } ==> msg@.chat.kind
            == (ChatKindView::Channel { username: Some(name@) }),
        msg.chat.kind matches ChatKind::Channel { username: None } ==> msg@.chat.kind
            == (ChatKindView::Channel { username: None }),
        msg@.from is None <==> msg.from is None,
        msg.from matches Some(user) ==> msg@.from == Some(user@),
        msg@.text is None <==> msg.text is None,
        msg.text matches Some(text) ==> msg@.text == Some(text@),
        msg@.entities is None <==> msg.entities is None,
        msg.entities matches Some(entities) ==> msg@.entities == Some(entity_views(entities@)),
        msg@.reply_to == msg.reply_to,
{
}

/// A message to be sent is known by everything that it holds.
pub proof fn law_outgoing_message_is_known(sent: OutgoingMessage)
    ensures
        sent@.chat_id == sent.chat_id,
        sent@.text == sent.text@,
        sent@.entities == entity_views(sent.entities@),
        sent@.link_preview == sent.link_preview,
        sent@.disable_notification == sent.disable_notification,
        sent@.reply_to == sent.reply_to,
{
}

} // verus!
