//! What the handlers of messages keep.

use vstd::prelude::*;

use crate::address::{url_parsed, UrlView};
use crate::flow::action::{
    Action, ActionView, Correction, Event, EventView, NewFormattedReply, Notification, Problem,
    Stage, StageView,
};
use crate::flow::steps::{
    author_of, corrected, edited_step, looking_up, noticed, notifying, private_start,
    private_step, supergroup_step,
};
use crate::formatter::defaults::FormattingRule;
use crate::message::{
    formatting, is_linkable, link_text, Formatting, LinkPreviewOptions, MessageView, OutgoingView,
    RepliedMessage,
};
use crate::render::{all_renderable, html_of};

verus! {

/// How many steps a handler can still take at most.
pub open spec fn steps_left(stage: StageView) -> nat {
    match stage {
        StageView::Connecting => 7,
        StageView::Deleting(_) => 6,
        StageView::Sending => 5,
        StageView::StoringMessage(_) => 4,
        StageView::FindingMessage(_) => 3,
        StageView::Notifying { .. } => 2,
        StageView::StoringReply => 1,
        StageView::FindingReply => 2,
        StageView::Correcting => 1,
        StageView::Done => 0,
    }
}

/// Whether an action is the last one.
pub open spec fn is_last(action: ActionView) -> bool {
    action is Finish || action is GiveUp || action is Fail || action is Abort
}

/// Every handler comes to an end, whatever comes of its actions: each step leaves fewer to take,
/// and the handler is done exactly where it takes its last action.
pub proof fn law_handlers_end(
    stage: StageView,
    msg: MessageView,
    rules: Seq<FormattingRule>,
    event: EventView,
)
    requires
        !(stage is Done),
    ensures
        steps_left(supergroup_step(stage, msg, rules, event).0) < steps_left(stage),
        steps_left(edited_step(stage, msg, event).0) < steps_left(stage),
        steps_left(private_step(stage, event).0) < steps_left(stage),
        supergroup_step(stage, msg, rules, event).0 is Done <==> is_last(
            supergroup_step(stage, msg, rules, event).1,
        ),
        edited_step(stage, msg, event).0 is Done <==> is_last(edited_step(stage, msg, event).1),
        private_step(stage, event).0 is Done <==> is_last(private_step(stage, event).1),
{
}

/// Where a handler is after some events, and its last action. Once it is done it is told nothing
/// more.
pub open spec fn run(
    step: spec_fn(StageView, EventView) -> (StageView, ActionView),
    start: (StageView, ActionView),
    events: Seq<EventView>,
) -> (StageView, ActionView)
    decreases events.len(),
{
    if events.len() == 0 {
        start
    } else {
        let earlier = run(step, start, events.drop_last());
        if earlier.0 is Done {
            earlier
        } else {
            step(earlier.0, events.last())
        }
    }
}

proof fn lemma_run_ends(
    step: spec_fn(StageView, EventView) -> (StageView, ActionView),
    start: (StageView, ActionView),
    events: Seq<EventView>,
)
    requires
        forall|stage: StageView, event: EventView|
            !(stage is Done) ==> steps_left((#[trigger] step(stage, event)).0) < steps_left(stage),
    ensures
        run(step, start, events).0 is Done || steps_left(run(step, start, events).0) + events.len()
            <= steps_left(start.0),
    decreases events.len(),
{
    if events.len() > 0 {
        lemma_run_ends(step, start, events.drop_last());
    }
}

/// No handler is told more than seven events, whatever they are.
pub proof fn law_seven_events_are_enough(
    msg: MessageView,
    rules: Seq<FormattingRule>,
    events: Seq<EventView>,
)
    requires
        events.len() >= 7,
    ensures
        run(
            |stage: StageView, event: EventView| supergroup_step(stage, msg, rules, event),
            (StageView::Connecting, ActionView::Connect),
            events,
        ).0 is Done,
        run(
            |stage: StageView, event: EventView| edited_step(stage, msg, event),
            (StageView::Connecting, ActionView::Connect),
            events,
        ).0 is Done,
        run(
            |stage: StageView, event: EventView| private_step(stage, event),
            private_start(msg, rules),
            events,
        ).0 is Done,
{
    let start = (StageView::Connecting, ActionView::Connect);
    let supergroup = |stage: StageView, event: EventView| supergroup_step(stage, msg, rules, event);
    let edited = |stage: StageView, event: EventView| edited_step(stage, msg, event);
    let private = |stage: StageView, event: EventView| private_step(stage, event);
    lemma_run_ends(supergroup, start, events);
    lemma_run_ends(edited, start, events);
    lemma_run_ends(private, private_start(msg, rules), events);
}

/// A message in a supergroup is deleted only where the rules rewrite it, and what is sent once it
/// is deleted is what they made of it, to the same chat. Nothing else is sent there, and nothing
/// where the message could not be deleted.
pub proof fn law_deleted_message_is_replaced(
    stage: StageView,
    msg: MessageView,
    rules: Seq<FormattingRule>,
    event: EventView,
)
    ensures
        supergroup_step(stage, msg, rules, event).1 matches ActionView::DeleteMessage {
            chat_id,
            message_id,
        } ==> {
            let next = supergroup_step(stage, msg, rules, event).0;
            &&& chat_id == msg.chat.id
            &&& message_id == msg.id
            &&& formatting(msg, true, rules) matches Formatting::Replaced(sent)
            &&& sent.chat_id == chat_id
            &&& supergroup_step(next, msg, rules, EventView::Deleted).1 == ActionView::SendMessage(
                sent,
            )
            &&& supergroup_step(next, msg, rules, EventView::RequestFailed).1 is Fail
        },
        supergroup_step(stage, msg, rules, event).1 matches ActionView::SendMessage(sent)
            ==> stage == StageView::Deleting(sent) && event is Deleted,
{
}

/// A message in a private chat is deleted only where the rules rewrite it, and what is sent once
/// it is deleted is what they made of it, to the same chat. Nothing else is sent there, and
/// nothing where the message could not be deleted.
pub proof fn law_deleted_private_message_is_replaced(
    stage: StageView,
    msg: MessageView,
    rules: Seq<FormattingRule>,
    event: EventView,
)
    ensures
        private_start(msg, rules).1 matches ActionView::DeleteMessage { chat_id, message_id } ==> {
            let next = private_start(msg, rules).0;
            &&& chat_id == msg.chat.id
            &&& message_id == msg.id
            &&& formatting(msg, false, rules) matches Formatting::Replaced(sent)
            &&& sent.chat_id == chat_id
            &&& private_step(next, EventView::Deleted).1 == ActionView::SendMessage(sent)
            &&& private_step(next, EventView::RequestFailed).1 is Fail
        },
        !(private_start(msg, rules).1 is SendMessage),
        !(private_step(stage, event).1 is DeleteMessage),
        private_step(stage, event).1 matches ActionView::SendMessage(sent) ==> stage
            == StageView::Deleting(sent) && event is Deleted,
{
}

/// A notification goes only to the user on record as the author of the message that was replied
/// to, and never to the author of the reply.
pub proof fn law_authors_are_not_notified_of_their_own_replies(
    stage: StageView,
    msg: MessageView,
    rules: Seq<FormattingRule>,
    event: EventView,
)
    ensures
        supergroup_step(stage, msg, rules, event).1 matches ActionView::Notify(notification) ==> {
            &&& stage is FindingMessage
            &&& event matches EventView::FoundMessage(Some(user_id))
            &&& user_id != author_of(msg)
            &&& notification.user_id == user_id as u64
            &&& msg.reply_to == Some(notification.reply_to)
        },
{
}

/// The message that a notification shows: the one that was sent in place of a reply, if there is
/// one.
pub open spec fn shown(reply: MessageView, formatted: Option<MessageView>) -> MessageView {
    match formatted {
        Some(formatted) => formatted,
        None => reply,
    }
}

/// What is recorded of a sent message is found by every reply to it. The author of the message that
/// was replaced is notified of each reply by another user that can be shown, and of none of their
/// own.
pub proof fn law_reply_finds_the_record(
    msg: MessageView,
    rules: Seq<FormattingRule>,
    sent: MessageView,
    reply: MessageView,
)
    requires
        reply.reply_to == Some(RepliedMessage { id: sent.id, chat_id: sent.chat.id }),
    ensures
        supergroup_step(StageView::Sending, msg, rules, EventView::Sent(sent)).1 matches ActionView::StoreMessage(
            record,
        ) && {
            &&& record.user_tgid == author_of(msg)
            &&& forall|formatted: Option<MessageView>| #[trigger]
                looking_up(reply, formatted).1 == (ActionView::FindMessage {
                    message_id: record.message_id,
                    chat_id: record.chat_tgid,
                })
            &&& forall|formatted: Option<MessageView>|
                author_of(reply) == author_of(msg) ==> #[trigger] notifying(
                    reply,
                    formatted,
                    record.user_tgid,
                ).1 is Finish
            &&& forall|formatted: Option<MessageView>|
                author_of(reply) != author_of(msg) && noticed(
                    reply,
                    shown(reply, formatted),
                ) is Ok ==> (#[trigger] notifying(
                    reply,
                    formatted,
                    record.user_tgid,
                ).1 matches ActionView::Notify(notification) && notification.user_id
                    == record.user_tgid as u64)
        },
{
}

/// What is recorded of a notification is found by every edit of the message that it tells of, and
/// a correction goes to the same user and the same message. It holds the edited message, where that
/// can be shown.
pub proof fn law_edit_finds_the_notification(
    msg: MessageView,
    rules: Seq<FormattingRule>,
    formatted: Option<MessageView>,
    user_id: i64,
    message_id: i32,
    edited: MessageView,
)
    requires
        notifying(msg, formatted, user_id).1 is Notify,
        edited.id == (if formatted is Some { formatted->0.id } else { msg.id }),
        edited.chat.id == (if formatted is Some { formatted->0.chat.id } else { msg.chat.id }),
    ensures
        ({
            let (stage, action) = notifying(msg, formatted, user_id);
            let told = supergroup_step(stage, msg, rules, EventView::Notified { message_id });
            let (finding, find) = edited_step(StageView::Connecting, edited, EventView::Connected);
            &&& action matches ActionView::Notify(notification)
            &&& told.1 matches ActionView::StoreReply(record)
            &&& find == (ActionView::FindReply {
                message_id: record.source_message_id,
                chat_id: record.source_chat_tgid,
            })
            &&& edited_step(
                finding,
                edited,
                EventView::FoundReply(Some((record.message_id, record.user_tgid))),
            ).1 matches ActionView::Correct(correction) ==> {
                &&& correction.user_id == notification.user_id
                &&& correction.message_id == message_id
            }
            &&& corrected(edited) matches Ok((text, link)) ==> edited_step(
                finding,
                edited,
                EventView::FoundReply(Some((record.message_id, record.user_tgid))),
            ).1 matches ActionView::Correct(correction) && correction.text == text
                && correction.link == link
        }),
{
}

/// A record that could not be stored or looked up is as good as none: the handler goes on, or
/// ends well.
pub proof fn law_handlers_survive_the_database(
    msg: MessageView,
    rules: Seq<FormattingRule>,
    sent: MessageView,
    formatted: Option<MessageView>,
)
    ensures
        supergroup_step(StageView::StoringMessage(sent), msg, rules, EventView::StoreFailed)
            == supergroup_step(StageView::StoringMessage(sent), msg, rules, EventView::Stored),
        supergroup_step(StageView::StoringReply, msg, rules, EventView::StoreFailed)
            == supergroup_step(StageView::StoringReply, msg, rules, EventView::Stored),
        supergroup_step(StageView::FindingMessage(formatted), msg, rules, EventView::FindFailed)
            == supergroup_step(
            StageView::FindingMessage(formatted),
            msg,
            rules,
            EventView::FoundMessage(None),
        ),
        edited_step(StageView::FindingReply, msg, EventView::FindFailed) == edited_step(
            StageView::FindingReply,
            msg,
            EventView::FoundReply(None),
        ),
        supergroup_step(StageView::Connecting, msg, rules, EventView::NotConnected).1 is Finish,
        edited_step(StageView::Connecting, msg, EventView::NotConnected).1 is Finish,
{
}

/// A message that the rules leave as it is is not deleted: in a private chat nothing is done, and
/// in a supergroup it is only looked up whose message it replies to.
pub proof fn law_unchanged_message_stays(msg: MessageView, rules: Seq<FormattingRule>)
    ensures
        formatting(msg, false, rules) is Unchanged ==> private_start(msg, rules).1 is Finish,
        formatting(msg, true, rules) is Unchanged ==> ({
            let next = supergroup_step(StageView::Connecting, msg, rules, EventView::Connected);
            next.1 is FindMessage || next.1 is Finish
        }),
{
}

/// The number of the sender of a message counts as its author, and zero where there is none.
pub proof fn law_author_is_the_sender(msg: MessageView)
    ensures
        msg.from is None ==> author_of(msg) == 0,
        msg.from matches Some(user) ==> author_of(msg) == user.id as i64,
{
}

/// Whether a text tells of a message: the HTML form of its text with its entities in a quote, and
/// the mention of its sender below.
pub open spec fn tells_of(text: Seq<char>, msg: MessageView) -> bool {
    &&& msg.from matches Some(user)
    &&& text == "<blockquote>"@ + html_of(
        (match msg.text {
            Some(text) => text,
            None => Seq::empty(),
        }),
        (match msg.entities {
            Some(entities) => entities,
            None => Seq::empty(),
        }),
    ) + "</blockquote>\n— "@ + (match user.username {
        Some(name) => "@"@ + name,
        None => user.first_name,
    })
}

/// Whether a URL is the link to a message.
pub open spec fn leads_to(link: UrlView, msg: MessageView) -> bool {
    link_text(msg.chat, msg.id) matches Some(text) && url_parsed(text) matches Ok(url) && url
        == link
}

/// Whether no preview is shown.
pub open spec fn shows_no_preview(preview: LinkPreviewOptions) -> bool {
    &&& preview.is_disabled
    &&& !preview.prefer_small_media
    &&& !preview.prefer_large_media
    &&& !preview.show_above_text
}

/// A notification tells of the reply, or of what was sent in its place, and leads to it. It is kept
/// in mind of which message it tells and to whom.
pub proof fn law_notification_tells_of_the_reply(
    stage: StageView,
    msg: MessageView,
    rules: Seq<FormattingRule>,
    event: EventView,
)
    ensures
        supergroup_step(stage, msg, rules, event).1 matches ActionView::Notify(notification) ==> {
            &&& stage matches StageView::FindingMessage(formatted)
            &&& event matches EventView::FoundMessage(Some(user_id))
            &&& ({
                let told = match formatted {
                    Some(sent) => sent,
                    None => msg,
                };
                &&& tells_of(notification.text, told)
                &&& leads_to(notification.link, told)
                &&& supergroup_step(stage, msg, rules, event).0 == (StageView::Notifying {
                    user_id,
                    source_message_id: told.id,
                    source_chat_id: told.chat.id,
                })
            })
            &&& shows_no_preview(notification.link_preview)
            &&& notification.user_id == user_id as u64
            &&& msg.reply_to == Some(notification.reply_to)
        },
{
}

/// A user on record is notified of every reply by someone else that has a sender and a link and
/// that can be written as HTML. Otherwise the handler tells what is missing, and of which message.
pub proof fn law_user_is_notified(
    msg: MessageView,
    rules: Seq<FormattingRule>,
    formatted: Option<MessageView>,
    user_id: i64,
    replied: RepliedMessage,
    told: MessageView,
)
    requires
        msg.reply_to == Some(replied),
        msg.from matches Some(user) ==> user_id != user.id as i64,
        msg.from is None ==> user_id != 0,
        formatted matches Some(sent) ==> told == sent,
        formatted is None ==> told == msg,
    ensures
        ({
            let (next, action) = supergroup_step(
                StageView::FindingMessage(formatted),
                msg,
                rules,
                EventView::FoundMessage(Some(user_id)),
            );
            let readable = link_text(told.chat, told.id) matches Some(text) && url_parsed(
                text,
            ) is Ok;
            let renderable = told.entities matches Some(entities) ==> all_renderable(entities);
            &&& !is_linkable(told.chat) ==> action is Abort
            &&& is_linkable(told.chat) && !readable ==> action == (ActionView::GiveUp {
                problem: Problem::NoLink,
                message_id: msg.id,
                chat_id: msg.chat.id,
            })
            &&& is_linkable(told.chat) && readable && told.from is None ==> action
                == (ActionView::GiveUp {
                problem: Problem::NoForward,
                message_id: told.id,
                chat_id: told.chat.id,
            })
            &&& is_linkable(told.chat) && readable && told.from is Some && !renderable
                ==> action is Abort
            &&& is_linkable(told.chat) && readable && told.from is Some && renderable ==> (
            action matches ActionView::Notify(notification) && {
                &&& notification.user_id == user_id as u64
                &&& notification.reply_to == replied
                &&& tells_of(notification.text, told)
                &&& leads_to(notification.link, told)
            })
            &&& !(action is Notify) ==> next is Done
        }),
{
}

/// A user is not notified of their own reply, nor of a message that is no reply.
pub proof fn law_own_replies_are_passed_over(
    msg: MessageView,
    rules: Seq<FormattingRule>,
    formatted: Option<MessageView>,
    user_id: i64,
)
    ensures
        ({
            let (next, action) = supergroup_step(
                StageView::FindingMessage(formatted),
                msg,
                rules,
                EventView::FoundMessage(Some(user_id)),
            );
            &&& (msg.from matches Some(user) && user_id == user.id as i64) ==> next is Done
                && action is Finish
            &&& msg.from is None && user_id == 0 ==> next is Done && action is Finish
            &&& msg.reply_to is None ==> next is Done && !(action is Notify)
        }),
{
}

/// How a message in a supergroup goes its way before it is looked up whose message it answers: it
/// is replaced where the rules rewrite it, and recorded with its author then.
pub proof fn law_supergroup_message_goes_its_way(
    msg: MessageView,
    rules: Seq<FormattingRule>,
    to_send: OutgoingView,
    sent: MessageView,
)
    ensures
        supergroup_step(StageView::Connecting, msg, rules, EventView::NotConnected) == (
            StageView::Done,
            ActionView::Finish,
        ),
        formatting(msg, true, rules) is Refused ==> supergroup_step(
            StageView::Connecting,
            msg,
            rules,
            EventView::Connected,
        ) == (StageView::Done, ActionView::Abort),
        formatting(msg, true, rules) == Formatting::Replaced(to_send) ==> supergroup_step(
            StageView::Connecting,
            msg,
            rules,
            EventView::Connected,
        ) == (
            StageView::Deleting(to_send),
            ActionView::DeleteMessage { chat_id: msg.chat.id, message_id: msg.id },
        ),
        supergroup_step(StageView::Deleting(to_send), msg, rules, EventView::Deleted) == (
            StageView::Sending,
            ActionView::SendMessage(to_send),
        ),
        supergroup_step(StageView::Deleting(to_send), msg, rules, EventView::RequestFailed) == (
            StageView::Done,
            ActionView::Fail,
        ),
        supergroup_step(StageView::Sending, msg, rules, EventView::RequestFailed) == (
            StageView::Done,
            ActionView::Fail,
        ),
        supergroup_step(StageView::Sending, msg, rules, EventView::Sent(sent)).0
            == StageView::StoringMessage(sent),
        supergroup_step(
            StageView::Sending,
            msg,
            rules,
            EventView::Sent(sent),
        ).1 matches ActionView::StoreMessage(record) && {
            &&& record.message_id == sent.id
            &&& record.chat_tgid == sent.chat.id
            &&& msg.from matches Some(user) ==> record.user_tgid == user.id as i64
            &&& msg.from is None ==> record.user_tgid == 0
        },
{
}

/// A reply is looked up by the message that it answers, once it is dealt with itself, whether it
/// was replaced or not and whether or not that could be recorded. What was sent in its place is
/// kept in mind. A message that is no reply is done with then.
pub proof fn law_answered_message_is_looked_up(
    msg: MessageView,
    rules: Seq<FormattingRule>,
    sent: MessageView,
    event: EventView,
)
    requires
        event is Stored || event is StoreFailed,
    ensures
        ({
            let after = supergroup_step(StageView::StoringMessage(sent), msg, rules, event);
            &&& msg.reply_to is None ==> after == (StageView::Done, ActionView::Finish)
            &&& msg.reply_to matches Some(replied) ==> after == (
                StageView::FindingMessage(Some(sent)),
                ActionView::FindMessage { message_id: replied.id, chat_id: replied.chat_id },
            )
        }),
        formatting(msg, true, rules) is Unchanged ==> ({
            let after = supergroup_step(
                StageView::Connecting,
                msg,
                rules,
                EventView::Connected,
            );
            &&& msg.reply_to is None ==> after == (StageView::Done, ActionView::Finish)
            &&& msg.reply_to matches Some(replied) ==> after == (
                StageView::FindingMessage(None),
                ActionView::FindMessage { message_id: replied.id, chat_id: replied.chat_id },
            )
        }),
{
}

/// A message whose answered message is not on record is done with; and so is one whose author was
/// notified, once that is recorded with the user and the message that it tells of.
pub proof fn law_supergroup_message_is_done_with(
    msg: MessageView,
    rules: Seq<FormattingRule>,
    formatted: Option<MessageView>,
    user_id: i64,
    source_message_id: i32,
    source_chat_id: i64,
    message_id: i32,
)
    ensures
        supergroup_step(
            StageView::FindingMessage(formatted),
            msg,
            rules,
            EventView::FoundMessage(None),
        ) == (StageView::Done, ActionView::Finish),
        supergroup_step(
            StageView::FindingMessage(formatted),
            msg,
            rules,
            EventView::FindFailed,
        ) == (StageView::Done, ActionView::Finish),
        supergroup_step(
            StageView::Notifying { user_id, source_message_id, source_chat_id },
            msg,
            rules,
            EventView::Notified { message_id },
        ) == (
            StageView::StoringReply,
            ActionView::StoreReply(
                NewFormattedReply {
                    message_id,
                    user_tgid: user_id,
                    source_message_id,
                    source_chat_tgid: source_chat_id,
                },
            ),
        ),
        supergroup_step(
            StageView::Notifying { user_id, source_message_id, source_chat_id },
            msg,
            rules,
            EventView::RequestFailed,
        ) == (StageView::Done, ActionView::Fail),
        supergroup_step(StageView::StoringReply, msg, rules, EventView::Stored) == (
            StageView::Done,
            ActionView::Finish,
        ),
        supergroup_step(StageView::StoringReply, msg, rules, EventView::StoreFailed) == (
            StageView::Done,
            ActionView::Finish,
        ),
{
}

/// An edited message is looked up by its own number and chat, and is done with where nobody was
/// told of it.
pub proof fn law_edited_message_goes_its_way(msg: MessageView)
    ensures
        edited_step(StageView::Connecting, msg, EventView::NotConnected) == (
            StageView::Done,
            ActionView::Finish,
        ),
        edited_step(StageView::Connecting, msg, EventView::Connected) == (
            StageView::FindingReply,
            ActionView::FindReply { message_id: msg.id, chat_id: msg.chat.id },
        ),
        edited_step(StageView::FindingReply, msg, EventView::FoundReply(None)) == (
            StageView::Done,
            ActionView::Finish,
        ),
        edited_step(StageView::FindingReply, msg, EventView::FindFailed) == (
            StageView::Done,
            ActionView::Finish,
        ),
        edited_step(StageView::Correcting, msg, EventView::Corrected) == (
            StageView::Done,
            ActionView::Finish,
        ),
        edited_step(StageView::Correcting, msg, EventView::RequestFailed) == (
            StageView::Done,
            ActionView::Fail,
        ),
{
}

/// The notification of every edited message that has a sender and a link and that can be written as
/// HTML is corrected: it goes to the user and the message on record, tells of the edited message
/// and leads to it. Otherwise the handler tells what is missing.
pub proof fn law_notification_is_corrected(msg: MessageView, message_id: i32, user_id: i64)
    ensures
        ({
            let (next, action) = edited_step(
                StageView::FindingReply,
                msg,
                EventView::FoundReply(Some((message_id, user_id))),
            );
            let readable = link_text(msg.chat, msg.id) matches Some(text) && url_parsed(text) is Ok;
            let renderable = msg.entities matches Some(entities) ==> all_renderable(entities);
            &&& msg.from is None ==> action == (ActionView::GiveUp {
                problem: Problem::NoForward,
                message_id: msg.id,
                chat_id: msg.chat.id,
            })
            &&& msg.from is Some && (!renderable || !is_linkable(msg.chat)) ==> action is Abort
            &&& msg.from is Some && renderable && is_linkable(msg.chat) && !readable ==> action
                == (ActionView::GiveUp {
                problem: Problem::NoLink,
                message_id: msg.id,
                chat_id: msg.chat.id,
            })
            &&& msg.from is Some && renderable && is_linkable(msg.chat) && readable ==> (
            action matches ActionView::Correct(correction) && {
                &&& next is Correcting
                &&& correction.user_id == user_id as u64
                &&& correction.message_id == message_id
                &&& tells_of(correction.text, msg)
                &&& leads_to(correction.link, msg)
                &&& shows_no_preview(correction.link_preview)
            })
            &&& !(action is Correct) ==> next is Done
        }),
{
}

/// How a message in a private chat goes its way: it is replaced where the rules rewrite it, without
/// a quote, and is done with then.
pub proof fn law_private_message_goes_its_way(
    msg: MessageView,
    rules: Seq<FormattingRule>,
    to_send: OutgoingView,
    sent: MessageView,
)
    ensures
        formatting(msg, false, rules) is Unchanged ==> private_start(msg, rules) == (
            StageView::Done,
            ActionView::Finish,
        ),
        formatting(msg, false, rules) is Refused ==> private_start(msg, rules) == (
            StageView::Done,
            ActionView::Abort,
        ),
        formatting(msg, false, rules) == Formatting::Replaced(to_send) ==> private_start(msg, rules)
            == (
            StageView::Deleting(to_send),
            ActionView::DeleteMessage { chat_id: msg.chat.id, message_id: msg.id },
        ),
        private_step(StageView::Deleting(to_send), EventView::Deleted) == (
            StageView::Sending,
            ActionView::SendMessage(to_send),
        ),
        private_step(StageView::Deleting(to_send), EventView::RequestFailed) == (
            StageView::Done,
            ActionView::Fail,
        ),
        private_step(StageView::Sending, EventView::Sent(sent)) == (
            StageView::Done,
            ActionView::Finish,
        ),
        private_step(StageView::Sending, EventView::RequestFailed) == (
            StageView::Done,
            ActionView::Fail,
        ),
{
}

/// A notification is known by everything that it holds, and so is a correction.
pub proof fn law_notification_is_known(notification: Notification, correction: Correction)
    ensures
        notification@.user_id == notification.user_id,
        notification@.text == notification.text@,
        notification@.link == notification.link@,
        notification@.link_preview == notification.link_preview,
        notification@.reply_to == notification.reply_to,
        correction@.user_id == correction.user_id,
        correction@.message_id == correction.message_id,
        correction@.text == correction.text@,
        correction@.link == correction.link@,
        correction@.link_preview == correction.link_preview,
{
}

/// An action is known by what it is and by everything that it holds.
pub proof fn law_action_is_known(action: Action)
    ensures
        action is Connect <==> action@ is Connect,
        action is Finish <==> action@ is Finish,
        action is Fail <==> action@ is Fail,
        action is Abort <==> action@ is Abort,
        action matches Action::DeleteMessage { chat_id, message_id } ==> action@
            == (ActionView::DeleteMessage { chat_id, message_id }),
        action matches Action::SendMessage(sent) ==> action@ == ActionView::SendMessage(sent@),
        action matches Action::StoreMessage(record) ==> action@ == ActionView::StoreMessage(record),
        action matches Action::FindMessage { message_id, chat_id } ==> action@
            == (ActionView::FindMessage { message_id, chat_id }),
        action matches Action::Notify(notification) ==> action@ == ActionView::Notify(
            notification@,
        ),
        action matches Action::StoreReply(record) ==> action@ == ActionView::StoreReply(record),
        action matches Action::FindReply { message_id, chat_id } ==> action@
            == (ActionView::FindReply { message_id, chat_id }),
        action matches Action::Correct(correction) ==> action@ == ActionView::Correct(correction@),
        action matches Action::GiveUp { problem, message_id, chat_id } ==> action@
            == (ActionView::GiveUp { problem, message_id, chat_id }),
{
}

/// An event is known by what it is and by everything that it holds.
pub proof fn law_event_is_known(event: Event)
    ensures
        event is Connected <==> event@ is Connected,
        event is NotConnected <==> event@ is NotConnected,
        event is Deleted <==> event@ is Deleted,
        event is Corrected <==> event@ is Corrected,
        event is RequestFailed <==> event@ is RequestFailed,
        event is Stored <==> event@ is Stored,
        event is StoreFailed <==> event@ is StoreFailed,
        event is FindFailed <==> event@ is FindFailed,
        event matches Event::Sent(msg) ==> event@ == EventView::Sent(msg@),
        event matches Event::Notified { message_id } ==> event@ == (EventView::Notified {
            message_id,
        }),
        event matches Event::FoundMessage(found) ==> event@ == EventView::FoundMessage(found),
        event matches Event::FoundReply(found) ==> event@ == EventView::FoundReply(found),
{
}

/// A stage is known by what it is and by everything that is kept in mind.
pub proof fn law_stage_is_known(stage: Stage)
    ensures
        stage is Connecting <==> stage@ is Connecting,
        stage is Sending <==> stage@ is Sending,
        stage is StoringReply <==> stage@ is StoringReply,
        stage is FindingReply <==> stage@ is FindingReply,
        stage is Correcting <==> stage@ is Correcting,
        stage is Done <==> stage@ is Done,
        stage matches Stage::Deleting(sent) ==> stage@ == StageView::Deleting(sent@),
        stage matches Stage::StoringMessage(msg) ==> stage@ == StageView::StoringMessage(msg@),
        stage matches Stage::FindingMessage(Some(msg)) ==> stage@ == StageView::FindingMessage(
            Some(msg@),
        ),
        stage matches Stage::FindingMessage(None) ==> stage@ == StageView::FindingMessage(None),
        stage matches Stage::Notifying { user_id, source_message_id, source_chat_id } ==> stage@
            == (StageView::Notifying { user_id, source_message_id, source_chat_id }),
{
}

/// An event that cannot come of the last action, or that comes to another handler's stage, ends the
/// handler at once.
pub proof fn law_events_out_of_turn_end_the_handler(
    stage: StageView,
    msg: MessageView,
    rules: Seq<FormattingRule>,
    event: EventView,
)
    ensures
        ({
            let connects = event is Connected || event is NotConnected;
            let deletes = event is Deleted || event is RequestFailed;
            let sends = event is Sent || event is RequestFailed;
            let stores = event is Stored || event is StoreFailed;
            let finds = event is FoundMessage || event is FindFailed;
            let notifies = event is Notified || event is RequestFailed;
            &&& !(stage is Connecting && connects || stage is Deleting && deletes
                || stage is Sending && sends || stage is StoringMessage && stores
                || stage is FindingMessage && finds || stage is Notifying && notifies
                || stage is StoringReply && stores) ==> supergroup_step(stage, msg, rules, event)
                == (StageView::Done, ActionView::Abort)
            &&& !(stage is Connecting && connects || stage is FindingReply && (
            event is FoundReply || event is FindFailed) || stage is Correcting && (
            event is Corrected || event is RequestFailed)) ==> edited_step(stage, msg, event) == (
                StageView::Done,
                ActionView::Abort,
            )
            &&& !(stage is Deleting && deletes || stage is Sending && sends) ==> private_step(
                stage,
                event,
            ) == (StageView::Done, ActionView::Abort)
        }),
{
}

} // verus!
