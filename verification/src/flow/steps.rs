//! How messages are handled: each step goes from a stage and what came of the last action to the
//! next stage and action.

use vstd::prelude::*;

use crate::address::{Url, UrlView};
use crate::flow::action::{
    Action, ActionView, Correction, CorrectionView, Event, EventView, NewFormattedMessage,
    NewFormattedReply, Notification, NotificationView, Problem, Stage, StageView,
};
use crate::formatter::defaults::FormattingRule;
use crate::message::{
    build_message_forward, can_forward, can_link, entities_of, format_message, formatting,
    forwarded, is_linkable, link_of, message_link, no_preview, Formatting,
    LinkPreviewOptions, Message, MessageView, OutgoingView, RepliedMessage,
};
use crate::render::all_renderable;

verus! {

/// The number of the sender of a message, zero where it has none.
pub open spec fn author_of(msg: MessageView) -> i64 {
    match msg.from {
        Some(user) => user.id as i64,
        None => 0,
    }
}

/// The number of the sender of a message, zero where it has none.
pub fn author_id(msg: &Message) -> (id: i64)
    ensures
        id == author_of(msg@),
{
    match &msg.from {
        Some(user) => user.id as i64,
        None => 0,
    }
}

/// The end of a handler.
pub open spec fn ended(action: ActionView) -> (StageView, ActionView) {
    (StageView::Done, action)
}

/// A message to be replaced is deleted first, and the other one is sent then.
pub open spec fn replacing(msg: MessageView, sent: OutgoingView) -> (StageView, ActionView) {
    (
        StageView::Deleting(sent),
        ActionView::DeleteMessage { chat_id: msg.chat.id, message_id: msg.id },
    )
}

/// Once a message is dealt with itself, it is looked up whose message it replies to.
pub open spec fn looking_up(msg: MessageView, formatted: Option<MessageView>) -> (
    StageView,
    ActionView,
) {
    match msg.reply_to {
        Some(replied) => (
            StageView::FindingMessage(formatted),
            ActionView::FindMessage { message_id: replied.id, chat_id: replied.chat_id },
        ),
        None => ended(ActionView::Finish),
    }
}

/// The end of a handler that cannot go on with a message.
pub open spec fn given_up(problem: Problem, msg: MessageView) -> ActionView {
    ActionView::GiveUp { problem, message_id: msg.id, chat_id: msg.chat.id }
}

/// What a notification about a message consists of: the text of the message that it shows and a
/// link to that; or how it ends where there is none.
pub open spec fn noticed(msg: MessageView, shown: MessageView) -> Result<
    (Seq<char>, UrlView),
    ActionView,
> {
    if !is_linkable(shown.chat) {
        Err(ActionView::Abort)
    } else {
        match (link_of(shown.chat, shown.id), forwarded(shown)) {
            (None, _) => Err(given_up(Problem::NoLink, msg)),
            (Some(_), None) => Err(given_up(Problem::NoForward, shown)),
            (Some(link), Some(text)) => if all_renderable(entities_of(shown)) {
                Ok((text, link))
            } else {
                Err(ActionView::Abort)
            },
        }
    }
}

/// A user whose message was replaced is notified of a reply, unless it is their own. The
/// notification shows the message that was sent in place of the reply, if there is one.
pub open spec fn notifying(msg: MessageView, formatted: Option<MessageView>, user_id: i64) -> (
    StageView,
    ActionView,
) {
    let effective = match formatted {
        Some(formatted) => formatted,
        None => msg,
    };
    if user_id == author_of(msg) {
        ended(ActionView::Finish)
    } else {
        match (msg.reply_to, noticed(msg, effective)) {
            (Some(replied), Ok((text, link))) => (
                StageView::Notifying {
                    user_id,
                    source_message_id: effective.id,
                    source_chat_id: effective.chat.id,
                },
                ActionView::Notify(
                    NotificationView {
                        user_id: user_id as u64,
                        text,
                        link,
                        link_preview: no_preview(),
                        reply_to: replied,
                    },
                ),
            ),
            (Some(_), Err(action)) => ended(action),
            (None, _) => ended(ActionView::Abort),
        }
    }
}

/// How a message in a supergroup is handled: it is replaced where a rule rewrites it, which is
/// recorded, and the author of the message that it replies to is notified, which is recorded
/// too.
pub open spec fn supergroup_step(
    stage: StageView,
    msg: MessageView,
    rules: Seq<FormattingRule>,
    event: EventView,
) -> (StageView, ActionView) {
    match (stage, event) {
        (StageView::Connecting, EventView::Connected) => match formatting(msg, true, rules) {
            Formatting::Replaced(sent) => replacing(msg, sent),
            Formatting::Unchanged => looking_up(msg, None),
            Formatting::Refused => ended(ActionView::Abort),
        },
        (StageView::Connecting, EventView::NotConnected) => ended(ActionView::Finish),
        (StageView::Deleting(sent), EventView::Deleted) => (
            StageView::Sending,
            ActionView::SendMessage(sent),
        ),
        (StageView::Deleting(_), EventView::RequestFailed) => ended(ActionView::Fail),
        (StageView::Sending, EventView::Sent(sent)) => (
            StageView::StoringMessage(sent),
            ActionView::StoreMessage(
                NewFormattedMessage {
                    message_id: sent.id,
                    user_tgid: author_of(msg),
                    chat_tgid: sent.chat.id,
                },
            ),
        ),
        (StageView::Sending, EventView::RequestFailed) => ended(ActionView::Fail),
        (StageView::StoringMessage(sent), EventView::Stored)
        | (StageView::StoringMessage(sent), EventView::StoreFailed) => looking_up(msg, Some(sent)),
        (StageView::FindingMessage(formatted), EventView::FoundMessage(Some(user_id))) => {
            notifying(msg, formatted, user_id)
        },
        (StageView::FindingMessage(_), EventView::FoundMessage(None))
        | (StageView::FindingMessage(_), EventView::FindFailed) => ended(ActionView::Finish),
        (
            StageView::Notifying { user_id, source_message_id, source_chat_id },
            EventView::Notified { message_id },
        ) => (
            StageView::StoringReply,
            ActionView::StoreReply(
                NewFormattedReply {
                    message_id,
                    user_tgid: user_id,
                    source_message_id,
                    source_chat_tgid: source_chat_id,
                },
            ),
        ),
        (StageView::Notifying { .. }, EventView::RequestFailed) => ended(ActionView::Fail),
        (StageView::StoringReply, EventView::Stored)
        | (StageView::StoringReply, EventView::StoreFailed) => ended(ActionView::Finish),
        _ => ended(ActionView::Abort),
    }
}

/// How an edited message in a supergroup is handled: the notification that tells of it is
/// rewritten, if there is one.
pub open spec fn edited_step(stage: StageView, msg: MessageView, event: EventView) -> (
    StageView,
    ActionView,
) {
    match (stage, event) {
        (StageView::Connecting, EventView::Connected) => (
            StageView::FindingReply,
            ActionView::FindReply { message_id: msg.id, chat_id: msg.chat.id },
        ),
        (StageView::Connecting, EventView::NotConnected) => ended(ActionView::Finish),
        (StageView::FindingReply, EventView::FoundReply(Some((message_id, user_id)))) => {
            match corrected(msg) {
                Ok((text, link)) => (
                    StageView::Correcting,
                    ActionView::Correct(
                        CorrectionView {
                            user_id: user_id as u64,
                            message_id,
                            text,
                            link,
                            link_preview: no_preview(),
                        },
                    ),
                ),
                Err(action) => ended(action),
            }
        },
        (StageView::FindingReply, EventView::FoundReply(None))
        | (StageView::FindingReply, EventView::FindFailed) => ended(ActionView::Finish),
        (StageView::Correcting, EventView::Corrected) => ended(ActionView::Finish),
        (StageView::Correcting, EventView::RequestFailed) => ended(ActionView::Fail),
        _ => ended(ActionView::Abort),
    }
}

/// What a rewritten notification about a message consists of: its text and a link; or how it
/// ends where there is none.
pub open spec fn corrected(msg: MessageView) -> Result<(Seq<char>, UrlView), ActionView> {
    match forwarded(msg) {
        None => Err(given_up(Problem::NoForward, msg)),
        Some(text) => if !all_renderable(entities_of(msg)) || !is_linkable(msg.chat) {
            Err(ActionView::Abort)
        } else {
            match link_of(msg.chat, msg.id) {
                Some(link) => Ok((text, link)),
                None => Err(given_up(Problem::NoLink, msg)),
            }
        },
    }
}

/// How a message in a private chat begins to be handled.
pub open spec fn private_start(msg: MessageView, rules: Seq<FormattingRule>) -> (
    StageView,
    ActionView,
) {
    match formatting(msg, false, rules) {
        Formatting::Replaced(sent) => replacing(msg, sent),
        Formatting::Unchanged => ended(ActionView::Finish),
        Formatting::Refused => ended(ActionView::Abort),
    }
}

/// How a message in a private chat is handled: it is replaced where a rule rewrites it. Nothing is
/// recorded: replies to it are not told of.
pub open spec fn private_step(stage: StageView, event: EventView) -> (StageView, ActionView) {
    match (stage, event) {
        (StageView::Deleting(sent), EventView::Deleted) => (
            StageView::Sending,
            ActionView::SendMessage(sent),
        ),
        (StageView::Deleting(_), EventView::RequestFailed) => ended(ActionView::Fail),
        (StageView::Sending, EventView::Sent(_)) => ended(ActionView::Finish),
        (StageView::Sending, EventView::RequestFailed) => ended(ActionView::Fail),
        _ => ended(ActionView::Abort),
    }
}

/// Ends a handler that cannot go on with a message.
fn give_up(problem: Problem, msg: &Message) -> (action: Action)
    ensures
        action@ == given_up(problem, msg@),
{
    Action::GiveUp { problem, message_id: msg.id, chat_id: msg.chat.id }
}

/// Composes the text and the link of a notification about a message.
fn compose_notice(msg: &Message, shown: &Message) -> (notice: Result<(String, Url), Action>)
    ensures
        match notice {
            Ok((text, link)) => noticed(msg@, shown@) == Ok::<(Seq<char>, UrlView), ActionView>(
                (text@, link@),
            ),
            Err(action) => noticed(msg@, shown@) == Err::<(Seq<char>, UrlView), ActionView>(action@),
        },
{
    if !can_link(&shown.chat) {
        return Err(Action::Abort);
    }
    let link = match message_link(shown) {
        Some(link) => link,
        None => return Err(give_up(Problem::NoLink, msg)),
    };
    if shown.from.is_none() {
        return Err(give_up(Problem::NoForward, shown));
    }
    if !can_forward(shown) {
        return Err(Action::Abort);
    }
    match build_message_forward(shown) {
        Ok(text) => Ok((text, link)),
        Err(_) => Err(give_up(Problem::NoForward, shown)),
    }
}

/// Composes the text and the link of a rewritten notification about a message.
fn compose_correction(msg: &Message) -> (correction: Result<(String, Url), Action>)
    ensures
        match correction {
            Ok((text, link)) => corrected(msg@) == Ok::<(Seq<char>, UrlView), ActionView>(
                (text@, link@),
            ),
            Err(action) => corrected(msg@) == Err::<(Seq<char>, UrlView), ActionView>(action@),
        },
{
    if msg.from.is_none() {
        return Err(give_up(Problem::NoForward, msg));
    }
    if !can_forward(msg) {
        return Err(Action::Abort);
    }
    let text = match build_message_forward(msg) {
        Ok(text) => text,
        Err(_) => return Err(give_up(Problem::NoForward, msg)),
    };
    if !can_link(&msg.chat) {
        return Err(Action::Abort);
    }
    match message_link(msg) {
        Some(link) => Ok((text, link)),
        None => Err(give_up(Problem::NoLink, msg)),
    }
}

/// Looks up whose message a message replies to.
fn look_up(msg: &Message, formatted: Option<Message>) -> (next: (Stage, Action))
    ensures
        (next.0@, next.1@) == looking_up(
            msg@,
            (match formatted {
                Some(sent) => Some(sent@),
                None => None,
            }),
        ),
{
    match &msg.reply_to {
        Some(replied) => (
            Stage::FindingMessage(formatted),
            Action::FindMessage { message_id: replied.id, chat_id: replied.chat_id },
        ),
        None => (Stage::Done, Action::Finish),
    }
}

/// Notifies a user of a reply, unless it is their own.
pub fn notify(msg: &Message, formatted: Option<Message>, user_id: i64) -> (next: (Stage, Action))
    ensures
        (next.0@, next.1@) == notifying(
            msg@,
            (match formatted {
                Some(sent) => Some(sent@),
                None => None,
            }),
            user_id,
        ),
{
    if user_id == author_id(msg) {
        return (Stage::Done, Action::Finish);
    }
    let effective = match &formatted {
        Some(sent) => sent,
        None => msg,
    };
    let reply_to = match &msg.reply_to {
        Some(replied) => RepliedMessage { id: replied.id, chat_id: replied.chat_id },
        None => return (Stage::Done, Action::Abort),
    };
    match compose_notice(msg, effective) {
        Ok((text, link)) => (
            Stage::Notifying {
                user_id,
                source_message_id: effective.id,
                source_chat_id: effective.chat.id,
            },
            Action::Notify(
                Notification {
                    user_id: user_id as u64,
                    text,
                    link,
                    link_preview: LinkPreviewOptions {
                        is_disabled: true,
                        prefer_small_media: false,
                        prefer_large_media: false,
                        show_above_text: false,
                    },
                    reply_to,
                },
            ),
        ),
        Err(action) => (Stage::Done, action),
    }
}

/// Begins to handle a message in a supergroup.
pub fn start_supergroup_message() -> (next: (Stage, Action))
    ensures
        (next.0@, next.1@) == (StageView::Connecting, ActionView::Connect),
{
    (Stage::Connecting, Action::Connect)
}

/// Goes on with a message in a supergroup.
pub fn handle_supergroup_message(
    stage: Stage,
    msg: &Message,
    rules: &Vec<FormattingRule>,
    event: Event,
) -> (next: (Stage, Action))
    ensures
        (next.0@, next.1@) == supergroup_step(stage@, msg@, rules@, event@),
{
    match (stage, event) {
        (Stage::Connecting, Event::Connected) => match format_message(msg, true, rules) {
            Ok(Some(sent)) => (
                Stage::Deleting(sent),
                Action::DeleteMessage { chat_id: msg.chat.id, message_id: msg.id },
            ),
            Ok(None) => look_up(msg, None),
            Err(_) => (Stage::Done, Action::Abort),
        },
        (Stage::Connecting, Event::NotConnected) => (Stage::Done, Action::Finish),
        (Stage::Deleting(sent), Event::Deleted) => (Stage::Sending, Action::SendMessage(sent)),
        (Stage::Deleting(_), Event::RequestFailed) => (Stage::Done, Action::Fail),
        (Stage::Sending, Event::Sent(sent)) => {
            let record = NewFormattedMessage {
                message_id: sent.id,
                user_tgid: author_id(msg),
                chat_tgid: sent.chat.id,
            };
            (Stage::StoringMessage(sent), Action::StoreMessage(record))
        },
        (Stage::Sending, Event::RequestFailed) => (Stage::Done, Action::Fail),
        (Stage::StoringMessage(sent), Event::Stored) => look_up(msg, Some(sent)),
        (Stage::StoringMessage(sent), Event::StoreFailed) => look_up(msg, Some(sent)),
        (Stage::FindingMessage(formatted), Event::FoundMessage(Some(user_id))) => notify(
            msg,
            formatted,
            user_id,
        ),
        (Stage::FindingMessage(_), Event::FoundMessage(None)) => (Stage::Done, Action::Finish),
        (Stage::FindingMessage(_), Event::FindFailed) => (Stage::Done, Action::Finish),
        (
            Stage::Notifying { user_id, source_message_id, source_chat_id },
            Event::Notified { message_id },
        ) => (
            Stage::StoringReply,
            Action::StoreReply(
                NewFormattedReply {
                    message_id,
                    user_tgid: user_id,
                    source_message_id,
                    source_chat_tgid: source_chat_id,
                },
            ),
        ),
        (Stage::Notifying { .. }, Event::RequestFailed) => (Stage::Done, Action::Fail),
        (Stage::StoringReply, Event::Stored) => (Stage::Done, Action::Finish),
        (Stage::StoringReply, Event::StoreFailed) => (Stage::Done, Action::Finish),
        _ => (Stage::Done, Action::Abort),
    }
}

/// Begins to handle an edited message in a supergroup.
pub fn start_supergroup_edited_message() -> (next: (Stage, Action))
    ensures
        (next.0@, next.1@) == (StageView::Connecting, ActionView::Connect),
{
    (Stage::Connecting, Action::Connect)
}

/// Goes on with an edited message in a supergroup.
pub fn handle_supergroup_edited_message(stage: Stage, msg: &Message, event: Event) -> (next: (
    Stage,
    Action,
))
    ensures
        (next.0@, next.1@) == edited_step(stage@, msg@, event@),
{
    match (stage, event) {
        (Stage::Connecting, Event::Connected) => (
            Stage::FindingReply,
            Action::FindReply { message_id: msg.id, chat_id: msg.chat.id },
        ),
        (Stage::Connecting, Event::NotConnected) => (Stage::Done, Action::Finish),
        (Stage::FindingReply, Event::FoundReply(Some((message_id, user_id)))) => {
            match compose_correction(msg) {
                Ok((text, link)) => (
                    Stage::Correcting,
                    Action::Correct(
                        Correction {
                            user_id: user_id as u64,
                            message_id,
                            text,
                            link,
                            link_preview: LinkPreviewOptions {
                                is_disabled: true,
                                prefer_small_media: false,
                                prefer_large_media: false,
                                show_above_text: false,
                            },
                        },
                    ),
                ),
                Err(action) => (Stage::Done, action),
            }
        },
        (Stage::FindingReply, Event::FoundReply(None)) => (Stage::Done, Action::Finish),
        (Stage::FindingReply, Event::FindFailed) => (Stage::Done, Action::Finish),
        (Stage::Correcting, Event::Corrected) => (Stage::Done, Action::Finish),
        (Stage::Correcting, Event::RequestFailed) => (Stage::Done, Action::Fail),
        _ => (Stage::Done, Action::Abort),
    }
}

/// Begins to handle a message in a private chat.
pub fn start_private_message(msg: &Message, rules: &Vec<FormattingRule>) -> (next: (Stage, Action))
    ensures
        (next.0@, next.1@) == private_start(msg@, rules@),
{
    match format_message(msg, false, rules) {
        Ok(Some(sent)) => (
            Stage::Deleting(sent),
            Action::DeleteMessage { chat_id: msg.chat.id, message_id: msg.id },
        ),
        Ok(None) => (Stage::Done, Action::Finish),
        Err(_) => (Stage::Done, Action::Abort),
    }
}

/// Goes on with a message in a private chat.
pub fn handle_private_message(stage: Stage, event: Event) -> (next: (Stage, Action))
    ensures
        (next.0@, next.1@) == private_step(stage@, event@),
{
    match (stage, event) {
        (Stage::Deleting(sent), Event::Deleted) => (Stage::Sending, Action::SendMessage(sent)),
        (Stage::Deleting(_), Event::RequestFailed) => (Stage::Done, Action::Fail),
        (Stage::Sending, Event::Sent(_)) => (Stage::Done, Action::Finish),
        (Stage::Sending, Event::RequestFailed) => (Stage::Done, Action::Fail),
        _ => (Stage::Done, Action::Abort),
    }
}

} // verus!
