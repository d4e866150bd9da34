//! The actions of a handler, what can come of them, and how far it is.

use vstd::prelude::*;

use crate::address::{Url, UrlView};
use crate::message::{
    LinkPreviewOptions, Message, MessageView, OutgoingMessage, OutgoingView, RepliedMessage,
};

verus! {

/// The record of a message that was sent in place of another one: whose that was.
#[derive(Clone, Copy, Debug, PartialEq, Eq, Structural)]
pub struct NewFormattedMessage {
    pub message_id: i32,
    pub user_tgid: i64,
    pub chat_tgid: i64,
}

/// The record of a notification about a reply: who got it, and of which message it tells.
#[derive(Clone, Copy, Debug, PartialEq, Eq, Structural)]
pub struct NewFormattedReply {
    pub message_id: i32,
    pub user_tgid: i64,
    pub source_message_id: i32,
    pub source_chat_tgid: i64,
}

/// A notification to a user about a reply, as HTML, with a link to it.
pub struct Notification {
    pub user_id: u64,
    pub text: String,
    pub link: Url,
    pub link_preview: LinkPreviewOptions,
    pub reply_to: RepliedMessage,
}

/// What a [`Notification`] holds, with its texts as characters.
pub struct NotificationView {
    pub user_id: u64,
    pub text: Seq<char>,
    pub link: UrlView,
    pub link_preview: LinkPreviewOptions,
    pub reply_to: RepliedMessage,
}

impl View for Notification {
    type V = NotificationView;

    open spec fn view(&self) -> NotificationView {
        NotificationView {
            user_id: self.user_id,
            text: self.text@,
            link: self.link@,
            link_preview: self.link_preview,
            reply_to: self.reply_to,
        }
    }
}

/// What takes the place of a notification, as HTML, with a link to the reply.
pub struct Correction {
    pub user_id: u64,
    pub message_id: i32,
    pub text: String,
    pub link: Url,
    pub link_preview: LinkPreviewOptions,
}

/// What a [`Correction`] holds, with its texts as characters.
pub struct CorrectionView {
    pub user_id: u64,
    pub message_id: i32,
    pub text: Seq<char>,
    pub link: UrlView,
    pub link_preview: LinkPreviewOptions,
}

impl View for Correction {
    type V = CorrectionView;

    open spec fn view(&self) -> CorrectionView {
        CorrectionView {
            user_id: self.user_id,
            message_id: self.message_id,
            text: self.text@,
            link: self.link@,
            link_preview: self.link_preview,
        }
    }
}

/// Why a user is not told of a reply.
#[derive(Clone, Copy, Debug, PartialEq, Eq, Structural)]
pub enum Problem {
    /// There is no link to the reply.
    NoLink,
    /// The reply cannot be forwarded.
    NoForward,
}

/// What a handler does next.
pub enum Action {
    /// Takes a connection to the database.
    Connect,
    /// Deletes a message.
    DeleteMessage { chat_id: i64, message_id: i32 },
    /// Sends a message.
    SendMessage(OutgoingMessage),
    /// Stores a record.
    StoreMessage(NewFormattedMessage),
    /// Looks up whose message was replaced by this one.
    FindMessage { message_id: i32, chat_id: i64 },
    /// Sends a notification.
    Notify(Notification),
    /// Stores a record.
    StoreReply(NewFormattedReply),
    /// Looks up the notification that tells of this message, and who got it.
    FindReply { message_id: i32, chat_id: i64 },
    /// Rewrites a notification.
    Correct(Correction),
    /// Ends well.
    Finish,
    /// Ends well, and tells why no more was done, and for which message.
    GiveUp { problem: Problem, message_id: i32, chat_id: i64 },
    /// Ends with the error of the last request.
    Fail,
    /// Ends at once: the message is not one that can be handled.
    Abort,
}

/// What an [`Action`] holds, with its texts as characters.
pub enum ActionView {
    Connect,
    DeleteMessage { chat_id: i64, message_id: i32 },
    SendMessage(OutgoingView),
    StoreMessage(NewFormattedMessage),
    FindMessage { message_id: i32, chat_id: i64 },
    Notify(NotificationView),
    StoreReply(NewFormattedReply),
    FindReply { message_id: i32, chat_id: i64 },
    Correct(CorrectionView),
    Finish,
    GiveUp { problem: Problem, message_id: i32, chat_id: i64 },
    Fail,
    Abort,
}

impl View for Action {
    type V = ActionView;

    open spec fn view(&self) -> ActionView {
        match self {
            Action::Connect => ActionView::Connect,
            Action::DeleteMessage { chat_id, message_id } => ActionView::DeleteMessage {
                chat_id: *chat_id,
                message_id: *message_id,
            },
            Action::SendMessage(sent) => ActionView::SendMessage(sent@),
            Action::StoreMessage(record) => ActionView::StoreMessage(*record),
            Action::FindMessage { message_id, chat_id } => ActionView::FindMessage {
                message_id: *message_id,
                chat_id: *chat_id,
            },
            Action::Notify(notification) => ActionView::Notify(notification@),
            Action::StoreReply(record) => ActionView::StoreReply(*record),
            Action::FindReply { message_id, chat_id } => ActionView::FindReply {
                message_id: *message_id,
                chat_id: *chat_id,
            },
            Action::Correct(correction) => ActionView::Correct(correction@),
            Action::Finish => ActionView::Finish,
            Action::GiveUp { problem, message_id, chat_id } => ActionView::GiveUp {
                problem: *problem,
                message_id: *message_id,
                chat_id: *chat_id,
            },
            Action::Fail => ActionView::Fail,
            Action::Abort => ActionView::Abort,
        }
    }
}

/// What came of an action.
pub enum Event {
    /// There is a connection to the database.
    Connected,
    /// There is none.
    NotConnected,
    /// The message is deleted.
    Deleted,
    /// The message is sent, and this is it.
    Sent(Message),
    /// The notification is sent as the message with this number.
    Notified { message_id: i32 },
    /// The notification is rewritten.
    Corrected,
    /// A request failed.
    RequestFailed,
    /// The record is stored.
    Stored,
    /// The record could not be stored.
    StoreFailed,
    /// The user whose message was replaced, if it was.
    FoundMessage(Option<i64>),
    /// The number of the notification and the user who got it, if there is one.
    FoundReply(Option<(i32, i64)>),
    /// Nothing could be looked up.
    FindFailed,
}

/// What an [`Event`] holds, with its texts as characters.
pub enum EventView {
    Connected,
    NotConnected,
    Deleted,
    Sent(MessageView),
    Notified { message_id: i32 },
    Corrected,
    RequestFailed,
    Stored,
    StoreFailed,
    FoundMessage(Option<i64>),
    FoundReply(Option<(i32, i64)>),
    FindFailed,
}

impl View for Event {
    type V = EventView;

    open spec fn view(&self) -> EventView {
        match self {
            Event::Connected => EventView::Connected,
            Event::NotConnected => EventView::NotConnected,
            Event::Deleted => EventView::Deleted,
            Event::Sent(msg) => EventView::Sent(msg@),
            Event::Notified { message_id } => EventView::Notified { message_id: *message_id },
            Event::Corrected => EventView::Corrected,
            Event::RequestFailed => EventView::RequestFailed,
            Event::Stored => EventView::Stored,
            Event::StoreFailed => EventView::StoreFailed,
            Event::FoundMessage(found) => EventView::FoundMessage(*found),
            Event::FoundReply(found) => EventView::FoundReply(*found),
            Event::FindFailed => EventView::FindFailed,
        }
    }
}

/// How far a handler of messages is.
pub enum Stage {
    Connecting,
    Deleting(OutgoingMessage),
    Sending,
    StoringMessage(Message),
    FindingMessage(Option<Message>),
    Notifying { user_id: i64, source_message_id: i32, source_chat_id: i64 },
    StoringReply,
    FindingReply,
    Correcting,
    Done,
}

/// What a [`Stage`] holds, with its texts as characters.
pub enum StageView {
    Connecting,
    Deleting(OutgoingView),
    Sending,
    StoringMessage(MessageView),
    FindingMessage(Option<MessageView>),
    Notifying { user_id: i64, source_message_id: i32, source_chat_id: i64 },
    StoringReply,
    FindingReply,
    Correcting,
    Done,
}

impl View for Stage {
    type V = StageView;

    open spec fn view(&self) -> StageView {
        match self {
            Stage::Connecting => StageView::Connecting,
            Stage::Deleting(sent) => StageView::Deleting(sent@),
            Stage::Sending => StageView::Sending,
            Stage::StoringMessage(msg) => StageView::StoringMessage(msg@),
            Stage::FindingMessage(formatted) => StageView::FindingMessage(
                match formatted {
                    Some(msg) => Some(msg@),
                    None => None,
                },
            ),
            Stage::Notifying { user_id, source_message_id, source_chat_id } => StageView::Notifying {
                user_id: *user_id,
                source_message_id: *source_message_id,
                source_chat_id: *source_chat_id,
            },
            Stage::StoringReply => StageView::StoringReply,
            Stage::FindingReply => StageView::FindingReply,
            Stage::Correcting => StageView::Correcting,
            Stage::Done => StageView::Done,
        }
    }
}

} // verus!
