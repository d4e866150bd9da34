use mamkilover::entity::{MessageEntity, MessageEntityKind, User};
use mamkilover::flow::action::{
    Action, Event, NewFormattedMessage, NewFormattedReply, Problem, Stage,
};
use mamkilover::flow::steps::{
    author_id, handle_private_message, handle_supergroup_edited_message,
    handle_supergroup_message, notify, start_private_message, start_supergroup_edited_message,
    start_supergroup_message,
};
use mamkilover::formatter::defaults::{default_rules, FormattingRule};
use mamkilover::message::{Chat, ChatKind, LinkPreviewOptions, Message, RepliedMessage};

const GROUP: i64 = -1001234567890;

const NO_PREVIEW: LinkPreviewOptions = LinkPreviewOptions {
    is_disabled: true,
    prefer_small_media: false,
    prefer_large_media: false,
    show_above_text: false,
};

fn rules() -> Vec<FormattingRule> {
    default_rules().ok().unwrap()
}

fn user(id: u64, first_name: &str) -> User {
    User {
        id,
        is_bot: false,
        first_name: first_name.to_string(),
        last_name: None,
        username: None,
        language_code: None,
        is_premium: false,
        added_to_attachment_menu: false,
    }
}

/// A message all of whose text is a URL.
fn message(id: i32, author: u64, text: &str, reply_to: Option<i32>) -> Message {
    Message {
        id,
        chat: Chat { id: GROUP, kind: ChatKind::Supergroup { username: None } },
        from: Some(user(author, "Ann")),
        text: Some(text.to_string()),
        entities: Some(vec![MessageEntity {
            kind: MessageEntityKind::Url,
            offset: 0,
            length: text.encode_utf16().count(),
        }]),
        reply_to: reply_to.map(|id| RepliedMessage { id, chat_id: GROUP }),
    }
}

fn is_end(next: &(Stage, Action), action: Action) -> bool {
    matches!(next.0, Stage::Done)
        && match action {
            Action::Finish => matches!(next.1, Action::Finish),
            Action::Fail => matches!(next.1, Action::Fail),
            Action::Abort => matches!(next.1, Action::Abort),
            _ => false,
        }
}

fn gives_up(next: &(Stage, Action), reason: Problem, message: i32, chat: i64) -> bool {
    match (&next.0, &next.1) {
        (Stage::Done, Action::GiveUp { problem, message_id, chat_id }) => {
            *problem == reason && *message_id == message && *chat_id == chat
        }
        _ => false,
    }
}

#[test]
fn rewritten_message_is_replaced_and_recorded() {
    let rules = rules();
    let msg = message(5, 7, "x.com/a", None);
    let (stage, action) = start_supergroup_message();
    assert!(matches!(action, Action::Connect));
    let (stage, action) = handle_supergroup_message(stage, &msg, &rules, Event::Connected);
    assert!(matches!(action, Action::DeleteMessage { chat_id: GROUP, message_id: 5 }));
    let (stage, action) = handle_supergroup_message(stage, &msg, &rules, Event::Deleted);
    match action {
        Action::SendMessage(sent) => {
            assert_eq!(sent.text, "https://i.fixupx.com/a\n— Ann");
            assert_eq!(sent.chat_id, GROUP);
        }
        _ => panic!("nothing is sent"),
    }
    let sent = message(6, 1, "https://i.fixupx.com/a\n— Ann", None);
    let (stage, action) = handle_supergroup_message(stage, &msg, &rules, Event::Sent(sent));
    match action {
        Action::StoreMessage(record) => assert_eq!(
            record,
            NewFormattedMessage { message_id: 6, user_tgid: 7, chat_tgid: GROUP }
        ),
        _ => panic!("nothing is stored"),
    }
    let next = handle_supergroup_message(stage, &msg, &rules, Event::Stored);
    assert!(is_end(&next, Action::Finish));
}

#[test]
fn failed_requests_end_the_handler() {
    let rules = rules();
    let msg = message(5, 7, "x.com/a", None);
    let (stage, _) = start_supergroup_message();
    let (stage, _) = handle_supergroup_message(stage, &msg, &rules, Event::Connected);
    let next = handle_supergroup_message(stage, &msg, &rules, Event::RequestFailed);
    assert!(is_end(&next, Action::Fail));
    let next = handle_supergroup_message(Stage::Sending, &msg, &rules, Event::RequestFailed);
    assert!(is_end(&next, Action::Fail));
    let notifying = Stage::Notifying { user_id: 1, source_message_id: 2, source_chat_id: 3 };
    let next = handle_supergroup_message(notifying, &msg, &rules, Event::RequestFailed);
    assert!(is_end(&next, Action::Fail));
    let next = handle_supergroup_edited_message(Stage::Correcting, &msg, Event::RequestFailed);
    assert!(is_end(&next, Action::Fail));
}

#[test]
fn plain_message_in_a_supergroup_is_left_alone() {
    let rules = rules();
    let msg = message(5, 7, "y.com/a", None);
    let (stage, _) = start_supergroup_message();
    let next = handle_supergroup_message(stage, &msg, &rules, Event::Connected);
    assert!(is_end(&next, Action::Finish));
}

#[test]
fn author_is_notified_of_a_reply() {
    let rules = rules();
    let msg = message(8, 9, "y.com/a", Some(6));
    let (stage, _) = start_supergroup_message();
    let (stage, action) = handle_supergroup_message(stage, &msg, &rules, Event::Connected);
    assert!(matches!(action, Action::FindMessage { message_id: 6, chat_id: GROUP }));
    let (stage, action) =
        handle_supergroup_message(stage, &msg, &rules, Event::FoundMessage(Some(7)));
    match action {
        Action::Notify(notification) => {
            assert_eq!(notification.user_id, 7);
            assert_eq!(notification.text, "<blockquote>y.com/a</blockquote>\n— Ann");
            assert_eq!(notification.link.as_str(), "https://t.me/c/1234567890/8");
            assert_eq!(notification.link_preview, NO_PREVIEW);
            assert_eq!(notification.reply_to, RepliedMessage { id: 6, chat_id: GROUP });
        }
        _ => panic!("nobody is notified"),
    }
    let (stage, action) =
        handle_supergroup_message(stage, &msg, &rules, Event::Notified { message_id: 77 });
    match action {
        Action::StoreReply(record) => assert_eq!(
            record,
            NewFormattedReply {
                message_id: 77,
                user_tgid: 7,
                source_message_id: 8,
                source_chat_tgid: GROUP,
            }
        ),
        _ => panic!("nothing is stored"),
    }
    let next = handle_supergroup_message(stage, &msg, &rules, Event::Stored);
    assert!(is_end(&next, Action::Finish));
}

#[test]
fn author_is_shown_the_replaced_reply() {
    let rules = rules();
    let msg = message(8, 9, "x.com/a", Some(6));
    let sent = message(10, 1, "https://i.fixupx.com/a", Some(6));
    let stage = Stage::StoringMessage(sent);
    let (stage, action) = handle_supergroup_message(stage, &msg, &rules, Event::StoreFailed);
    assert!(matches!(action, Action::FindMessage { message_id: 6, chat_id: GROUP }));
    let (stage, action) =
        handle_supergroup_message(stage, &msg, &rules, Event::FoundMessage(Some(7)));
    match action {
        Action::Notify(notification) => {
            assert_eq!(
                notification.text,
                "<blockquote>https://i.fixupx.com/a</blockquote>\n— Ann"
            );
            assert_eq!(notification.link.as_str(), "https://t.me/c/1234567890/10");
        }
        _ => panic!("nobody is notified"),
    }
    assert!(matches!(
        stage,
        Stage::Notifying { user_id: 7, source_message_id: 10, source_chat_id: GROUP }
    ));
}

#[test]
fn authors_are_not_notified_of_their_own_replies() {
    let rules = rules();
    let msg = message(8, 7, "y.com/a", Some(6));
    assert_eq!(author_id(&msg), 7);
    let stage = Stage::FindingMessage(None);
    let next = handle_supergroup_message(stage, &msg, &rules, Event::FoundMessage(Some(7)));
    assert!(is_end(&next, Action::Finish));
    let mut nobody = message(8, 7, "y.com/a", Some(6));
    nobody.from = None;
    assert_eq!(author_id(&nobody), 0);
    assert!(is_end(&notify(&nobody, None, 0), Action::Finish));
    assert_eq!(author_id(&message(8, u64::MAX, "", None)), -1);
}

#[test]
fn nobody_is_notified_without_a_record() {
    let rules = rules();
    let msg = message(8, 9, "y.com/a", Some(6));
    for event in [Event::FoundMessage(None), Event::FindFailed] {
        let next = handle_supergroup_message(Stage::FindingMessage(None), &msg, &rules, event);
        assert!(is_end(&next, Action::Finish));
    }
}

#[test]
fn nobody_is_notified_without_a_connection() {
    let rules = rules();
    let msg = message(8, 9, "x.com/a", Some(6));
    let (stage, _) = start_supergroup_message();
    let next = handle_supergroup_message(stage, &msg, &rules, Event::NotConnected);
    assert!(is_end(&next, Action::Finish));
    let (stage, _) = start_supergroup_edited_message();
    let next = handle_supergroup_edited_message(stage, &msg, Event::NotConnected);
    assert!(is_end(&next, Action::Finish));
}

#[test]
fn replies_that_cannot_be_shown() {
    let mut msg = message(8, 9, "y.com/a", Some(6));
    msg.from = None;
    assert!(gives_up(&notify(&msg, None, 7), Problem::NoForward, 8, GROUP));
    let mut msg = message(8, 9, "y.com/a", Some(6));
    msg.chat.kind = ChatKind::Group;
    assert!(gives_up(&notify(&msg, None, 7), Problem::NoLink, 8, GROUP));
    let mut msg = message(8, 9, "y.com/a", Some(6));
    msg.chat.id = -5;
    assert!(is_end(&notify(&msg, None, 7), Action::Abort));
    let mut msg = message(8, 9, "y.com/a", Some(6));
    msg.entities = Some(vec![MessageEntity {
        kind: MessageEntityKind::Bold,
        offset: usize::MAX,
        length: 1,
    }]);
    assert!(is_end(&notify(&msg, None, 7), Action::Abort));
    let msg = message(8, 9, "y.com/a", None);
    assert!(is_end(&notify(&msg, None, 7), Action::Abort));
}

#[test]
fn missing_links_are_told_of_the_reply_and_missing_senders_of_what_was_sent_for_it() {
    let msg = message(8, 9, "x.com/a", Some(6));
    let mut sent = message(10, 1, "https://i.fixupx.com/a", Some(6));
    sent.chat = Chat { id: -5, kind: ChatKind::Group };
    assert!(gives_up(&notify(&msg, Some(sent), 7), Problem::NoLink, 8, GROUP));
    let mut sent = message(10, 1, "https://i.fixupx.com/a", Some(6));
    sent.from = None;
    assert!(gives_up(&notify(&msg, Some(sent), 7), Problem::NoForward, 10, GROUP));
}

#[test]
fn edited_reply_corrects_its_notification() {
    let msg = message(8, 9, "y.com/b", None);
    let (stage, action) = start_supergroup_edited_message();
    assert!(matches!(action, Action::Connect));
    let (stage, action) = handle_supergroup_edited_message(stage, &msg, Event::Connected);
    assert!(matches!(action, Action::FindReply { message_id: 8, chat_id: GROUP }));
    let (stage, action) =
        handle_supergroup_edited_message(stage, &msg, Event::FoundReply(Some((77, 7))));
    match action {
        Action::Correct(correction) => {
            assert_eq!(correction.user_id, 7);
            assert_eq!(correction.message_id, 77);
            assert_eq!(correction.text, "<blockquote>y.com/b</blockquote>\n— Ann");
            assert_eq!(correction.link.as_str(), "https://t.me/c/1234567890/8");
            assert_eq!(correction.link_preview, NO_PREVIEW);
        }
        _ => panic!("nothing is corrected"),
    }
    let next = handle_supergroup_edited_message(stage, &msg, Event::Corrected);
    assert!(is_end(&next, Action::Finish));
}

#[test]
fn edits_that_change_nothing() {
    let msg = message(8, 9, "y.com/b", None);
    for event in [Event::FoundReply(None), Event::FindFailed] {
        let next = handle_supergroup_edited_message(Stage::FindingReply, &msg, event);
        assert!(is_end(&next, Action::Finish));
    }
    let mut msg = message(8, 9, "y.com/b", None);
    msg.from = None;
    let found = Event::FoundReply(Some((77, 7)));
    let next = handle_supergroup_edited_message(Stage::FindingReply, &msg, found);
    assert!(gives_up(&next, Problem::NoForward, 8, GROUP));
    let mut msg = message(8, 9, "y.com/b", None);
    msg.chat.kind = ChatKind::Private;
    let found = Event::FoundReply(Some((77, 7)));
    let next = handle_supergroup_edited_message(Stage::FindingReply, &msg, found);
    assert!(gives_up(&next, Problem::NoLink, 8, GROUP));
    let mut msg = message(8, 9, "y.com/b", None);
    msg.chat.id = 1;
    let found = Event::FoundReply(Some((77, 7)));
    let next = handle_supergroup_edited_message(Stage::FindingReply, &msg, found);
    assert!(is_end(&next, Action::Abort));
}

#[test]
fn private_message_is_replaced() {
    let rules = rules();
    let mut msg = message(5, 7, "x.com/a", None);
    msg.chat = Chat { id: 7, kind: ChatKind::Private };
    let (stage, action) = start_private_message(&msg, &rules);
    assert!(matches!(action, Action::DeleteMessage { chat_id: 7, message_id: 5 }));
    let (stage, action) = handle_private_message(stage, Event::Deleted);
    match action {
        Action::SendMessage(sent) => {
            assert_eq!(sent.text, "https://i.fixupx.com/a");
            assert_eq!(sent.chat_id, 7);
        }
        _ => panic!("nothing is sent"),
    }
    let next = handle_private_message(stage, Event::Sent(msg));
    assert!(is_end(&next, Action::Finish));
}

#[test]
fn failed_private_requests_end_the_handler() {
    let rules = rules();
    let msg = message(5, 7, "x.com/a", None);
    let (stage, _) = start_private_message(&msg, &rules);
    assert!(is_end(&handle_private_message(stage, Event::RequestFailed), Action::Fail));
    assert!(is_end(&handle_private_message(Stage::Sending, Event::RequestFailed), Action::Fail));
}

#[test]
fn plain_private_message_is_left_alone() {
    let next = start_private_message(&message(5, 7, "y.com/a", None), &rules());
    assert!(is_end(&next, Action::Finish));
}

#[test]
fn unfit_message_is_not_handled() {
    let rules = rules();
    let mut msg = message(5, 7, "x.com", None);
    msg.entities = Some(vec![MessageEntity {
        kind: MessageEntityKind::Url,
        offset: 0,
        length: 6,
    }]);
    assert!(is_end(&start_private_message(&msg, &rules), Action::Abort));
    let (stage, _) = start_supergroup_message();
    let next = handle_supergroup_message(stage, &msg, &rules, Event::Connected);
    assert!(is_end(&next, Action::Abort));
}

#[test]
fn events_out_of_turn_end_the_handler() {
    let rules = rules();
    let msg = message(5, 7, "x.com", None);
    let (stage, _) = start_supergroup_message();
    let next = handle_supergroup_message(stage, &msg, &rules, Event::Deleted);
    assert!(is_end(&next, Action::Abort));
    let next = handle_supergroup_edited_message(Stage::Done, &msg, Event::Stored);
    assert!(is_end(&next, Action::Abort));
    assert!(is_end(&handle_private_message(Stage::Connecting, Event::Connected), Action::Abort));
}
