//! The compose bar and the updates of an open chat.

use paloma::tdlib::types::{
    ChatAction, Message, MessageContent, MessageSender, Reaction, ReactionType, Update,
};
use paloma::ui::chat_view::effect::{Effect, Properties, Purpose};
use paloma::ui::chat_view::view::{Key, KeyAction};
use paloma::ui::chat_view::ChatView;

fn message(id: i64, text: &str) -> Message {
    Message {
        id,
        chat_id: 1,
        sender_id: MessageSender::User(5),
        is_outgoing: false,
        date: 100,
        sending_state: None,
        reply_to: None,
        media_album_id: 0,
        reactions: vec![],
        content: MessageContent::MessageText { text: text.to_string() },
    }
}

fn view(list: &[i64]) -> ChatView {
    let mut v = ChatView::new(1);
    v.me_resolved(99);
    for id in list {
        v.handle_update(&Update::NewMessage { message: message(*id, "text") }, &mut vec![]);
    }
    v
}

fn shape(out: &[Effect]) -> Vec<String> {
    out.iter().map(|e| format!("{e:?}")).collect()
}

fn rows(v: &ChatView) -> Vec<i64> {
    let h = v.history();
    (0..h.len()).map(|i| h.message(i).id).collect()
}

#[test]
fn opening_and_closing() {
    let v = ChatView::new(7);
    assert_eq!(v.chat_id(), 7);
    let mut out = vec![];
    v.open(&mut out);
    assert_eq!(shape(&out), ["OpenChat", "GetMe", "GetChat", "Subscribe", "LoadInitialHistory"]);
    let mut out = vec![];
    v.close(&mut out);
    assert_eq!(shape(&out), ["StopVoice", "Unsubscribe", "CloseChat"]);
}

#[test]
fn updates_of_other_chats_are_ignored() {
    let mut v = view(&[10]);
    let mut other = message(20, "x");
    other.chat_id = 2;
    let mut out = vec![];
    v.handle_update(&Update::NewMessage { message: other }, &mut out);
    v.handle_update(
        &Update::DeleteMessages { chat_id: 2, message_ids: vec![10], from_cache: false },
        &mut out,
    );
    v.handle_update(
        &Update::ChatAction {
            chat_id: 2,
            sender_id: MessageSender::User(5),
            action: ChatAction::Typing,
        },
        &mut out,
    );
    v.handle_update(&Update::Other, &mut out);
    assert!(out.is_empty());
    assert_eq!(rows(&v), [10]);
}

#[test]
fn deletions_remove_rows_and_disarm() {
    let mut v = view(&[10, 20, 30]);
    v.start_reply(20, &mut vec![]);
    let mut out = vec![];
    v.handle_update(
        &Update::DeleteMessages { chat_id: 1, message_ids: vec![20, 99, 10], from_cache: false },
        &mut out,
    );
    assert_eq!(rows(&v), [30]);
    assert_eq!(v.reply_to(), 0);
    assert_eq!(
        shape(&out),
        ["HideReply", "Removed { position: 1 }", "Removed { position: 0 }"]
    );
    let mut out = vec![];
    v.handle_update(
        &Update::DeleteMessages { chat_id: 1, message_ids: vec![30], from_cache: true },
        &mut out,
    );
    assert!(out.is_empty());
    assert_eq!(rows(&v), [30]);
}

#[test]
fn deleting_the_edited_message_leaves_the_edit() {
    let mut v = view(&[10]);
    let mut out = vec![];
    v.begin_edit(10, &mut out);
    assert_eq!(
        shape(&out),
        ["GetProperties { message_id: 10, purpose: Edit { generation: 0 } }"]
    );
    v.edit_allowed(10, 0, true, &mut vec![]);
    assert_eq!(v.editing(), 10);
    let mut out = vec![];
    v.remove_message(10, &mut out);
    assert_eq!(v.editing(), 0);
    assert_eq!(
        shape(&out),
        ["HideEdit", "SetEntry { text: \"\" }", "Removed { position: 0 }"]
    );
}

#[test]
fn sending_trims_and_threads_the_reply() {
    let mut v = view(&[10]);
    let mut out = vec![];
    v.do_send(" \n ", &mut out);
    assert!(out.is_empty());
    v.start_reply(10, &mut out);
    assert_eq!(
        shape(&out),
        ["ShowReply { name: \"Reply\", text: \"text\" }", "FocusEntry"]
    );
    let mut out = vec![];
    v.do_send("  hi there ", &mut out);
    assert_eq!(
        shape(&out),
        [
            "SetEntry { text: \"\" }",
            "HideReply",
            "SendText { text: \"hi there\", clear_draft: true, reply_to: Some(10) }",
        ]
    );
    assert_eq!(v.reply_to(), 0);
    let mut out = vec![];
    v.do_send("again", &mut out);
    assert_eq!(
        shape(&out)[2],
        "SendText { text: \"again\", clear_draft: true, reply_to: None }"
    );
}

#[test]
fn editing_redirects_the_send() {
    let mut v = view(&[10]);
    let mut out = vec![];
    v.edit_allowed(10, 0, true, &mut out);
    assert_eq!(
        shape(&out),
        [
            "HideReply",
            "SetEntry { text: \"text\" }",
            "ShowEdit { text: \"text\" }",
            "CursorToEnd",
            "FocusEntry",
        ]
    );
    let mut out = vec![];
    v.do_send("  ", &mut out);
    assert!(out.is_empty());
    assert_eq!(v.editing(), 10);
    v.do_send(" better ", &mut out);
    assert_eq!(
        shape(&out),
        ["EditText { message_id: 10, text: \"better\", clear_draft: false }"]
    );
    let mut out = vec![];
    v.edit_answered(false, &mut out);
    assert_eq!(shape(&out), ["Toast { text: \"Couldn't edit message\" }"]);
    assert_eq!(v.editing(), 10);
    let mut out = vec![];
    v.edit_answered(true, &mut out);
    assert_eq!(shape(&out), ["HideEdit", "SetEntry { text: \"\" }"]);
    assert_eq!(v.editing(), 0);
}

#[test]
fn stale_permission_cannot_arm_an_edit() {
    let mut v = view(&[10, 20]);
    v.begin_edit(10, &mut vec![]);
    v.start_reply(20, &mut vec![]);
    let mut out = vec![];
    v.edit_allowed(10, 0, true, &mut out);
    assert!(out.is_empty());
    assert_eq!((v.editing(), v.reply_to()), (0, 20));
}

#[test]
fn only_editable_text_is_edited() {
    let mut v = view(&[10]);
    v.edit_allowed(10, 0, false, &mut vec![]);
    assert_eq!(v.editing(), 0);
    v.handle_update(
        &Update::MessageContent {
            chat_id: 1,
            message_id: 10,
            new_content: MessageContent::MessageSticker,
        },
        &mut vec![],
    );
    assert!(!v.is_text(10));
    v.edit_allowed(10, 0, true, &mut vec![]);
    assert_eq!(v.editing(), 0);
    v.edit_allowed(11, 0, true, &mut vec![]);
    assert_eq!(v.editing(), 0);
}

#[test]
fn reply_and_edit_are_exclusive() {
    let mut v = view(&[10, 20]);
    v.edit_allowed(10, 0, true, &mut vec![]);
    let mut out = vec![];
    v.start_reply(20, &mut out);
    assert_eq!((v.editing(), v.reply_to()), (0, 20));
    assert_eq!(shape(&out)[..2], ["HideEdit", "SetEntry { text: \"\" }"]);
    let mut out = vec![];
    v.begin_edit(10, &mut out);
    let generation = match out[0] {
        Effect::GetProperties {
            purpose: Purpose::Edit { generation },
            ..
        } => generation,
        _ => panic!("no question"),
    };
    v.edit_allowed(10, generation, true, &mut vec![]);
    assert_eq!((v.editing(), v.reply_to()), (10, 0));
    v.cancel_edit(&mut vec![]);
    assert_eq!((v.editing(), v.reply_to()), (0, 0));
}

#[test]
fn replies_to_unknown_messages_are_not_armed() {
    let mut v = view(&[10]);
    let mut out = vec![];
    v.start_reply(11, &mut out);
    assert!(out.is_empty());
    assert_eq!(v.reply_to(), 0);
    // The attempt still makes earlier questions stale.
    v.edit_allowed(10, 0, true, &mut out);
    assert_eq!(v.editing(), 0);
}

#[test]
fn keys_of_the_entry() {
    let mut v = view(&[10]);
    assert_eq!(v.key_pressed(Key::Enter, false), KeyAction::Send);
    assert_eq!(v.key_pressed(Key::Enter, true), KeyAction::Proceed);
    assert_eq!(v.key_pressed(Key::Escape, false), KeyAction::Proceed);
    assert_eq!(v.key_pressed(Key::Other, false), KeyAction::Proceed);
    v.edit_allowed(10, 0, true, &mut vec![]);
    assert_eq!(v.key_pressed(Key::Escape, true), KeyAction::CancelEdit);
}

#[test]
fn trailing_slot_follows_the_entry() {
    let mut v = view(&[]);
    let mut out = vec![];
    v.entry_changed("a", &mut out);
    v.entry_changed(" \t", &mut out);
    assert_eq!(shape(&out), ["TrailingSlot { send: true }", "TrailingSlot { send: false }"]);
    v.recording_started(&mut vec![]);
    let mut out = vec![];
    v.entry_changed("a", &mut out);
    assert!(out.is_empty());
}

#[test]
fn typing_signals_are_throttled() {
    let mut v = view(&[]);
    let s: i64 = 1_000_000;
    let mut out = vec![];
    v.typed(" ", 100 * s, &mut out);
    assert!(out.is_empty());
    v.typed("a", 100 * s, &mut out);
    v.typed("ab", 104 * s + 999_999, &mut out);
    assert_eq!(shape(&out), ["SendTyping"]);
    v.typed("abc", 105 * s, &mut out);
    assert_eq!(shape(&out), ["SendTyping", "SendTyping"]);
    v.typed("abc", i64::MIN, &mut out);
    v.typed("abc", 0, &mut out);
    assert_eq!(out.len(), 2);
    v.typed("abc", i64::MAX, &mut out);
    assert_eq!(out.len(), 3);
}

#[test]
fn typing_of_others_is_shown() {
    let mut v = view(&[]);
    let mut out = vec![];
    let user = MessageSender::User(5);
    v.handle_chat_action(user, ChatAction::Typing, &mut out);
    assert_eq!(
        shape(&out),
        ["Subtitle { text: \"typing…\" }", "ArmTypingClear { generation: 1 }"]
    );
    // A refreshed signal outlives the first timeout.
    v.handle_chat_action(user, ChatAction::Typing, &mut vec![]);
    let mut out = vec![];
    v.typing_expired(1, &mut out);
    assert!(out.is_empty());
    v.typing_expired(2, &mut out);
    assert_eq!(shape(&out), ["Subtitle { text: \"\" }"]);
    let mut out = vec![];
    v.handle_chat_action(user, ChatAction::Cancel, &mut out);
    assert_eq!(shape(&out), ["Subtitle { text: \"\" }"]);
    let mut out = vec![];
    v.typing_expired(2, &mut out);
    v.handle_chat_action(user, ChatAction::Other, &mut out);
    v.handle_chat_action(MessageSender::User(99), ChatAction::Typing, &mut out);
    v.handle_chat_action(MessageSender::Chat(5), ChatAction::Typing, &mut out);
    assert!(out.is_empty());
}

#[test]
fn typing_in_groups_names_the_user() {
    let mut v = view(&[]);
    v.chat_resolved(true, 0, &mut vec![]);
    let mut out = vec![];
    v.handle_chat_action(MessageSender::User(5), ChatAction::Typing, &mut out);
    assert_eq!(shape(&out)[0], "FetchUser { user_id: 5 }");
    assert_eq!(shape(&out)[1], "Subtitle { text: \"typing…\" }");
    v.user_resolved(5, "Ann", "", 0, &mut vec![]);
    let mut out = vec![];
    v.handle_chat_action(MessageSender::User(5), ChatAction::Typing, &mut out);
    assert_eq!(shape(&out)[0], "Subtitle { text: \"Ann is typing…\" }");
}

#[test]
fn reactions_toggle_and_do_not_race() {
    let mut v = view(&[10]);
    let mut out = vec![];
    v.toggle_reaction(10, "👍", &mut out);
    v.toggle_reaction(10, "👍", &mut out);
    assert_eq!(shape(&out), ["AddReaction { message_id: 10, emoji: \"👍\" }"]);
    v.toggle_reaction(10, "🔥", &mut out);
    assert_eq!(out.len(), 2);
    let mut out = vec![];
    v.reaction_answered(10, "👍", false, true, &mut out);
    assert!(out.is_empty());
    v.handle_update(
        &Update::MessageInteractionInfo {
            chat_id: 1,
            message_id: 10,
            reactions: vec![Reaction {
                reaction_type: ReactionType::Emoji("👍".to_string()),
                total_count: 1,
                is_chosen: true,
            }],
        },
        &mut vec![],
    );
    v.toggle_reaction(10, "👍", &mut out);
    assert_eq!(shape(&out), ["RemoveReaction { message_id: 10, emoji: \"👍\" }"]);
    let mut out = vec![];
    v.reaction_answered(10, "👍", true, false, &mut out);
    v.reaction_answered(10, "🔥", false, false, &mut out);
    assert_eq!(
        shape(&out),
        [
            "Toast { text: \"Couldn't remove reaction\" }",
            "Toast { text: \"Couldn't add reaction\" }",
        ]
    );
}

#[test]
fn recordings_carry_the_reply() {
    let mut v = view(&[10]);
    let mut out = vec![];
    v.start_recording(&mut out);
    assert_eq!(shape(&out), ["StartRecorder"]);
    let mut out = vec![];
    v.recording_started(&mut out);
    assert_eq!(shape(&out), ["ShowRecording", "TimerText { text: \"0:00\" }"]);
    assert!(v.recording());
    let mut out = vec![];
    v.start_recording(&mut out);
    assert!(out.is_empty());
    assert!(v.recording_tick(65, &mut out));
    assert_eq!(shape(&out), ["TimerText { text: \"1:05\" }"]);
    let mut out = vec![];
    assert!(v.recording_tick(-1, &mut out));
    assert_eq!(shape(&out), ["TimerText { text: \"0:00\" }"]);
    v.start_reply(10, &mut vec![]);

    let mut out = vec![];
    v.cancel_recording("draft", &mut out);
    assert_eq!(
        shape(&out),
        [
            "CancelRecorder",
            "HideRecording",
            "TimerText { text: \"0:00\" }",
            "TrailingSlot { send: true }",
        ]
    );
    assert_eq!(v.reply_to(), 10);
    let mut out = vec![];
    assert!(!v.recording_tick(66, &mut out));
    assert!(out.is_empty());

    v.recording_started(&mut vec![]);
    let mut out = vec![];
    v.send_recording(Some(("/tmp/a.ogg".to_string(), 4)), "", &mut out);
    assert_eq!(
        shape(&out)[3..],
        [
            "HideReply",
            "SendVoice { path: \"/tmp/a.ogg\", duration: 4, reply_to: Some(10) }",
        ]
    );
    assert!(!v.recording());
    let mut out = vec![];
    v.send_recording(None, "", &mut out);
    assert_eq!(out.len(), 3);
}

#[test]
fn forwarding() {
    let v = view(&[10]);
    let mut out = vec![];
    v.forward_message(10, &mut out);
    v.forward_allowed(10, false, &mut out);
    v.forward_allowed(10, true, &mut out);
    v.do_forward(10, 77, &mut out);
    assert_eq!(
        shape(&out),
        [
            "GetProperties { message_id: 10, purpose: Forward }",
            "OpenForwardPicker { message_id: 10 }",
            "ForwardMessage { message_id: 10, to_chat: 77 }",
        ]
    );
    let mut out = vec![];
    v.forwarded(Some(&vec![Some(1)]), &mut out);
    v.forwarded(Some(&vec![None]), &mut out);
    v.forwarded(Some(&vec![]), &mut out);
    v.forwarded(None, &mut out);
    assert_eq!(shape(&out)[0], "Toast { text: \"Forwarded\" }");
    for e in &shape(&out)[1..] {
        assert_eq!(e, "Toast { text: \"Couldn't forward\" }");
    }
}

#[test]
fn copying_and_deleting() {
    let v = view(&[10]);
    let mut out = vec![];
    v.copy_message(10, &mut out);
    v.copy_message(11, &mut out);
    v.delete_message(10, &mut out);
    assert_eq!(
        shape(&out),
        ["Copy { text: \"text\" }", "GetProperties { message_id: 10, purpose: Delete }"]
    );
    let cases = [
        (Some((true, true)), (true, true, true)),
        (Some((true, false)), (true, false, true)),
        (Some((false, true)), (false, true, false)),
        (Some((false, false)), (false, true, false)),
        (None, (false, true, false)),
    ];
    for (allowed, (everyone, own, default_everyone)) in cases {
        let mut out = vec![];
        v.confirm_delete(10, allowed, &mut out);
        match &out[0] {
            Effect::ConfirmDelete { message_id, choices } => {
                assert_eq!(*message_id, 10);
                assert_eq!(
                    (choices.everyone, choices.own, choices.default_everyone),
                    (everyone, own, default_everyone)
                );
            }
            other => panic!("{other:?}"),
        }
    }
    let mut out = vec![];
    v.delete_answered(10, "all", &mut out);
    v.delete_answered(10, "self", &mut out);
    v.delete_answered(10, "cancel", &mut out);
    assert_eq!(
        shape(&out),
        [
            "DeleteMessage { message_id: 10, revoke: true }",
            "DeleteMessage { message_id: 10, revoke: false }",
        ]
    );
}

#[test]
fn answers_about_a_message() {
    let none = Properties {
        can_be_edited: false,
        can_be_forwarded: false,
        can_be_deleted_for_all_users: false,
        can_be_deleted_only_for_self: false,
    };
    let all = Properties {
        can_be_edited: true,
        can_be_forwarded: true,
        can_be_deleted_for_all_users: true,
        can_be_deleted_only_for_self: true,
    };
    let mut v = view(&[10]);
    let mut out = vec![];
    for purpose in [Purpose::Edit { generation: 0 }, Purpose::Forward] {
        v.properties_answered(10, purpose, None, &mut out);
        v.properties_answered(10, purpose, Some(none), &mut out);
    }
    assert!(out.is_empty());
    v.properties_answered(10, Purpose::Forward, Some(all), &mut out);
    v.properties_answered(10, Purpose::Delete, None, &mut out);
    v.properties_answered(10, Purpose::Delete, Some(all), &mut out);
    assert_eq!(shape(&out)[0], "OpenForwardPicker { message_id: 10 }");
    assert!(shape(&out)[1].contains("everyone: false, own: true, default_everyone: false"));
    assert!(shape(&out)[2].contains("everyone: true, own: true, default_everyone: true"));
    v.properties_answered(10, Purpose::Edit { generation: 0 }, Some(all), &mut out);
    assert_eq!(v.editing(), 10);
}

#[test]
fn histories_reach_the_view() {
    let mut v = ChatView::new(1);
    v.initial_history(&vec![Some(message(20, "b")), Some(message(10, "a"))], &mut vec![]);
    assert_eq!(rows(&v), [10, 20]);
    assert_eq!(v.load_older_history(), Some(10));
    v.older_arrived(&vec![Some(message(5, "z"))], &mut vec![]);
    assert_eq!(rows(&v), [5, 10, 20]);
    v.older_done();
    assert_eq!(v.load_older_history(), Some(5));
    v.append_sent(&message(30, "s"), &mut vec![]);
    assert_eq!(rows(&v), [5, 10, 20, 30]);
    v.reply_fetched(30, &message(1, "quoted"), &mut vec![]);
    assert_eq!(v.history().message(3).reply_snippet, "quoted");
    v.handle_update(
        &Update::MessageSendSucceeded { message: message(31, "s"), old_message_id: 30 },
        &mut vec![],
    );
    assert_eq!(rows(&v), [5, 10, 20, 31]);
    v.handle_update(
        &Update::MessageSendFailed { message: message(31, "s"), old_message_id: 31 },
        &mut vec![],
    );
    assert!(v.history().message(3).is_pending);
    let mut out = vec![];
    v.handle_update(
        &Update::ChatReadOutbox { chat_id: 1, last_read_outbox_message_id: 100 },
        &mut out,
    );
    assert!(out.is_empty());
}
