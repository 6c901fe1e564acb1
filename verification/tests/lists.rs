//! The chat list and the voice player.

use paloma::audio::{Command, PlayMessage, VoiceEvent, VoicePlayer};
use paloma::tdlib::types::{
    Chat, ChatListKind, ChatPosition, Message, MessageContent, MessageSender, Update,
};
use paloma::ui::chat_list::{badge, rank, ChatList, ListEffect, Rank};
use paloma::ui::chat_view::voice_row::{play_icon, Change, Click, VoiceRow};

fn chat(id: i64, order: i64) -> Chat {
    Chat {
        id,
        title: format!("c{id}"),
        is_group: false,
        unread_count: 1,
        last_read_outbox_message_id: 0,
        positions: vec![ChatPosition { list: ChatListKind::Main, order }],
        last_message: None,
        photo: None,
    }
}

fn ids(list: &ChatList) -> Vec<i64> {
    (0..list.len()).map(|i| list.chat(i).id).collect()
}

fn list(chats: &[i64]) -> ChatList {
    let mut l = ChatList::new();
    for id in chats {
        l.handle_update(&Update::NewChat { chat: chat(*id, *id) }, &mut vec![]);
    }
    l
}

#[test]
fn new_chats_are_listed_once() {
    let mut l = ChatList::new();
    let mut out = vec![];
    l.handle_update(&Update::NewChat { chat: chat(3, 30) }, &mut out);
    assert_eq!(out, [ListEffect::Appended, ListEffect::ShowList, ListEffect::Resort]);
    let mut out = vec![];
    l.handle_update(&Update::NewChat { chat: chat(3, 99) }, &mut out);
    assert!(out.is_empty());
    assert_eq!(ids(&l), [3]);
    assert_eq!(l.chat(0).order, 30);
}

#[test]
fn fetched_chats_are_added_or_refreshed() {
    let mut l = list(&[3]);
    let mut again = chat(3, 77);
    again.title = "renamed".to_string();
    let mut out = vec![];
    l.add_or_update(&again, &mut out);
    assert_eq!(
        out,
        [ListEffect::Rebind { position: 0 }, ListEffect::ShowList, ListEffect::Resort]
    );
    assert_eq!((l.chat(0).title.as_str(), l.chat(0).order), ("renamed", 77));
    l.add_or_update(&chat(4, 1), &mut vec![]);
    assert_eq!(ids(&l), [3, 4]);
}

#[test]
fn chats_change_in_place() {
    let mut l = list(&[3, 4]);
    let message = Message {
        id: 1,
        chat_id: 4,
        sender_id: MessageSender::User(1),
        is_outgoing: false,
        date: 50,
        sending_state: None,
        reply_to: None,
        media_album_id: 0,
        reactions: vec![],
        content: MessageContent::MessageText { text: "hey".to_string() },
    };
    let mut out = vec![];
    l.handle_update(
        &Update::ChatLastMessage {
            chat_id: 4,
            last_message: Some(message),
            positions: vec![ChatPosition { list: ChatListKind::Main, order: 500 }],
        },
        &mut out,
    );
    assert_eq!(out, [ListEffect::Rebind { position: 1 }, ListEffect::Resort]);
    assert_eq!((l.chat(1).last_message.as_str(), l.chat(1).order), ("hey", 500));
    let mut out = vec![];
    l.handle_update(&Update::ChatTitle { chat_id: 3, title: "x".to_string() }, &mut out);
    l.handle_update(&Update::ChatPhoto { chat_id: 3, photo: Some(9) }, &mut out);
    l.handle_update(&Update::ChatReadInbox { chat_id: 3, unread_count: 0 }, &mut out);
    assert_eq!(out, [ListEffect::Rebind { position: 0 }; 3]);
    let c = l.chat(0);
    assert_eq!((c.title.as_str(), c.photo_file_id, c.unread_count), ("x", 9, 0));
    let mut out = vec![];
    l.handle_update(&Update::ChatTitle { chat_id: 8, title: "x".to_string() }, &mut out);
    l.handle_update(&Update::Other, &mut out);
    assert!(out.is_empty());
    l.handle_update(
        &Update::ChatLastMessage { chat_id: 8, last_message: None, positions: vec![] },
        &mut out,
    );
    assert_eq!(out, [ListEffect::Resort]);
}

#[test]
fn chats_that_left_are_gone() {
    let mut l = list(&[3, 4]);
    let main = |order: i64| ChatPosition { list: ChatListKind::Main, order };
    let mut out = vec![];
    l.handle_update(&Update::ChatPosition { chat_id: 3, position: main(88) }, &mut out);
    assert_eq!(out, [ListEffect::Rebind { position: 0 }, ListEffect::Resort]);
    let mut out = vec![];
    l.handle_update(
        &Update::ChatPosition {
            chat_id: 3,
            position: ChatPosition { list: ChatListKind::Archive, order: 0 },
        },
        &mut out,
    );
    assert!(out.is_empty());
    l.handle_update(&Update::ChatPosition { chat_id: 3, position: main(0) }, &mut out);
    assert_eq!(out, [ListEffect::Removed { position: 0 }, ListEffect::ShowList]);
    let mut out = vec![];
    l.remove_chat(4, &mut out);
    assert_eq!(out, [ListEffect::Removed { position: 0 }, ListEffect::ShowEmpty]);
    let mut out = vec![];
    l.remove_chat(4, &mut out);
    assert!(out.is_empty());
    assert_eq!(l.position(4), None);
}

#[test]
fn unknown_chats_are_fetched() {
    let l = list(&[3]);
    let mut out = vec![];
    l.hydrate_chats(&vec![1, 3, 2], &mut out);
    assert_eq!(
        out,
        [
            ListEffect::FetchChat { chat_id: 1 },
            ListEffect::FetchChat { chat_id: 2 },
            ListEffect::ShowList,
        ]
    );
    let mut out = vec![];
    ChatList::new().update_visibility(&mut out);
    assert_eq!(out, [ListEffect::ShowEmpty]);
}

#[test]
fn rows_are_sorted_and_activated() {
    let mut l = ChatList::new();
    for (id, order) in [(1, 10), (2, 30), (3, 10), (4, 20), (5, 30)] {
        l.handle_update(&Update::NewChat { chat: chat(id, order) }, &mut vec![]);
    }
    // Greater orders first, level chats as they came.
    let rows: Vec<i64> = l.sorted_places().iter().map(|p| l.chat(*p).id).collect();
    assert_eq!(rows, [2, 5, 4, 1, 3]);
    assert_eq!(l.activated(0), Some((2, "c2".to_string())));
    assert_eq!(l.activated(3), Some((1, "c1".to_string())));
    assert_eq!(l.activated(5), None);
    let position = ChatPosition { list: ChatListKind::Main, order: 40 };
    l.handle_update(&Update::ChatPosition { chat_id: 3, position }, &mut vec![]);
    assert_eq!(l.activated(0), Some((3, "c3".to_string())));
    assert!(ChatList::new().sorted_places().is_empty());
    assert_eq!(ChatList::new().activated(0), None);
}

#[test]
fn badges_and_ranks() {
    assert_eq!(badge(12).as_deref(), Some("12"));
    assert_eq!(badge(0), None);
    assert_eq!(badge(-1), None);
    assert_eq!(rank(5, 3), Rank::Before);
    assert_eq!(rank(3, 3), Rank::Level);
    assert_eq!(rank(2, 3), Rank::After);
}

fn shape(out: &[Command]) -> Vec<String> {
    out.iter().map(|c| format!("{c:?}")).collect()
}

#[test]
fn one_note_plays_at_a_time() {
    let mut p = VoicePlayer::new();
    let mut out = vec![];
    assert_eq!(p.start("file:///a", &mut out), 1);
    assert_eq!(shape(&out), ["SetUri { uri: \"file:///a\" }", "Play"]);
    assert!(p.is_owner(1));
    let mut out = vec![];
    assert_eq!(p.start("file:///b", &mut out), 2);
    assert_eq!(
        shape(&out),
        [
            "Notify { token: 1, event: Ended }",
            "Release { token: 1 }",
            "SetUri { uri: \"file:///b\" }",
            "Play",
        ]
    );
    assert!(!p.is_owner(1));
    let mut out = vec![];
    p.toggle(1, &mut out);
    p.seek(1, 5, &mut out);
    p.stop_if_owner(1, &mut out);
    assert!(out.is_empty());
    p.toggle(2, &mut out);
    p.handle_message(PlayMessage::StateChanged { playing: true }, &mut out);
    p.toggle(2, &mut out);
    p.seek(2, 5, &mut out);
    assert_eq!(
        shape(&out),
        ["Play", "Notify { token: 2, event: Playing(true) }", "Pause", "Seek { ns: 5 }"]
    );
    let mut out = vec![];
    p.stop_if_owner(2, &mut out);
    assert_eq!(shape(&out), ["Stop", "ClearUri", "Release { token: 2 }"]);
    assert!(!p.is_owner(2));
}

#[test]
fn nobody_owns_an_idle_pipeline() {
    let mut p = VoicePlayer::new();
    assert!(!p.is_owner(0));
    let mut out = vec![];
    p.toggle(0, &mut out);
    p.seek(0, 5, &mut out);
    p.stop_if_owner(0, &mut out);
    assert!(out.is_empty());
    let token = p.start("file:///a", &mut out);
    assert!(p.is_owner(token) && !p.is_owner(0));
    p.stop(&mut out);
    assert!(!p.is_owner(token) && !p.is_owner(0));
}

#[test]
fn notes_end() {
    let mut p = VoicePlayer::default();
    p.start("u", &mut vec![]);
    let mut out = vec![];
    p.handle_message(PlayMessage::DurationChanged(Some(7)), &mut out);
    p.handle_message(PlayMessage::PositionUpdated(None), &mut out);
    p.handle_message(PlayMessage::Other, &mut out);
    p.handle_message(PlayMessage::EndOfStream, &mut out);
    assert_eq!(
        shape(&out),
        [
            "Notify { token: 1, event: Duration(7) }",
            "Notify { token: 1, event: Position(0) }",
            "Stop",
            "Notify { token: 1, event: Ended }",
            "Release { token: 1 }",
        ]
    );
    let mut out = vec![];
    p.handle_message(PlayMessage::PositionUpdated(Some(9)), &mut out);
    assert!(out.is_empty());
    p.handle_message(PlayMessage::Error, &mut out);
    assert_eq!(shape(&out), ["Stop"]);
    let mut out = vec![];
    p.stop(&mut out);
    assert_eq!(shape(&out), ["Stop", "ClearUri"]);
}

#[test]
fn voice_rows_click_and_seek() {
    let mut p = VoicePlayer::new();
    let mut row = VoiceRow::new(10);
    assert_eq!(row.click(&p, false), Click::Download);
    assert!(VoiceRow::downloaded(10, Some(10)));
    assert!(!VoiceRow::downloaded(10, Some(11)));
    assert!(!VoiceRow::downloaded(10, None));
    assert_eq!(row.click(&p, true), Click::Start);
    let token = p.start("u", &mut vec![]);
    row.started(token);
    assert_eq!(row.click(&p, true), Click::Toggle { token });
    assert_eq!(row.drag(&p), None);
    row.press();
    assert_eq!(row.drag(&p), Some(token));
    assert_eq!(row.notify(VoiceEvent::Position(5)), Change::Nothing);
    assert_eq!(row.release(&p), Some(token));
    assert_eq!(row.notify(VoiceEvent::Position(5)), Change::Position { ns: 5 });
    assert_eq!(row.notify(VoiceEvent::Playing(true)), Change::Icon { playing: true });
    p.start("v", &mut vec![]);
    assert_eq!(row.release(&p), None);
    assert_eq!(row.click(&p, true), Click::Start);
    row.started(7);
    assert_eq!(row.notify(VoiceEvent::Ended), Change::Reset);
    assert_eq!(row.token, None);
    row.started(8);
    assert_eq!(row.rebind(11), Some(8));
    assert_eq!((row.message_id, row.token), (11, None));
}

#[test]
fn voice_ranges_are_in_seconds() {
    let mut row = VoiceRow::new(1);
    let range = |row: &mut VoiceRow, ns: u64| match row.notify(VoiceEvent::Duration(ns)) {
        Change::Range { secs } => secs,
        other => panic!("{other:?}"),
    };
    for ns in [0u64, 999_999_999, 1_000_000_000, 61_500_000_000, u64::MAX, 3_000_000_000_000_000_000]
    {
        let expected = ((ns / 1_000_000_000) as i32).max(1);
        assert_eq!(range(&mut row, ns), expected);
    }
    assert_eq!(play_icon(true), "media-playback-pause-symbolic");
    assert_eq!(play_icon(false), "media-playback-start-symbolic");
}
