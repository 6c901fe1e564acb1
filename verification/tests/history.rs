//! The loaded history of a chat.

use paloma::models::send_status;
use paloma::tdlib::types::{
    Message, MessageContent, MessageReplyTo, MessageSender, MessageSendingState, Reaction,
    ReactionType,
};
use paloma::ui::chat_view::effect::Effect;
use paloma::ui::chat_view::history::History;
use paloma::ui::chat_view::names::{display_name, snippet};
use paloma::ui::chat_view::paging::{InitialHistory, BATCH, TARGET};

fn message(id: i64, text: &str) -> Message {
    Message {
        id,
        chat_id: 1,
        sender_id: MessageSender::User(5),
        is_outgoing: false,
        date: 100,
        sending_state: None,
        reply_to: None,
        media_album_id: 0,
        reactions: vec![],
        content: MessageContent::MessageText { text: text.to_string() },
    }
}

fn own(id: i64, text: &str) -> Message {
    let mut m = message(id, text);
    m.is_outgoing = true;
    m.sender_id = MessageSender::User(99);
    m
}

fn ids(h: &History) -> Vec<i64> {
    (0..h.len()).map(|i| h.message(i).id).collect()
}

fn loaded(list: &[i64]) -> History {
    let mut h = History::new();
    let batch: Vec<Option<Message>> = list.iter().map(|id| Some(message(*id, "m"))).collect();
    h.ingest_history(&batch, true, &mut vec![]);
    h
}

fn shape(out: &[Effect]) -> Vec<String> {
    out.iter().map(|e| format!("{e:?}")).collect()
}

#[test]
fn initial_batch_is_sorted_and_shown() {
    let mut h = History::new();
    let mut out = vec![];
    let batch = vec![Some(message(30, "c")), None, Some(own(10, "a")), Some(message(20, "b"))];
    h.ingest_history(&batch, true, &mut out);
    assert_eq!(ids(&h), [10, 20, 30]);
    assert_eq!(
        shape(&out),
        [
            "Inserted { position: 0, slot: 0 }",
            "Inserted { position: 1, slot: 1 }",
            "Inserted { position: 2, slot: 2 }",
            "FetchUser { user_id: 5 }",
            "FetchUser { user_id: 5 }",
            "Rebind { start: 0, count: 3 }",
            "ScrollToBottom",
            "ViewMessages { ids: [20, 30] }",
        ]
    );
}

#[test]
fn loaded_batch_adds_no_row() {
    let mut h = loaded(&[3, 1, 2]);
    let mut out = vec![];
    h.ingest_history(&vec![Some(message(2, "x")), Some(message(1, "x"))], false, &mut out);
    assert_eq!(ids(&h), [1, 2, 3]);
    assert_eq!(h.message(0).content_text, "m");
    assert_eq!(shape(&out), ["Rebind { start: 0, count: 1 }", "RestoreAnchor"]);
}

#[test]
fn older_pages_are_prepended() {
    let mut h = loaded(&[50, 60]);
    assert_eq!(h.load_older_history(), Some(50));
    assert_eq!(h.load_older_history(), None);
    let mut out = vec![];
    h.older_arrived(&vec![Some(message(40, "d")), Some(message(30, "c"))], &mut out);
    assert_eq!(ids(&h), [30, 40, 50, 60]);
    assert_eq!(
        shape(&out),
        [
            "Inserted { position: 0, slot: 2 }",
            "Inserted { position: 1, slot: 3 }",
            "FetchUser { user_id: 5 }",
            "FetchUser { user_id: 5 }",
            "Rebind { start: 0, count: 3 }",
            "RestoreAnchor",
        ]
    );
    // The guard stays until the anchor was restored.
    assert_eq!(h.load_older_history(), None);
    h.older_done();
    assert_eq!(h.load_older_history(), Some(30));
    h.older_arrived(&vec![], &mut vec![]);
    assert_eq!(h.load_older_history(), None);
    h.older_done();
    assert_eq!(h.load_older_history(), None);
}

#[test]
fn empty_first_batch_does_not_end_paging() {
    let mut h = History::new();
    h.ingest_history(&vec![None], true, &mut vec![]);
    assert_eq!(h.load_older_history(), None);
    h.ingest_history(&vec![Some(message(7, "x"))], true, &mut vec![]);
    assert_eq!(h.load_older_history(), Some(7));
}

#[test]
fn new_message_is_inserted_in_order() {
    let mut h = loaded(&[10, 30]);
    let mut out = vec![];
    h.new_message(&message(20, "x"), &mut out);
    assert_eq!(ids(&h), [10, 20, 30]);
    assert_eq!(
        shape(&out),
        [
            "Inserted { position: 1, slot: 2 }",
            "FetchUser { user_id: 5 }",
            "Rebind { start: 0, count: 3 }",
            "ScrollToBottom",
            "ViewMessages { ids: [20] }",
        ]
    );
    let mut out = vec![];
    h.new_message(&message(20, "y"), &mut out);
    assert_eq!(ids(&h), [10, 20, 30]);
    assert_eq!(h.message(1).content_text, "y");
    assert_eq!(shape(&out), ["Repaint { slot: 2 }", "Rebind { start: 1, count: 1 }"]);
}

#[test]
fn sent_message_moves_to_its_real_id() {
    let mut h = loaded(&[10]);
    let mut m = own(1000, "hi");
    m.sending_state = Some(MessageSendingState::Pending);
    let mut out = vec![];
    h.append_sent(&m, &mut out);
    assert_eq!(ids(&h), [10, 1000]);
    assert!(h.message(1).is_pending);
    assert_eq!(
        shape(&out),
        ["Inserted { position: 1, slot: 1 }", "Rebind { start: 0, count: 2 }", "ScrollToBottom"]
    );
    // The echo of our own send adds no row.
    h.new_message(&m, &mut vec![]);
    assert_eq!(ids(&h), [10, 1000]);

    h.new_message(&message(15, "other"), &mut vec![]);
    let mut out = vec![];
    h.send_succeeded(1000, &own(12, "hi"), &mut out);
    assert_eq!(ids(&h), [10, 12, 15]);
    assert!(!h.message(1).is_pending);
    assert_eq!(h.message(1).send_status, send_status::SENT);
    assert!(h.find(1000).is_none());
    assert_eq!(
        shape(&out),
        [
            "Removed { position: 2 }",
            "Inserted { position: 1, slot: 1 }",
            "Rebind { start: 0, count: 3 }",
        ]
    );
    // A confirmation of a message that is not loaded adds it.
    h.send_succeeded(2000, &own(16, "late"), &mut vec![]);
    assert_eq!(ids(&h), [10, 12, 15, 16]);
    h.send_succeeded(2000, &own(16, "late"), &mut vec![]);
    assert_eq!(ids(&h), [10, 12, 15, 16]);
}

#[test]
fn failed_message_stays_as_pending() {
    let mut h = loaded(&[10]);
    h.append_sent(&own(50, "x"), &mut vec![]);
    let mut out = vec![];
    h.send_failed(50, &own(50, "x"), &mut out);
    assert_eq!(ids(&h), [10, 50]);
    assert!(h.message(1).is_pending);
    assert_eq!(shape(&out), ["Repaint { slot: 1 }", "Rebind { start: 1, count: 1 }"]);
    h.send_failed(51, &own(51, "x"), &mut vec![]);
    assert_eq!(ids(&h), [10, 50]);
}

#[test]
fn failed_message_moves_to_another_id() {
    let mut h = loaded(&[10, 30]);
    h.append_sent(&own(50, "x"), &mut vec![]);
    let mut out = vec![];
    h.send_failed(50, &own(20, "x"), &mut out);
    assert_eq!(ids(&h), [10, 20, 30]);
    assert!(h.message(1).is_pending);
    assert!(h.find(50).is_none());
    assert!(h.find(20).is_some());
    assert_eq!(
        shape(&out),
        [
            "Removed { position: 2 }",
            "Inserted { position: 1, slot: 2 }",
            "Rebind { start: 0, count: 3 }",
        ]
    );
    // The id of another row: that row makes way, so that no id shows twice.
    h.send_failed(20, &own(30, "x"), &mut out);
    assert_eq!(ids(&h), [10, 30]);
    assert!(h.message(1).is_pending);
    assert_eq!(h.message(1).content_text, "x");
}

#[test]
fn text_edits_repaint_and_media_edits_rebind() {
    let mut h = loaded(&[10]);
    let mut out = vec![];
    h.content_changed(
        10,
        &MessageContent::MessageText { text: "new".to_string() },
        &mut out,
    );
    assert_eq!(shape(&out), ["Repaint { slot: 0 }"]);
    assert_eq!(h.message(0).content_text, "new");
    let mut out = vec![];
    h.content_changed(10, &MessageContent::MessageSticker, &mut out);
    assert_eq!(shape(&out), ["Repaint { slot: 0 }", "Rebind { start: 0, count: 1 }"]);
    let mut out = vec![];
    h.content_changed(11, &MessageContent::MessageSticker, &mut out);
    assert!(out.is_empty());
}

#[test]
fn reactions_are_replaced() {
    let mut h = loaded(&[10]);
    let mut out = vec![];
    let r = Reaction {
        reaction_type: ReactionType::Emoji("🔥".to_string()),
        total_count: 3,
        is_chosen: false,
    };
    h.reactions_changed(10, &[r], &mut out);
    assert_eq!(shape(&out), ["Repaint { slot: 0 }"]);
    assert_eq!(h.message(0).reactions[0].emoji, "🔥");
    h.reactions_changed(10, &[], &mut vec![]);
    assert!(h.message(0).reactions.is_empty());
}

#[test]
fn read_cursor_marks_sent_messages() {
    let mut h = loaded(&[10]);
    h.ingest_history(
        &vec![Some(own(20, "a")), Some(own(30, "b")), Some(own(40, "c"))],
        false,
        &mut vec![],
    );
    let mut pending = own(25, "p");
    pending.sending_state = Some(MessageSendingState::Failed);
    h.new_message(&pending, &mut vec![]);
    let mut out = vec![];
    h.read_outbox(30, &mut out);
    let states: Vec<i32> = (0..h.len()).map(|i| h.message(i).send_status).collect();
    assert_eq!(ids(&h), [10, 20, 25, 30, 40]);
    assert_eq!(
        states,
        [
            send_status::SENT,
            send_status::READ,
            send_status::PENDING,
            send_status::READ,
            send_status::SENT,
        ]
    );
    assert_eq!(shape(&out), ["Repaint { slot: 1 }", "Repaint { slot: 2 }"]);
    // The same cursor again and one that lags behind change nothing; nothing is
    // taken back, and 0 is no cursor.
    let mut out = vec![];
    h.read_outbox(30, &mut out);
    h.read_outbox(20, &mut out);
    h.read_outbox(0, &mut out);
    assert!(out.is_empty());
    assert_eq!(h.message(1).send_status, send_status::READ);
}

#[test]
fn cursor_applies_to_later_batches() {
    let mut h = History::new();
    h.chat_resolved(false, 20, &mut vec![]);
    h.ingest_history(&vec![Some(own(20, "a")), Some(own(21, "b"))], true, &mut vec![]);
    assert_eq!(h.message(0).send_status, send_status::READ);
    assert_eq!(h.message(1).send_status, send_status::SENT);
}

#[test]
fn names_and_avatars_resolve() {
    let mut h = loaded(&[10, 20]);
    h.new_message(&own(30, "mine"), &mut vec![]);
    let mut out = vec![];
    h.chat_resolved(true, 0, &mut out);
    assert!(h.is_group());
    assert_eq!(shape(&out), ["FetchUser { user_id: 5 }", "Rebind { start: 0, count: 3 }"]);
    let mut out = vec![];
    h.user_resolved(5, " Ann ", "Lee", 44, &mut out);
    assert_eq!(h.message(0).sender_name, "Ann  Lee");
    assert_eq!(h.message(1).avatar_file_id, 44);
    assert_eq!(h.message(2).sender_name, "");
    assert_eq!(
        shape(&out),
        [
            "Rebind { start: 0, count: 1 }",
            "Rebind { start: 1, count: 1 }",
            "Rebind { start: 0, count: 1 }",
            "Rebind { start: 1, count: 1 }",
        ]
    );
    assert_eq!(h.name_of(5), "Ann  Lee");
    assert_eq!(h.name_of(6), "");
    // A known name is put on new messages at once, and not fetched again.
    let mut out = vec![];
    h.new_message(&message(40, "x"), &mut out);
    assert_eq!(h.message(3).sender_name, "Ann  Lee");
    assert!(!shape(&out).iter().any(|e| e.starts_with("FetchUser")));
}

#[test]
fn names_are_not_shown_in_private_chats() {
    let mut h = loaded(&[10]);
    h.user_resolved(5, "Ann", "", 44, &mut vec![]);
    assert_eq!(h.message(0).sender_name, "");
    assert_eq!(h.message(0).avatar_file_id, 44);
    assert_eq!(h.name_of(5), "Ann");
}

#[test]
fn replies_resolve_from_the_history_or_are_fetched() {
    let mut h = loaded(&[10]);
    let mut reply = message(20, "answer");
    reply.reply_to = Some(MessageReplyTo::Message { chat_id: 1, message_id: 10 });
    h.new_message(&reply, &mut vec![]);
    assert_eq!(h.message(1).reply_snippet, "m");
    assert_eq!(h.message(1).reply_sender, "");

    let mut far = message(30, "answer");
    far.reply_to = Some(MessageReplyTo::Message { chat_id: 1, message_id: 3 });
    let mut out = vec![];
    h.new_message(&far, &mut out);
    assert!(shape(&out).contains(&"FetchReply { message_id: 30, target: 3 }".to_string()));
    h.stamp_reply_from_message(30, &own(3, "old  text"), &mut vec![]);
    assert_eq!(h.message(2).reply_sender, "You");
    assert_eq!(h.message(2).reply_snippet, "old text");

    let mut mine = message(40, "to me");
    mine.reply_to = Some(MessageReplyTo::Message { chat_id: 1, message_id: 35 });
    h.new_message(&own(35, "mine"), &mut vec![]);
    h.new_message(&mine, &mut vec![]);
    assert_eq!(h.message(4).reply_sender, "You");
}

#[test]
fn albums_are_bound_as_a_whole() {
    let mut h = History::new();
    for id in [10, 20, 30] {
        let mut m = message(id, "p");
        m.media_album_id = 7;
        h.new_message(&m, &mut vec![]);
    }
    h.new_message(&message(40, "x"), &mut vec![]);
    let mut m = message(35, "p");
    m.media_album_id = 7;
    let mut out = vec![];
    h.new_message(&m, &mut out);
    let s = shape(&out);
    assert!(s.contains(&"Rebind { start: 2, count: 3 }".to_string()));
    assert!(s.contains(&"Rebind { start: 0, count: 4 }".to_string()));
}

#[test]
fn forgotten_messages_are_gone() {
    let mut h = loaded(&[10, 20, 30]);
    assert!(h.forget(20));
    assert!(!h.forget(20));
    let mut out = vec![];
    h.remove_row(20, &mut out);
    assert_eq!(ids(&h), [10, 30]);
    assert_eq!(shape(&out), ["Removed { position: 1 }"]);
    assert!(h.find(20).is_none());
}

#[test]
fn a_list_can_follow_the_rows() {
    let mut h = History::new();
    let mut out = vec![];
    h.ingest_history(&vec![Some(message(30, "c")), Some(message(10, "a"))], true, &mut out);
    h.append_sent(&own(99, "x"), &mut out);
    h.new_message(&message(20, "b"), &mut out);
    h.send_succeeded(99, &own(15, "x"), &mut out);
    h.forget(10);
    h.remove_row(10, &mut out);
    let mut list: Vec<usize> = vec![];
    for e in &out {
        match e {
            Effect::Inserted { position, slot } => list.insert(*position, *slot),
            Effect::Removed { position } => {
                list.remove(*position);
            }
            Effect::Rebind { start, count } => assert!(start + count <= list.len()),
            _ => {}
        }
    }
    let rows: Vec<usize> = (0..h.len()).map(|i| h.slot_of_row(i)).collect();
    assert_eq!(list, rows);
    assert_eq!(ids(&h), [15, 20, 30]);
    assert_eq!(h.row_of_slot(rows[1]), Some(1));
    assert_eq!(h.row_of_slot(0), None);
}

#[test]
fn snippets_are_one_line_and_short() {
    assert_eq!(snippet("  a\n\tb  c "), "a b c");
    assert_eq!(snippet(""), "");
    let long: String = "x".repeat(81);
    assert_eq!(snippet(&long), format!("{}…", "x".repeat(80)));
    assert_eq!(snippet(&"y".repeat(80)), "y".repeat(80));
    assert_eq!(snippet(&long).chars().count(), 81);
    // A snippet is its own snippet, also where the cut falls on a space.
    for text in ["", " a  b ", &long, &"ab ".repeat(40), &"abcdefg ".repeat(20)] {
        let once = snippet(text);
        assert_eq!(snippet(&once), once);
    }
}

#[test]
fn display_names_are_never_blank() {
    assert_eq!(display_name("Ann", "Lee"), "Ann Lee");
    assert_eq!(display_name("Ann", ""), "Ann");
    assert_eq!(display_name("", "Lee"), "Lee");
    assert_eq!(display_name(" ", "\t"), "Unknown");
}

#[test]
fn initial_history_pages_until_there_is_a_backlog() {
    assert_eq!((TARGET, BATCH), (40, 50));
    let mut p = InitialHistory::new();
    assert_eq!(p.from(), 0);
    assert!(p.page(Some(vec![Some(message(100, "x"))])));
    assert_eq!(p.from(), 100);
    let batch: Vec<Option<Message>> = (50..80).map(|id| Some(message(id, "x"))).collect();
    assert!(p.page(Some(batch)));
    assert_eq!(p.from(), 50);
    let batch: Vec<Option<Message>> = (10..19).rev().map(|id| Some(message(id, "x"))).collect();
    assert!(!p.page(Some(batch)));
    assert_eq!(p.from(), 10);
    let all: Vec<i64> = p.into_messages().into_iter().flatten().map(|m| m.id).collect();
    assert_eq!(all.len(), 40);
    assert_eq!((all[0], all[1], all[39]), (100, 50, 10));
}

#[test]
fn initial_history_stops_on_an_empty_or_failed_answer() {
    let mut p = InitialHistory::new();
    assert!(p.page(Some(vec![None, Some(message(9, "x"))])));
    assert!(!p.page(Some(vec![None])));
    assert_eq!(p.from(), 9);
    assert!(!p.page(None));
    assert!(!p.page(Some(vec![Some(message(0, "x"))])));
    assert_eq!(p.into_messages().into_iter().flatten().count(), 2);
}
