//! What rows show, and the context menu.

use paloma::format::LocalDate;
use paloma::models::{send_status, MessageObject};
use paloma::tdlib::types::{
    Message, MessageContent, MessageReplyTo, MessageSender, PhotoSize, Reaction, ReactionType,
};
use paloma::ui::chat_view::history::History;
use paloma::ui::chat_view::markup::{linkify, markup_escape_text};
use paloma::ui::chat_view::menu::{
    clamp, look, maybe_open_photo, menu_items, message_id_at, offers_arrived, photo_name,
    pick_reactions, picker_emoji, row_name, AvailableReaction, AvailableReactions, BarChange,
    MenuItem,
};
use paloma::ui::chat_view::rows::{
    album_cell, album_columns, bind_row, grouped_with, AvatarSlot, Days, Media, RowContent, RowPlan,
    SenderSlot,
};

fn message(id: i64, sender: i64, date: i32) -> Message {
    Message {
        id,
        chat_id: 1,
        sender_id: MessageSender::User(sender),
        is_outgoing: false,
        date,
        sending_state: None,
        reply_to: None,
        media_album_id: 0,
        reactions: vec![],
        content: MessageContent::MessageText { text: format!("m{id}") },
    }
}

fn photo(id: i64, album: i64, file_id: i32, caption: &str) -> Message {
    let mut m = message(id, 5, 0);
    m.media_album_id = album;
    m.content = MessageContent::MessagePhoto {
        sizes: vec![PhotoSize { file_id, width: 100, height: 50 }],
        caption: caption.to_string(),
    };
    m
}

fn history(list: Vec<Message>) -> History {
    let mut h = History::new();
    h.ingest_history(&list.into_iter().map(Some).collect(), true, &mut vec![]);
    h
}

fn day(day: i32) -> Option<LocalDate> {
    Some(LocalDate { year: 2025, month: 8, day })
}

fn same_day() -> Days {
    Days { previous: day(9), current: day(9) }
}

fn content(h: &History, pos: usize) -> RowContent {
    match bind_row(h, pos, same_day()) {
        RowPlan::Shown { content } => content,
        RowPlan::Continuation => panic!("row {pos} shows nothing"),
    }
}

#[test]
fn runs_share_a_name_and_an_avatar() {
    let mut h = history(vec![
        message(1, 5, 0),
        message(2, 5, 300),
        message(3, 5, 601),
        message(4, 6, 602),
    ]);
    h.chat_resolved(true, 0, &mut vec![]);
    h.user_resolved(5, "Ann", "", 44, &mut vec![]);
    let slots: Vec<(String, String)> = (0..4)
        .map(|i| {
            let c = content(&h, i);
            (format!("{:?}", c.sender), format!("{:?}", c.avatar))
        })
        .collect();
    assert_eq!(slots[0].0, "Shown { name: \"Ann\" }");
    assert_eq!(slots[0].1, "Reserved { text: \"Ann\" }");
    assert_eq!(slots[1].0, "Hidden");
    assert_eq!(slots[1].1, "Shown { text: \"Ann\", file_id: 44 }");
    assert_eq!(slots[2].0, "Shown { name: \"Ann\" }");
    assert_eq!(slots[2].1, "Shown { text: \"Ann\", file_id: 44 }");
    assert_eq!(slots[3].0, "Waiting");
    assert_eq!(slots[3].1, "Shown { text: \"\", file_id: 0 }");
}

#[test]
fn directions_are_not_grouped() {
    let mut own = message(2, 5, 1);
    own.is_outgoing = true;
    let h = history(vec![message(1, 5, 0), own]);
    let c = content(&h, 1);
    assert!(c.outgoing);
    assert!(matches!(c.sender, SenderSlot::Hidden));
    assert!(matches!(c.avatar, AvatarSlot::Collapsed));
    assert_eq!(c.status, Some(send_status::SENT));
    let c = content(&h, 0);
    assert!(matches!(c.avatar, AvatarSlot::Shown { .. }));
    assert_eq!(c.status, None);
}

#[test]
fn separators_stand_between_days() {
    let h = history(vec![message(1, 5, 0), message(2, 5, 1)]);
    let shown = |pos: usize, days: Days| match bind_row(&h, pos, days) {
        RowPlan::Shown { content } => content.separator,
        RowPlan::Continuation => false,
    };
    assert!(shown(0, same_day()));
    assert!(!shown(1, same_day()));
    assert!(shown(1, Days { previous: day(8), current: day(9) }));
    assert!(shown(1, Days { previous: None, current: None }));
}

#[test]
fn albums_are_one_grid() {
    let h = history(vec![
        photo(1, 7, 11, ""),
        photo(2, 7, 12, "cap"),
        photo(3, 7, 13, "later"),
        photo(4, 8, 21, ""),
        photo(5, 0, 31, "single"),
    ]);
    let c = content(&h, 0);
    match c.media {
        Media::Album { cells, columns, cell } => {
            assert_eq!(cells, [11, 12, 13]);
            assert_eq!((columns, cell), (3, 105));
        }
        other => panic!("{other:?}"),
    }
    assert_eq!(c.body.as_deref(), Some("cap"));
    assert!(!c.live_body);
    assert!(matches!(bind_row(&h, 1, same_day()), RowPlan::Continuation));
    assert!(matches!(bind_row(&h, 2, same_day()), RowPlan::Continuation));
    match content(&h, 3).media {
        Media::Album { cells, columns, cell } => {
            assert_eq!(cells, [21]);
            assert_eq!((columns, cell), (1, 320));
        }
        other => panic!("{other:?}"),
    }
    let c = content(&h, 4);
    assert!(matches!(c.media, Media::Photo { file_id: 31, width: 100, height: 50 }));
    assert_eq!(c.body.as_deref(), Some("single"));
    // The album counts as one message for its avatar.
    assert!(matches!(content(&h, 0).avatar, AvatarSlot::Reserved { .. }));
}

#[test]
fn grids_have_columns_and_cells() {
    let columns: Vec<usize> = (0..8).map(album_columns).collect();
    assert_eq!(columns, [1, 1, 2, 3, 2, 3, 3, 3]);
    assert_eq!((album_cell(1), album_cell(2), album_cell(3)), (320, 159, 105));
}

#[test]
fn voice_rows_hide_the_text() {
    let mut m = message(1, 5, 0);
    m.content = MessageContent::MessageVoiceNote { file_id: 9, duration: -4 };
    let h = history(vec![m]);
    let c = content(&h, 0);
    let v = c.voice.unwrap();
    assert_eq!((v.file_id, v.duration, v.range), (9, 0, 1));
    assert_eq!(c.body, None);
    assert!(!c.live_body);
    let mut m = message(1, 5, 0);
    m.content = MessageContent::MessageVoiceNote { file_id: 9, duration: 42 };
    let v = content(&history(vec![m]), 0).voice.unwrap();
    assert_eq!((v.duration, v.range), (42, 42));
}

#[test]
fn replies_and_chips() {
    let mut m = message(2, 5, 0);
    m.reply_to = Some(MessageReplyTo::Message { chat_id: 1, message_id: 1 });
    m.reactions = vec![Reaction {
        reaction_type: ReactionType::Emoji("🔥".to_string()),
        total_count: 12,
        is_chosen: true,
    }];
    let h = history(vec![message(1, 5, 0), m]);
    let c = content(&h, 1);
    let r = c.reply.unwrap();
    assert_eq!((r.sender.as_str(), r.text.as_str()), ("", "m1"));
    assert_eq!(c.chips.len(), 1);
    assert_eq!(c.chips[0].label, "🔥 12");
    assert!(c.chips[0].is_chosen);
    assert_eq!(c.body.as_deref(), Some("m2"));
    assert!(c.live_body);
    assert!(content(&h, 0).reply.is_none());
}

#[test]
fn empty_bodies_are_not_shown() {
    let mut m = message(1, 5, 0);
    m.content = MessageContent::MessageText { text: String::new() };
    assert_eq!(content(&history(vec![m]), 0).body, None);
}

#[test]
fn markup_is_escaped() {
    assert_eq!(markup_escape_text("a<b>&'\""), "a&lt;b&gt;&amp;&#39;&quot;");
    assert_eq!(markup_escape_text("x\u{1}\u{1f}\u{7f}\u{9f}\n\t"), "x&#x1;&#x1f;&#x7f;&#x9f;\n\t");
    assert_eq!(markup_escape_text("a\0b"), "a");
    assert_eq!(markup_escape_text("é👍"), "é👍");
    for c in markup_escape_text("<a href='x'>\"&\"</a>").chars() {
        assert!(!['<', '>', '"', '\''].contains(&c));
    }
}

#[test]
fn addresses_become_links() {
    assert_eq!(linkify("plain & simple"), "plain &amp; simple");
    assert_eq!(
        linkify("see https://a.b/c?d&e now"),
        "see <a href=\"https://a.b/c?d&amp;e\">https://a.b/c?d&amp;e</a> now"
    );
    assert_eq!(
        linkify("http://a\nhttp://b"),
        "<a href=\"http://a\">http://a</a>\n<a href=\"http://b\">http://b</a>"
    );
    assert_eq!(linkify("ftp://x http:/y"), "ftp://x http:/y");
    assert_eq!(linkify(""), "");
    assert_eq!(
        linkify("xhttp://\u{a0}é<"),
        "x<a href=\"http://\u{a0}é&lt;\">http://\u{a0}é&lt;</a>"
    );
    let tags = linkify("<b> http://a <i> https://b").matches('<').count();
    assert_eq!(tags, 4);
}

fn offer(emoji: &str, needs_premium: bool) -> AvailableReaction {
    AvailableReaction { reaction_type: ReactionType::Emoji(emoji.to_string()), needs_premium }
}

#[test]
fn reactions_are_picked_in_order() {
    let offers = AvailableReactions {
        top: vec![offer("a", false), offer("b", true), offer("a", false)],
        popular: vec![
            AvailableReaction { reaction_type: ReactionType::Other, needs_premium: false },
            offer("c", false),
        ],
        recent: vec![offer("a", false), offer("d", false)],
    };
    assert_eq!(pick_reactions(&offers), ["a", "c", "d"]);
    let many = AvailableReactions {
        top: (0..6).map(|i| offer(&i.to_string(), false)).collect(),
        popular: (6..20).map(|i| offer(&i.to_string(), false)).collect(),
        recent: vec![],
    };
    assert_eq!(pick_reactions(&many), ["0", "1", "2", "3", "4", "5", "6", "7"]);
}

#[test]
fn reaction_bar_follows_the_offers() {
    let seed = picker_emoji();
    assert_eq!(seed, ["👍", "❤️", "🔥", "🎉", "😁", "😢", "🙏"]);
    assert!(matches!(offers_arrived(None, &seed), BarChange::Keep));
    let none = AvailableReactions { top: vec![offer("a", true)], popular: vec![], recent: vec![] };
    assert!(matches!(offers_arrived(Some(&none), &seed), BarChange::Hide));
    let same = AvailableReactions {
        top: seed.iter().map(|e| offer(e, false)).collect(),
        popular: vec![],
        recent: vec![],
    };
    assert!(matches!(offers_arrived(Some(&same), &seed), BarChange::Keep));
    let other = AvailableReactions { top: vec![offer("a", false)], popular: vec![], recent: vec![] };
    match offers_arrived(Some(&other), &seed) {
        BarChange::Replace { emoji } => assert_eq!(emoji, ["a"]),
        other => panic!("{other:?}"),
    }
}

#[test]
fn menus_have_items() {
    assert_eq!(
        menu_items(true),
        [MenuItem::Reply, MenuItem::Edit, MenuItem::Copy, MenuItem::Forward, MenuItem::Delete]
    );
    assert_eq!(
        menu_items(false),
        [MenuItem::Reply, MenuItem::Copy, MenuItem::Forward, MenuItem::Delete]
    );
    let labels: Vec<(String, bool)> =
        menu_items(true).into_iter().map(look).map(|(_, l, d)| (l, d)).collect();
    assert_eq!(labels[0], ("Reply".to_string(), false));
    assert_eq!(labels[4], ("Delete".to_string(), true));
    assert_eq!(look(MenuItem::Edit).0, "document-edit-symbolic");
}

#[test]
fn menus_stay_inside() {
    assert_eq!(clamp(10, 100, 400), 10);
    assert_eq!(clamp(350, 100, 400), 300);
    assert_eq!(clamp(350, 500, 400), 0);
    assert_eq!(clamp(350, 100, 0), 350);
    assert_eq!(clamp(-5, 10, 0), 0);
}

#[test]
fn widget_names_lead_back() {
    for id in [0i64, 7, -7, i64::MIN, i64::MAX] {
        let names = vec!["body".to_string(), row_name(id), row_name(1)];
        assert_eq!(message_id_at(&names), Some(id));
    }
    assert_eq!(row_name(12), "msg-row-12");
    assert_eq!(message_id_at(&vec!["msg-row-x".to_string(), row_name(3)]), Some(3));
    assert_eq!(message_id_at(&vec!["msg-row".to_string()]), None);
    assert_eq!(photo_name(-4), "photo--4");
    assert_eq!(maybe_open_photo(&vec!["x".to_string(), photo_name(9)]), Some(9));
    assert_eq!(maybe_open_photo(&vec!["photo-x".to_string(), photo_name(9)]), None);
    assert_eq!(maybe_open_photo(&vec![photo_name(0)]), None);
    assert_eq!(maybe_open_photo(&vec!["photo".to_string()]), None);
}

/// Markup without its tags, with the references resolved.
fn read_back(markup: &str) -> String {
    let mut text = String::new();
    let mut in_tag = false;
    for c in markup.chars() {
        match c {
            '<' => in_tag = true,
            '>' => in_tag = false,
            c if !in_tag => text.push(c),
            _ => {}
        }
    }
    text.replace("&#x1;", "\u{1}")
        .replace("&#x9f;", "\u{9f}")
        .replace("&lt;", "<")
        .replace("&gt;", ">")
        .replace("&quot;", "\"")
        .replace("&#39;", "'")
        .replace("&amp;", "&")
}

#[test]
fn rendered_messages_read_back() {
    for text in [
        "",
        "a < b && c > d",
        "see \"https://a.b/?x=1&y='2'\" and http://c</a>",
        "<a href=\"http://x\">http://x</a>",
        "\u{1}&amp;\u{9f} é\n",
    ] {
        let markup = linkify(text);
        assert_eq!(read_back(&markup), text);
    }
    assert_eq!(
        linkify("http://a\"><b>"),
        "<a href=\"http://a&quot;&gt;&lt;b&gt;\">http://a&quot;&gt;&lt;b&gt;</a>"
    );
}

#[test]
fn grouping_is_mutual() {
    let object = |sender: i64, date: i32| MessageObject::from_message(&message(1, sender, date));
    let a = object(5, 1000);
    for (b, grouped) in [
        (object(5, 1300), true),
        (object(5, 1301), false),
        (object(5, 700), true),
        (object(5, 699), false),
        (object(6, 1000), false),
    ] {
        assert_eq!(grouped_with(Some(&a), Some(&b)), grouped);
        assert_eq!(grouped_with(Some(&b), Some(&a)), grouped);
    }
    let mut own = object(5, 1000);
    own.is_outgoing = true;
    assert!(!grouped_with(Some(&a), Some(&own)));
    assert!(!grouped_with(None, Some(&a)));
    assert!(!grouped_with(Some(&a), None));
    assert!(!grouped_with(None, None));
}
