//! Messages and chats as items of a list.

use paloma::models::chat_object::{main_list_order, message_preview, photo_file_id_of};
use paloma::models::message_object::{
    best_photo_size, caption_of, content_text, parse_kind, MessageKind,
};
use paloma::models::{kind, send_status, ChatObject, MessageObject};
use paloma::tdlib::types::{
    Chat, ChatListKind, ChatPosition, Message, MessageContent, MessageReplyTo, MessageSender,
    MessageSendingState, PhotoSize, Reaction, ReactionType,
};

fn message(id: i64, content: MessageContent) -> Message {
    Message {
        id,
        chat_id: 1,
        sender_id: MessageSender::User(5),
        is_outgoing: false,
        date: 100,
        sending_state: None,
        reply_to: None,
        media_album_id: 0,
        reactions: vec![],
        content,
    }
}

fn text(s: &str) -> MessageContent {
    MessageContent::MessageText { text: s.to_string() }
}

fn size(file_id: i32, width: i32, height: i32) -> PhotoSize {
    PhotoSize { file_id, width, height }
}

#[test]
fn best_size_is_the_largest_that_fits() {
    let sizes = [size(1, 90, 90), size(2, 1280, 720), size(3, 2560, 1440), size(4, 800, 800)];
    assert_eq!(best_photo_size(&sizes), Some(size(2, 1280, 720)));
    let large = [size(1, 1281, 10), size(2, 2000, 2000), size(3, 1500, 1500)];
    assert_eq!(best_photo_size(&large), Some(size(2, 2000, 2000)));
    let equal = [size(1, 100, 200), size(2, 200, 100)];
    assert_eq!(best_photo_size(&equal), Some(size(2, 200, 100)));
    assert_eq!(best_photo_size(&[]), None);
}

#[test]
fn kinds_of_content() {
    assert_eq!(parse_kind(&text("x")).as_i32(), kind::TEXT);
    let photo = MessageContent::MessagePhoto {
        sizes: vec![size(7, 10, 20)],
        caption: "c".to_string(),
    };
    assert!(matches!(
        parse_kind(&photo),
        MessageKind::Photo { file_id: 7, width: 10, height: 20 }
    ));
    let none = MessageContent::MessagePhoto { sizes: vec![], caption: String::new() };
    assert_eq!(parse_kind(&none).as_i32(), kind::OTHER);
    let doc = MessageContent::MessageDocument {
        file_id: 3,
        file_name: "a.pdf".to_string(),
        size: 2048,
        caption: "see".to_string(),
    };
    assert_eq!(parse_kind(&doc).as_i32(), kind::DOCUMENT);
    let voice = MessageContent::MessageVoiceNote { file_id: 4, duration: 61 };
    assert_eq!(parse_kind(&voice).as_i32(), kind::VOICE);
    assert_eq!(parse_kind(&MessageContent::MessageSticker).as_i32(), kind::STICKER);
    assert_eq!(parse_kind(&MessageContent::MessageVideo).as_i32(), kind::VIDEO);
    assert_eq!(parse_kind(&MessageContent::MessageVideoNote).as_i32(), kind::VIDEO);
    assert_eq!(parse_kind(&MessageContent::MessagePoll).as_i32(), kind::OTHER);
    assert_eq!(caption_of(&photo), "c");
    assert_eq!(caption_of(&doc), "see");
    assert_eq!(caption_of(&text("x")), "");
}

#[test]
fn texts_of_content() {
    let cases: Vec<(MessageContent, &str)> = vec![
        (text("hello"), "hello"),
        (
            MessageContent::MessagePhoto { sizes: vec![], caption: String::new() },
            "📷 Photo",
        ),
        (
            MessageContent::MessagePhoto { sizes: vec![], caption: "sea".to_string() },
            "sea",
        ),
        (MessageContent::MessageVideo, "🎬 Video"),
        (MessageContent::MessageVideoNote, "🎬 Video message"),
        (
            MessageContent::MessageVoiceNote { file_id: 1, duration: 65 },
            "🎤 Voice message (1:05)",
        ),
        (MessageContent::MessageAudio, "🎵 Audio"),
        (
            MessageContent::MessageDocument {
                file_id: 1,
                file_name: String::new(),
                size: 10,
                caption: String::new(),
            },
            "📎 Document (10 B)",
        ),
        (
            MessageContent::MessageDocument {
                file_id: 1,
                file_name: "a.zip".to_string(),
                size: 3 << 20,
                caption: "ignored".to_string(),
            },
            "📎 a.zip (3.0 MB)",
        ),
        (MessageContent::MessageSticker, "Sticker"),
        (MessageContent::MessageAnimation, "GIF"),
        (MessageContent::MessageAnimatedEmoji, "Emoji"),
        (MessageContent::MessageLocation, "📍 Location"),
        (MessageContent::MessageVenue, "📍 Venue"),
        (MessageContent::MessageContact, "👤 Contact"),
        (MessageContent::MessagePoll, "📊 Poll"),
        (MessageContent::MessageCall, "📞 Call"),
        (MessageContent::Other, "Unsupported message"),
    ];
    for (content, expected) in &cases {
        assert_eq!(content_text(content), *expected);
    }
}

#[test]
fn message_object_takes_everything() {
    let mut m = message(
        11,
        MessageContent::MessagePhoto { sizes: vec![size(7, 10, 20)], caption: "c".to_string() },
    );
    m.sender_id = MessageSender::Chat(-3);
    m.reply_to = Some(MessageReplyTo::Message { chat_id: 1, message_id: 9 });
    m.media_album_id = 77;
    m.reactions = vec![
        Reaction { reaction_type: ReactionType::Other, total_count: 4, is_chosen: true },
        Reaction {
            reaction_type: ReactionType::Emoji("👍".to_string()),
            total_count: 2,
            is_chosen: true,
        },
    ];
    let o = MessageObject::from_message(&m);
    assert_eq!((o.id, o.sender_id, o.date), (11, -3, 100));
    assert_eq!((o.reply_to_id, o.media_album_id), (9, 77));
    assert_eq!((o.kind, o.photo_file_id, o.photo_width, o.photo_height), (kind::PHOTO, 7, 10, 20));
    assert_eq!((o.content_text.as_str(), o.media_caption.as_str()), ("c", "c"));
    assert_eq!(o.send_status, send_status::SENT);
    assert!(!o.is_pending);
    assert_eq!(o.reactions.len(), 1);
    assert_eq!((o.reactions[0].emoji.as_str(), o.reactions[0].count), ("👍", 2));
    assert!(o.reactions[0].is_chosen);
}

#[test]
fn delivery_states_have_glyphs() {
    assert_eq!(send_status::send_status_glyph(send_status::PENDING), "🕓");
    assert_eq!(send_status::send_status_glyph(send_status::SENT), "✓");
    assert_eq!(send_status::send_status_glyph(send_status::READ), "✓✓");
    assert_eq!(send_status::send_status_glyph(-1), "🕓");
}

#[test]
fn cross_chat_replies_have_no_target() {
    let mut m = message(11, text("x"));
    m.reply_to = Some(MessageReplyTo::Message { chat_id: 2, message_id: 9 });
    assert_eq!(MessageObject::from_message(&m).reply_to_id, 0);
    m.chat_id = 2;
    assert_eq!(MessageObject::from_message(&m).reply_to_id, 9);
}

#[test]
fn pending_and_story_replies() {
    for state in [MessageSendingState::Pending, MessageSendingState::Failed] {
        let mut m = message(1, text("x"));
        m.sending_state = Some(state);
        m.reply_to = Some(MessageReplyTo::Story);
        let o = MessageObject::from_message(&m);
        assert!(o.is_pending);
        assert_eq!(o.send_status, send_status::PENDING);
        assert_eq!(o.reply_to_id, 0);
    }
}

#[test]
fn new_content_leaves_no_trace_of_the_old() {
    let mut o = MessageObject::from_message(&message(
        1,
        MessageContent::MessageDocument {
            file_id: 3,
            file_name: "a.pdf".to_string(),
            size: 9,
            caption: "see".to_string(),
        },
    ));
    assert_eq!((o.doc_file_id, o.doc_name.as_str(), o.doc_size), (3, "a.pdf", 9));
    o.set_content(&MessageContent::MessageVoiceNote { file_id: 8, duration: 4 });
    assert_eq!((o.doc_file_id, o.doc_name.as_str(), o.doc_size), (0, "", 0));
    assert_eq!(o.media_caption, "");
    assert_eq!((o.voice_file_id, o.voice_duration), (8, 4));
    o.set_content(&text("t"));
    assert_eq!((o.voice_file_id, o.voice_duration), (0, 0));
    assert_eq!((o.kind, o.content_text.as_str()), (kind::TEXT, "t"));
}

#[test]
fn refreshing_keeps_looked_up_fields() {
    let mut o = MessageObject::from_message(&message(1, text("a")));
    o.sender_name = "Ann".to_string();
    o.avatar_file_id = 6;
    o.reply_sender = "Bo".to_string();
    o.reply_snippet = "…".to_string();
    o.update_from_message(&message(2, text("b")));
    assert_eq!((o.id, o.content_text.as_str()), (2, "b"));
    assert_eq!((o.sender_name.as_str(), o.avatar_file_id), ("Ann", 6));
    assert_eq!((o.reply_sender.as_str(), o.reply_snippet.as_str()), ("Bo", "…"));
}

fn chat(id: i64) -> Chat {
    Chat {
        id,
        title: "T".to_string(),
        is_group: false,
        unread_count: 3,
        last_read_outbox_message_id: 0,
        positions: vec![
            ChatPosition { list: ChatListKind::Archive, order: 5 },
            ChatPosition { list: ChatListKind::Main, order: 8 },
            ChatPosition { list: ChatListKind::Main, order: 9 },
        ],
        last_message: Some(message(4, text("last"))),
        photo: Some(12),
    }
}

#[test]
fn chat_object_takes_everything() {
    let o = ChatObject::from_chat(&chat(3));
    assert_eq!((o.id, o.title.as_str(), o.unread_count), (3, "T", 3));
    assert_eq!((o.order, o.photo_file_id), (8, 12));
    assert_eq!((o.last_message.as_str(), o.last_message_date), ("last", 100));

    let mut bare = chat(4);
    bare.positions = vec![ChatPosition { list: ChatListKind::Folder(2), order: 5 }];
    bare.last_message = None;
    bare.photo = None;
    let o = ChatObject::from_chat(&bare);
    assert_eq!((o.order, o.photo_file_id), (0, 0));
    assert_eq!((o.last_message.as_str(), o.last_message_date), ("", 0));

    let o = ChatObject::new(9);
    assert_eq!((o.id, o.title.as_str(), o.order), (9, "", 0));
}

#[test]
fn chat_helpers() {
    assert_eq!(main_list_order(&[]), 0);
    assert_eq!(photo_file_id_of(None), 0);
    assert_eq!(photo_file_id_of(Some(4)), 4);
}

#[test]
fn previews_take_one_line() {
    let preview = |content| message_preview(&message(1, content));
    assert_eq!(preview(text("hi  there")), "hi  there");
    assert_eq!(preview(text("a\nb\r\nc\u{2028}d")), "a b  c d");
    assert_eq!(preview(text("")), "");
    let photo = |caption: &str| MessageContent::MessagePhoto {
        sizes: vec![size(7, 10, 20)],
        caption: caption.to_string(),
    };
    assert_eq!(preview(photo("")), "[Photo]");
    assert_eq!(preview(photo("one\ntwo")), "[Photo]");
    assert_eq!(preview(MessageContent::MessageCall), "[Call]");
    assert_eq!(preview(MessageContent::MessageVideoNote), "[Video message]");
    assert_eq!(preview(MessageContent::Other), "[Unsupported message]");
}
