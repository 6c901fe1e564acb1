//! [`MessageObject`]: the item behind a row in the message history.
//!
//! One value per message. The parsed [`MessageKind`] is flattened onto scalar
//! fields: a `kind` discriminant (see [`MessageKind::as_i32`]) plus the media
//! fields it needs.

use crate::models::kind;
use crate::models::measure::{duration_text, format_duration, format_size, size_text};
use crate::models::send_status;
use crate::tdlib::types::{reaction_views, ContentView, Message, MessageContent, MessageReplyTo,
    MessageSender, MessageValue, PhotoSize, Reaction, ReactionType, ReactionView};
use vstd::prelude::*;

verus! {

/// Photo sizes whose longest edge is at most this many pixels are preferred.
pub const MAX_PHOTO_EDGE: i32 = 1280;

/// A message's parsed content kind. Media bytes are never held here, only the
/// file ids and metadata needed to render a bubble and download the blob.
#[derive(Debug)]
pub enum MessageKind {
    /// Plain (or formatted, flattened) text.
    Text,
    /// A photo: the chosen size's file id and pixel dimensions.
    Photo { file_id: i32, width: i32, height: i32 },
    /// A document: file id, original name, size in bytes.
    Document { file_id: i32, name: String, size: i64 },
    /// A voice note of `duration` seconds.
    Voice { duration: i32 },
    Sticker,
    Video,
    /// Anything else.
    Other,
}

/// The mathematical value of a [`MessageKind`].
pub enum KindView {
    Text,
    Photo { file_id: i32, width: i32, height: i32 },
    Document { file_id: i32, name: Seq<char>, size: i64 },
    Voice { duration: i32 },
    Sticker,
    Video,
    Other,
}

impl View for MessageKind {
    type V = KindView;

    open spec fn view(&self) -> KindView {
        match *self {
            MessageKind::Text => KindView::Text,
            MessageKind::Photo { file_id, width, height } => KindView::Photo {
                file_id,
                width,
                height,
            },
            MessageKind::Document { file_id, name, size } => KindView::Document {
                file_id,
                name: name@,
                size,
            },
            MessageKind::Voice { duration } => KindView::Voice { duration },
            MessageKind::Sticker => KindView::Sticker,
            MessageKind::Video => KindView::Video,
            MessageKind::Other => KindView::Other,
        }
    }
}

impl KindView {
    /// The discriminant stored in the `kind` field.
    pub open spec fn discriminant(self) -> i32 {
        match self {
            KindView::Text => kind::TEXT,
            KindView::Photo { .. } => kind::PHOTO,
            KindView::Document { .. } => kind::DOCUMENT,
            KindView::Voice { .. } => kind::VOICE,
            KindView::Sticker => kind::STICKER,
            KindView::Video => kind::VIDEO,
            KindView::Other => kind::OTHER,
        }
    }
}

impl MessageKind {
    /// Stable discriminant stored in the `kind` field.
    pub fn as_i32(&self) -> (r: i32)
        ensures
            r == self@.discriminant(),
    {
        match self {
            MessageKind::Text => kind::TEXT,
            MessageKind::Photo { .. } => kind::PHOTO,
            MessageKind::Document { .. } => kind::DOCUMENT,
            MessageKind::Voice { .. } => kind::VOICE,
            MessageKind::Sticker => kind::STICKER,
            MessageKind::Video => kind::VIDEO,
            MessageKind::Other => kind::OTHER,
        }
    }
}

/// One reaction chip under a bubble.
#[derive(Debug)]
pub struct ReactionChip {
    pub emoji: String,
    pub count: i32,
    pub is_chosen: bool,
}

/// The mathematical value of a [`ReactionChip`].
pub struct ChipView {
    pub emoji: Seq<char>,
    pub count: i32,
    pub is_chosen: bool,
}

impl View for ReactionChip {
    type V = ChipView;

    open spec fn view(&self) -> ChipView {
        ChipView { emoji: self.emoji@, count: self.count, is_chosen: self.is_chosen }
    }
}

/// The values of a list of chips.
pub open spec fn chip_views(v: Seq<ReactionChip>) -> Seq<ChipView> {
    Seq::new(v.len(), |i: int| v[i]@)
}

/// The item behind a row in the message history.
#[derive(Debug)]
pub struct MessageObject {
    /// Message id. A pending message has a temporary id first.
    pub id: i64,
    /// A user id or a chat id; 0 if unknown.
    pub sender_id: i64,
    /// True if the current user sent this message.
    pub is_outgoing: bool,
    /// The rendered body text (real text, or a placeholder for media).
    pub content_text: String,
    /// Unix seconds.
    pub date: i64,
    /// Display name of the sender, shown above incoming group messages.
    pub sender_name: String,
    /// True while the message is shown but not confirmed by the server.
    pub is_pending: bool,
    /// Delivery state, one of [`crate::models::send_status`].
    pub send_status: i32,
    /// Discriminant from [`MessageKind::as_i32`].
    pub kind: i32,
    pub photo_file_id: i32,
    pub photo_width: i32,
    pub photo_height: i32,
    /// Caption under a photo or document (may be empty).
    pub media_caption: String,
    pub doc_file_id: i32,
    pub doc_name: String,
    pub doc_size: i64,
    pub voice_file_id: i32,
    pub voice_duration: i32,
    /// The album the message belongs to, or 0.
    pub media_album_id: i64,
    /// Replied-to message id, or 0.
    pub reply_to_id: i64,
    /// Resolved sender name of the replied-to message.
    pub reply_sender: String,
    /// Resolved snippet of the replied-to message.
    pub reply_snippet: String,
    /// Sender's small profile-photo file id, or 0 for initials.
    pub avatar_file_id: i32,
    pub reactions: Vec<ReactionChip>,
}

/// The mathematical value of a [`MessageObject`].
pub struct MessageView {
    pub id: i64,
    pub sender_id: i64,
    pub is_outgoing: bool,
    pub content_text: Seq<char>,
    pub date: i64,
    pub sender_name: Seq<char>,
    pub is_pending: bool,
    pub send_status: i32,
    pub kind: i32,
    pub photo_file_id: i32,
    pub photo_width: i32,
    pub photo_height: i32,
    pub media_caption: Seq<char>,
    pub doc_file_id: i32,
    pub doc_name: Seq<char>,
    pub doc_size: i64,
    pub voice_file_id: i32,
    pub voice_duration: i32,
    pub media_album_id: i64,
    pub reply_to_id: i64,
    pub reply_sender: Seq<char>,
    pub reply_snippet: Seq<char>,
    pub avatar_file_id: i32,
    pub reactions: Seq<ChipView>,
}

impl View for MessageObject {
    type V = MessageView;

    open spec fn view(&self) -> MessageView {
        MessageView {
            id: self.id,
            sender_id: self.sender_id,
            is_outgoing: self.is_outgoing,
            content_text: self.content_text@,
            date: self.date,
            sender_name: self.sender_name@,
            is_pending: self.is_pending,
            send_status: self.send_status,
            kind: self.kind,
            photo_file_id: self.photo_file_id,
            photo_width: self.photo_width,
            photo_height: self.photo_height,
            media_caption: self.media_caption@,
            doc_file_id: self.doc_file_id,
            doc_name: self.doc_name@,
            doc_size: self.doc_size,
            voice_file_id: self.voice_file_id,
            voice_duration: self.voice_duration,
            media_album_id: self.media_album_id,
            reply_to_id: self.reply_to_id,
            reply_sender: self.reply_sender@,
            reply_snippet: self.reply_snippet@,
            avatar_file_id: self.avatar_file_id,
            reactions: chip_views(self.reactions@),
        }
    }
}

// ---------------------------------------------------------------------------
// Content
// ---------------------------------------------------------------------------

/// Pixel area of a photo size.
pub open spec fn area(s: PhotoSize) -> int {
    s.width * s.height
}

/// Whether the longest edge of a photo size is small enough to be preferred.
pub open spec fn fits(s: PhotoSize) -> bool {
    s.width <= MAX_PHOTO_EDGE && s.height <= MAX_PHOTO_EDGE
}

/// The largest size by area, the later one among equals; with `capped`, only
/// among the sizes that fit.
pub open spec fn largest(sizes: Seq<PhotoSize>, capped: bool) -> Option<PhotoSize>
    decreases sizes.len(),
{
    if sizes.len() == 0 {
        None
    } else {
        let rest = largest(sizes.drop_last(), capped);
        let s = sizes.last();
        if capped && !fits(s) {
            rest
        } else if rest is Some && area(rest->0) > area(s) {
            rest
        } else {
            Some(s)
        }
    }
}

/// The size to display: the largest that fits, else the largest.
pub open spec fn best_size(sizes: Seq<PhotoSize>) -> Option<PhotoSize> {
    match largest(sizes, true) {
        Some(s) => Some(s),
        None => largest(sizes, false),
    }
}

/// The content kind of a message.
pub open spec fn kind_of(content: ContentView) -> KindView {
    match content {
        ContentView::MessageText { .. } => KindView::Text,
        ContentView::MessagePhoto { sizes, .. } => match best_size(sizes) {
            Some(s) => KindView::Photo { file_id: s.file_id, width: s.width, height: s.height },
            None => KindView::Other,
        },
        ContentView::MessageDocument { file_id, file_name, size, .. } => KindView::Document {
            file_id,
            name: file_name,
            size,
        },
        ContentView::MessageVoiceNote { duration, .. } => KindView::Voice { duration },
        ContentView::MessageSticker => KindView::Sticker,
        ContentView::MessageVideo => KindView::Video,
        ContentView::MessageVideoNote => KindView::Video,
        _ => KindView::Other,
    }
}

/// The caption of a photo or document.
pub open spec fn caption(content: ContentView) -> Seq<char> {
    match content {
        ContentView::MessagePhoto { caption, .. } => caption,
        ContentView::MessageDocument { caption, .. } => caption,
        _ => Seq::empty(),
    }
}

/// `text`, or `fallback` where it is empty.
pub open spec fn or_else(text: Seq<char>, fallback: Seq<char>) -> Seq<char> {
    if text.len() == 0 {
        fallback
    } else {
        text
    }
}

/// The display text of a message: its text, or a short placeholder for media.
pub open spec fn text_of(content: ContentView) -> Seq<char> {
    match content {
        ContentView::MessageText { text } => text,
        ContentView::MessagePhoto { caption, .. } => or_else(caption, "📷 Photo"@),
        ContentView::MessageVideo => "🎬 Video"@,
        ContentView::MessageVideoNote => "🎬 Video message"@,
        ContentView::MessageVoiceNote { duration, .. } => "🎤 Voice message ("@ + duration_text(
            duration as int,
        ) + ")"@,
        ContentView::MessageAudio => "🎵 Audio"@,
        ContentView::MessageDocument { file_name, size, .. } => "📎 "@ + or_else(
            file_name,
            "Document"@,
        ) + " ("@ + size_text(size as int) + ")"@,
        ContentView::MessageSticker => "Sticker"@,
        ContentView::MessageAnimation => "GIF"@,
        ContentView::MessageAnimatedEmoji => "Emoji"@,
        ContentView::MessageLocation => "📍 Location"@,
        ContentView::MessageVenue => "📍 Venue"@,
        ContentView::MessageContact => "👤 Contact"@,
        ContentView::MessagePoll => "📊 Poll"@,
        ContentView::MessageCall => "📞 Call"@,
        ContentView::Other => "Unsupported message"@,
    }
}

/// The chips of the emoji reactions, in order; other kinds show no chip.
pub open spec fn chips(reactions: Seq<ReactionView>) -> Seq<ChipView>
    decreases reactions.len(),
{
    if reactions.len() == 0 {
        Seq::empty()
    } else {
        let rest = chips(reactions.drop_last());
        let r = reactions.last();
        match r.emoji {
            Some(emoji) => rest.push(
                ChipView { emoji, count: r.total_count, is_chosen: r.is_chosen },
            ),
            None => rest,
        }
    }
}

/// The id of a sender, user or chat.
pub open spec fn sender_number(sender: MessageSender) -> i64 {
    match sender {
        MessageSender::User(id) => id,
        MessageSender::Chat(id) => id,
    }
}

/// The id of the replied-to message of the same chat; 0 for a message of
/// another chat, a story or no reply.
pub open spec fn reply_number(own_chat: i64, reply_to: Option<MessageReplyTo>) -> i64 {
    match reply_to {
        Some(MessageReplyTo::Message { chat_id, message_id }) => if chat_id == own_chat {
            message_id
        } else {
            0
        },
        _ => 0,
    }
}

impl MessageView {
    /// A message that carries only its id.
    pub open spec fn blank(id: i64) -> MessageView {
        MessageView {
            id,
            sender_id: 0,
            is_outgoing: false,
            content_text: Seq::empty(),
            date: 0,
            sender_name: Seq::empty(),
            is_pending: false,
            send_status: send_status::PENDING,
            kind: kind::TEXT,
            photo_file_id: 0,
            photo_width: 0,
            photo_height: 0,
            media_caption: Seq::empty(),
            doc_file_id: 0,
            doc_name: Seq::empty(),
            doc_size: 0,
            voice_file_id: 0,
            voice_duration: 0,
            media_album_id: 0,
            reply_to_id: 0,
            reply_sender: Seq::empty(),
            reply_snippet: Seq::empty(),
            avatar_file_id: 0,
            reactions: Seq::empty(),
        }
    }

    /// The message with its content replaced. Media fields that the new kind
    /// does not use are reset.
    pub open spec fn with_content(self, content: ContentView) -> MessageView {
        let k = kind_of(content);
        MessageView {
            content_text: text_of(content),
            kind: k.discriminant(),
            photo_file_id: if k is Photo {
                k->Photo_file_id
            } else {
                0
            },
            photo_width: if k is Photo {
                k->width
            } else {
                0
            },
            photo_height: if k is Photo {
                k->height
            } else {
                0
            },
            doc_file_id: if k is Document {
                k->Document_file_id
            } else {
                0
            },
            doc_name: if k is Document {
                k->name
            } else {
                Seq::empty()
            },
            doc_size: if k is Document {
                k->size
            } else {
                0
            },
            voice_file_id: match content {
                ContentView::MessageVoiceNote { file_id, .. } => file_id,
                _ => 0,
            },
            voice_duration: if k is Voice {
                k->duration
            } else {
                0
            },
            media_caption: if k is Photo || k is Document {
                caption(content)
            } else {
                Seq::empty()
            },
            ..self
        }
    }

    /// The message with everything that `msg` reports taken from it. The id,
    /// the names and the reply text are kept.
    pub open spec fn applied(self, msg: MessageValue) -> MessageView {
        MessageView {
            sender_id: sender_number(msg.sender_id),
            is_outgoing: msg.is_outgoing,
            date: msg.date as i64,
            is_pending: msg.sending_state is Some,
            send_status: if msg.sending_state is Some {
                send_status::PENDING
            } else {
                send_status::SENT
            },
            reply_to_id: reply_number(msg.chat_id, msg.reply_to),
            media_album_id: msg.media_album_id,
            reactions: chips(msg.reactions),
            ..self
        }.with_content(msg.content)
    }

    /// A message built from what TDLib reports.
    pub open spec fn from_message(msg: MessageValue) -> MessageView {
        MessageView::blank(msg.id).applied(msg)
    }

    /// The message refreshed from a newer report, under its id.
    pub open spec fn updated(self, msg: MessageValue) -> MessageView {
        MessageView { id: msg.id, ..self }.applied(msg)
    }
}

/// Flatten a sender to its numeric id.
pub fn sender_id_of(sender: MessageSender) -> (r: i64)
    ensures
        r == sender_number(sender),
{
    match sender {
        MessageSender::User(id) => id,
        MessageSender::Chat(id) => id,
    }
}

/// The id of the message of the chat `own_chat` that is replied to; 0 for
/// cross-chat replies, story replies and no reply.
pub fn reply_to_id_of(own_chat: i64, reply_to: Option<MessageReplyTo>) -> (r: i64)
    ensures
        r == reply_number(own_chat, reply_to),
{
    match reply_to {
        Some(MessageReplyTo::Message { chat_id, message_id }) => {
            if chat_id == own_chat {
                message_id
            } else {
                0
            }
        },
        _ => 0,
    }
}

fn area_of(s: PhotoSize) -> (r: i64)
    ensures
        r == area(s),
{
    let w: i64 = s.width as i64;
    let h: i64 = s.height as i64;
    assert(-0x4000_0000_0000_0000 <= w * h <= 0x4000_0000_0000_0000) by (nonlinear_arith)
        requires
            -0x8000_0000 <= w <= 0x8000_0000,
            -0x8000_0000 <= h <= 0x8000_0000,
    ;
    w * h
}

/// The largest size by area, the later one among equals.
fn largest_size(sizes: &[PhotoSize], capped: bool) -> (r: Option<PhotoSize>)
    ensures
        r == largest(sizes@, capped),
{
    let mut best: Option<PhotoSize> = None;
    for i in 0..sizes.len()
        invariant
            best == largest(sizes@.take(i as int), capped),
    {
        let s: PhotoSize = sizes[i];
        assert(sizes@.take(i + 1).drop_last() =~= sizes@.take(i as int));
        let skipped: bool = capped && !(s.width <= MAX_PHOTO_EDGE && s.height <= MAX_PHOTO_EDGE);
        let smaller: bool = match best {
            Some(b) => area_of(b) > area_of(s),
            None => false,
        };
        if !skipped && !smaller {
            best = Some(s);
        }
    }
    assert(sizes@.take(sizes@.len() as int) =~= sizes@);
    best
}

/// Pick the best photo size to display: the largest whose longest edge is at
/// most [`MAX_PHOTO_EDGE`], falling back to the overall largest by pixel area.
/// The order of `sizes` only decides between equal areas.
pub fn best_photo_size(sizes: &[PhotoSize]) -> (r: Option<PhotoSize>)
    ensures
        r == best_size(sizes@),
{
    match largest_size(sizes, true) {
        Some(s) => Some(s),
        None => largest_size(sizes, false),
    }
}

/// Parse a message's content into its kind.
pub fn parse_kind(content: &MessageContent) -> (r: MessageKind)
    ensures
        r@ == kind_of(content@),
{
    match content {
        MessageContent::MessageText { .. } => MessageKind::Text,
        MessageContent::MessagePhoto { sizes, .. } => match best_photo_size(sizes.as_slice()) {
            Some(s) => MessageKind::Photo {
                file_id: s.file_id,
                width: s.width,
                height: s.height,
            },
            None => MessageKind::Other,
        },
        MessageContent::MessageDocument { file_id, file_name, size, .. } => MessageKind::Document {
            file_id: *file_id,
            name: file_name.clone(),
            size: *size,
        },
        MessageContent::MessageVoiceNote { duration, .. } => MessageKind::Voice {
            duration: *duration,
        },
        MessageContent::MessageSticker => MessageKind::Sticker,
        MessageContent::MessageVideo => MessageKind::Video,
        MessageContent::MessageVideoNote => MessageKind::Video,
        _ => MessageKind::Other,
    }
}

/// The caption text of a photo or document message (empty if none).
pub fn caption_of(content: &MessageContent) -> (r: String)
    ensures
        r@ == caption(content@),
{
    match content {
        MessageContent::MessagePhoto { caption, .. } => caption.clone(),
        MessageContent::MessageDocument { caption, .. } => caption.clone(),
        _ => String::new(),
    }
}

/// Render the display text of a message's content: real text for text messages,
/// a short human placeholder for media (documents show name and size).
pub fn content_text(content: &MessageContent) -> (r: String)
    ensures
        r@ == text_of(content@),
{
    match content {
        MessageContent::MessageText { text } => text.clone(),
        MessageContent::MessagePhoto { caption, .. } => {
            if caption.as_str().is_empty() {
                "📷 Photo".to_owned()
            } else {
                caption.clone()
            }
        },
        MessageContent::MessageVideo => "🎬 Video".to_owned(),
        MessageContent::MessageVideoNote => "🎬 Video message".to_owned(),
        MessageContent::MessageVoiceNote { duration, .. } => {
            let mut r: String = "🎤 Voice message (".to_owned();
            r.append(format_duration(*duration).as_str());
            r.append(")");
            r
        },
        MessageContent::MessageAudio => "🎵 Audio".to_owned(),
        MessageContent::MessageDocument { file_name, size, .. } => {
            let mut r: String = "📎 ".to_owned();
            if file_name.as_str().is_empty() {
                r.append("Document");
            } else {
                r.append(file_name.as_str());
            }
            r.append(" (");
            r.append(format_size(*size).as_str());
            r.append(")");
            r
        },
        MessageContent::MessageSticker => "Sticker".to_owned(),
        MessageContent::MessageAnimation => "GIF".to_owned(),
        MessageContent::MessageAnimatedEmoji => "Emoji".to_owned(),
        MessageContent::MessageLocation => "📍 Location".to_owned(),
        MessageContent::MessageVenue => "📍 Venue".to_owned(),
        MessageContent::MessageContact => "👤 Contact".to_owned(),
        MessageContent::MessagePoll => "📊 Poll".to_owned(),
        MessageContent::MessageCall => "📞 Call".to_owned(),
        MessageContent::Other => "Unsupported message".to_owned(),
    }
}

/// The chips of the emoji reactions.
pub fn chips_of(reactions: &[Reaction]) -> (r: Vec<ReactionChip>)
    ensures
        chip_views(r@) == chips(reaction_views(reactions@)),
{
    let mut out: Vec<ReactionChip> = Vec::new();
    let ghost all = reaction_views(reactions@);
    assert(chip_views(out@) =~= chips(all.take(0)));
    for i in 0..reactions.len()
        invariant
            all == reaction_views(reactions@),
            chip_views(out@) == chips(all.take(i as int)),
    {
        assert(all.take(i + 1).drop_last() =~= all.take(i as int));
        let ghost before = out@;
        match &reactions[i].reaction_type {
            ReactionType::Emoji(emoji) => {
                out.push(
                    ReactionChip {
                        emoji: emoji.clone(),
                        count: reactions[i].total_count,
                        is_chosen: reactions[i].is_chosen,
                    },
                );
                assert(chip_views(out@) =~= chip_views(before).push(out@.last()@));
            },
            ReactionType::Other => {},
        }
    }
    assert(all.take(all.len() as int) =~= all);
    out
}

impl MessageObject {
    /// Construct a [`MessageObject`] carrying only its id.
    pub fn new(id: i64) -> (r: MessageObject)
        ensures
            r@ == MessageView::blank(id),
    {
        let r = MessageObject {
            id,
            sender_id: 0,
            is_outgoing: false,
            content_text: String::new(),
            date: 0,
            sender_name: String::new(),
            is_pending: false,
            send_status: send_status::PENDING,
            kind: kind::TEXT,
            photo_file_id: 0,
            photo_width: 0,
            photo_height: 0,
            media_caption: String::new(),
            doc_file_id: 0,
            doc_name: String::new(),
            doc_size: 0,
            voice_file_id: 0,
            voice_duration: 0,
            media_album_id: 0,
            reply_to_id: 0,
            reply_sender: String::new(),
            reply_snippet: String::new(),
            avatar_file_id: 0,
            reactions: Vec::new(),
        };
        assert(r@.reactions =~= Seq::empty());
        r
    }

    /// Build a fully-populated [`MessageObject`] from a [`Message`].
    ///
    /// The sender name and the reply text are left empty: a bare message
    /// carries only numeric ids.
    pub fn from_message(msg: &Message) -> (r: MessageObject)
        ensures
            r@ == MessageView::from_message(msg@),
    {
        let mut r = MessageObject::new(msg.id);
        r.apply(msg);
        r
    }

    /// Refresh from a newer [`Message`], e.g. once a send is confirmed and the
    /// temporary message takes its real form.
    pub fn update_from_message(&mut self, msg: &Message)
        ensures
            final(self)@ == old(self)@.updated(msg@),
    {
        self.id = msg.id;
        self.apply(msg);
    }

    /// Copy every derived field off `msg`.
    fn apply(&mut self, msg: &Message)
        ensures
            final(self)@ == old(self)@.applied(msg@),
    {
        self.sender_id = sender_id_of(msg.sender_id);
        self.is_outgoing = msg.is_outgoing;
        self.date = msg.date as i64;
        self.is_pending = msg.sending_state.is_some();
        self.send_status =
        if msg.sending_state.is_some() {
            send_status::PENDING
        } else {
            send_status::SENT
        };
        self.reply_to_id = reply_to_id_of(msg.chat_id, msg.reply_to);
        self.media_album_id = msg.media_album_id;
        self.reactions = chips_of(msg.reactions.as_slice());
        self.set_content(&msg.content);
    }

    /// Replace just the content-derived fields.
    pub fn set_content(&mut self, content: &MessageContent)
        ensures
            final(self)@ == old(self)@.with_content(content@),
    {
        let kind: MessageKind = parse_kind(content);
        self.content_text = content_text(content);
        self.kind = kind.as_i32();
        self.photo_file_id = 0;
        self.photo_width = 0;
        self.photo_height = 0;
        self.doc_file_id = 0;
        self.doc_name = String::new();
        self.doc_size = 0;
        self.voice_file_id = 0;
        self.voice_duration = 0;
        self.media_caption = String::new();
        match &kind {
            MessageKind::Photo { file_id, width, height } => {
                self.photo_file_id = *file_id;
                self.photo_width = *width;
                self.photo_height = *height;
                self.media_caption = caption_of(content);
            },
            MessageKind::Document { file_id, name, size } => {
                self.doc_file_id = *file_id;
                self.doc_name = name.clone();
                self.doc_size = *size;
                self.media_caption = caption_of(content);
            },
            MessageKind::Voice { duration } => {
                self.voice_duration = *duration;
            },
            _ => {},
        }
        match content {
            MessageContent::MessageVoiceNote { file_id, .. } => {
                self.voice_file_id = *file_id;
            },
            _ => {},
        }
        assert(self@ == old(self)@.with_content(content@));
    }

    /// Replace the reaction chips.
    pub fn set_reactions_from(&mut self, reactions: &[Reaction])
        ensures
            final(self)@ == (MessageView {
                reactions: chips(reaction_views(reactions@)),
                ..old(self)@
            }),
    {
        self.reactions = chips_of(reactions);
    }
}

// ---------------------------------------------------------------------------
// Laws
// ---------------------------------------------------------------------------

proof fn lemma_largest(sizes: Seq<PhotoSize>, capped: bool)
    ensures
        match largest(sizes, capped) {
            Some(best) => {
                &&& sizes.contains(best)
                &&& capped ==> fits(best)
                &&& forall|i: int|
                    0 <= i < sizes.len() && (capped ==> fits(sizes[i])) ==> area(
                        #[trigger] sizes[i],
                    ) <= area(best)
            },
            None => forall|i: int| 0 <= i < sizes.len() ==> capped && !fits(#[trigger] sizes[i]),
        },
    decreases sizes.len(),
{
    if sizes.len() > 0 {
        let before = sizes.drop_last();
        lemma_largest(before, capped);
        match largest(sizes, capped) {
            Some(best) => {
                if best == sizes.last() {
                    assert(sizes[sizes.len() - 1] == best);
                }
                if before.contains(best) {
                    let k = choose|k: int| 0 <= k < before.len() && before[k] == best;
                    assert(sizes[k] == best);
                }
                assert forall|i: int|
                    0 <= i < sizes.len() && (capped ==> fits(sizes[i])) implies area(
                    #[trigger] sizes[i],
                ) <= area(best) by {
                    if i < before.len() {
                        assert(before[i] == sizes[i]);
                    }
                }
            },
            None => {
                assert forall|i: int| 0 <= i < sizes.len() implies capped && !fits(
                    #[trigger] sizes[i],
                ) by {
                    if i < before.len() {
                        assert(before[i] == sizes[i]);
                    }
                }
            },
        }
    }
}

/// The size that is shown is one of the sizes of the photo. No size that fits
/// is larger, and a size that does not fit is shown only where none fits; then
/// no size is larger.
pub proof fn shown_size_is_the_best(sizes: Seq<PhotoSize>)
    ensures
        best_size(sizes) is Some <==> sizes.len() > 0,
        best_size(sizes) matches Some(best) ==> {
            &&& sizes.contains(best)
            &&& forall|i: int|
                0 <= i < sizes.len() && (fits(best) ==> fits(sizes[i])) ==> area(
                    #[trigger] sizes[i],
                ) <= area(best)
            &&& !fits(best) ==> forall|i: int| 0 <= i < sizes.len() ==> !fits(#[trigger] sizes[i])
        },
{
    lemma_largest(sizes, true);
    lemma_largest(sizes, false);
    if sizes.len() > 0 && best_size(sizes) is None {
        assert(!fits(sizes[0]));
    }
}

/// Every kind has a discriminant of its own.
pub proof fn discriminants_are_distinct(a: KindView, b: KindView)
    requires
        a.discriminant() == b.discriminant(),
    ensures
        a is Text <==> b is Text,
        a is Photo <==> b is Photo,
        a is Document <==> b is Document,
        a is Voice <==> b is Voice,
        a is Sticker <==> b is Sticker,
        a is Video <==> b is Video,
        a is Other <==> b is Other,
{
}

/// New content changes only what comes from the content: who sent the message,
/// when, in reply to what and with which reactions stays as it was.
pub proof fn edit_keeps_everything_else(m: MessageView, content: ContentView)
    ensures
        ({
            let e = m.with_content(content);
            &&& e.id == m.id
            &&& e.sender_id == m.sender_id
            &&& e.is_outgoing == m.is_outgoing
            &&& e.date == m.date
            &&& e.sender_name == m.sender_name
            &&& e.send_status == m.send_status
            &&& e.is_pending == m.is_pending
            &&& e.media_album_id == m.media_album_id
            &&& e.reply_to_id == m.reply_to_id
            &&& e.reply_sender == m.reply_sender
            &&& e.reply_snippet == m.reply_snippet
            &&& e.avatar_file_id == m.avatar_file_id
            &&& e.reactions == m.reactions
        }),
{
}

/// Content leaves no trace of the content before it.
pub proof fn new_content_replaces_the_old(m: MessageView, first: ContentView, second: ContentView)
    ensures
        m.with_content(first).with_content(second) == m.with_content(second),
{
}

/// A refreshed message is what a new one would be, except for what was looked
/// up for it: the sender's name and avatar and the text it replies to.
pub proof fn refreshing_keeps_what_was_looked_up(m: MessageView, msg: MessageValue)
    ensures
        m.updated(msg) == (MessageView {
            sender_name: m.sender_name,
            avatar_file_id: m.avatar_file_id,
            reply_sender: m.reply_sender,
            reply_snippet: m.reply_snippet,
            ..MessageView::from_message(msg)
        }),
{
}

} // verus!
