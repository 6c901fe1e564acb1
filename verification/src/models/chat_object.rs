//! [`ChatObject`]: the item behind a row in the chat list.

use crate::tdlib::types::{Chat, ChatListKind, ChatPosition, ChatValue, ContentView, Message,
    MessageContent, MessageValue};
use crate::text::chars_of;
use vstd::prelude::*;

verus! {

/// The item behind a row in the chat list.
#[derive(Debug)]
pub struct ChatObject {
    pub id: i64,
    pub title: String,
    /// A preview of the last message.
    pub last_message: String,
    /// Unix seconds.
    pub last_message_date: i64,
    pub unread_count: i32,
    /// Where the chat stands in the main list; greater comes first.
    pub order: i64,
    /// The file id of the small chat photo, or 0 for initials.
    pub photo_file_id: i32,
}

/// The mathematical value of a [`ChatObject`].
pub struct ChatRow {
    pub id: i64,
    pub title: Seq<char>,
    pub last_message: Seq<char>,
    pub last_message_date: i64,
    pub unread_count: i32,
    pub order: i64,
    pub photo_file_id: i32,
}

impl View for ChatObject {
    type V = ChatRow;

    open spec fn view(&self) -> ChatRow {
        ChatRow {
            id: self.id,
            title: self.title@,
            last_message: self.last_message@,
            last_message_date: self.last_message_date,
            unread_count: self.unread_count,
            order: self.order,
            photo_file_id: self.photo_file_id,
        }
    }
}

/// The order of the first position in the main list, 0 if there is none.
pub open spec fn main_order_of(positions: Seq<ChatPosition>) -> i64
    decreases positions.len(),
{
    if positions.len() == 0 {
        0
    } else if positions.first().list == ChatListKind::Main {
        positions.first().order
    } else {
        main_order_of(positions.drop_first())
    }
}

/// The characters at which a line ends.
pub open spec fn breaks_line(c: char) -> bool {
    ||| '\u{a}' <= c <= '\u{d}'
    ||| c == '\u{85}'
    ||| c == '\u{2028}'
    ||| c == '\u{2029}'
}

/// `s` on one line: a space stands for each line break.
pub open spec fn single_line(s: Seq<char>) -> Seq<char> {
    Seq::new(
        s.len(),
        |i: int|
            if breaks_line(s[i]) {
                ' '
            } else {
                s[i]
            },
    )
}

/// The placeholder of a content that is not text.
pub open spec fn placeholder(content: ContentView) -> Seq<char> {
    match content {
        ContentView::MessageText { .. } => Seq::empty(),
        ContentView::MessagePhoto { .. } => "[Photo]"@,
        ContentView::MessageVideo => "[Video]"@,
        ContentView::MessageVideoNote => "[Video message]"@,
        ContentView::MessageVoiceNote { .. } => "[Voice message]"@,
        ContentView::MessageAudio => "[Audio]"@,
        ContentView::MessageDocument { .. } => "[Document]"@,
        ContentView::MessageSticker => "[Sticker]"@,
        ContentView::MessageAnimation => "[GIF]"@,
        ContentView::MessageAnimatedEmoji => "[Emoji]"@,
        ContentView::MessageLocation => "[Location]"@,
        ContentView::MessageVenue => "[Venue]"@,
        ContentView::MessageContact => "[Contact]"@,
        ContentView::MessagePoll => "[Poll]"@,
        ContentView::MessageCall => "[Call]"@,
        ContentView::Other => "[Unsupported message]"@,
    }
}

/// The preview of a content: the text on one line, or a placeholder.
pub open spec fn preview_text(content: ContentView) -> Seq<char> {
    match content {
        ContentView::MessageText { text } => single_line(text),
        _ => placeholder(content),
    }
}

/// The preview of a last message, empty if there is none.
pub open spec fn preview_of(last: Option<MessageValue>) -> Seq<char> {
    match last {
        Some(m) => preview_text(m.content),
        None => Seq::empty(),
    }
}

/// The date of a last message, 0 if there is none.
pub open spec fn date_of(last: Option<MessageValue>) -> i64 {
    match last {
        Some(m) => m.date as i64,
        None => 0,
    }
}

/// A photo, 0 if there is none.
pub open spec fn photo_or_zero(photo: Option<i32>) -> i32 {
    match photo {
        Some(p) => p,
        None => 0,
    }
}

impl ChatRow {
    /// A row that carries only its id.
    pub open spec fn blank(id: i64) -> ChatRow {
        ChatRow {
            id,
            title: Seq::empty(),
            last_message: Seq::empty(),
            last_message_date: 0,
            unread_count: 0,
            order: 0,
            photo_file_id: 0,
        }
    }

    /// The row of a chat.
    pub open spec fn from_chat(chat: ChatValue) -> ChatRow {
        ChatRow {
            id: chat.id,
            title: chat.title,
            last_message: preview_of(chat.last_message),
            last_message_date: date_of(chat.last_message),
            unread_count: chat.unread_count,
            order: main_order_of(chat.positions),
            photo_file_id: photo_or_zero(chat.photo),
        }
    }

    /// The row of a chat that was fetched again.
    pub open spec fn refreshed(self, chat: ChatValue) -> ChatRow {
        ChatRow {
            title: chat.title,
            unread_count: chat.unread_count,
            order: main_order_of(chat.positions),
            last_message: preview_of(chat.last_message),
            photo_file_id: photo_or_zero(chat.photo),
            ..self
        }
    }
}

/// The order of the first position in the main list, 0 if there is none.
pub fn main_list_order(positions: &[ChatPosition]) -> (r: i64)
    ensures
        r == main_order_of(positions@),
{
    assert(positions@.skip(0) =~= positions@);
    for i in 0..positions.len()
        invariant
            main_order_of(positions@) == main_order_of(positions@.skip(i as int)),
    {
        assert(positions@.skip(i as int).drop_first() =~= positions@.skip(i + 1));
        if positions[i].list == ChatListKind::Main {
            return positions[i].order;
        }
    }
    0
}

/// The file id of the small photo of a chat, 0 if it has none.
pub fn photo_file_id_of(photo: Option<i32>) -> (r: i32)
    ensures
        r == photo_or_zero(photo),
{
    match photo {
        Some(p) => p,
        None => 0,
    }
}

/// A text on one line, with a space for each line break.
fn flattened(s: &str) -> (r: String)
    ensures
        r@ == single_line(s@),
{
    let v: Vec<char> = chars_of(s);
    let mut r: String = String::new();
    for i in 0..v.len()
        invariant
            v@ == s@,
            r@ == single_line(s@).take(i as int),
    {
        let c: char = v[i];
        if ('\u{a}' <= c && c <= '\u{d}') || c == '\u{85}' || c == '\u{2028}' || c == '\u{2029}' {
            r.push(' ');
        } else {
            r.push(c);
        }
        assert(single_line(s@).take(i + 1) =~= single_line(s@).take(i as int).push(
            single_line(s@)[i as int],
        ));
    }
    assert(single_line(s@).take(s@.len() as int) =~= single_line(s@));
    r
}

/// A short, single-line preview of a message for the chat list: the body of a
/// text message, a placeholder in brackets for other content.
pub fn message_preview(msg: &Message) -> (r: String)
    ensures
        r@ == preview_text(msg@.content),
{
    match &msg.content {
        MessageContent::MessageText { text } => flattened(text.as_str()),
        MessageContent::MessagePhoto { .. } => "[Photo]".to_owned(),
        MessageContent::MessageVideo => "[Video]".to_owned(),
        MessageContent::MessageVideoNote => "[Video message]".to_owned(),
        MessageContent::MessageVoiceNote { .. } => "[Voice message]".to_owned(),
        MessageContent::MessageAudio => "[Audio]".to_owned(),
        MessageContent::MessageDocument { .. } => "[Document]".to_owned(),
        MessageContent::MessageSticker => "[Sticker]".to_owned(),
        MessageContent::MessageAnimation => "[GIF]".to_owned(),
        MessageContent::MessageAnimatedEmoji => "[Emoji]".to_owned(),
        MessageContent::MessageLocation => "[Location]".to_owned(),
        MessageContent::MessageVenue => "[Venue]".to_owned(),
        MessageContent::MessageContact => "[Contact]".to_owned(),
        MessageContent::MessagePoll => "[Poll]".to_owned(),
        MessageContent::MessageCall => "[Call]".to_owned(),
        MessageContent::Other => "[Unsupported message]".to_owned(),
    }
}

/// The preview of a last message, empty if there is none.
pub fn last_message_preview(last: &Option<Message>) -> (r: String)
    ensures
        r@ == preview_of(crate::tdlib::types::optional_value(*last)),
{
    match last {
        Some(m) => message_preview(m),
        None => String::new(),
    }
}

impl ChatObject {
    /// An item that carries only its id.
    pub fn new(id: i64) -> (r: ChatObject)
        ensures
            r@ == ChatRow::blank(id),
    {
        ChatObject {
            id,
            title: String::new(),
            last_message: String::new(),
            last_message_date: 0,
            unread_count: 0,
            order: 0,
            photo_file_id: 0,
        }
    }

    /// The item of a chat. Its order is that in the main list.
    pub fn from_chat(chat: &Chat) -> (r: ChatObject)
        ensures
            r@ == ChatRow::from_chat(chat@),
    {
        let mut r = ChatObject::new(chat.id);
        r.title = chat.title.clone();
        r.unread_count = chat.unread_count;
        r.order = main_list_order(chat.positions.as_slice());
        r.last_message = last_message_preview(&chat.last_message);
        r.last_message_date =
        match &chat.last_message {
            Some(m) => m.date as i64,
            None => 0,
        };
        r.photo_file_id = photo_file_id_of(chat.photo);
        r
    }

    /// Refreshes the item from a chat that was fetched again.
    pub fn refresh(&mut self, chat: &Chat)
        ensures
            final(self)@ == old(self)@.refreshed(chat@),
    {
        self.title = chat.title.clone();
        self.unread_count = chat.unread_count;
        self.order = main_list_order(chat.positions.as_slice());
        self.last_message = last_message_preview(&chat.last_message);
        self.photo_file_id = photo_file_id_of(chat.photo);
    }
}

proof fn lemma_placeholder(content: ContentView)
    requires
        !(content is MessageText),
    ensures
        placeholder(content).len() > 2,
        placeholder(content).first() == '[',
        placeholder(content).last() == ']',
        forall|i: int|
            0 <= i < placeholder(content).len() ==> !breaks_line(#[trigger] placeholder(content)[i]),
{
    reveal_strlit("[Photo]");
    reveal_strlit("[Video]");
    reveal_strlit("[Video message]");
    reveal_strlit("[Voice message]");
    reveal_strlit("[Audio]");
    reveal_strlit("[Document]");
    reveal_strlit("[Sticker]");
    reveal_strlit("[GIF]");
    reveal_strlit("[Emoji]");
    reveal_strlit("[Location]");
    reveal_strlit("[Venue]");
    reveal_strlit("[Contact]");
    reveal_strlit("[Poll]");
    reveal_strlit("[Call]");
    reveal_strlit("[Unsupported message]");
}

/// A preview holds no line break, whatever the message holds. A text without
/// line breaks is its own preview.
pub proof fn preview_is_one_line(content: ContentView)
    ensures
        forall|i: int|
            0 <= i < preview_text(content).len() ==> !breaks_line(
                #[trigger] preview_text(content)[i],
            ),
        content matches ContentView::MessageText { text } ==> (forall|i: int|
            0 <= i < text.len() ==> !breaks_line(#[trigger] text[i])) ==> preview_text(content)
            == text,
{
    if let ContentView::MessageText { text } = content {
        if forall|i: int| 0 <= i < text.len() ==> !breaks_line(#[trigger] text[i]) {
            assert(single_line(text) =~= text);
        }
    } else {
        lemma_placeholder(content);
    }
}

/// Content that is not text is summarised between brackets.
pub proof fn placeholder_is_bracketed(content: ContentView)
    requires
        !(content is MessageText),
    ensures
        preview_text(content).len() > 2,
        preview_text(content).first() == '[',
        preview_text(content).last() == ']',
{
    lemma_placeholder(content);
}

/// The preview of a text says the same, character for character, with a space
/// for each line break.
pub proof fn preview_keeps_the_text(text: Seq<char>)
    ensures
        ({
            let preview = preview_text(ContentView::MessageText { text });
            &&& preview.len() == text.len()
            &&& forall|i: int|
                0 <= i < text.len() ==> (#[trigger] preview[i]) == text[i] || breaks_line(text[i])
                    && preview[i] == ' '
            &&& forall|i: int|
                0 <= i < text.len() && ('\u{a}' <= (#[trigger] text[i]) <= '\u{d}' || text[i]
                    == '\u{85}' || text[i] == '\u{2028}' || text[i] == '\u{2029}') ==> preview[i] == ' '
            &&& forall|i: int|
                0 <= i < text.len() && !('\u{a}' <= (#[trigger] text[i]) <= '\u{d}' || text[i]
                    == '\u{85}' || text[i] == '\u{2028}' || text[i] == '\u{2029}') ==> preview[i]
                    == text[i]
        }),
{
}

/// A chat stands where its first position in the main list says, and at 0
/// where it has none there. Positions in other lists do not count.
pub proof fn order_is_that_in_the_main_list(positions: Seq<ChatPosition>, k: int)
    requires
        0 <= k <= positions.len(),
        forall|i: int| 0 <= i < k ==> (#[trigger] positions[i]).list != ChatListKind::Main,
        k < positions.len() ==> positions[k].list == ChatListKind::Main,
    ensures
        k < positions.len() ==> main_order_of(positions) == positions[k].order,
        k == positions.len() ==> main_order_of(positions) == 0,
    decreases positions.len(),
{
    if k > 0 {
        assert(positions.first() == positions[0]);
        assert forall|i: int| 0 <= i < k - 1 implies (#[trigger] positions.drop_first()[i]).list
            != ChatListKind::Main by {
            assert(positions.drop_first()[i] == positions[i + 1]);
        }
        order_is_that_in_the_main_list(positions.drop_first(), k - 1);
    }
}

/// A row shows what the server says of its chat: the title, the unread count,
/// the order in the main list, a preview and the date of the last message, and
/// the photo.
pub proof fn row_reports_its_chat(chat: ChatValue)
    ensures
        ({
            let row = ChatRow::from_chat(chat);
            &&& row.id == chat.id
            &&& row.title == chat.title
            &&& row.unread_count == chat.unread_count
            &&& row.order == main_order_of(chat.positions)
            &&& chat.last_message matches Some(m) ==> row.last_message == preview_text(m.content)
                && row.last_message_date == m.date
            &&& chat.last_message is None ==> row.last_message.len() == 0 && row.last_message_date
                == 0
            &&& chat.photo matches Some(file_id) ==> row.photo_file_id == file_id
            &&& chat.photo is None ==> row.photo_file_id == 0
        }),
{
}

/// A row that is refreshed shows what the server says now, and stays the row of
/// its chat.
pub proof fn refreshed_row_reports_its_chat(row: ChatRow, chat: ChatValue)
    ensures
        ({
            let after = row.refreshed(chat);
            &&& after.id == row.id
            &&& after.title == chat.title
            &&& after.unread_count == chat.unread_count
            &&& after.order == main_order_of(chat.positions)
            &&& chat.last_message matches Some(m) ==> after.last_message == preview_text(m.content)
            &&& chat.last_message is None ==> after.last_message.len() == 0
            &&& chat.photo matches Some(file_id) ==> after.photo_file_id == file_id
            &&& chat.photo is None ==> after.photo_file_id == 0
            &&& after.last_message_date == row.last_message_date
        }),
{
}

/// The preview of a message that is not a text names its kind in brackets, and no
/// two kinds alike.
pub proof fn previews_name_the_kind(a: ContentView, b: ContentView)
    requires
        !(a is MessageText),
        !(b is MessageText),
    ensures
        preview_text(a).len() > 2,
        preview_text(a).first() == '[',
        preview_text(a).last() == ']',
        preview_text(a) == preview_text(b) <==> a == b || a is MessagePhoto && b is MessagePhoto
            || a is MessageVoiceNote && b is MessageVoiceNote || a is MessageDocument
            && b is MessageDocument,
{
    reveal_strlit("[Photo]");
    reveal_strlit("[Video]");
    reveal_strlit("[Video message]");
    reveal_strlit("[Voice message]");
    reveal_strlit("[Audio]");
    reveal_strlit("[Document]");
    reveal_strlit("[Sticker]");
    reveal_strlit("[GIF]");
    reveal_strlit("[Emoji]");
    reveal_strlit("[Location]");
    reveal_strlit("[Venue]");
    reveal_strlit("[Contact]");
    reveal_strlit("[Poll]");
    reveal_strlit("[Call]");
    reveal_strlit("[Unsupported message]");
    let s = preview_text(a);
    let t = preview_text(b);
    if s == t {
        assert(s.len() == t.len());
        assert(s[1] == t[1]);
        assert(s[2] == t[2]);
        assert(s[3] == t[3]);
    }
}

} // verus!
