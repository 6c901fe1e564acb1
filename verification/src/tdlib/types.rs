//! Plain values for the parts of TDLib's objects that the client reads.

use vstd::prelude::*;

verus! {

/// Who sent a message: a user or a chat.
#[derive(Clone, Copy, Debug, PartialEq, Eq, Structural)]
pub enum MessageSender {
    User(i64),
    Chat(i64),
}

/// Why a message has not reached the server yet.
#[derive(Clone, Copy, Debug, PartialEq, Eq, Structural)]
pub enum MessageSendingState {
    Pending,
    Failed,
}

/// What a message replies to.
#[derive(Clone, Copy, Debug, PartialEq, Eq, Structural)]
pub enum MessageReplyTo {
    /// A message, by its chat and its id there.
    Message { chat_id: i64, message_id: i64 },
    /// A story.
    Story,
}

/// One available size of a photo.
#[derive(Clone, Copy, Debug, PartialEq, Eq, Structural)]
pub struct PhotoSize {
    pub file_id: i32,
    pub width: i32,
    pub height: i32,
}

/// The content of a message.
#[derive(Debug)]
pub enum MessageContent {
    MessageText { text: String },
    MessagePhoto { sizes: Vec<PhotoSize>, caption: String },
    MessageVideo,
    MessageVideoNote,
    MessageVoiceNote { file_id: i32, duration: i32 },
    MessageAudio,
    MessageDocument { file_id: i32, file_name: String, size: i64, caption: String },
    MessageSticker,
    MessageAnimation,
    MessageAnimatedEmoji,
    MessageLocation,
    MessageVenue,
    MessageContact,
    MessagePoll,
    MessageCall,
    /// Any content without a rendering of its own.
    Other,
}

/// The mathematical content of a message.
pub enum ContentView {
    MessageText { text: Seq<char> },
    MessagePhoto { sizes: Seq<PhotoSize>, caption: Seq<char> },
    MessageVideo,
    MessageVideoNote,
    MessageVoiceNote { file_id: i32, duration: i32 },
    MessageAudio,
    MessageDocument { file_id: i32, file_name: Seq<char>, size: i64, caption: Seq<char> },
    MessageSticker,
    MessageAnimation,
    MessageAnimatedEmoji,
    MessageLocation,
    MessageVenue,
    MessageContact,
    MessagePoll,
    MessageCall,
    Other,
}

impl View for MessageContent {
    type V = ContentView;

    open spec fn view(&self) -> ContentView {
        match *self {
            MessageContent::MessageText { text } => ContentView::MessageText { text: text@ },
            MessageContent::MessagePhoto { sizes, caption } => ContentView::MessagePhoto {
                sizes: sizes@,
                caption: caption@,
            },
            MessageContent::MessageVideo => ContentView::MessageVideo,
            MessageContent::MessageVideoNote => ContentView::MessageVideoNote,
            MessageContent::MessageVoiceNote { file_id, duration } => {
                ContentView::MessageVoiceNote { file_id, duration }
            },
            MessageContent::MessageAudio => ContentView::MessageAudio,
            MessageContent::MessageDocument { file_id, file_name, size, caption } => {
                ContentView::MessageDocument {
                    file_id,
                    file_name: file_name@,
                    size,
                    caption: caption@,
                }
            },
            MessageContent::MessageSticker => ContentView::MessageSticker,
            MessageContent::MessageAnimation => ContentView::MessageAnimation,
            MessageContent::MessageAnimatedEmoji => ContentView::MessageAnimatedEmoji,
            MessageContent::MessageLocation => ContentView::MessageLocation,
            MessageContent::MessageVenue => ContentView::MessageVenue,
            MessageContent::MessageContact => ContentView::MessageContact,
            MessageContent::MessagePoll => ContentView::MessagePoll,
            MessageContent::MessageCall => ContentView::MessageCall,
            MessageContent::Other => ContentView::Other,
        }
    }
}

/// The kind of a reaction: a plain emoji, or one of the kinds that are not shown.
#[derive(Debug)]
pub enum ReactionType {
    Emoji(String),
    Other,
}

/// One reaction on a message: its kind, how many chose it, and whether the
/// current user did.
#[derive(Debug)]
pub struct Reaction {
    pub reaction_type: ReactionType,
    pub total_count: i32,
    pub is_chosen: bool,
}

/// The mathematical value of a [`Reaction`]; `emoji` is `None` for a kind that
/// is not shown.
pub struct ReactionView {
    pub emoji: Option<Seq<char>>,
    pub total_count: i32,
    pub is_chosen: bool,
}

impl ReactionType {
    /// The emoji of a plain emoji reaction.
    pub open spec fn emoji(self) -> Option<Seq<char>> {
        match self {
            ReactionType::Emoji(e) => Some(e@),
            ReactionType::Other => None,
        }
    }
}

impl View for Reaction {
    type V = ReactionView;

    open spec fn view(&self) -> ReactionView {
        ReactionView {
            emoji: self.reaction_type.emoji(),
            total_count: self.total_count,
            is_chosen: self.is_chosen,
        }
    }
}

/// The values of a list of reactions.
pub open spec fn reaction_views(v: Seq<Reaction>) -> Seq<ReactionView> {
    Seq::new(v.len(), |i: int| v[i]@)
}

/// A message as TDLib reports it.
#[derive(Debug)]
pub struct Message {
    pub id: i64,
    pub chat_id: i64,
    pub sender_id: MessageSender,
    pub is_outgoing: bool,
    /// Unix seconds.
    pub date: i32,
    pub sending_state: Option<MessageSendingState>,
    pub reply_to: Option<MessageReplyTo>,
    /// The album this message belongs to, or 0.
    pub media_album_id: i64,
    pub reactions: Vec<Reaction>,
    pub content: MessageContent,
}

/// The mathematical value of a [`Message`].
pub struct MessageValue {
    pub id: i64,
    pub chat_id: i64,
    pub sender_id: MessageSender,
    pub is_outgoing: bool,
    pub date: i32,
    pub sending_state: Option<MessageSendingState>,
    pub reply_to: Option<MessageReplyTo>,
    pub media_album_id: i64,
    pub reactions: Seq<ReactionView>,
    pub content: ContentView,
}

impl View for Message {
    type V = MessageValue;

    open spec fn view(&self) -> MessageValue {
        MessageValue {
            id: self.id,
            chat_id: self.chat_id,
            sender_id: self.sender_id,
            is_outgoing: self.is_outgoing,
            date: self.date,
            sending_state: self.sending_state,
            reply_to: self.reply_to,
            media_album_id: self.media_album_id,
            reactions: reaction_views(self.reactions@),
            content: self.content@,
        }
    }
}

/// The values of a list of messages with gaps.
pub open spec fn optional_values(v: Seq<Option<Message>>) -> Seq<Option<MessageValue>> {
    Seq::new(
        v.len(),
        |i: int|
            match v[i] {
                Some(m) => Some(m@),
                None => None,
            },
    )
}

/// A list that a chat can stand in.
#[derive(Clone, Copy, Debug, PartialEq, Eq, Structural)]
pub enum ChatListKind {
    Main,
    Archive,
    Folder(i32),
}

/// Where a chat stands in one of its lists.
#[derive(Clone, Copy, Debug, PartialEq, Eq, Structural)]
pub struct ChatPosition {
    pub list: ChatListKind,
    /// Chats with a greater order come first; 0 means that the chat left the
    /// list.
    pub order: i64,
}

/// A chat as TDLib reports it.
#[derive(Debug)]
pub struct Chat {
    pub id: i64,
    pub title: String,
    /// Whether it is a basic group or a supergroup.
    pub is_group: bool,
    pub unread_count: i32,
    /// Outgoing messages up to this id were read by the recipient.
    pub last_read_outbox_message_id: i64,
    pub positions: Vec<ChatPosition>,
    pub last_message: Option<Message>,
    /// The file id of the small chat photo.
    pub photo: Option<i32>,
}

/// The mathematical value of a [`Chat`].
pub struct ChatValue {
    pub id: i64,
    pub title: Seq<char>,
    pub is_group: bool,
    pub unread_count: i32,
    pub last_read_outbox_message_id: i64,
    pub positions: Seq<ChatPosition>,
    pub last_message: Option<MessageValue>,
    pub photo: Option<i32>,
}

/// The value of a message that may be missing.
pub open spec fn optional_value(m: Option<Message>) -> Option<MessageValue> {
    match m {
        Some(m) => Some(m@),
        None => None,
    }
}

impl View for Chat {
    type V = ChatValue;

    open spec fn view(&self) -> ChatValue {
        ChatValue {
            id: self.id,
            title: self.title@,
            is_group: self.is_group,
            unread_count: self.unread_count,
            last_read_outbox_message_id: self.last_read_outbox_message_id,
            positions: self.positions@,
            last_message: optional_value(self.last_message),
            photo: self.photo,
        }
    }
}

/// What someone does in a chat.
#[derive(Clone, Copy, Debug, PartialEq, Eq, Structural)]
pub enum ChatAction {
    Typing,
    Cancel,
    /// Any action that is not shown.
    Other,
}

/// An update that TDLib pushes.
#[derive(Debug)]
pub enum Update {
    NewMessage { message: Message },
    MessageSendSucceeded { message: Message, old_message_id: i64 },
    MessageSendFailed { message: Message, old_message_id: i64 },
    MessageContent { chat_id: i64, message_id: i64, new_content: MessageContent },
    MessageInteractionInfo { chat_id: i64, message_id: i64, reactions: Vec<Reaction> },
    DeleteMessages { chat_id: i64, message_ids: Vec<i64>, from_cache: bool },
    ChatReadOutbox { chat_id: i64, last_read_outbox_message_id: i64 },
    ChatAction { chat_id: i64, sender_id: MessageSender, action: ChatAction },
    NewChat { chat: Chat },
    ChatLastMessage {
        chat_id: i64,
        last_message: Option<Message>,
        positions: Vec<ChatPosition>,
    },
    ChatPosition { chat_id: i64, position: ChatPosition },
    ChatTitle { chat_id: i64, title: String },
    ChatPhoto { chat_id: i64, photo: Option<i32> },
    ChatReadInbox { chat_id: i64, unread_count: i32 },
    /// Any update that no view reads.
    Other,
}

/// The mathematical value of an [`Update`].
pub enum UpdateView {
    NewMessage { message: MessageValue },
    MessageSendSucceeded { message: MessageValue, old_message_id: i64 },
    MessageSendFailed { message: MessageValue, old_message_id: i64 },
    MessageContent { chat_id: i64, message_id: i64, new_content: ContentView },
    MessageInteractionInfo { chat_id: i64, message_id: i64, reactions: Seq<ReactionView> },
    DeleteMessages { chat_id: i64, message_ids: Seq<i64>, from_cache: bool },
    ChatReadOutbox { chat_id: i64, last_read_outbox_message_id: i64 },
    ChatAction { chat_id: i64, sender_id: MessageSender, action: ChatAction },
    NewChat { chat: ChatValue },
    ChatLastMessage {
        chat_id: i64,
        last_message: Option<MessageValue>,
        positions: Seq<ChatPosition>,
    },
    ChatPosition { chat_id: i64, position: ChatPosition },
    ChatTitle { chat_id: i64, title: Seq<char> },
    ChatPhoto { chat_id: i64, photo: Option<i32> },
    ChatReadInbox { chat_id: i64, unread_count: i32 },
    Other,
}

impl View for Update {
    type V = UpdateView;

    open spec fn view(&self) -> UpdateView {
        match *self {
            Update::NewMessage { message } => UpdateView::NewMessage { message: message@ },
            Update::MessageSendSucceeded { message, old_message_id } => {
                UpdateView::MessageSendSucceeded { message: message@, old_message_id }
            },
            Update::MessageSendFailed { message, old_message_id } => {
                UpdateView::MessageSendFailed { message: message@, old_message_id }
            },
            Update::MessageContent { chat_id, message_id, new_content } => {
                UpdateView::MessageContent { chat_id, message_id, new_content: new_content@ }
            },
            Update::MessageInteractionInfo { chat_id, message_id, reactions } => {
                UpdateView::MessageInteractionInfo {
                    chat_id,
                    message_id,
                    reactions: reaction_views(reactions@),
                }
            },
            Update::DeleteMessages { chat_id, message_ids, from_cache } => {
                UpdateView::DeleteMessages { chat_id, message_ids: message_ids@, from_cache }
            },
            Update::ChatReadOutbox { chat_id, last_read_outbox_message_id } => {
                UpdateView::ChatReadOutbox { chat_id, last_read_outbox_message_id }
            },
            Update::ChatAction { chat_id, sender_id, action } => {
                UpdateView::ChatAction { chat_id, sender_id, action }
            },
            Update::NewChat { chat } => UpdateView::NewChat { chat: chat@ },
            Update::ChatLastMessage { chat_id, last_message, positions } => {
                UpdateView::ChatLastMessage {
                    chat_id,
                    last_message: optional_value(last_message),
                    positions: positions@,
                }
            },
            Update::ChatPosition { chat_id, position } => {
                UpdateView::ChatPosition { chat_id, position }
            },
            Update::ChatTitle { chat_id, title } => UpdateView::ChatTitle {
                chat_id,
                title: title@,
            },
            Update::ChatPhoto { chat_id, photo } => UpdateView::ChatPhoto { chat_id, photo },
            Update::ChatReadInbox { chat_id, unread_count } => {
                UpdateView::ChatReadInbox { chat_id, unread_count }
            },
            Update::Other => UpdateView::Other,
        }
    }
}

} // verus!
