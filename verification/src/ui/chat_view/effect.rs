//! What the view asks of the widgets and of the network after a step.

use vstd::prelude::*;

verus! {

/// Why the properties of a message are asked for.
#[derive(Clone, Copy, Debug, PartialEq, Eq, Structural)]
pub enum Purpose {
    /// To edit it, if the compose state is still that of `generation` then.
    Edit { generation: u64 },
    /// To forward it.
    Forward,
    /// To delete it.
    Delete,
}

/// What may be done with a message.
#[derive(Clone, Copy, Debug, PartialEq, Eq, Structural)]
pub struct Properties {
    pub can_be_edited: bool,
    pub can_be_forwarded: bool,
    pub can_be_deleted_for_all_users: bool,
    pub can_be_deleted_only_for_self: bool,
}

/// The choices of the delete dialog, besides cancelling.
#[derive(Clone, Copy, Debug, PartialEq, Eq, Structural)]
pub struct DeleteChoices {
    /// Offer to delete for everyone.
    pub everyone: bool,
    /// Offer to delete for oneself.
    pub own: bool,
    /// Deleting for everyone is the default choice; else deleting for oneself.
    pub default_everyone: bool,
}

/// One request of the view.
#[derive(Debug)]
pub enum Effect {
    /// A row for the message in `slot` was added at `position`.
    Inserted { position: usize, slot: usize },
    /// The row at `position` was taken out.
    Removed { position: usize },
    /// Bind the rows `start .. start + count` anew.
    Rebind { start: usize, count: usize },
    /// A live property of the message in `slot` changed; repaint it in place.
    Repaint { slot: usize },
    /// Scroll to the newest message.
    ScrollToBottom,
    /// Keep the scroll anchor after rows were added at the top, then report
    /// back that it was restored.
    RestoreAnchor,
    /// Tell the server that these messages were seen.
    ViewMessages { ids: Vec<i64> },
    /// Fetch a user, for the name and the avatar.
    FetchUser { user_id: i64 },
    /// Fetch the message `target` that `message_id` replies to.
    FetchReply { message_id: i64, target: i64 },
    /// Show this text under the chat title.
    Subtitle { text: String },
    /// Report back with `generation` after the typing timeout.
    ArmTypingClear { generation: u64 },
    /// Show the reply strip.
    ShowReply { name: String, text: String },
    /// Hide the reply strip.
    HideReply,
    /// Show the edit strip.
    ShowEdit { text: String },
    /// Hide the edit strip.
    HideEdit,
    /// Replace the text of the compose entry.
    SetEntry { text: String },
    /// Move the cursor to the end of the entry.
    CursorToEnd,
    /// Give the compose entry the focus.
    FocusEntry,
    /// Show a transient message.
    Toast { text: String },
    /// Tell the server that the chat is open.
    OpenChat,
    /// Tell the server that the chat was closed.
    CloseChat,
    /// Fetch our own user.
    GetMe,
    /// Fetch the chat.
    GetChat,
    /// Start handing updates to the view.
    Subscribe,
    /// Stop handing updates to the view.
    Unsubscribe,
    /// Load the most recent history.
    LoadInitialHistory,
    /// Halt a voice note that is playing.
    StopVoice,
    /// Tell the server that we are typing.
    SendTyping,
    /// Show the recording row in place of the compose row.
    ShowRecording,
    /// Show the compose row in place of the recording row.
    HideRecording,
    /// Start the recorder, and report back if it runs.
    StartRecorder,
    /// Discard what was recorded.
    CancelRecorder,
    /// Send a text message.
    SendText { text: String, clear_draft: bool, reply_to: Option<i64> },
    /// Replace the text of a message.
    EditText { message_id: i64, text: String, clear_draft: bool },
    /// Send the voice note recorded at `path`.
    SendVoice { path: String, duration: i32, reply_to: Option<i64> },
    /// Ask what may be done with a message.
    GetProperties { message_id: i64, purpose: Purpose },
    /// Let the user pick where to forward a message.
    OpenForwardPicker { message_id: i64 },
    /// Forward a message to another chat.
    ForwardMessage { message_id: i64, to_chat: i64 },
    /// Let the user confirm that a message is deleted.
    ConfirmDelete { message_id: i64, choices: DeleteChoices },
    /// Delete a message; `revoke` deletes it for everyone.
    DeleteMessage { message_id: i64, revoke: bool },
    /// Put this text on the clipboard.
    Copy { text: String },
    /// Add our reaction to a message.
    AddReaction { message_id: i64, emoji: String },
    /// Take our reaction off a message.
    RemoveReaction { message_id: i64, emoji: String },
    /// Show this elapsed time in the recording row.
    TimerText { text: String },
    /// Show the send button if `send`, else the microphone button.
    TrailingSlot { send: bool },
}

/// The mathematical value of an [`Effect`].
pub enum EffectView {
    Inserted { position: usize, slot: usize },
    Removed { position: usize },
    Rebind { start: usize, count: usize },
    Repaint { slot: usize },
    ScrollToBottom,
    RestoreAnchor,
    ViewMessages { ids: Seq<i64> },
    FetchUser { user_id: i64 },
    FetchReply { message_id: i64, target: i64 },
    Subtitle { text: Seq<char> },
    ArmTypingClear { generation: u64 },
    ShowReply { name: Seq<char>, text: Seq<char> },
    HideReply,
    ShowEdit { text: Seq<char> },
    HideEdit,
    SetEntry { text: Seq<char> },
    CursorToEnd,
    FocusEntry,
    Toast { text: Seq<char> },
    OpenChat,
    CloseChat,
    GetMe,
    GetChat,
    Subscribe,
    Unsubscribe,
    LoadInitialHistory,
    StopVoice,
    SendTyping,
    ShowRecording,
    HideRecording,
    StartRecorder,
    CancelRecorder,
    SendText { text: Seq<char>, clear_draft: bool, reply_to: Option<i64> },
    EditText { message_id: i64, text: Seq<char>, clear_draft: bool },
    SendVoice { path: Seq<char>, duration: i32, reply_to: Option<i64> },
    GetProperties { message_id: i64, purpose: Purpose },
    OpenForwardPicker { message_id: i64 },
    ForwardMessage { message_id: i64, to_chat: i64 },
    ConfirmDelete { message_id: i64, choices: DeleteChoices },
    DeleteMessage { message_id: i64, revoke: bool },
    Copy { text: Seq<char> },
    AddReaction { message_id: i64, emoji: Seq<char> },
    RemoveReaction { message_id: i64, emoji: Seq<char> },
    TimerText { text: Seq<char> },
    TrailingSlot { send: bool },
}

impl View for Effect {
    type V = EffectView;

    open spec fn view(&self) -> EffectView {
        match *self {
            Effect::Inserted { position, slot } => EffectView::Inserted { position, slot },
            Effect::Removed { position } => EffectView::Removed { position },
            Effect::Rebind { start, count } => EffectView::Rebind { start, count },
            Effect::Repaint { slot } => EffectView::Repaint { slot },
            Effect::ScrollToBottom => EffectView::ScrollToBottom,
            Effect::RestoreAnchor => EffectView::RestoreAnchor,
            Effect::ViewMessages { ids } => EffectView::ViewMessages { ids: ids@ },
            Effect::FetchUser { user_id } => EffectView::FetchUser { user_id },
            Effect::FetchReply { message_id, target } => EffectView::FetchReply {
                message_id,
                target,
            },
            Effect::Subtitle { text } => EffectView::Subtitle { text: text@ },
            Effect::ArmTypingClear { generation } => EffectView::ArmTypingClear { generation },
            Effect::ShowReply { name, text } => EffectView::ShowReply {
                name: name@,
                text: text@,
            },
            Effect::HideReply => EffectView::HideReply,
            Effect::ShowEdit { text } => EffectView::ShowEdit { text: text@ },
            Effect::HideEdit => EffectView::HideEdit,
            Effect::SetEntry { text } => EffectView::SetEntry { text: text@ },
            Effect::CursorToEnd => EffectView::CursorToEnd,
            Effect::FocusEntry => EffectView::FocusEntry,
            Effect::Toast { text } => EffectView::Toast { text: text@ },
            Effect::OpenChat => EffectView::OpenChat,
            Effect::CloseChat => EffectView::CloseChat,
            Effect::GetMe => EffectView::GetMe,
            Effect::GetChat => EffectView::GetChat,
            Effect::Subscribe => EffectView::Subscribe,
            Effect::Unsubscribe => EffectView::Unsubscribe,
            Effect::LoadInitialHistory => EffectView::LoadInitialHistory,
            Effect::StopVoice => EffectView::StopVoice,
            Effect::SendTyping => EffectView::SendTyping,
            Effect::ShowRecording => EffectView::ShowRecording,
            Effect::HideRecording => EffectView::HideRecording,
            Effect::StartRecorder => EffectView::StartRecorder,
            Effect::CancelRecorder => EffectView::CancelRecorder,
            Effect::SendText { text, clear_draft, reply_to } => EffectView::SendText { text: text@, clear_draft, reply_to },
            Effect::EditText { message_id, text, clear_draft } => EffectView::EditText { message_id, text: text@, clear_draft },
            Effect::SendVoice { path, duration, reply_to } => EffectView::SendVoice { path: path@, duration, reply_to },
            Effect::GetProperties { message_id, purpose } => EffectView::GetProperties { message_id, purpose },
            Effect::OpenForwardPicker { message_id } => EffectView::OpenForwardPicker { message_id },
            Effect::ForwardMessage { message_id, to_chat } => EffectView::ForwardMessage { message_id, to_chat },
            Effect::ConfirmDelete { message_id, choices } => EffectView::ConfirmDelete { message_id, choices },
            Effect::DeleteMessage { message_id, revoke } => EffectView::DeleteMessage { message_id, revoke },
            Effect::Copy { text } => EffectView::Copy { text: text@ },
            Effect::AddReaction { message_id, emoji } => EffectView::AddReaction { message_id, emoji: emoji@ },
            Effect::RemoveReaction { message_id, emoji } => EffectView::RemoveReaction { message_id, emoji: emoji@ },
            Effect::TimerText { text } => EffectView::TimerText { text: text@ },
            Effect::TrailingSlot { send } => EffectView::TrailingSlot { send },
        }
    }
}

/// The values of a list of effects.
pub open spec fn effect_views(v: Seq<Effect>) -> Seq<EffectView> {
    Seq::new(v.len(), |i: int| v[i]@)
}

/// Appends an effect.
pub fn emit(out: &mut Vec<Effect>, effect: Effect)
    ensures
        effect_views(final(out)@) == effect_views(old(out)@).push(effect@),
{
    out.push(effect);
    assert(effect_views(out@) =~= effect_views(old(out)@).push(effect@));
}

} // verus!
