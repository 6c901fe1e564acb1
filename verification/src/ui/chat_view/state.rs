//! The mathematical model of an open chat: its history and its compose bar.

use crate::models::kind;
use crate::models::measure::duration_text;
use crate::models::message_object::ChipView;
use crate::tdlib::types::{ChatAction, MessageSender, UpdateView};
use crate::text::trim;
use crate::ui::chat_view::effect::{DeleteChoices, EffectView, Properties, Purpose};
use crate::ui::chat_view::model::{HistoryView, Step};
use crate::ui::chat_view::names::snippet_text;
use crate::ui::chat_view::view::{Key, KeyAction};
use vstd::prelude::*;

verus! {

/// Seconds between two signals that we are typing.
pub const TYPING_INTERVAL: i64 = 5;

/// How long a "typing…" status stays without a new signal, in seconds.
pub const TYPING_TIMEOUT_SECS: u32 = 6;

/// How many chats the choice of a forward target offers at most.
pub const FORWARD_CHATS: i32 = 200;

/// An open chat.
pub struct ChatState {
    pub chat_id: i64,
    /// Our own user id, 0 until it is known.
    pub me_id: i64,
    pub history: HistoryView,
    /// The message that is being replied to, 0 for none.
    pub reply_to: i64,
    /// The message that is being edited, 0 for none.
    pub editing: i64,
    /// Counts the changes of the compose state.
    pub compose_gen: u64,
    /// Counts the typing signals of others.
    pub typing_gen: u64,
    /// When we last signalled that we are typing, in Unix seconds.
    pub last_typing_sent: i64,
    /// True while a voice note is recorded.
    pub recording: bool,
    /// Reaction toggles that are under way, by message and emoji.
    pub inflight: Seq<(i64, Seq<char>)>,
}

/// An open chat after a step, with what the step asks for.
pub struct ViewStep {
    pub state: ChatState,
    pub effects: Seq<EffectView>,
}

/// The count after `n`; it wraps around.
pub open spec fn next(n: u64) -> u64 {
    if n == u64::MAX {
        0
    } else {
        (n + 1) as u64
    }
}

/// Micros since the epoch as whole seconds, rounded towards zero.
pub open spec fn whole_seconds(micros: int) -> int {
    if micros >= 0 {
        micros / 1_000_000
    } else {
        -((-micros) / 1_000_000)
    }
}

/// `s` without `key`.
pub open spec fn without(s: Seq<(i64, Seq<char>)>, key: (i64, Seq<char>)) -> Seq<(i64, Seq<char>)>
    decreases s.len(),
{
    if s.len() == 0 {
        Seq::empty()
    } else {
        let rest = without(s.drop_last(), key);
        if s.last() == key {
            rest
        } else {
            rest.push(s.last())
        }
    }
}

/// Whether one of the chips is `emoji`, chosen by us.
pub open spec fn chosen(chips: Seq<ChipView>, emoji: Seq<char>) -> bool {
    exists|i: int|
        0 <= i < chips.len() && (#[trigger] chips[i]).emoji == emoji && chips[i].is_chosen
}

/// What a text of the compose entry says apart from white space at its ends.
pub open spec fn has_text(entry: Seq<char>) -> bool {
    trim(entry).len() > 0
}

/// A reply target, none for 0.
pub open spec fn armed(reply_to: i64) -> Option<i64> {
    if reply_to != 0 {
        Some(reply_to)
    } else {
        None
    }
}

/// The choices offered for deleting a message. Where the properties could not
/// be read, only deleting for oneself is offered.
pub open spec fn delete_choices(allowed: Option<(bool, bool)>) -> DeleteChoices {
    let (everyone, own) = match allowed {
        Some(a) => a,
        None => (false, true),
    };
    DeleteChoices { everyone, own: own || !everyone, default_everyone: everyone }
}

/// What begins streaming. The server sends updates on messages only for a chat
/// that is open, so that comes first.
pub open spec fn opening() -> Seq<EffectView> {
    seq![
        EffectView::OpenChat,
        EffectView::GetMe,
        EffectView::GetChat,
        EffectView::Subscribe,
        EffectView::LoadInitialHistory,
    ]
}

/// What stops streaming.
pub open spec fn closing() -> Seq<EffectView> {
    seq![EffectView::StopVoice, EffectView::Unsubscribe, EffectView::CloseChat]
}

/// The question whether `id` may be forwarded.
pub open spec fn forward_asked(id: i64) -> EffectView {
    EffectView::GetProperties { message_id: id, purpose: Purpose::Forward }
}

/// The question how `id` may be deleted.
pub open spec fn delete_asked(id: i64) -> EffectView {
    EffectView::GetProperties { message_id: id, purpose: Purpose::Delete }
}

/// The request to forward `id` to another chat.
pub open spec fn forward_to(id: i64, to_chat: i64) -> EffectView {
    EffectView::ForwardMessage { message_id: id, to_chat }
}

/// What is said of the answer to a forward, which has one entry per message.
pub open spec fn forward_told(answer: Option<Seq<Option<i64>>>) -> Seq<EffectView> {
    seq![
        EffectView::Toast {
            text: if answer is Some && answer->0.len() > 0 && answer->0[0] is Some {
                "Forwarded"@
            } else {
                "Couldn't forward"@
            },
        },
    ]
}

/// What the answer to the delete dialog asks for.
pub open spec fn deletion_chosen(id: i64, answer: Seq<char>) -> Seq<EffectView> {
    if answer == "all"@ {
        seq![EffectView::DeleteMessage { message_id: id, revoke: true }]
    } else if answer == "self"@ {
        seq![EffectView::DeleteMessage { message_id: id, revoke: false }]
    } else {
        Seq::empty()
    }
}

impl ChatState {
    /// A chat that was not opened yet.
    pub open spec fn new(chat_id: i64) -> ChatState {
        ChatState {
            chat_id,
            me_id: 0,
            history: HistoryView::empty(),
            reply_to: 0,
            editing: 0,
            compose_gen: 0,
            typing_gen: 0,
            last_typing_sent: 0,
            recording: false,
            inflight: Seq::empty(),
        }
    }

    /// Nothing changes and nothing is asked for.
    pub open spec fn unchanged(self) -> ViewStep {
        ViewStep { state: self, effects: Seq::empty() }
    }

    /// Nothing changes, and this is asked for.
    pub open spec fn asks(self, effects: Seq<EffectView>) -> ViewStep {
        ViewStep { state: self, effects }
    }

    /// A step of the history.
    pub open spec fn on_history(self, step: Step) -> ViewStep {
        ViewStep {
            state: ChatState { history: step.history, ..self },
            effects: step.effects,
        }
    }

    /// Whether `id` is a loaded text message.
    pub open spec fn is_text(self, id: i64) -> bool {
        self.history.index.contains_key(id) && self.history.slots[self.history.index[id] as int].kind
            == kind::TEXT
    }

    // --- Compose state ------------------------------------------------------

    /// The compose state changed, so requests that were made before are stale.
    pub open spec fn bumped(self) -> ChatState {
        ChatState { compose_gen: next(self.compose_gen), ..self }
    }

    /// The reply strip is put away.
    pub open spec fn reply_cleared(self) -> ViewStep {
        ViewStep {
            state: ChatState { reply_to: 0, ..self.bumped() },
            effects: seq![EffectView::HideReply],
        }
    }

    /// The edit strip is put away and the entry cleared.
    pub open spec fn edit_left(self) -> ViewStep {
        ViewStep {
            state: ChatState { editing: 0, ..self.bumped() },
            effects: seq![
                EffectView::HideEdit,
                EffectView::SetEntry { text: Seq::empty() },
            ],
        }
    }

    /// A reply to `id` is started. An edit under way is left for it.
    pub open spec fn reply_started(self, id: i64) -> ViewStep {
        match self.history.lookup(id) {
            None => self.bumped().unchanged(),
            Some(slot) => {
                let m = self.history.slots[slot as int];
                let before = if self.editing != 0 {
                    self.bumped().edit_left()
                } else {
                    self.bumped().unchanged()
                };
                let name = if m.is_outgoing {
                    "You"@
                } else if m.sender_name.len() == 0 {
                    "Reply"@
                } else {
                    m.sender_name
                };
                ViewStep {
                    state: ChatState { reply_to: id, ..before.state },
                    effects: before.effects + seq![
                        EffectView::ShowReply { name, text: snippet_text(m.content_text) },
                        EffectView::FocusEntry,
                    ],
                }
            },
        }
    }

    /// An edit of `id` is started. A reply under way is dropped for it.
    pub open spec fn edit_entered(self, id: i64) -> ViewStep {
        match self.history.lookup(id) {
            None => self.bumped().unchanged(),
            Some(slot) => {
                let text = self.history.slots[slot as int].content_text;
                let before = self.bumped().reply_cleared();
                ViewStep {
                    state: ChatState { editing: id, ..before.state },
                    effects: before.effects + seq![
                        EffectView::SetEntry { text },
                        EffectView::ShowEdit { text: snippet_text(text) },
                        EffectView::CursorToEnd,
                        EffectView::FocusEntry,
                    ],
                }
            },
        }
    }

    /// The question whether `id` may be edited, as the compose state is now.
    pub open spec fn edit_asked(self, id: i64) -> EffectView {
        EffectView::GetProperties {
            message_id: id,
            purpose: Purpose::Edit { generation: self.compose_gen },
        }
    }

    /// The properties asked for at `generation` say whether `id` may be edited.
    pub open spec fn edit_allowed(self, id: i64, generation: u64, can_be_edited: bool) -> ViewStep {
        if self.compose_gen == generation && can_be_edited && self.is_text(id) {
            self.edit_entered(id)
        } else {
            self.unchanged()
        }
    }

    /// The properties of `id` were asked for and came; `None` if they could not
    /// be read. Without them nothing is edited or forwarded.
    pub open spec fn properties_answered(
        self,
        id: i64,
        purpose: Purpose,
        answer: Option<Properties>,
    ) -> ViewStep {
        match (purpose, answer) {
            (Purpose::Edit { generation }, Some(p)) => self.edit_allowed(
                id,
                generation,
                p.can_be_edited,
            ),
            (Purpose::Forward, Some(p)) if p.can_be_forwarded => self.asks(
                seq![EffectView::OpenForwardPicker { message_id: id }],
            ),
            (Purpose::Delete, Some(p)) => self.asks(
                seq![
                    EffectView::ConfirmDelete {
                        message_id: id,
                        choices: delete_choices(
                            Some((p.can_be_deleted_for_all_users, p.can_be_deleted_only_for_self)),
                        ),
                    },
                ],
            ),
            (Purpose::Delete, None) => self.asks(
                seq![EffectView::ConfirmDelete { message_id: id, choices: delete_choices(None) }],
            ),
            _ => self.unchanged(),
        }
    }

    /// The entry is sent, or committed as an edit.
    pub open spec fn sending(self, entry: Seq<char>) -> ViewStep {
        let text = trim(entry);
        if text.len() == 0 {
            self.unchanged()
        } else if self.editing != 0 {
            self.asks(
                seq![EffectView::EditText { message_id: self.editing, text, clear_draft: false }],
            )
        } else {
            let cleared = self.reply_cleared();
            ViewStep {
                state: cleared.state,
                effects: seq![EffectView::SetEntry { text: Seq::empty() }] + cleared.effects + seq![
                    EffectView::SendText {
                        text,
                        clear_draft: true,
                        reply_to: armed(self.reply_to),
                    },
                ],
            }
        }
    }

    /// The server answered an edit. The text stays where it was refused.
    pub open spec fn edit_answered(self, accepted: bool) -> ViewStep {
        if accepted {
            self.edit_left()
        } else {
            self.asks(seq![EffectView::Toast { text: "Couldn't edit message"@ }])
        }
    }

    // --- Entry --------------------------------------------------------------

    /// The text of the entry changed.
    pub open spec fn entry_changed(self, entry: Seq<char>) -> ViewStep {
        if self.recording {
            self.unchanged()
        } else {
            self.asks(seq![EffectView::TrailingSlot { send: has_text(entry) }])
        }
    }

    /// The text of the entry changed at `now`; we signal that we are typing,
    /// but not too often.
    pub open spec fn typed(self, entry: Seq<char>, now: int) -> ViewStep {
        if has_text(entry) && now - self.last_typing_sent >= TYPING_INTERVAL {
            ViewStep {
                state: ChatState { last_typing_sent: now as i64, ..self },
                effects: seq![EffectView::SendTyping],
            }
        } else {
            self.unchanged()
        }
    }

    /// What a key press in the entry does.
    pub open spec fn key_action(self, key: Key, shift: bool) -> KeyAction {
        if key == Key::Escape && self.editing != 0 {
            KeyAction::CancelEdit
        } else if key == Key::Enter && !shift {
            KeyAction::Send
        } else {
            KeyAction::Proceed
        }
    }

    /// What copying the message `id` asks for.
    pub open spec fn copied(self, id: i64) -> Seq<EffectView> {
        match self.history.lookup(id) {
            Some(slot) => seq![
                EffectView::Copy { text: self.history.slots[slot as int].content_text },
            ],
            None => Seq::empty(),
        }
    }

    // --- Voice notes --------------------------------------------------------

    /// What starting a voice note asks for.
    pub open spec fn recorder_wanted(self) -> Seq<EffectView> {
        if self.recording {
            Seq::empty()
        } else {
            seq![EffectView::StartRecorder]
        }
    }

    /// What the timer shows once a recording is `secs` seconds long.
    pub open spec fn timed(self, secs: int) -> Seq<EffectView> {
        if self.recording {
            seq![EffectView::TimerText { text: duration_text(secs) }]
        } else {
            Seq::empty()
        }
    }

    /// The recorder runs.
    pub open spec fn recording_started(self) -> ViewStep {
        ViewStep {
            state: ChatState { recording: true, ..self },
            effects: seq![
                EffectView::ShowRecording,
                EffectView::TimerText { text: "0:00"@ },
            ],
        }
    }

    /// The compose row is back.
    pub open spec fn recording_left(self, entry: Seq<char>) -> ViewStep {
        ViewStep {
            state: ChatState { recording: false, ..self },
            effects: seq![
                EffectView::HideRecording,
                EffectView::TimerText { text: "0:00"@ },
                EffectView::TrailingSlot { send: has_text(entry) },
            ],
        }
    }

    /// The recording is discarded; an armed reply stays.
    pub open spec fn recording_cancelled(self, entry: Seq<char>) -> ViewStep {
        let left = self.recording_left(entry);
        ViewStep {
            state: left.state,
            effects: seq![EffectView::CancelRecorder] + left.effects,
        }
    }

    /// The recording is sent. `recorded` is its file and its length.
    pub open spec fn recording_sent(
        self,
        recorded: Option<(Seq<char>, i32)>,
        entry: Seq<char>,
    ) -> ViewStep {
        let left = self.recording_left(entry);
        match recorded {
            None => left,
            Some((path, duration)) => {
                let cleared = left.state.reply_cleared();
                ViewStep {
                    state: cleared.state,
                    effects: left.effects + cleared.effects + seq![
                        EffectView::SendVoice { path, duration, reply_to: armed(self.reply_to) },
                    ],
                }
            },
        }
    }

    // --- Reactions ----------------------------------------------------------

    /// Whether we chose `emoji` on the message `id`.
    pub open spec fn chose(self, id: i64, emoji: Seq<char>) -> bool {
        self.history.index.contains_key(id) && chosen(
            self.history.slots[self.history.index[id] as int].reactions,
            emoji,
        )
    }

    /// Our reaction is toggled. A second toggle is dropped while one is under
    /// way.
    pub open spec fn reaction_toggled(self, id: i64, emoji: Seq<char>) -> ViewStep {
        if self.inflight.contains((id, emoji)) {
            self.unchanged()
        } else {
            ViewStep {
                state: ChatState { inflight: self.inflight.push((id, emoji)), ..self },
                effects: seq![
                    if self.chose(id, emoji) {
                        EffectView::RemoveReaction { message_id: id, emoji }
                    } else {
                        EffectView::AddReaction { message_id: id, emoji }
                    },
                ],
            }
        }
    }

    /// The server answered a toggle.
    pub open spec fn reaction_answered(
        self,
        id: i64,
        emoji: Seq<char>,
        removing: bool,
        accepted: bool,
    ) -> ViewStep {
        ViewStep {
            state: ChatState { inflight: without(self.inflight, (id, emoji)), ..self },
            effects: if accepted {
                Seq::empty()
            } else if removing {
                seq![EffectView::Toast { text: "Couldn't remove reaction"@ }]
            } else {
                seq![EffectView::Toast { text: "Couldn't add reaction"@ }]
            },
        }
    }

    // --- Typing of others ---------------------------------------------------

    /// Someone does something in the chat.
    pub open spec fn action_seen(self, sender: MessageSender, action: ChatAction) -> ViewStep {
        match sender {
            MessageSender::Chat(_) => self.unchanged(),
            MessageSender::User(user) => {
                let counted = ChatState { typing_gen: next(self.typing_gen), ..self };
                if user == self.me_id {
                    self.unchanged()
                } else {
                    match action {
                        ChatAction::Typing => {
                            let name = self.history.name_of(user);
                            let shown = if !self.history.is_group {
                                seq![EffectView::Subtitle { text: "typing…"@ }]
                            } else if name.len() == 0 {
                                self.history.fetches(seq![user]) + seq![
                                    EffectView::Subtitle { text: "typing…"@ },
                                ]
                            } else {
                                seq![EffectView::Subtitle { text: name + " is typing…"@ }]
                            };
                            ViewStep {
                                state: counted,
                                effects: shown + seq![
                                    EffectView::ArmTypingClear { generation: counted.typing_gen },
                                ],
                            }
                        },
                        ChatAction::Cancel => ViewStep {
                            state: counted,
                            effects: seq![EffectView::Subtitle { text: Seq::empty() }],
                        },
                        ChatAction::Other => self.unchanged(),
                    }
                }
            },
        }
    }

    /// The timeout armed for `generation` ran out.
    pub open spec fn typing_expired(self, generation: u64) -> ViewStep {
        if self.typing_gen == generation {
            self.asks(seq![EffectView::Subtitle { text: Seq::empty() }])
        } else {
            self.unchanged()
        }
    }

    // --- Updates ------------------------------------------------------------

    /// A message was deleted. It is no longer edited or replied to.
    pub open spec fn removed(self, id: i64) -> ViewStep {
        if !self.history.index.contains_key(id) {
            self.unchanged()
        } else {
            let forgot = ChatState { history: self.history.without_key(id), ..self };
            let edit = if forgot.editing == id {
                forgot.edit_left()
            } else {
                forgot.unchanged()
            };
            let reply = if edit.state.reply_to == id {
                edit.state.reply_cleared()
            } else {
                edit.state.unchanged()
            };
            let row = reply.state.on_history(reply.state.history.row_removed(id));
            ViewStep {
                state: row.state,
                effects: edit.effects + reply.effects + row.effects,
            }
        }
    }

    /// Messages were deleted.
    pub open spec fn all_removed(self, ids: Seq<i64>) -> ViewStep
        decreases ids.len(),
    {
        if ids.len() == 0 {
            self.unchanged()
        } else {
            let before = self.all_removed(ids.drop_last());
            let last = before.state.removed(ids.last());
            ViewStep { state: last.state, effects: before.effects + last.effects }
        }
    }

    /// An update arrived; only those of this chat count.
    pub open spec fn updated(self, update: UpdateView) -> ViewStep {
        let h = self.history;
        match update {
            UpdateView::NewMessage { message } if message.chat_id == self.chat_id => {
                self.on_history(h.new_message(message))
            },
            UpdateView::MessageSendSucceeded { message, old_message_id } if message.chat_id
                == self.chat_id => self.on_history(h.send_succeeded(old_message_id, message)),
            UpdateView::MessageSendFailed { message, old_message_id } if message.chat_id
                == self.chat_id => self.on_history(h.send_failed(old_message_id, message)),
            UpdateView::MessageContent { chat_id, message_id, new_content } if chat_id
                == self.chat_id => self.on_history(h.content_changed(message_id, new_content)),
            UpdateView::MessageInteractionInfo { chat_id, message_id, reactions } if chat_id
                == self.chat_id => self.on_history(h.reactions_changed(message_id, reactions)),
            UpdateView::DeleteMessages { chat_id, message_ids, from_cache } if chat_id
                == self.chat_id => if from_cache {
                self.unchanged()
            } else {
                self.all_removed(message_ids)
            },
            UpdateView::ChatReadOutbox { chat_id, last_read_outbox_message_id } if chat_id
                == self.chat_id => self.on_history(h.read_outbox(last_read_outbox_message_id)),
            UpdateView::ChatAction { chat_id, sender_id, action } if chat_id == self.chat_id => {
                self.action_seen(sender_id, action)
            },
            _ => self.unchanged(),
        }
    }
}

// --- Laws --------------------------------------------------------------------

/// A reply and an edit are never under way at once.
pub open spec fn exclusive(s: ChatState) -> bool {
    s.reply_to == 0 || s.editing == 0
}

proof fn lemma_all_removed_exclusive(s: ChatState, ids: Seq<i64>)
    requires
        exclusive(s),
    ensures
        exclusive(s.all_removed(ids).state),
    decreases ids.len(),
{
    if ids.len() > 0 {
        lemma_all_removed_exclusive(s, ids.drop_last());
    }
}

/// A reply and an edit exclude each other, through every step.
pub proof fn reply_and_edit_exclude_each_other(
    s: ChatState,
    id: i64,
    generation: u64,
    flag: bool,
    entry: Seq<char>,
    recorded: Option<(Seq<char>, i32)>,
    update: UpdateView,
)
    requires
        exclusive(s),
    ensures
        exclusive(ChatState::new(s.chat_id)),
        exclusive(s.reply_started(id).state),
        exclusive(s.reply_cleared().state),
        exclusive(s.edit_allowed(id, generation, flag).state),
        exclusive(s.edit_left().state),
        exclusive(s.edit_answered(flag).state),
        exclusive(s.sending(entry).state),
        exclusive(s.recording_sent(recorded, entry).state),
        exclusive(s.recording_cancelled(entry).state),
        exclusive(s.updated(update).state),
{
    match update {
        UpdateView::DeleteMessages { message_ids, .. } => {
            lemma_all_removed_exclusive(s, message_ids);
        },
        _ => {},
    }
}

/// An answer to a question from before the compose state changed does nothing:
/// it cannot arm an edit over a newer reply, edit or draft.
pub proof fn stale_answer_is_ignored(s: ChatState, id: i64, generation: u64, can_be_edited: bool)
    requires
        s.compose_gen != generation,
    ensures
        s.edit_allowed(id, generation, can_be_edited) == s.unchanged(),
{
}

/// Every change of the compose state makes the questions from before it stale.
pub proof fn compose_changes_are_counted(s: ChatState, id: i64)
    ensures
        s.reply_started(id).state.compose_gen != s.compose_gen,
        s.reply_cleared().state.compose_gen != s.compose_gen,
        s.edit_entered(id).state.compose_gen != s.compose_gen,
        s.edit_left().state.compose_gen != s.compose_gen,
{
}

/// Only a loaded text message that may be edited is ever edited.
pub proof fn only_text_is_edited(s: ChatState, id: i64, generation: u64, can_be_edited: bool)
    requires
        !(can_be_edited && s.is_text(id)),
    ensures
        s.edit_allowed(id, generation, can_be_edited) == s.unchanged(),
{
}

/// A deleted message is no longer replied to or edited.
pub proof fn deleted_message_is_disarmed(s: ChatState, id: i64)
    requires
        id != 0,
        s.history.index.contains_key(id),
    ensures
        s.removed(id).state.reply_to != id,
        s.removed(id).state.editing != id,
        s.reply_to != id ==> s.removed(id).state.reply_to == s.reply_to,
        s.editing != id ==> s.removed(id).state.editing == s.editing,
{
}

/// The chat of an update that a chat view reads.
pub open spec fn chat_of(update: UpdateView) -> Option<i64> {
    match update {
        UpdateView::NewMessage { message } => Some(message.chat_id),
        UpdateView::MessageSendSucceeded { message, .. } => Some(message.chat_id),
        UpdateView::MessageSendFailed { message, .. } => Some(message.chat_id),
        UpdateView::MessageContent { chat_id, .. } => Some(chat_id),
        UpdateView::MessageInteractionInfo { chat_id, .. } => Some(chat_id),
        UpdateView::DeleteMessages { chat_id, .. } => Some(chat_id),
        UpdateView::ChatReadOutbox { chat_id, .. } => Some(chat_id),
        UpdateView::ChatAction { chat_id, .. } => Some(chat_id),
        _ => None,
    }
}

/// Updates of other chats change nothing and ask for nothing.
pub proof fn other_chats_do_not_count(s: ChatState, update: UpdateView)
    requires
        chat_of(update) != Some(s.chat_id),
    ensures
        s.updated(update) == s.unchanged(),
{
}

/// Messages that only left the cache of TDLib stay on screen.
pub proof fn cache_deletions_do_not_count(s: ChatState, chat_id: i64, message_ids: Seq<i64>)
    ensures
        s.updated(UpdateView::DeleteMessages { chat_id, message_ids, from_cache: true })
            == s.unchanged(),
{
}

/// After a signal that we are typing, none follows within
/// [`TYPING_INTERVAL`] seconds.
pub proof fn typing_is_throttled(
    s: ChatState,
    entry: Seq<char>,
    now: int,
    later: Seq<char>,
    then: int,
)
    requires
        i64::MIN <= now <= i64::MAX,
        s.typed(entry, now).effects.len() > 0,
        then - now < TYPING_INTERVAL,
    ensures
        s.typed(entry, now).state.typed(later, then).effects.len() == 0,
{
}

/// Without text there is no typing signal, and nothing is sent.
pub proof fn blank_entry_does_nothing(s: ChatState, entry: Seq<char>, now: int)
    requires
        !has_text(entry),
    ensures
        s.typed(entry, now) == s.unchanged(),
        s.sending(entry) == s.unchanged(),
{
}

/// A timeout clears the status only if nobody typed since it was armed.
pub proof fn only_the_latest_timeout_clears(s: ChatState, user: i64)
    requires
        user != s.me_id,
    ensures
        ({
            let typing = s.action_seen(MessageSender::User(user), ChatAction::Typing).state;
            &&& typing.typing_expired(s.typing_gen) == typing.unchanged()
            &&& typing.typing_expired(typing.typing_gen).effects == seq![
                EffectView::Subtitle { text: Seq::empty() },
            ]
        }),
{
}

/// What we do ourselves, and what a channel does, is not shown as typing.
pub proof fn own_typing_is_not_shown(s: ChatState, chat: i64, action: ChatAction)
    ensures
        s.action_seen(MessageSender::User(s.me_id), action) == s.unchanged(),
        s.action_seen(MessageSender::Chat(chat), action) == s.unchanged(),
{
}

proof fn lemma_without(s: Seq<(i64, Seq<char>)>, key: (i64, Seq<char>))
    ensures
        !without(s, key).contains(key),
        forall|other: (i64, Seq<char>)|
            other != key ==> (#[trigger] without(s, key).contains(other) <==> s.contains(other)),
        s.no_duplicates() ==> without(s, key).no_duplicates(),
    decreases s.len(),
{
    if s.len() > 0 {
        let rest = s.drop_last();
        lemma_without(rest, key);
        let w = without(rest, key);
        assert forall|other: (i64, Seq<char>)| other != key implies (#[trigger] without(
            s,
            key,
        ).contains(other) <==> s.contains(other)) by {
            if s.contains(other) {
                let i = choose|i: int| 0 <= i < s.len() && s[i] == other;
                if i < rest.len() {
                    assert(rest[i] == other);
                    assert(w.contains(other));
                    let k = choose|k: int| 0 <= k < w.len() && w[k] == other;
                    assert(without(s, key)[k] == other);
                } else {
                    assert(without(s, key)[w.len() as int] == other);
                }
            }
            if without(s, key).contains(other) {
                let k = choose|k: int| 0 <= k < without(s, key).len() && without(s, key)[k] == other;
                if k < w.len() {
                    assert(w[k] == other);
                    assert(w.contains(other));
                    assert(rest.contains(other));
                    let i = choose|i: int| 0 <= i < rest.len() && rest[i] == other;
                    assert(s[i] == other);
                } else {
                    assert(s[s.len() - 1] == other);
                }
            }
        }
        if s.no_duplicates() {
            assert(rest.no_duplicates());
            if s.last() != key {
                assert(!w.contains(s.last())) by {
                    if w.contains(s.last()) {
                        assert(rest.contains(s.last()));
                        let i = choose|i: int| 0 <= i < rest.len() && rest[i] == s.last();
                        assert(s[i] == s[s.len() - 1]);
                    }
                }
            }
        }
    }
}

/// A rapid second toggle of the same reaction is dropped while the first is
/// under way; once the server answered, the reaction can be toggled again.
pub proof fn toggles_do_not_race(
    s: ChatState,
    id: i64,
    emoji: Seq<char>,
    removing: bool,
    accepted: bool,
)
    ensures
        ({
            let toggled = s.reaction_toggled(id, emoji).state;
            &&& toggled.reaction_toggled(id, emoji) == toggled.unchanged()
            &&& s.reaction_answered(id, emoji, removing, accepted).state.reaction_toggled(
                id,
                emoji,
            ).effects.len() == 1
        }),
{
    let toggled = s.reaction_toggled(id, emoji).state;
    if !s.inflight.contains((id, emoji)) {
        assert(toggled.inflight[s.inflight.len() as int] == (id, emoji));
    }
    lemma_without(s.inflight, (id, emoji));
}

/// No toggle is ever under way twice, and an answer touches no other toggle.
pub proof fn toggles_are_kept_apart(
    s: ChatState,
    id: i64,
    emoji: Seq<char>,
    removing: bool,
    accepted: bool,
)
    requires
        s.inflight.no_duplicates(),
    ensures
        s.reaction_toggled(id, emoji).state.inflight.no_duplicates(),
        s.reaction_answered(id, emoji, removing, accepted).state.inflight.no_duplicates(),
        forall|other: (i64, Seq<char>)|
            other != (id, emoji) ==> (#[trigger] s.reaction_answered(
                id,
                emoji,
                removing,
                accepted,
            ).state.inflight.contains(other) <==> s.inflight.contains(other)),
{
    lemma_without(s.inflight, (id, emoji));
}

/// A recording that is discarded leaves an armed reply armed; one that is sent
/// carries it and disarms it.
pub proof fn recording_and_reply(s: ChatState, path: Seq<char>, duration: i32, entry: Seq<char>)
    ensures
        s.recording_cancelled(entry).state.reply_to == s.reply_to,
        s.recording_sent(Some((path, duration)), entry).state.reply_to == 0,
        s.recording_sent(Some((path, duration)), entry).effects.last() == (EffectView::SendVoice {
            path,
            duration,
            reply_to: armed(s.reply_to),
        }),
{
}

/// A refused edit keeps the edit armed, and the text with it.
pub proof fn refused_edit_stays_armed(s: ChatState)
    ensures
        s.edit_answered(false).state == s,
        forall|i: int|
            0 <= i < s.edit_answered(false).effects.len() ==> !((
            #[trigger] s.edit_answered(false).effects[i]) is SetEntry),
{
}

/// A time in seconds is the whole seconds of one in micros, on either side of
/// the epoch.
pub proof fn seconds_are_whole(micros: int)
    ensures
        micros >= 0 ==> 0 <= micros - whole_seconds(micros) * 1_000_000 < 1_000_000,
        micros < 0 ==> -1_000_000 < micros - whole_seconds(micros) * 1_000_000 <= 0,
{
}

} // verus!
