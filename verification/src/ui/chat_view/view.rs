//! [`ChatView`]: the state of one open chat and every decision about it.
//!
//! The widgets and the network are outside. A step takes an event, changes the
//! state and appends to a list of [`Effect`]s what is to be done.

use crate::models::kind;
use crate::models::measure::{duration_text, format_duration};
use crate::models::message_object::{chip_views, MessageObject, ReactionChip};
use crate::tdlib::types::{optional_values, ChatAction, Message, MessageSender, Update};
use crate::text::{same_text, trimmed};
use crate::ui::chat_view::effect::{effect_views, emit, DeleteChoices, Effect, EffectView, Properties,
    Purpose};
use crate::ui::chat_view::history::History;
use crate::ui::chat_view::model::{present, HistoryView};
use crate::ui::chat_view::names::{full_name, snippet};
use crate::ui::chat_view::state::{armed, chosen, closing, delete_asked, delete_choices,
    deletion_chosen, forward_asked, forward_to, forward_told, has_text, next, opening,
    whole_seconds, without, ChatState, TYPING_INTERVAL};
use vstd::prelude::*;

verus! {

/// An open chat: its history and its compose bar.
#[derive(Debug)]
pub struct ChatView {
    chat_id: i64,
    me_id: i64,
    history: History,
    reply_to: i64,
    editing: i64,
    compose_gen: u64,
    typing_gen: u64,
    last_typing_sent: i64,
    recording: bool,
    inflight: Vec<(i64, String)>,
}

/// The values of a list of reaction keys.
spec fn key_views(v: Seq<(i64, String)>) -> Seq<(i64, Seq<char>)> {
    Seq::new(v.len(), |i: int| (v[i].0, v[i].1@))
}

impl View for ChatView {
    type V = ChatState;

    closed spec fn view(&self) -> ChatState {
        ChatState {
            chat_id: self.chat_id,
            me_id: self.me_id,
            history: self.history@,
            reply_to: self.reply_to,
            editing: self.editing,
            compose_gen: self.compose_gen,
            typing_gen: self.typing_gen,
            last_typing_sent: self.last_typing_sent,
            recording: self.recording,
            inflight: key_views(self.inflight@),
        }
    }
}

/// A key the user pressed in the compose entry.
#[derive(Clone, Copy, Debug, PartialEq, Eq, Structural)]
pub enum Key {
    Escape,
    Enter,
    Other,
}

/// What a key press in the compose entry does.
#[derive(Clone, Copy, Debug, PartialEq, Eq, Structural)]
pub enum KeyAction {
    CancelEdit,
    Send,
    /// The entry handles the key itself.
    Proceed,
}

/// The count after `n`; it wraps around.
fn succ(n: u64) -> (r: u64)
    ensures
        r == next(n),
{
    if n == u64::MAX {
        0
    } else {
        n + 1
    }
}

/// Whether a text of the entry says anything.
fn says(entry: &str) -> (r: bool)
    ensures
        r == has_text(entry@),
{
    !trimmed(entry).as_str().is_empty()
}

/// Whole seconds of a count of micros, rounded towards zero.
fn seconds(micros: i64) -> (r: i64)
    ensures
        r == whole_seconds(micros as int),
        -9_223_372_036_854 <= r <= 9_223_372_036_854,
{
    if micros >= 0 {
        micros / 1_000_000
    } else if micros == i64::MIN {
        -9_223_372_036_854
    } else {
        let m: i64 = -micros;
        -(m / 1_000_000)
    }
}

/// Whether one of the chips is `emoji`, chosen by us.
fn is_chosen(chips: &Vec<ReactionChip>, emoji: &str) -> (r: bool)
    ensures
        r == chosen(chip_views(chips@), emoji@),
{
    for i in 0..chips.len()
        invariant
            forall|k: int|
                0 <= k < i ==> !((#[trigger] chip_views(chips@)[k]).emoji == emoji@ && chip_views(
                    chips@,
                )[k].is_chosen),
    {
        if chips[i].is_chosen && same_text(chips[i].emoji.as_str(), emoji) {
            assert(chip_views(chips@)[i as int].emoji == emoji@);
            return true;
        }
    }
    false
}

/// Whether a toggle of `emoji` on `id` is among `keys`.
fn under_way(keys: &Vec<(i64, String)>, id: i64, emoji: &str) -> (r: bool)
    ensures
        r == key_views(keys@).contains((id, emoji@)),
{
    for i in 0..keys.len()
        invariant
            forall|k: int| 0 <= k < i ==> (#[trigger] key_views(keys@)[k]) != (id, emoji@),
    {
        if keys[i].0 == id && same_text(keys[i].1.as_str(), emoji) {
            assert(key_views(keys@)[i as int] == (id, emoji@));
            return true;
        }
    }
    false
}

/// The keys that are not `id` and `emoji`.
fn others(keys: &Vec<(i64, String)>, id: i64, emoji: &str) -> (r: Vec<(i64, String)>)
    ensures
        key_views(r@) == without(key_views(keys@), (id, emoji@)),
{
    let ghost all = key_views(keys@);
    let mut r: Vec<(i64, String)> = Vec::new();
    assert(key_views(r@) =~= without(all.take(0), (id, emoji@)));
    for i in 0..keys.len()
        invariant
            all == key_views(keys@),
            key_views(r@) == without(all.take(i as int), (id, emoji@)),
    {
        let ghost before = r@;
        assert(all.take(i + 1).drop_last() =~= all.take(i as int));
        if !(keys[i].0 == id && same_text(keys[i].1.as_str(), emoji)) {
            r.push((keys[i].0, keys[i].1.clone()));
            assert(key_views(r@) =~= key_views(before).push(all[i as int]));
        }
    }
    assert(all.take(all.len() as int) =~= all);
    r
}

impl ChatView {
    /// The history is well formed and the last typing signal lies in the range
    /// of the clock.
    pub closed spec fn wf(&self) -> bool {
        &&& self.history.wf()
        &&& -9_223_372_036_854 <= self.last_typing_sent <= 9_223_372_036_854
    }

    /// A view for `chat_id`, not opened yet.
    pub fn new(chat_id: i64) -> (r: ChatView)
        ensures
            r.wf(),
            r@ == ChatState::new(chat_id),
    {
        let r = ChatView {
            chat_id,
            me_id: 0,
            history: History::new(),
            reply_to: 0,
            editing: 0,
            compose_gen: 0,
            typing_gen: 0,
            last_typing_sent: 0,
            recording: false,
            inflight: Vec::new(),
        };
        assert(r@.inflight =~= Seq::empty());
        r
    }

    /// The id of the chat this view renders.
    pub fn chat_id(&self) -> (r: i64)
        ensures
            r == self@.chat_id,
    {
        self.chat_id
    }

    /// The loaded messages.
    pub fn history(&self) -> (r: &History)
        requires
            self.wf(),
        ensures
            r.wf(),
            r@ == self@.history,
    {
        &self.history
    }

    /// The message that is being edited, 0 for none.
    pub fn editing(&self) -> (r: i64)
        ensures
            r == self@.editing,
    {
        self.editing
    }

    /// The message that is being replied to, 0 for none.
    pub fn reply_to(&self) -> (r: i64)
        ensures
            r == self@.reply_to,
    {
        self.reply_to
    }

    /// Begins streaming. The server sends updates on messages only for a chat
    /// that is open, so that comes first.
    pub fn open(&self, out: &mut Vec<Effect>)
        ensures
            effect_views(final(out)@) == effect_views(old(out)@) + opening(),
    {
        emit(out, Effect::OpenChat);
        emit(out, Effect::GetMe);
        emit(out, Effect::GetChat);
        emit(out, Effect::Subscribe);
        emit(out, Effect::LoadInitialHistory);
    }

    /// Stops streaming.
    pub fn close(&self, out: &mut Vec<Effect>)
        ensures
            effect_views(final(out)@) == effect_views(old(out)@) + closing(),
    {
        emit(out, Effect::StopVoice);
        emit(out, Effect::Unsubscribe);
        emit(out, Effect::CloseChat);
    }

    /// Our own user id became known.
    pub fn me_resolved(&mut self, id: i64)
        requires
            old(self).wf(),
        ensures
            final(self).wf(),
            final(self)@ == (ChatState { me_id: id, ..old(self)@ }),
    {
        self.me_id = id;
    }

    // --- History ------------------------------------------------------------

    /// The chat was fetched.
    pub fn chat_resolved(&mut self, is_group: bool, last_read: i64, out: &mut Vec<Effect>)
        requires
            old(self).wf(),
        ensures
            final(self).wf(),
            final(self)@ == old(self)@.on_history(old(self)@.history.chat_resolved(is_group, last_read)).state,
            effect_views(final(out)@) == effect_views(old(out)@) + old(self)@.on_history(old(self)@.history.chat_resolved(is_group, last_read)).effects,
    {
        self.history.chat_resolved(is_group, last_read, out);
    }

    /// The most recent history was loaded.
    pub fn initial_history(&mut self, messages: &Vec<Option<Message>>, out: &mut Vec<Effect>)
        requires
            old(self).wf(),
        ensures
            final(self).wf(),
            final(self)@ == old(self)@.on_history(old(self)@.history.ingested(present(optional_values(messages@)), true)).state,
            effect_views(final(out)@) == effect_views(old(out)@) + old(self)@.on_history(old(self)@.history.ingested(present(optional_values(messages@)), true)).effects,
    {
        self.history.ingest_history(messages, true, out);
    }

    /// The user scrolled near the top. Returns the id to load older messages
    /// from, if a request is to be made.
    pub fn load_older_history(&mut self) -> (from: Option<i64>)
        requires
            old(self).wf(),
        ensures
            final(self).wf(),
            from == old(self)@.history.older_wanted().1,
            final(self)@ == (ChatState {
                history: old(self)@.history.older_wanted().0,
                ..old(self)@
            }),
    {
        self.history.load_older_history()
    }

    /// A batch of older messages arrived.
    pub fn older_arrived(&mut self, messages: &Vec<Option<Message>>, out: &mut Vec<Effect>)
        requires
            old(self).wf(),
        ensures
            final(self).wf(),
            final(self)@ == old(self)@.on_history(old(self)@.history.older_arrived(optional_values(messages@))).state,
            effect_views(final(out)@) == effect_views(old(out)@) + old(self)@.on_history(old(self)@.history.older_arrived(optional_values(messages@))).effects,
    {
        self.history.older_arrived(messages, out);
    }

    /// A request for older messages failed, or the scroll anchor was restored
    /// after one succeeded.
    pub fn older_done(&mut self)
        requires
            old(self).wf(),
        ensures
            final(self).wf(),
            final(self)@ == (ChatState { history: old(self)@.history.older_over(), ..old(self)@ }),
    {
        self.history.older_done();
    }

    /// A user was fetched.
    pub fn user_resolved(
        &mut self,
        uid: i64,
        first_name: &str,
        last_name: &str,
        avatar: i32,
        out: &mut Vec<Effect>,
    )
        requires
            old(self).wf(),
        ensures
            final(self).wf(),
            final(self)@ == old(self)@.on_history(old(self)@.history.user_resolved(uid, full_name(first_name@, last_name@), avatar)).state,
            effect_views(final(out)@) == effect_views(old(out)@) + old(self)@.on_history(old(self)@.history.user_resolved(uid, full_name(first_name@, last_name@), avatar)).effects,
    {
        self.history.user_resolved(uid, first_name, last_name, avatar, out);
    }

    /// The message that `id` replies to was fetched.
    pub fn reply_fetched(&mut self, id: i64, target: &Message, out: &mut Vec<Effect>)
        requires
            old(self).wf(),
        ensures
            final(self).wf(),
            final(self)@ == old(self)@.on_history(old(self)@.history.reply_fetched(id, target@)).state,
            effect_views(final(out)@) == effect_views(old(out)@) + old(self)@.on_history(old(self)@.history.reply_fetched(id, target@)).effects,
    {
        self.history.stamp_reply_from_message(id, target, out);
    }

    /// A message of ours was sent and has a temporary id.
    pub fn append_sent(&mut self, msg: &Message, out: &mut Vec<Effect>)
        requires
            old(self).wf(),
        ensures
            final(self).wf(),
            final(self)@ == old(self)@.on_history(old(self)@.history.sent(msg@)).state,
            effect_views(final(out)@) == effect_views(old(out)@) + old(self)@.on_history(old(self)@.history.sent(msg@)).effects,
    {
        self.history.append_sent(msg, out);
    }

    // --- Updates ------------------------------------------------------------

    /// Routes one update, acting only on those of this chat.
    pub fn handle_update(&mut self, update: &Update, out: &mut Vec<Effect>)
        requires
            old(self).wf(),
        ensures
            final(self).wf(),
            final(self)@ == old(self)@.updated(update@).state,
            effect_views(final(out)@) == effect_views(old(out)@) + old(self)@.updated(update@).effects,
    {
        let ghost start = effect_views(out@);
        match update {
            Update::NewMessage { message } => {
                if message.chat_id == self.chat_id {
                    self.history.new_message(message, out);
                    return;
                }
            },
            Update::MessageSendSucceeded { message, old_message_id } => {
                if message.chat_id == self.chat_id {
                    self.history.send_succeeded(*old_message_id, message, out);
                    return;
                }
            },
            Update::MessageSendFailed { message, old_message_id } => {
                if message.chat_id == self.chat_id {
                    self.history.send_failed(*old_message_id, message, out);
                    return;
                }
            },
            Update::MessageContent { chat_id, message_id, new_content } => {
                if *chat_id == self.chat_id {
                    self.history.content_changed(*message_id, new_content, out);
                    return;
                }
            },
            Update::MessageInteractionInfo { chat_id, message_id, reactions } => {
                if *chat_id == self.chat_id {
                    self.history.reactions_changed(*message_id, reactions.as_slice(), out);
                    return;
                }
            },
            Update::DeleteMessages { chat_id, message_ids, from_cache } => {
                if *chat_id == self.chat_id && !*from_cache {
                    self.remove_messages(message_ids, out);
                    return;
                }
            },
            Update::ChatReadOutbox { chat_id, last_read_outbox_message_id } => {
                if *chat_id == self.chat_id {
                    self.history.read_outbox(*last_read_outbox_message_id, out);
                    return;
                }
            },
            Update::ChatAction { chat_id, sender_id, action } => {
                if *chat_id == self.chat_id {
                    self.handle_chat_action(*sender_id, *action, out);
                    return;
                }
            },
            _ => {},
        }
        assert(start =~= start + Seq::<EffectView>::empty());
    }

    /// Removes a deleted message, disarming the compose bar if it was edited
    /// or replied to.
    pub fn remove_message(&mut self, id: i64, out: &mut Vec<Effect>)
        requires
            old(self).wf(),
        ensures
            final(self).wf(),
            final(self)@ == old(self)@.removed(id).state,
            effect_views(final(out)@) == effect_views(old(out)@) + old(self)@.removed(id).effects,
    {
        let ghost start = effect_views(out@);
        if !self.history.forget(id) {
            assert(self@.history.index =~= old(self)@.history.index);
            assert(start =~= start + Seq::<EffectView>::empty());
            return;
        }
        if self.editing == id {
            self.exit_edit_ui(out);
        }
        if self.reply_to == id {
            self.clear_reply(out);
        }
        self.history.remove_row(id, out);
        assert(effect_views(out@) =~= start + old(self)@.removed(id).effects);
    }

    /// Removes deleted messages, in order.
    fn remove_messages(&mut self, ids: &Vec<i64>, out: &mut Vec<Effect>)
        requires
            old(self).wf(),
        ensures
            final(self).wf(),
            final(self)@ == old(self)@.all_removed(ids@).state,
            effect_views(final(out)@) == effect_views(old(out)@) + old(self)@.all_removed(ids@).effects,
    {
        let ghost start = effect_views(out@);
        let ghost base = self@;
        assert(start =~= start + base.all_removed(ids@.take(0)).effects);
        for i in 0..ids.len()
            invariant
                self.wf(),
                self@ == base.all_removed(ids@.take(i as int)).state,
                effect_views(out@) == start + base.all_removed(ids@.take(i as int)).effects,
        {
            assert(ids@.take(i + 1).drop_last() =~= ids@.take(i as int));
            self.remove_message(ids[i], out);
            assert(effect_views(out@) =~= start + base.all_removed(ids@.take(i + 1)).effects);
        }
        assert(ids@.take(ids@.len() as int) =~= ids@);
    }

    /// Shows that someone is typing. Our own actions are ignored.
    pub fn handle_chat_action(
        &mut self,
        sender: MessageSender,
        action: ChatAction,
        out: &mut Vec<Effect>,
    )
        requires
            old(self).wf(),
        ensures
            final(self).wf(),
            final(self)@ == old(self)@.action_seen(sender, action).state,
            effect_views(final(out)@) == effect_views(old(out)@) + old(self)@.action_seen(sender, action).effects,
    {
        let ghost start = effect_views(out@);
        let ghost step = old(self)@.action_seen(sender, action);
        let user: i64 = match sender {
            MessageSender::User(id) => id,
            MessageSender::Chat(_) => {
                assert(start =~= start + Seq::<EffectView>::empty());
                return;
            },
        };
        if user == self.me_id {
            assert(start =~= start + Seq::<EffectView>::empty());
            return;
        }
        match action {
            ChatAction::Typing => {
                if self.history.is_group() {
                    let name: String = self.history.name_of(user);
                    if name.as_str().is_empty() {
                        let ids: Vec<i64> = vec![user];
                        assert(ids@ =~= seq![user]);
                        self.history.resolve_names(&ids, out);
                        emit(out, Effect::Subtitle { text: "typing…".to_owned() });
                    } else {
                        let mut text: String = name;
                        text.append(" is typing…");
                        emit(out, Effect::Subtitle { text });
                    }
                } else {
                    emit(out, Effect::Subtitle { text: "typing…".to_owned() });
                }
                self.typing_gen = succ(self.typing_gen);
                emit(out, Effect::ArmTypingClear { generation: self.typing_gen });
                assert(effect_views(out@) =~= start + step.effects);
            },
            ChatAction::Cancel => {
                self.typing_gen = succ(self.typing_gen);
                emit(out, Effect::Subtitle { text: String::new() });
                assert(effect_views(out@) =~= start + step.effects);
            },
            ChatAction::Other => {
                assert(start =~= start + Seq::<EffectView>::empty());
            },
        }
    }

    /// The timeout armed for `generation` ran out. Only the latest one clears
    /// the status, so that someone who keeps typing is never blanked out.
    pub fn typing_expired(&self, generation: u64, out: &mut Vec<Effect>)
        requires
            self.wf(),
        ensures
            self@.typing_expired(generation).state == self@,
            effect_views(final(out)@) == effect_views(old(out)@) + self@.typing_expired(generation).effects,
    {
        let ghost start = effect_views(out@);
        if self.typing_gen == generation {
            emit(out, Effect::Subtitle { text: String::new() });
        }
        assert(effect_views(out@) =~= start + self@.typing_expired(generation).effects);
    }

    // --- Compose bar --------------------------------------------------------

    /// Puts the reply strip away.
    pub fn clear_reply(&mut self, out: &mut Vec<Effect>)
        requires
            old(self).wf(),
        ensures
            final(self).wf(),
            final(self)@ == old(self)@.reply_cleared().state,
            effect_views(final(out)@) == effect_views(old(out)@) + old(self)@.reply_cleared().effects,
    {
        let ghost start = effect_views(out@);
        self.compose_gen = succ(self.compose_gen);
        self.reply_to = 0;
        emit(out, Effect::HideReply);
        assert(effect_views(out@) =~= start + old(self)@.reply_cleared().effects);
    }

    /// Puts the edit strip away and clears the entry.
    fn exit_edit_ui(&mut self, out: &mut Vec<Effect>)
        requires
            old(self).wf(),
        ensures
            final(self).wf(),
            final(self)@ == old(self)@.edit_left().state,
            effect_views(final(out)@) == effect_views(old(out)@) + old(self)@.edit_left().effects,
    {
        let ghost start = effect_views(out@);
        self.compose_gen = succ(self.compose_gen);
        self.editing = 0;
        emit(out, Effect::HideEdit);
        emit(out, Effect::SetEntry { text: String::new() });
        assert(effect_views(out@) =~= start + old(self)@.edit_left().effects);
    }

    /// Cancels an edit.
    pub fn cancel_edit(&mut self, out: &mut Vec<Effect>)
        requires
            old(self).wf(),
        ensures
            final(self).wf(),
            final(self)@ == old(self)@.edit_left().state,
            effect_views(final(out)@) == effect_views(old(out)@) + old(self)@.edit_left().effects,
    {
        self.exit_edit_ui(out);
    }

    /// Starts a reply to `id`.
    pub fn start_reply(&mut self, id: i64, out: &mut Vec<Effect>)
        requires
            old(self).wf(),
        ensures
            final(self).wf(),
            final(self)@ == old(self)@.reply_started(id).state,
            effect_views(final(out)@) == effect_views(old(out)@) + old(self)@.reply_started(id).effects,
    {
        let ghost start = effect_views(out@);
        let ghost step = old(self)@.reply_started(id);
        self.compose_gen = succ(self.compose_gen);
        let slot: usize = match self.history.find(id) {
            Some(slot) => slot,
            None => {
                assert(start =~= start + Seq::<EffectView>::empty());
                return;
            },
        };
        if self.editing != 0 {
            self.exit_edit_ui(out);
        }
        self.reply_to = id;
        let (name, text): (String, String) = {
            let m: &MessageObject = self.history.slot(slot);
            let name: String = if m.is_outgoing {
                "You".to_owned()
            } else if m.sender_name.as_str().is_empty() {
                "Reply".to_owned()
            } else {
                m.sender_name.clone()
            };
            (name, snippet(m.content_text.as_str()))
        };
        emit(out, Effect::ShowReply { name, text });
        emit(out, Effect::FocusEntry);
        assert(effect_views(out@) =~= start + step.effects);
    }

    /// Asks whether `id` may be edited.
    pub fn begin_edit(&self, id: i64, out: &mut Vec<Effect>)
        ensures
            effect_views(final(out)@) == effect_views(old(out)@) + seq![self@.edit_asked(id)],
    {
        let ghost start = effect_views(out@);
        let purpose = Purpose::Edit { generation: self.compose_gen };
        emit(out, Effect::GetProperties { message_id: id, purpose });
        assert(effect_views(out@) =~= start + seq![
            EffectView::GetProperties { message_id: id, purpose },
        ]);
    }

    /// Whether `id` is a loaded text message.
    pub fn is_text(&self, id: i64) -> (r: bool)
        requires
            self.wf(),
        ensures
            r == self@.is_text(id),
    {
        match self.history.find(id) {
            Some(slot) => self.history.slot(slot).kind == kind::TEXT,
            None => false,
        }
    }

    /// The properties asked for by [`ChatView::begin_edit`] arrived. An answer
    /// to a question from before the compose state changed is ignored.
    pub fn edit_allowed(
        &mut self,
        id: i64,
        generation: u64,
        can_be_edited: bool,
        out: &mut Vec<Effect>,
    )
        requires
            old(self).wf(),
        ensures
            final(self).wf(),
            final(self)@ == old(self)@.edit_allowed(id, generation, can_be_edited).state,
            effect_views(final(out)@) == effect_views(old(out)@) + old(self)@.edit_allowed(id, generation, can_be_edited).effects,
    {
        let ghost start = effect_views(out@);
        if self.compose_gen == generation && can_be_edited && self.is_text(id) {
            self.enter_edit_mode(id, out);
        } else {
            assert(start =~= start + Seq::<EffectView>::empty());
        }
    }

    /// Starts an edit of `id`, with its text in the entry.
    fn enter_edit_mode(&mut self, id: i64, out: &mut Vec<Effect>)
        requires
            old(self).wf(),
        ensures
            final(self).wf(),
            final(self)@ == old(self)@.edit_entered(id).state,
            effect_views(final(out)@) == effect_views(old(out)@) + old(self)@.edit_entered(id).effects,
    {
        let ghost start = effect_views(out@);
        let ghost step = old(self)@.edit_entered(id);
        self.compose_gen = succ(self.compose_gen);
        let slot: usize = match self.history.find(id) {
            Some(slot) => slot,
            None => {
                assert(start =~= start + Seq::<EffectView>::empty());
                return;
            },
        };
        self.clear_reply(out);
        self.editing = id;
        let text: String = self.history.slot(slot).content_text.clone();
        let short: String = snippet(text.as_str());
        emit(out, Effect::SetEntry { text });
        emit(out, Effect::ShowEdit { text: short });
        emit(out, Effect::CursorToEnd);
        emit(out, Effect::FocusEntry);
        assert(effect_views(out@) =~= start + step.effects);
    }

    /// Sends the entry, or commits it as an edit.
    pub fn do_send(&mut self, entry: &str, out: &mut Vec<Effect>)
        requires
            old(self).wf(),
        ensures
            final(self).wf(),
            final(self)@ == old(self)@.sending(entry@).state,
            effect_views(final(out)@) == effect_views(old(out)@) + old(self)@.sending(entry@).effects,
    {
        let ghost start = effect_views(out@);
        let ghost step = old(self)@.sending(entry@);
        let text: String = trimmed(entry);
        if text.as_str().is_empty() {
            assert(start =~= start + Seq::<EffectView>::empty());
            return;
        }
        if self.editing != 0 {
            self.do_edit(text, out);
            return;
        }
        emit(out, Effect::SetEntry { text: String::new() });
        let reply_to: Option<i64> = self.armed_reply();
        self.clear_reply(out);
        emit(out, Effect::SendText { text, clear_draft: true, reply_to });
        assert(effect_views(out@) =~= start + step.effects);
    }

    /// Commits `text` as the edit that is under way. The edit is left only
    /// once the server accepts it.
    fn do_edit(&self, text: String, out: &mut Vec<Effect>)
        ensures
            effect_views(final(out)@) == effect_views(old(out)@) + seq![
                EffectView::EditText {
                    message_id: self@.editing,
                    text: text@,
                    clear_draft: false,
                },
            ],
    {
        let ghost start = effect_views(out@);
        let ghost said = text@;
        emit(out, Effect::EditText { message_id: self.editing, text, clear_draft: false });
        assert(effect_views(out@) =~= start + seq![
            EffectView::EditText { message_id: self@.editing, text: said, clear_draft: false },
        ]);
    }

    /// The reply target, if one is armed.
    fn armed_reply(&self) -> (r: Option<i64>)
        ensures
            r == armed(self@.reply_to),
    {
        if self.reply_to != 0 {
            Some(self.reply_to)
        } else {
            None
        }
    }

    /// The server answered an edit.
    pub fn edit_answered(&mut self, accepted: bool, out: &mut Vec<Effect>)
        requires
            old(self).wf(),
        ensures
            final(self).wf(),
            final(self)@ == old(self)@.edit_answered(accepted).state,
            effect_views(final(out)@) == effect_views(old(out)@) + old(self)@.edit_answered(accepted).effects,
    {
        let ghost start = effect_views(out@);
        if accepted {
            self.exit_edit_ui(out);
        } else {
            emit(out, Effect::Toast { text: "Couldn't edit message".to_owned() });
        }
        assert(effect_views(out@) =~= start + old(self)@.edit_answered(accepted).effects);
    }

    /// What a key press in the entry does. Escape cancels an edit, and Enter
    /// sends unless Shift is held.
    pub fn key_pressed(&self, key: Key, shift: bool) -> (r: KeyAction)
        ensures
            r == self@.key_action(key, shift),
    {
        if key == Key::Escape && self.editing != 0 {
            KeyAction::CancelEdit
        } else if key == Key::Enter && !shift {
            KeyAction::Send
        } else {
            KeyAction::Proceed
        }
    }

    /// The text of the entry changed: the send button takes the place of the
    /// microphone while there is something to send.
    pub fn entry_changed(&self, entry: &str, out: &mut Vec<Effect>)
        requires
            self.wf(),
        ensures
            self@.entry_changed(entry@).state == self@,
            effect_views(final(out)@) == effect_views(old(out)@) + self@.entry_changed(entry@).effects,
    {
        let ghost start = effect_views(out@);
        if !self.recording {
            emit(out, Effect::TrailingSlot { send: says(entry) });
        }
        assert(effect_views(out@) =~= start + self@.entry_changed(entry@).effects);
    }

    /// The text of the entry changed at `micros` after the epoch: signals that
    /// we are typing, but not too often.
    pub fn typed(&mut self, entry: &str, micros: i64, out: &mut Vec<Effect>)
        requires
            old(self).wf(),
        ensures
            final(self).wf(),
            final(self)@ == old(self)@.typed(entry@, whole_seconds(micros as int)).state,
            effect_views(final(out)@) == effect_views(old(out)@) + old(self)@.typed(entry@, whole_seconds(micros as int)).effects,
    {
        let ghost start = effect_views(out@);
        let ghost step = old(self)@.typed(entry@, whole_seconds(micros as int));
        if says(entry) {
            let now: i64 = seconds(micros);
            if now - self.last_typing_sent >= TYPING_INTERVAL {
                self.last_typing_sent = now;
                emit(out, Effect::SendTyping);
            }
        }
        assert(effect_views(out@) =~= start + step.effects);
    }

    // --- Voice notes --------------------------------------------------------

    /// Whether a voice note is being recorded.
    pub fn recording(&self) -> (r: bool)
        ensures
            r == self@.recording,
    {
        self.recording
    }

    /// Starts a voice note, unless one is being recorded.
    pub fn start_recording(&self, out: &mut Vec<Effect>)
        ensures
            effect_views(final(out)@) == effect_views(old(out)@) + self@.recorder_wanted(),
    {
        let ghost start = effect_views(out@);
        if !self.recording {
            emit(out, Effect::StartRecorder);
            assert(effect_views(out@) =~= start + seq![EffectView::StartRecorder]);
        } else {
            assert(start =~= start + Seq::<EffectView>::empty());
        }
    }

    /// The recorder was started.
    pub fn recording_started(&mut self, out: &mut Vec<Effect>)
        requires
            old(self).wf(),
        ensures
            final(self).wf(),
            final(self)@ == old(self)@.recording_started().state,
            effect_views(final(out)@) == effect_views(old(out)@) + old(self)@.recording_started().effects,
    {
        let ghost start = effect_views(out@);
        self.recording = true;
        emit(out, Effect::ShowRecording);
        emit(out, Effect::TimerText { text: "0:00".to_owned() });
        assert(effect_views(out@) =~= start + old(self)@.recording_started().effects);
    }

    /// A second of recording passed; `secs` is the length so far. Returns
    /// false once there is no recording to time.
    pub fn recording_tick(&self, secs: i32, out: &mut Vec<Effect>) -> (go_on: bool)
        ensures
            go_on == self@.recording,
            effect_views(final(out)@) == effect_views(old(out)@) + self@.timed(secs as int),
    {
        let ghost start = effect_views(out@);
        if self.recording {
            emit(out, Effect::TimerText { text: format_duration(secs) });
            assert(effect_views(out@) =~= start + seq![
                EffectView::TimerText { text: duration_text(secs as int) },
            ]);
        } else {
            assert(start =~= start + Seq::<EffectView>::empty());
        }
        self.recording
    }

    /// Brings the compose row back after a recording.
    fn stop_rec_ui(&mut self, entry: &str, out: &mut Vec<Effect>)
        requires
            old(self).wf(),
        ensures
            final(self).wf(),
            final(self)@ == old(self)@.recording_left(entry@).state,
            effect_views(final(out)@) == effect_views(old(out)@) + old(self)@.recording_left(entry@).effects,
    {
        let ghost start = effect_views(out@);
        self.recording = false;
        emit(out, Effect::HideRecording);
        emit(out, Effect::TimerText { text: "0:00".to_owned() });
        emit(out, Effect::TrailingSlot { send: says(entry) });
        assert(effect_views(out@) =~= start + old(self)@.recording_left(entry@).effects);
    }

    /// Discards the recording. An armed reply stays armed.
    pub fn cancel_recording(&mut self, entry: &str, out: &mut Vec<Effect>)
        requires
            old(self).wf(),
        ensures
            final(self).wf(),
            final(self)@ == old(self)@.recording_cancelled(entry@).state,
            effect_views(final(out)@) == effect_views(old(out)@) + old(self)@.recording_cancelled(entry@).effects,
    {
        let ghost start = effect_views(out@);
        emit(out, Effect::CancelRecorder);
        self.stop_rec_ui(entry, out);
        assert(effect_views(out@) =~= start + old(self)@.recording_cancelled(entry@).effects);
    }

    /// Sends the recording, as a reply where one is armed. `recorded` is what
    /// the recorder produced, its file and its length in seconds.
    pub fn send_recording(
        &mut self,
        recorded: Option<(String, i32)>,
        entry: &str,
        out: &mut Vec<Effect>,
    )
        requires
            old(self).wf(),
        ensures
            final(self).wf(),
            final(self)@ == old(self)@.recording_sent(recorded_view(recorded), entry@).state,
            effect_views(final(out)@) == effect_views(old(out)@) + old(self)@.recording_sent(recorded_view(recorded), entry@).effects,
    {
        let ghost start = effect_views(out@);
        let ghost step = old(self)@.recording_sent(recorded_view(recorded), entry@);
        self.stop_rec_ui(entry, out);
        match recorded {
            Some((path, duration)) => {
                let reply_to: Option<i64> = self.armed_reply();
                self.clear_reply(out);
                emit(out, Effect::SendVoice { path, duration, reply_to });
            },
            None => {},
        }
        assert(effect_views(out@) =~= start + step.effects);
    }

    // --- Reactions ----------------------------------------------------------

    /// Toggles our reaction `emoji` on the message `id`.
    pub fn toggle_reaction(&mut self, id: i64, emoji: &str, out: &mut Vec<Effect>)
        requires
            old(self).wf(),
        ensures
            final(self).wf(),
            final(self)@ == old(self)@.reaction_toggled(id, emoji@).state,
            effect_views(final(out)@) == effect_views(old(out)@) + old(self)@.reaction_toggled(id, emoji@).effects,
    {
        let ghost start = effect_views(out@);
        let ghost step = old(self)@.reaction_toggled(id, emoji@);
        let already: bool = match self.history.find(id) {
            Some(slot) => is_chosen(&self.history.slot(slot).reactions, emoji),
            None => false,
        };
        if under_way(&self.inflight, id, emoji) {
            assert(start =~= start + Seq::<EffectView>::empty());
            return;
        }
        self.inflight.push((id, emoji.to_owned()));
        assert(self@.inflight =~= old(self)@.inflight.push((id, emoji@)));
        if already {
            emit(out, Effect::RemoveReaction { message_id: id, emoji: emoji.to_owned() });
        } else {
            emit(out, Effect::AddReaction { message_id: id, emoji: emoji.to_owned() });
        }
        assert(effect_views(out@) =~= start + step.effects);
    }

    /// The server answered a toggle.
    pub fn reaction_answered(
        &mut self,
        id: i64,
        emoji: &str,
        removing: bool,
        accepted: bool,
        out: &mut Vec<Effect>,
    )
        requires
            old(self).wf(),
        ensures
            final(self).wf(),
            final(self)@ == old(self)@.reaction_answered(id, emoji@, removing, accepted).state,
            effect_views(final(out)@) == effect_views(old(out)@) + old(self)@.reaction_answered(id, emoji@, removing, accepted).effects,
    {
        let ghost start = effect_views(out@);
        let ghost step = old(self)@.reaction_answered(id, emoji@, removing, accepted);
        self.inflight = others(&self.inflight, id, emoji);
        if !accepted {
            if removing {
                emit(out, Effect::Toast { text: "Couldn't remove reaction".to_owned() });
            } else {
                emit(out, Effect::Toast { text: "Couldn't add reaction".to_owned() });
            }
        }
        assert(effect_views(out@) =~= start + step.effects);
    }

    // --- Forwarding, copying, deleting --------------------------------------

    /// Asks whether `id` may be forwarded.
    pub fn forward_message(&self, id: i64, out: &mut Vec<Effect>)
        ensures
            effect_views(final(out)@) == effect_views(old(out)@) + seq![forward_asked(id)],
    {
        let ghost start = effect_views(out@);
        emit(out, Effect::GetProperties { message_id: id, purpose: Purpose::Forward });
        assert(effect_views(out@) =~= start + seq![
            EffectView::GetProperties { message_id: id, purpose: Purpose::Forward },
        ]);
    }

    /// The properties asked for by [`ChatView::forward_message`] arrived.
    pub fn forward_allowed(&self, id: i64, can_be_forwarded: bool, out: &mut Vec<Effect>)
        ensures
            effect_views(final(out)@) == effect_views(old(out)@) + if can_be_forwarded {
                seq![EffectView::OpenForwardPicker { message_id: id }]
            } else {
                Seq::empty()
            },
    {
        let ghost start = effect_views(out@);
        if can_be_forwarded {
            emit(out, Effect::OpenForwardPicker { message_id: id });
            assert(effect_views(out@) =~= start + seq![
                EffectView::OpenForwardPicker { message_id: id },
            ]);
        } else {
            assert(start =~= start + Seq::<EffectView>::empty());
        }
    }

    /// The user picked the chat to forward `id` to.
    pub fn do_forward(&self, id: i64, to_chat: i64, out: &mut Vec<Effect>)
        ensures
            effect_views(final(out)@) == effect_views(old(out)@) + seq![forward_to(id, to_chat)],
    {
        let ghost start = effect_views(out@);
        emit(out, Effect::ForwardMessage { message_id: id, to_chat });
        assert(effect_views(out@) =~= start + seq![
            EffectView::ForwardMessage { message_id: id, to_chat },
        ]);
    }

    /// The server answered a forward, with one entry per message: its id in
    /// the other chat, or nothing where it could not be forwarded.
    pub fn forwarded(&self, answer: Option<&Vec<Option<i64>>>, out: &mut Vec<Effect>)
        ensures
            effect_views(final(out)@) == effect_views(old(out)@) + forward_told(
                match answer {
                    Some(sent) => Some(sent@),
                    None => None,
                },
            ),
    {
        let ghost start = effect_views(out@);
        let done: bool = match answer {
            Some(sent) => sent.len() > 0 && sent[0].is_some(),
            None => false,
        };
        let text: String = if done {
            "Forwarded".to_owned()
        } else {
            "Couldn't forward".to_owned()
        };
        let ghost said = text@;
        emit(out, Effect::Toast { text });
        assert(effect_views(out@) =~= start + seq![EffectView::Toast { text: said }]);
    }

    /// Copies the text of a message.
    pub fn copy_message(&self, id: i64, out: &mut Vec<Effect>)
        requires
            self.wf(),
        ensures
            effect_views(final(out)@) == effect_views(old(out)@) + self@.copied(id),
    {
        let ghost start = effect_views(out@);
        match self.history.find(id) {
            Some(slot) => {
                let text: String = self.history.slot(slot).content_text.clone();
                let ghost said = text@;
                emit(out, Effect::Copy { text });
                assert(effect_views(out@) =~= start + seq![EffectView::Copy { text: said }]);
            },
            None => {
                assert(start =~= start + Seq::<EffectView>::empty());
            },
        }
    }

    /// Asks how `id` may be deleted.
    pub fn delete_message(&self, id: i64, out: &mut Vec<Effect>)
        ensures
            effect_views(final(out)@) == effect_views(old(out)@) + seq![delete_asked(id)],
    {
        let ghost start = effect_views(out@);
        emit(out, Effect::GetProperties { message_id: id, purpose: Purpose::Delete });
        assert(effect_views(out@) =~= start + seq![
            EffectView::GetProperties { message_id: id, purpose: Purpose::Delete },
        ]);
    }

    /// The properties asked for by [`ChatView::delete_message`] arrived:
    /// whether the message may be deleted for everyone, and for oneself alone.
    pub fn confirm_delete(&self, id: i64, allowed: Option<(bool, bool)>, out: &mut Vec<Effect>)
        ensures
            effect_views(final(out)@) == effect_views(old(out)@) + seq![
                EffectView::ConfirmDelete { message_id: id, choices: delete_choices(allowed) },
            ],
    {
        let ghost start = effect_views(out@);
        let (everyone, own): (bool, bool) = match allowed {
            Some(a) => a,
            None => (false, true),
        };
        let choices = DeleteChoices { everyone, own: own || !everyone, default_everyone: everyone };
        emit(out, Effect::ConfirmDelete { message_id: id, choices });
        assert(effect_views(out@) =~= start + seq![
            EffectView::ConfirmDelete { message_id: id, choices },
        ]);
    }

    /// The properties of a message came, or could not be read.
    pub fn properties_answered(
        &mut self,
        id: i64,
        purpose: Purpose,
        answer: Option<Properties>,
        out: &mut Vec<Effect>,
    )
        requires
            old(self).wf(),
        ensures
            final(self).wf(),
            final(self)@ == old(self)@.properties_answered(id, purpose, answer).state,
            effect_views(final(out)@) == effect_views(old(out)@) + old(self)@.properties_answered(
                id,
                purpose,
                answer,
            ).effects,
    {
        let ghost start = effect_views(out@);
        match (purpose, answer) {
            (Purpose::Edit { generation }, Some(p)) => {
                self.edit_allowed(id, generation, p.can_be_edited, out);
            },
            (Purpose::Forward, Some(p)) => {
                self.forward_allowed(id, p.can_be_forwarded, out);
            },
            (Purpose::Delete, Some(p)) => {
                let allowed: (bool, bool) = (
                    p.can_be_deleted_for_all_users,
                    p.can_be_deleted_only_for_self,
                );
                self.confirm_delete(id, Some(allowed), out);
            },
            (Purpose::Delete, None) => {
                self.confirm_delete(id, None, out);
            },
            _ => {
                assert(start =~= start + Seq::<EffectView>::empty());
            },
        }
    }

    /// The user answered the delete dialog; any other answer cancels.
    pub fn delete_answered(&self, id: i64, answer: &str, out: &mut Vec<Effect>)
        ensures
            effect_views(final(out)@) == effect_views(old(out)@) + deletion_chosen(id, answer@),
    {
        let ghost start = effect_views(out@);
        if same_text(answer, "all") {
            emit(out, Effect::DeleteMessage { message_id: id, revoke: true });
            assert(effect_views(out@) =~= start + seq![
                EffectView::DeleteMessage { message_id: id, revoke: true },
            ]);
        } else if same_text(answer, "self") {
            emit(out, Effect::DeleteMessage { message_id: id, revoke: false });
            assert(effect_views(out@) =~= start + seq![
                EffectView::DeleteMessage { message_id: id, revoke: false },
            ]);
        } else {
            assert(start =~= start + Seq::<EffectView>::empty());
        }
    }
}

/// The value of what a recorder produced.
pub open spec fn recorded_view(r: Option<(String, i32)>) -> Option<(Seq<char>, i32)> {
    match r {
        Some((path, duration)) => Some((path@, duration)),
        None => None,
    }
}

} // verus!
