//! What the compose area and the status line do with what they are given.

use crate::models::measure::duration_text;
use crate::tdlib::types::{ChatAction, MessageSender, UpdateView};
use crate::text::{is_white_space, trim, trim_strips_white_space};
use crate::ui::chat_view::batch_laws::unknown_users_are_fetched;
use crate::ui::chat_view::effect::{DeleteChoices, EffectView, Properties, Purpose};
use crate::ui::chat_view::model::{HistoryView, Step};
use crate::ui::chat_view::names::snippet_text;
use crate::ui::chat_view::state::{closing, delete_asked, deletion_chosen, forward_asked,
    forward_to, forward_told, opening, ChatState, ViewStep};
use crate::ui::chat_view::view::{Key, KeyAction};
use vstd::prelude::*;

verus! {

/// Whether a text says anything: whether some character of it is visible.
pub open spec fn says_something(text: Seq<char>) -> bool {
    exists|i: int| 0 <= i < text.len() && !is_white_space(#[trigger] text[i])
}

/// Whether `step` changes nothing about the loaded messages.
pub open spec fn keeps_messages(s: ChatState, step: ViewStep) -> bool {
    &&& step.state.history == s.history
    &&& step.state.chat_id == s.chat_id
    &&& step.state.me_id == s.me_id
    &&& step.state.inflight == s.inflight
    &&& step.state.recording == s.recording
    &&& step.state.last_typing_sent == s.last_typing_sent
    &&& step.state.typing_gen == s.typing_gen
}

proof fn lemma_holds(effects: Seq<EffectView>, i: int)
    requires
        0 <= i < effects.len(),
    ensures
        effects.contains(effects[i]),
{
}

// --- Replies and edits -------------------------------------------------------

/// A reply to a loaded message is armed, and the strip names the message's
/// sender and says its text in short. An edit under way is left for it, and the
/// entry cleared then. Nothing is armed for a message that is not loaded.
pub proof fn reply_is_armed(s: ChatState, id: i64)
    ensures
        ({
            let step = s.reply_started(id);
            let m = s.history.slots[s.history.index[id] as int];
            let n = step.effects.len();
            &&& keeps_messages(s, step)
            &&& s.history.index.contains_key(id) ==> {
                &&& step.state.reply_to == id
                &&& step.state.editing == 0
                &&& n >= 2
                &&& step.effects[n - 2] matches EffectView::ShowReply { name, text } && text
                    == snippet_text(m.content_text) && (m.is_outgoing ==> name == "You"@) && (
                !m.is_outgoing && m.sender_name.len() > 0 ==> name == m.sender_name) && (
                !m.is_outgoing && m.sender_name.len() == 0 ==> name == "Reply"@)
                &&& step.effects[n - 1] == EffectView::FocusEntry
                &&& s.editing != 0 ==> step.effects.contains(EffectView::HideEdit)
                    && step.effects.contains(EffectView::SetEntry { text: Seq::empty() })
                &&& s.editing == 0 ==> n == 2
            }
            &&& !s.history.index.contains_key(id) ==> step.state.reply_to == s.reply_to
                && step.state.editing == s.editing && n == 0
        }),
{
    let step = s.reply_started(id);
    if s.history.index.contains_key(id) && s.editing != 0 {
        lemma_holds(step.effects, 0);
        lemma_holds(step.effects, 1);
        assert(step.effects[1] == (EffectView::SetEntry { text: Seq::empty() }));
    }
}

/// An edit that is allowed takes the text of the message into the entry and
/// drops a reply under way. Anything else changes nothing.
pub proof fn edit_is_entered(s: ChatState, id: i64, generation: u64, can_be_edited: bool)
    ensures
        ({
            let step = s.edit_allowed(id, generation, can_be_edited);
            let m = s.history.slots[s.history.index[id] as int];
            let may = s.history.index.contains_key(id) && m.kind == 0 && can_be_edited
                && s.compose_gen == generation;
            &&& keeps_messages(s, step)
            &&& may ==> {
                &&& step.state.editing == id
                &&& step.state.reply_to == 0
                &&& step.effects == seq![
                    EffectView::HideReply,
                    EffectView::SetEntry { text: m.content_text },
                    EffectView::ShowEdit { text: snippet_text(m.content_text) },
                    EffectView::CursorToEnd,
                    EffectView::FocusEntry,
                ]
            }
            &&& !may ==> step.state == s && step.effects.len() == 0
        }),
{
    let step = s.edit_allowed(id, generation, can_be_edited);
    if s.is_text(id) && can_be_edited && s.compose_gen == generation {
        assert(step.effects =~= seq![
            EffectView::HideReply,
            EffectView::SetEntry {
                text: s.history.slots[s.history.index[id] as int].content_text,
            },
            EffectView::ShowEdit {
                text: snippet_text(s.history.slots[s.history.index[id] as int].content_text),
            },
            EffectView::CursorToEnd,
            EffectView::FocusEntry,
        ]);
    }
}

/// What the properties of a message allow is what is offered: a forward only
/// where it may be forwarded, and a deletion for everyone only where that is
/// allowed. Deleting is always offered in some way; without properties, for
/// oneself alone.
pub proof fn properties_decide(s: ChatState, id: i64, generation: u64, p: Properties)
    ensures
        s.properties_answered(id, Purpose::Forward, Some(p)).effects == (if p.can_be_forwarded {
            seq![EffectView::OpenForwardPicker { message_id: id }]
        } else {
            Seq::empty()
        }),
        s.properties_answered(id, Purpose::Forward, None).effects.len() == 0,
        s.properties_answered(id, Purpose::Edit { generation }, None).effects.len() == 0,
        s.properties_answered(id, Purpose::Edit { generation }, None).state == s,
        s.properties_answered(id, Purpose::Forward, Some(p)).state == s,
        s.properties_answered(id, Purpose::Delete, Some(p)).state == s,
        s.properties_answered(id, Purpose::Delete, Some(p)).effects == seq![
            EffectView::ConfirmDelete {
                message_id: id,
                choices: DeleteChoices {
                    everyone: p.can_be_deleted_for_all_users,
                    own: p.can_be_deleted_only_for_self || !p.can_be_deleted_for_all_users,
                    default_everyone: p.can_be_deleted_for_all_users,
                },
            },
        ],
        s.properties_answered(id, Purpose::Delete, None).effects == seq![
            EffectView::ConfirmDelete {
                message_id: id,
                choices: DeleteChoices { everyone: false, own: true, default_everyone: false },
            },
        ],
{
}

/// What says something is sent without the white space around it: as a reply
/// where one is armed. The entry is cleared and the reply disarmed. While an
/// edit is under way, the text goes to the message that is edited instead, and
/// everything stays until the server answers.
pub proof fn text_is_sent(s: ChatState, entry: Seq<char>)
    requires
        says_something(entry),
    ensures
        ({
            let step = s.sending(entry);
            &&& keeps_messages(s, step)
            &&& s.editing == 0 ==> {
                &&& step.effects.last() matches EffectView::SendText { text, clear_draft, reply_to }
                    && text == trim(entry) && clear_draft && (s.reply_to != 0 ==> reply_to == Some(
                    s.reply_to,
                )) && (s.reply_to == 0 ==> reply_to is None)
                &&& step.effects.contains(EffectView::SetEntry { text: Seq::empty() })
                &&& step.effects.contains(EffectView::HideReply)
                &&& step.state.reply_to == 0
                &&& step.state.editing == 0
            }
            &&& s.editing != 0 ==> {
                &&& step.state == s
                &&& step.effects == seq![
                    EffectView::EditText {
                        message_id: s.editing,
                        text: trim(entry),
                        clear_draft: false,
                    },
                ]
            }
        }),
{
    let step = s.sending(entry);
    trim_strips_white_space(entry);
    let i = choose|i: int| 0 <= i < entry.len() && !is_white_space(#[trigger] entry[i]);
    assert(trim(entry).len() > 0);
    if s.editing == 0 {
        lemma_holds(step.effects, 0);
        lemma_holds(step.effects, 1);
        assert(step.effects[0] == (EffectView::SetEntry { text: Seq::empty() }));
    }
}

/// What says nothing is not sent.
pub proof fn blank_text_is_not_sent(s: ChatState, entry: Seq<char>, now: int)
    requires
        !says_something(entry),
    ensures
        s.sending(entry).effects.len() == 0,
        s.sending(entry).state == s,
        s.typed(entry, now).effects.len() == 0,
        !s.recording ==> s.entry_changed(entry).effects == seq![
            EffectView::TrailingSlot { send: false },
        ],
{
    lemma_blank(entry);
}

proof fn lemma_blank(entry: Seq<char>)
    requires
        !says_something(entry),
    ensures
        trim(entry).len() == 0,
{
    trim_strips_white_space(entry);
    if trim(entry).len() > 0 {
        let a = choose|a: int|
            0 <= a && a + trim(entry).len() <= entry.len() && trim(entry) == #[trigger] entry.subrange(
                a,
                a + trim(entry).len(),
            );
        assert(trim(entry)[0] == entry[a]);
    }
}

/// The send button shows exactly while there is something to send, unless a
/// recording runs.
pub proof fn send_button_follows_the_text(s: ChatState, entry: Seq<char>)
    ensures
        s.entry_changed(entry).state == s,
        s.recording ==> s.entry_changed(entry).effects.len() == 0,
        !s.recording && says_something(entry) ==> s.entry_changed(entry).effects == seq![
            EffectView::TrailingSlot { send: true },
        ],
        !s.recording && !says_something(entry) ==> s.entry_changed(entry).effects == seq![
            EffectView::TrailingSlot { send: false },
        ],
{
    if says_something(entry) {
        trim_strips_white_space(entry);
        let i = choose|i: int| 0 <= i < entry.len() && !is_white_space(#[trigger] entry[i]);
        assert(trim(entry).len() > 0);
    } else {
        lemma_blank(entry);
    }
}

/// That we type is signalled when there is something in the entry and the last
/// signal is five seconds or more ago, and the time of it is kept.
pub proof fn typing_is_signalled(s: ChatState, entry: Seq<char>, now: int)
    requires
        i64::MIN <= now <= i64::MAX,
        says_something(entry),
    ensures
        now - s.last_typing_sent >= 5 ==> s.typed(entry, now).effects == seq![
            EffectView::SendTyping,
        ] && s.typed(entry, now).state == (ChatState { last_typing_sent: now as i64, ..s }),
        now - s.last_typing_sent < 5 ==> s.typed(entry, now).effects.len() == 0 && s.typed(
            entry,
            now,
        ).state == s,
{
    trim_strips_white_space(entry);
    let i = choose|i: int| 0 <= i < entry.len() && !is_white_space(#[trigger] entry[i]);
    assert(trim(entry).len() > 0);
}

/// An edit that the server took is left and the entry cleared; one that it
/// refused is said to have failed, and stays.
pub proof fn edit_answer_is_shown(s: ChatState)
    ensures
        s.edit_answered(true).state.editing == 0,
        s.edit_answered(true).state.reply_to == s.reply_to,
        keeps_messages(s, s.edit_answered(true)),
        s.edit_answered(true).effects == seq![
            EffectView::HideEdit,
            EffectView::SetEntry { text: Seq::empty() },
        ],
        s.edit_answered(false).state == s,
        s.edit_answered(false).effects == seq![
            EffectView::Toast { text: "Couldn't edit message"@ },
        ],
{
}

/// Putting a reply away disarms it, and touches no edit.
pub proof fn reply_is_put_away(s: ChatState)
    ensures
        s.reply_cleared().state.reply_to == 0,
        s.reply_cleared().state.editing == s.editing,
        keeps_messages(s, s.reply_cleared()),
        s.reply_cleared().effects == seq![EffectView::HideReply],
        s.edit_left().state.editing == 0,
        s.edit_left().state.reply_to == s.reply_to,
        keeps_messages(s, s.edit_left()),
{
}

// --- Voice notes -------------------------------------------------------------

/// A recording runs from its start to its end, and shows; the timer starts from
/// nothing each time. However it ends, the row of the entry comes back with the
/// button that fits the text.
pub proof fn recording_shows(
    s: ChatState,
    entry: Seq<char>,
    recorded: Option<(Seq<char>, i32)>,
)
    requires
        says_something(entry),
    ensures
        s.recording_started().state == (ChatState { recording: true, ..s }),
        s.recording_started().effects == seq![
            EffectView::ShowRecording,
            EffectView::TimerText { text: "0:00"@ },
        ],
        s.recording_cancelled(entry).state == (ChatState { recording: false, ..s }),
        s.recording_cancelled(entry).effects == seq![
            EffectView::CancelRecorder,
            EffectView::HideRecording,
            EffectView::TimerText { text: "0:00"@ },
            EffectView::TrailingSlot { send: true },
        ],
        !s.recording_sent(recorded, entry).state.recording,
        s.recording_sent(recorded, entry).state.history == s.history,
        s.recording_sent(recorded, entry).state.editing == s.editing,
        s.recording_sent(None, entry).state == (ChatState { recording: false, ..s }),
        s.recording_sent(recorded, entry).effects.take(3) == seq![
            EffectView::HideRecording,
            EffectView::TimerText { text: "0:00"@ },
            EffectView::TrailingSlot { send: true },
        ],
        s.recording_sent(None, entry).effects.len() == 3,
{
    send_button_follows_the_text(ChatState { recording: false, ..s }, entry);
    assert((ChatState { recording: false, ..s }).entry_changed(entry).effects[0]
        == (EffectView::TrailingSlot { send: true }));
    assert(s.recording_cancelled(entry).effects =~= seq![
        EffectView::CancelRecorder,
        EffectView::HideRecording,
        EffectView::TimerText { text: "0:00"@ },
        EffectView::TrailingSlot { send: true },
    ]);
    assert(s.recording_sent(recorded, entry).effects.take(3) =~= seq![
        EffectView::HideRecording,
        EffectView::TimerText { text: "0:00"@ },
        EffectView::TrailingSlot { send: true },
    ]);
}

/// A voice note is sent with its file and its length, as a reply where one is
/// armed, which is disarmed then.
pub proof fn voice_note_is_sent(s: ChatState, entry: Seq<char>, path: Seq<char>, duration: i32)
    ensures
        ({
            let step = s.recording_sent(Some((path, duration)), entry);
            &&& step.state.reply_to == 0
            &&& step.effects.contains(EffectView::HideReply)
            &&& s.reply_to != 0 ==> step.effects.last() == (EffectView::SendVoice {
                path,
                duration,
                reply_to: Some(s.reply_to),
            })
            &&& s.reply_to == 0 ==> step.effects.last() == (EffectView::SendVoice {
                path,
                duration,
                reply_to: None,
            })
        }),
{
    let step = s.recording_sent(Some((path, duration)), entry);
    lemma_holds(step.effects, 3);
    assert(step.effects[3] == EffectView::HideReply);
}

// --- Reactions ---------------------------------------------------------------

/// A toggle takes our reaction away where we have it and adds it where we do
/// not: that emoji, on that message. It is under way from then on.
pub proof fn toggle_asks_for_the_other(s: ChatState, id: i64, emoji: Seq<char>, k: int)
    requires
        !s.inflight.contains((id, emoji)),
    ensures
        ({
            let step = s.reaction_toggled(id, emoji);
            let m = s.history.slots[s.history.index[id] as int];
            &&& step.state == ChatState { inflight: step.state.inflight, ..s }
            &&& step.state.inflight == s.inflight.push((id, emoji))
            &&& step.effects.len() == 1
            &&& step.effects[0] == (EffectView::RemoveReaction { message_id: id, emoji })
                || step.effects[0] == (EffectView::AddReaction { message_id: id, emoji })
            &&& s.history.index.contains_key(id) && 0 <= k < m.reactions.len()
                && m.reactions[k].emoji == emoji && m.reactions[k].is_chosen
                ==> step.effects[0] is RemoveReaction
            &&& step.effects[0] is RemoveReaction ==> s.history.index.contains_key(id) && exists|
                i: int,
            |
                0 <= i < m.reactions.len() && (#[trigger] m.reactions[i]).emoji == emoji
                    && m.reactions[i].is_chosen
        }),
{
}

/// A refused toggle is said to have failed, and in which way.
pub proof fn refused_toggle_is_told(s: ChatState, id: i64, emoji: Seq<char>, removing: bool)
    ensures
        s.reaction_answered(id, emoji, removing, true).effects.len() == 0,
        s.reaction_answered(id, emoji, true, false).effects == seq![
            EffectView::Toast { text: "Couldn't remove reaction"@ },
        ],
        s.reaction_answered(id, emoji, false, false).effects == seq![
            EffectView::Toast { text: "Couldn't add reaction"@ },
        ],
        s.reaction_answered(id, emoji, removing, true).state.history == s.history,
        s.reaction_answered(id, emoji, removing, false).state.history == s.history,
{
}

// --- Typing of others --------------------------------------------------------

/// That another user types is shown, with their name where the chat is a group
/// and the name is known. Where it is not known there, the user is fetched. A
/// timeout is armed that this signal can be told by.
pub proof fn typing_is_shown(s: ChatState, user: i64)
    requires
        user != s.me_id,
    ensures
        ({
            let step = s.action_seen(MessageSender::User(user), ChatAction::Typing);
            let n = step.effects.len();
            let known = s.history.names.contains_key(user) && s.history.names[user].len() > 0;
            &&& step.state == ChatState { typing_gen: step.state.typing_gen, ..s }
            &&& step.state.typing_gen != s.typing_gen
            &&& n >= 2
            &&& step.effects[n - 1] == (EffectView::ArmTypingClear {
                generation: step.state.typing_gen,
            })
            &&& !s.history.is_group || !known ==> step.effects[n - 2] == (EffectView::Subtitle {
                text: "typing…"@,
            })
            &&& s.history.is_group && known ==> step.effects[n - 2] == (EffectView::Subtitle {
                text: s.history.names[user] + " is typing…"@,
            })
            &&& s.history.is_group && user != 0 && !s.history.names.contains_key(user)
                ==> step.effects.contains(EffectView::FetchUser { user_id: user })
        }),
{
    let step = s.action_seen(MessageSender::User(user), ChatAction::Typing);
    let ids = seq![user];
    assert(ids[0] == user);
    assert(ids.contains(user));
    unknown_users_are_fetched(s.history, ids, user);
    let wanted = EffectView::FetchUser { user_id: user };
    let fetched = s.history.fetches(ids);
    if s.history.is_group && user != 0 && !s.history.names.contains_key(user) {
        let k = choose|k: int| 0 <= k < fetched.len() && fetched[k] == wanted;
        assert(step.effects[k] == wanted);
    }
}

/// Once another user stops, the status line is empty; other actions leave it as
/// it is.
pub proof fn end_of_typing_is_shown(s: ChatState, user: i64)
    requires
        user != s.me_id,
    ensures
        s.action_seen(MessageSender::User(user), ChatAction::Cancel).effects == seq![
            EffectView::Subtitle { text: Seq::empty() },
        ],
        s.action_seen(MessageSender::User(user), ChatAction::Cancel).state.typing_gen
            != s.typing_gen,
        s.action_seen(MessageSender::User(user), ChatAction::Other).effects.len() == 0,
        s.action_seen(MessageSender::User(user), ChatAction::Other).state == s,
{
}

// --- Updates -----------------------------------------------------------------

/// Whether `step` is what `inner` does to the history, and nothing else.
pub open spec fn only_history(s: ChatState, step: ViewStep, inner: Step) -> bool {
    &&& step.state == ChatState { history: inner.history, ..s }
    &&& step.effects == inner.effects
}

/// Each update of this chat does to it what it says.
pub proof fn updates_reach_the_chat(s: ChatState, update: UpdateView)
    ensures
        update matches UpdateView::NewMessage { message } ==> message.chat_id == s.chat_id
            ==> only_history(s, s.updated(update), s.history.new_message(message)),
        update matches UpdateView::MessageSendSucceeded { message, old_message_id }
            ==> message.chat_id == s.chat_id ==> only_history(
            s,
            s.updated(update),
            s.history.send_succeeded(old_message_id, message),
        ),
        update matches UpdateView::MessageSendFailed { message, old_message_id } ==> message.chat_id
            == s.chat_id ==> only_history(
            s,
            s.updated(update),
            s.history.send_failed(old_message_id, message),
        ),
        update matches UpdateView::MessageContent { chat_id, message_id, new_content } ==> chat_id
            == s.chat_id ==> only_history(
            s,
            s.updated(update),
            s.history.content_changed(message_id, new_content),
        ),
        update matches UpdateView::MessageInteractionInfo { chat_id, message_id, reactions }
            ==> chat_id == s.chat_id ==> only_history(
            s,
            s.updated(update),
            s.history.reactions_changed(message_id, reactions),
        ),
        update matches UpdateView::ChatReadOutbox { chat_id, last_read_outbox_message_id }
            ==> chat_id == s.chat_id ==> only_history(
            s,
            s.updated(update),
            s.history.read_outbox(last_read_outbox_message_id),
        ),
        update matches UpdateView::DeleteMessages { chat_id, message_ids, from_cache } ==> chat_id
            == s.chat_id && !from_cache ==> s.updated(update) == s.all_removed(message_ids),
        update matches UpdateView::ChatAction { chat_id, sender_id, action } ==> chat_id
            == s.chat_id ==> s.updated(update) == s.action_seen(sender_id, action),
{
}

/// A message that is deleted is taken out of the list, and an edit of it or a
/// reply to it is put away with it. The messages that stay are as they were.
pub proof fn deletion_is_shown(s: ChatState, id: i64)
    requires
        s.history.index.contains_key(id),
    ensures
        ({
            let step = s.removed(id);
            &&& !step.state.history.index.contains_key(id)
            &&& step.state.history.index == s.history.index.remove(id)
            &&& step.state.history.slots == s.history.slots
            &&& s.editing == id && id != 0 ==> step.effects.contains(EffectView::HideEdit)
                && step.effects.contains(EffectView::SetEntry { text: Seq::empty() })
            &&& s.reply_to == id && id != 0 ==> step.effects.contains(EffectView::HideReply)
            &&& s.editing != id && s.reply_to != id ==> forall|i: int|
                0 <= i < step.effects.len() ==> (#[trigger] step.effects[i]) is Removed
        }),
{
    let step = s.removed(id);
    if s.editing == id && id != 0 {
        lemma_holds(step.effects, 0);
        lemma_holds(step.effects, 1);
        assert(step.effects[1] == (EffectView::SetEntry { text: Seq::empty() }));
        if s.reply_to == id {
            lemma_holds(step.effects, 2);
        }
    } else if s.reply_to == id {
        lemma_holds(step.effects, 0);
    }
}

// --- Keys, copies and answers ------------------------------------------------

/// Enter sends, with Shift it does not. Escape leaves an edit, and only where
/// there is one. Every other key types.
pub proof fn keys_do_their_part(s: ChatState, key: Key, shift: bool)
    ensures
        s.key_action(key, shift) == KeyAction::Send <==> key == Key::Enter && !shift,
        s.key_action(key, shift) == KeyAction::CancelEdit <==> key == Key::Escape && s.editing != 0,
{
}

/// Copying a loaded message copies its text; there is nothing to copy of any
/// other.
pub proof fn text_is_copied(s: ChatState, id: i64)
    ensures
        s.history.index.contains_key(id) ==> s.copied(id) == seq![
            EffectView::Copy { text: s.history.slots[s.history.index[id] as int].content_text },
        ],
        !s.history.index.contains_key(id) ==> s.copied(id).len() == 0,
{
}

/// A message is deleted only where the user says so: for everyone, or for
/// themselves alone.
pub proof fn deletion_is_confirmed(id: i64, answer: Seq<char>)
    ensures
        deletion_chosen(id, "all"@) == seq![
            EffectView::DeleteMessage { message_id: id, revoke: true },
        ],
        deletion_chosen(id, "self"@) == seq![
            EffectView::DeleteMessage { message_id: id, revoke: false },
        ],
        answer != "all"@ && answer != "self"@ ==> deletion_chosen(id, answer).len() == 0,
{
    reveal_strlit("all");
    reveal_strlit("self");
    assert("all"@.len() != "self"@.len());
}

/// A forward is said to have worked exactly where the server names the message
/// in the other chat.
pub proof fn forward_is_told(sent: Seq<Option<i64>>, id: i64)
    ensures
        forward_told(Some(seq![Some(id)])) == seq![EffectView::Toast { text: "Forwarded"@ }],
        forward_told(None) == seq![EffectView::Toast { text: "Couldn't forward"@ }],
        sent.len() == 0 || sent[0] is None ==> forward_told(Some(sent)) == forward_told(None),
        sent.len() > 0 && sent[0] is Some ==> forward_told(Some(sent)) == forward_told(
            Some(seq![Some(id)]),
        ),
{
}

/// The recorder is started only while none runs, and timed only while one does:
/// the timer shows how long the recording is.
pub proof fn recorder_is_timed(s: ChatState, secs: int)
    ensures
        s.recording ==> s.recorder_wanted().len() == 0,
        !s.recording ==> s.recorder_wanted() == seq![EffectView::StartRecorder],
        s.recording ==> s.timed(secs) == seq![EffectView::TimerText { text: duration_text(secs) }],
        !s.recording ==> s.timed(secs).len() == 0,
{
}

/// A chat is opened before anything else is asked of it, listened to before its
/// messages are loaded, and closed after all else was stopped.
pub proof fn chats_are_opened_and_closed()
    ensures
        opening().first() == EffectView::OpenChat,
        opening().last() == EffectView::LoadInitialHistory,
        opening().contains(EffectView::GetMe),
        opening().contains(EffectView::GetChat),
        opening().contains(EffectView::Subscribe),
        closing().last() == EffectView::CloseChat,
        closing().contains(EffectView::StopVoice),
        closing().contains(EffectView::Unsubscribe),
{
    lemma_holds(opening(), 1);
    lemma_holds(opening(), 2);
    lemma_holds(opening(), 3);
    lemma_holds(closing(), 0);
    lemma_holds(closing(), 1);
}

/// A request for older messages asks from the oldest that is loaded. None is made
/// while one is under way, after the top was reached, or before anything is
/// loaded; once one is over, the next can be made.
pub proof fn older_messages_are_asked_for(h: HistoryView)
    ensures
        h.older_wanted().1 is Some <==> !h.reached_top && !h.loading_older && h.oldest_id != 0,
        h.older_wanted().1 matches Some(from) ==> from == h.oldest_id && h.older_wanted().0 == (
        HistoryView { loading_older: true, ..h }),
        h.older_wanted().1 is None ==> h.older_wanted().0 == h,
        h.older_wanted().0.older_wanted().1 is None,
        h.older_wanted().1 is Some ==> h.older_wanted().0.older_over().older_wanted()
            == h.older_wanted(),
        h.older_over().store == h.store,
        h.older_over().slots == h.slots,
{
}

/// What is asked about a message is asked about that one, and for a purpose of
/// its own. An edit that was asked for is entered once the answer allows it, as
/// long as nothing else was begun.
pub proof fn questions_are_about_their_message(s: ChatState, id: i64, to_chat: i64, p: Properties)
    ensures
        s.edit_asked(id) matches EffectView::GetProperties { message_id, purpose } && message_id
            == id && (s.is_text(id) && p.can_be_edited ==> s.properties_answered(
            id,
            purpose,
            Some(p),
        ).state.editing == id) && (s.is_text(id) && p.can_be_edited ==> s.reply_cleared().state.properties_answered(
            id,
            purpose,
            Some(p),
        ).state.editing == s.editing),
        forward_asked(id) matches EffectView::GetProperties { message_id, purpose } && message_id
            == id && (p.can_be_forwarded ==> s.properties_answered(
            id,
            purpose,
            Some(p),
        ).effects == seq![EffectView::OpenForwardPicker { message_id: id }]),
        delete_asked(id) matches EffectView::GetProperties { message_id, purpose } && message_id
            == id && (s.properties_answered(id, purpose, Some(p)).effects.first() matches
            EffectView::ConfirmDelete { message_id, .. } && message_id == id),
        forward_to(id, to_chat) == (EffectView::ForwardMessage { message_id: id, to_chat }),
{
}

} // verus!
