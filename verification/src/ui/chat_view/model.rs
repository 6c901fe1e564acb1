//! The mathematical model of a loaded message history and of every step on it.

use crate::models::kind;
use crate::models::message_object::{chips, MessageView};
use crate::models::send_status;
use crate::tdlib::types::{ContentView, MessageSender, MessageValue, ReactionView};
use crate::ui::chat_view::effect::EffectView;
use crate::ui::chat_view::names::snippet_text;
use vstd::prelude::*;

verus! {

/// A loaded history.
///
/// Messages live in numbered slots. `store` lists the slots of the rows from
/// top to bottom and `index` finds the slot of a message by its id.
pub struct HistoryView {
    pub slots: Seq<MessageView>,
    pub store: Seq<usize>,
    pub index: Map<i64, usize>,
    /// Ids of sent messages that the server has not confirmed.
    pub temp_ids: Set<i64>,
    /// Display names by user id.
    pub names: Map<i64, Seq<char>>,
    pub is_group: bool,
    /// Oldest loaded message id, 0 before the first batch.
    pub oldest_id: i64,
    /// True once there is no older message left to load.
    pub reached_top: bool,
    /// True while a batch of older messages is on its way.
    pub loading_older: bool,
    /// Outgoing messages up to this id were read by the recipient.
    pub last_read_outbox: i64,
}

/// A history after a step, with what the step asks for.
pub struct Step {
    pub history: HistoryView,
    pub effects: Seq<EffectView>,
}

/// Where bisection of `ids[lo..hi]` for `id` ends.
pub open spec fn insertion_point(ids: Seq<i64>, id: i64, lo: int, hi: int) -> int
    decreases hi - lo,
{
    if lo >= hi {
        lo
    } else {
        let mid = (lo + hi) / 2;
        if ids[mid] < id {
            insertion_point(ids, id, mid + 1, hi)
        } else {
            insertion_point(ids, id, lo, mid)
        }
    }
}

/// The first position of `id` in `ids` at or after `from`.
pub open spec fn first_at(ids: Seq<i64>, id: i64, from: int) -> Option<int>
    decreases ids.len() - from,
{
    if from >= ids.len() {
        None
    } else if ids[from] == id {
        Some(from)
    } else {
        first_at(ids, id, from + 1)
    }
}

/// The last position of `id` in `ids` before `to`.
pub open spec fn last_before(ids: Seq<i64>, id: i64, to: int) -> Option<int>
    decreases to,
{
    if to <= 0 {
        None
    } else if ids[to - 1] == id {
        Some(to - 1)
    } else {
        last_before(ids, id, to - 1)
    }
}

/// The messages in ascending order of their ids, equal ids in their old order.
pub open spec fn by_id(batch: Seq<MessageValue>) -> Seq<MessageValue>
    decreases batch.len(),
{
    if batch.len() == 0 {
        Seq::empty()
    } else {
        insert_by_id(by_id(batch.drop_last()), batch.last())
    }
}

/// `sorted` with `m` behind every message whose id is not greater.
pub open spec fn insert_by_id(sorted: Seq<MessageValue>, m: MessageValue) -> Seq<MessageValue>
    decreases sorted.len(),
{
    if sorted.len() > 0 && sorted.last().id > m.id {
        insert_by_id(sorted.drop_last(), m).push(sorted.last())
    } else {
        sorted.push(m)
    }
}

/// The messages that are there, in order.
pub open spec fn present(batch: Seq<Option<MessageValue>>) -> Seq<MessageValue>
    decreases batch.len(),
{
    if batch.len() == 0 {
        Seq::empty()
    } else {
        let rest = present(batch.drop_last());
        match batch.last() {
            Some(m) => rest.push(m),
            None => rest,
        }
    }
}

/// The ids of the incoming messages, in order.
pub open spec fn incoming_ids(batch: Seq<MessageValue>) -> Seq<i64>
    decreases batch.len(),
{
    if batch.len() == 0 {
        Seq::empty()
    } else {
        let rest = incoming_ids(batch.drop_last());
        if batch.last().is_outgoing {
            rest
        } else {
            rest.push(batch.last().id)
        }
    }
}

/// The request to mark messages as seen; none for no message.
pub open spec fn seen(ids: Seq<i64>) -> Seq<EffectView> {
    if ids.len() == 0 {
        Seq::empty()
    } else {
        seq![EffectView::ViewMessages { ids }]
    }
}

/// The user whose name and avatar an incoming message needs.
pub open spec fn user_to_resolve(m: MessageValue) -> Option<i64> {
    match m.sender_id {
        MessageSender::User(id) => if m.is_outgoing {
            None
        } else {
            Some(id)
        },
        MessageSender::Chat(_) => None,
    }
}

pub open spec fn push_some(s: Seq<i64>, id: Option<i64>) -> Seq<i64> {
    match id {
        Some(id) => s.push(id),
        None => s,
    }
}

/// State of a batch that is being taken in.
pub struct Intake {
    pub step: Step,
    /// Users to resolve, one entry per incoming message.
    pub users: Seq<i64>,
    /// Ids of the messages that were new.
    pub inserted: Seq<i64>,
}

impl HistoryView {
    /// An empty history.
    pub open spec fn empty() -> HistoryView {
        HistoryView {
            slots: Seq::empty(),
            store: Seq::empty(),
            index: Map::empty(),
            temp_ids: Set::empty(),
            names: Map::empty(),
            is_group: false,
            oldest_id: 0,
            reached_top: false,
            loading_older: false,
            last_read_outbox: 0,
        }
    }

    /// Every slot number is in range.
    pub open spec fn in_range(self) -> bool {
        &&& forall|i: int| 0 <= i < self.store.len() ==> (#[trigger] self.store[i]) < self.slots.len()
        &&& forall|k: i64| #[trigger]
            self.index.contains_key(k) ==> self.index[k] < self.slots.len()
        &&& self.slots.len() <= usize::MAX
    }

    /// The message of row `i`.
    pub open spec fn row(self, i: int) -> MessageView {
        self.slots[self.store[i] as int]
    }

    /// The message ids of the rows, top to bottom.
    pub open spec fn ids(self) -> Seq<i64> {
        Seq::new(self.store.len(), |i: int| self.row(i).id)
    }

    /// The album ids of the rows, top to bottom.
    pub open spec fn albums(self) -> Seq<i64> {
        Seq::new(self.store.len(), |i: int| self.row(i).media_album_id)
    }

    /// The slot of the message `id`.
    pub open spec fn lookup(self, id: i64) -> Option<usize> {
        if self.index.contains_key(id) {
            Some(self.index[id])
        } else {
            None
        }
    }

    /// Whether some id finds this slot.
    pub open spec fn indexed(self, slot: int) -> bool {
        exists|k: i64| #[trigger] self.index.contains_key(k) && self.index[k] == slot
    }

    /// The display name of a user, empty where it is not known.
    pub open spec fn name_of(self, user_id: i64) -> Seq<char> {
        if self.names.contains_key(user_id) {
            self.names[user_id]
        } else {
            Seq::empty()
        }
    }

    pub open spec fn with_message(self, slot: int, m: MessageView) -> HistoryView {
        HistoryView { slots: self.slots.update(slot, m), ..self }
    }

    pub open spec fn with_store(self, store: Seq<usize>) -> HistoryView {
        HistoryView { store, ..self }
    }

    pub open spec fn with_key(self, id: i64, slot: usize) -> HistoryView {
        HistoryView { index: self.index.insert(id, slot), ..self }
    }

    pub open spec fn without_key(self, id: i64) -> HistoryView {
        HistoryView { index: self.index.remove(id), ..self }
    }

    pub open spec fn with_temp(self, id: i64) -> HistoryView {
        HistoryView { temp_ids: self.temp_ids.insert(id), ..self }
    }

    pub open spec fn without_temp(self, id: i64) -> HistoryView {
        HistoryView { temp_ids: self.temp_ids.remove(id), ..self }
    }

    /// Where a message with this id belongs among the rows.
    pub open spec fn place(self, id: i64) -> int {
        insertion_point(self.ids(), id, 0, self.store.len() as int)
    }

    /// The row of `slot` added where its message belongs.
    pub open spec fn inserted(self, slot: usize) -> HistoryView {
        self.with_store(self.store.insert(self.place(self.slots[slot as int].id), slot))
    }

    /// A new slot for `m`.
    pub open spec fn with_slot(self, m: MessageView) -> HistoryView {
        HistoryView { slots: self.slots.push(m), ..self }
    }

    /// A new message `m`, shown as a row and found by its id.
    pub open spec fn added(self, m: MessageView) -> HistoryView {
        self.with_slot(m).inserted(self.slots.len() as usize).with_key(
            m.id,
            self.slots.len() as usize,
        )
    }

    /// The first row of the message id `id` taken out.
    pub open spec fn row_removed(self, id: i64) -> Step {
        match first_at(self.ids(), id, 0) {
            Some(at) => Step {
                history: self.with_store(self.store.remove(at)),
                effects: seq![EffectView::Removed { position: at as usize }],
            },
            None => Step { history: self, effects: Seq::empty() },
        }
    }

    /// Bind the first row of `id` anew.
    pub open spec fn rebind_of(self, id: i64) -> Seq<EffectView> {
        match first_at(self.ids(), id, 0) {
            Some(at) => seq![EffectView::Rebind { start: at as usize, count: 1 }],
            None => Seq::empty(),
        }
    }

    /// Bind every row anew.
    pub open spec fn rebind_all(self) -> Seq<EffectView> {
        if self.store.len() > 0 {
            seq![EffectView::Rebind { start: 0, count: self.store.len() as usize }]
        } else {
            Seq::empty()
        }
    }

    /// Bind row `pos` and its neighbours anew.
    pub open spec fn rebind_around(self, pos: int) -> Seq<EffectView> {
        let n = self.store.len() as int;
        let start = if pos > 0 {
            pos - 1
        } else {
            0
        };
        let end = if pos + 1 < n {
            pos + 1
        } else {
            n - 1
        };
        if n == 0 {
            Seq::empty()
        } else {
            seq![EffectView::Rebind { start: start as usize, count: (end - start + 1) as usize }]
        }
    }

    /// Bind the rows from the first to the last of an album anew.
    pub open spec fn rebind_album(self, album_id: i64) -> Seq<EffectView> {
        let first = first_at(self.albums(), album_id, 0);
        let last = last_before(self.albums(), album_id, self.store.len() as int);
        if album_id != 0 && first is Some && last is Some {
            seq![
                EffectView::Rebind {
                    start: first->0 as usize,
                    count: (last->0 - first->0 + 1) as usize,
                },
            ]
        } else {
            Seq::empty()
        }
    }

    // --- Names and replies --------------------------------------------------

    /// `m` with the sender's name where the chat is a group and knows it.
    pub open spec fn named(self, m: MessageView, sender: MessageSender) -> MessageView {
        match sender {
            MessageSender::User(id) => {
                if !m.is_outgoing && self.is_group && self.names.contains_key(id) {
                    MessageView { sender_name: self.names[id], ..m }
                } else {
                    m
                }
            },
            MessageSender::Chat(_) => m,
        }
    }

    /// The users of `ids` that are to be fetched: those without a name yet.
    pub open spec fn fetches(self, ids: Seq<i64>) -> Seq<EffectView>
        decreases ids.len(),
    {
        if ids.len() == 0 {
            Seq::empty()
        } else {
            let rest = self.fetches(ids.drop_last());
            if ids.last() == 0 || self.names.contains_key(ids.last()) {
                rest
            } else {
                rest.push(EffectView::FetchUser { user_id: ids.last() })
            }
        }
    }

    /// The name shown for the sender of the message in `target`.
    pub open spec fn reply_name(self, target: MessageView) -> Seq<char> {
        if target.is_outgoing {
            "You"@
        } else if target.sender_name.len() == 0 {
            self.name_of(target.sender_id)
        } else {
            target.sender_name
        }
    }

    /// `m` with the reply header for `target`.
    pub open spec fn stamped(self, m: MessageView, target: MessageView) -> MessageView {
        MessageView {
            reply_sender: self.reply_name(target),
            reply_snippet: snippet_text(target.content_text),
            ..m
        }
    }

    /// The reply header of message `id` filled in from the loaded target, or
    /// the target asked for.
    pub open spec fn reply_resolved(self, id: i64) -> Step {
        let nothing = Step { history: self, effects: Seq::empty() };
        match self.lookup(id) {
            None => nothing,
            Some(slot) => {
                let m = self.slots[slot as int];
                if m.reply_to_id == 0 || m.reply_sender.len() > 0 {
                    nothing
                } else {
                    match self.lookup(m.reply_to_id) {
                        Some(target) => {
                            let h = self.with_message(
                                slot as int,
                                self.stamped(m, self.slots[target as int]),
                            );
                            Step { history: h, effects: h.rebind_of(id) }
                        },
                        None => Step {
                            history: self,
                            effects: seq![
                                EffectView::FetchReply { message_id: id, target: m.reply_to_id },
                            ],
                        },
                    }
                }
            },
        }
    }

    /// The reply headers of all of `ids`, in order.
    pub open spec fn replies_resolved(self, ids: Seq<i64>) -> Step
        decreases ids.len(),
    {
        if ids.len() == 0 {
            Step { history: self, effects: Seq::empty() }
        } else {
            let before = self.replies_resolved(ids.drop_last());
            let last = before.history.reply_resolved(ids.last());
            Step { history: last.history, effects: before.effects + last.effects }
        }
    }

    // --- Read state ---------------------------------------------------------

    /// Whether the read cursor promotes the message in `slot`.
    pub open spec fn promotes(self, slot: int, last_read: i64) -> bool {
        let m = self.slots[slot];
        &&& last_read != 0
        &&& self.indexed(slot)
        &&& m.is_outgoing
        &&& m.id <= last_read
        &&& m.send_status == send_status::SENT
    }

    /// The first `n` slots with every message that the read cursor promotes
    /// marked as read, and a repaint for each of them.
    pub open spec fn read_up_to(self, last_read: i64, n: int) -> Step
        decreases n,
    {
        if n <= 0 {
            Step { history: self, effects: Seq::empty() }
        } else {
            let before = self.read_up_to(last_read, n - 1);
            if self.promotes(n - 1, last_read) {
                Step {
                    history: before.history.with_message(
                        n - 1,
                        MessageView { send_status: send_status::READ, ..self.slots[n - 1] },
                    ),
                    effects: before.effects.push(EffectView::Repaint { slot: (n - 1) as usize }),
                }
            } else {
                before
            }
        }
    }

    /// Every message that the read cursor promotes marked as read.
    pub open spec fn read_refreshed(self, last_read: i64) -> Step {
        self.read_up_to(last_read, self.slots.len() as int)
    }

    // --- Batches ------------------------------------------------------------

    /// The messages of `ordered` that are new added, in order.
    pub open spec fn taken_in(self, ordered: Seq<MessageValue>) -> Intake
        decreases ordered.len(),
    {
        if ordered.len() == 0 {
            Intake {
                step: Step { history: self, effects: Seq::empty() },
                users: Seq::empty(),
                inserted: Seq::empty(),
            }
        } else {
            let before = self.taken_in(ordered.drop_last());
            let h = before.step.history;
            let msg = ordered.last();
            if h.index.contains_key(msg.id) {
                before
            } else {
                let m = h.named(MessageView::from_message(msg), msg.sender_id);
                Intake {
                    step: Step {
                        history: h.added(m),
                        effects: before.step.effects.push(
                            EffectView::Inserted {
                                position: h.with_slot(m).place(m.id) as usize,
                                slot: h.slots.len() as usize,
                            },
                        ),
                    },
                    users: push_some(before.users, user_to_resolve(msg)),
                    inserted: before.inserted.push(msg.id),
                }
            }
        }
    }

    /// The oldest loaded id lowered to `id`.
    pub open spec fn reaching(self, id: i64) -> HistoryView {
        if self.oldest_id == 0 || id < self.oldest_id {
            HistoryView { oldest_id: id, ..self }
        } else {
            self
        }
    }

    /// A batch of history taken in.
    pub open spec fn ingested(self, batch: Seq<MessageValue>, is_initial: bool) -> Step {
        if batch.len() == 0 {
            Step {
                history: HistoryView { reached_top: self.reached_top || !is_initial, ..self },
                effects: Seq::empty(),
            }
        } else {
            let ordered = by_id(batch);
            let intake = self.reaching(ordered.first().id).taken_in(ordered);
            let users = intake.step.history.fetches(intake.users);
            let replies = intake.step.history.replies_resolved(intake.inserted);
            let read = replies.history.read_refreshed(replies.history.last_read_outbox);
            let effects = intake.step.effects + users + replies.effects + read.effects;
            let h = read.history;
            if is_initial {
                Step {
                    history: h,
                    effects: (effects + h.rebind_all()).push(EffectView::ScrollToBottom) + seen(
                        incoming_ids(ordered),
                    ),
                }
            } else {
                let n = intake.inserted.len() + 1;
                let count = if n < h.store.len() {
                    n
                } else {
                    h.store.len()
                };
                Step {
                    history: h,
                    effects: (if count > 0 {
                        effects.push(EffectView::Rebind { start: 0, count: count as usize })
                    } else {
                        effects
                    }).push(EffectView::RestoreAnchor),
                }
            }
        }
    }

    // --- Updates ------------------------------------------------------------

    /// A message arrived.
    pub open spec fn new_message(self, msg: MessageValue) -> Step {
        if self.index.contains_key(msg.id) || self.temp_ids.contains(msg.id) {
            match self.lookup(msg.id) {
                Some(slot) => {
                    let h = self.with_message(slot as int, self.slots[slot as int].updated(msg));
                    Step {
                        history: h,
                        effects: seq![EffectView::Repaint { slot }] + h.rebind_of(msg.id),
                    }
                },
                None => Step { history: self, effects: Seq::empty() },
            }
        } else {
            let m = self.named(MessageView::from_message(msg), msg.sender_id);
            let at = self.with_slot(m).place(m.id);
            let users = push_some(Seq::empty(), user_to_resolve(msg));
            let replies = self.added(m).replies_resolved(seq![msg.id]);
            let h = replies.history;
            Step {
                history: h,
                effects: (seq![
                    EffectView::Inserted { position: at as usize, slot: self.slots.len() as usize },
                ] + self.added(m).fetches(users) + replies.effects + h.rebind_around(at) + h.rebind_album(
                    msg.media_album_id,
                )).push(EffectView::ScrollToBottom) + seen(
                    if msg.is_outgoing {
                        Seq::empty()
                    } else {
                        seq![msg.id]
                    },
                ),
            }
        }
    }

    /// The slot of a confirmed message moved to its real id.
    pub open spec fn send_succeeded(self, old_id: i64, msg: MessageValue) -> Step {
        let h = self.without_temp(old_id);
        match h.lookup(old_id) {
            Some(slot) => {
                let removed = h.without_key(old_id).row_removed(old_id);
                let updated = removed.history.with_message(
                    slot as int,
                    h.slots[slot as int].updated(msg),
                );
                let at = updated.place(msg.id);
                let done = updated.inserted(slot).with_key(msg.id, slot);
                Step {
                    history: done,
                    effects: removed.effects.push(
                        EffectView::Inserted { position: at as usize, slot },
                    ) + done.rebind_around(at) + done.rebind_album(msg.media_album_id),
                }
            },
            None => {
                if h.index.contains_key(msg.id) {
                    Step { history: h, effects: Seq::empty() }
                } else {
                    let m = MessageView::from_message(msg);
                    let at = h.with_slot(m).place(m.id);
                    let done = h.added(m);
                    Step {
                        history: done,
                        effects: seq![
                            EffectView::Inserted {
                                position: at as usize,
                                slot: h.slots.len() as usize,
                            },
                        ] + done.rebind_around(at) + done.rebind_album(msg.media_album_id),
                    }
                }
            },
        }
    }

    /// The message `id` found no more, and its row taken out.
    pub open spec fn taken_out(self, id: i64) -> Step {
        self.without_key(id).row_removed(id)
    }

    /// A failed message kept, marked as pending. Under the same id its row
    /// stays where it is; under another one it moves there, and a row that had
    /// this id before makes way.
    pub open spec fn send_failed(self, old_id: i64, msg: MessageValue) -> Step {
        let h = self.without_temp(old_id);
        match h.lookup(old_id) {
            Some(slot) => {
                let m = MessageView { is_pending: true, ..h.slots[slot as int].updated(msg) };
                if msg.id == old_id {
                    let done = h.with_message(slot as int, m);
                    Step {
                        history: done,
                        effects: seq![EffectView::Repaint { slot }] + done.rebind_of(old_id),
                    }
                } else {
                    let removed = h.taken_out(old_id);
                    let cleared = removed.history.taken_out(msg.id);
                    let updated = cleared.history.with_message(slot as int, m);
                    let at = updated.place(msg.id);
                    let done = updated.inserted(slot).with_key(msg.id, slot);
                    Step {
                        history: done,
                        effects: (removed.effects + cleared.effects).push(
                            EffectView::Inserted { position: at as usize, slot },
                        ) + done.rebind_around(at) + done.rebind_album(msg.media_album_id),
                    }
                }
            },
            None => Step { history: h, effects: Seq::empty() },
        }
    }

    /// New content for a message. A plain-text edit is repainted in place;
    /// anything else binds the row anew.
    pub open spec fn content_changed(self, id: i64, content: ContentView) -> Step {
        match self.lookup(id) {
            Some(slot) => {
                let m = self.slots[slot as int];
                let h = self.with_message(slot as int, m.with_content(content));
                let text_edit = m.kind == kind::TEXT && m.with_content(content).kind == kind::TEXT;
                Step {
                    history: h,
                    effects: seq![EffectView::Repaint { slot }] + if text_edit {
                        Seq::empty()
                    } else {
                        h.rebind_of(id)
                    },
                }
            },
            None => Step { history: self, effects: Seq::empty() },
        }
    }

    /// New reactions on a message.
    pub open spec fn reactions_changed(self, id: i64, reactions: Seq<ReactionView>) -> Step {
        match self.lookup(id) {
            Some(slot) => Step {
                history: self.with_message(
                    slot as int,
                    MessageView { reactions: chips(reactions), ..self.slots[slot as int] },
                ),
                effects: seq![EffectView::Repaint { slot }],
            },
            None => Step { history: self, effects: Seq::empty() },
        }
    }

    /// The recipient's read cursor moved.
    pub open spec fn read_outbox(self, last_read: i64) -> Step {
        HistoryView { last_read_outbox: last_read, ..self }.read_refreshed(last_read)
    }

    /// A message of ours that was just sent, shown at once.
    pub open spec fn sent(self, msg: MessageValue) -> Step {
        if self.index.contains_key(msg.id) {
            Step { history: self, effects: Seq::empty() }
        } else {
            let m = MessageView::from_message(msg);
            let at = self.with_slot(m).place(m.id);
            let replies = self.with_temp(msg.id).added(m).replies_resolved(seq![msg.id]);
            Step {
                history: replies.history,
                effects: (seq![
                    EffectView::Inserted { position: at as usize, slot: self.slots.len() as usize },
                ] + replies.effects + replies.history.rebind_around(at)).push(EffectView::ScrollToBottom),
            }
        }
    }

    // --- Resolved users -----------------------------------------------------

    /// Whether row `i` is an incoming message of user `uid`.
    pub open spec fn incoming_from(self, i: int, uid: i64) -> bool {
        !self.row(i).is_outgoing && self.row(i).sender_id == uid
    }

    /// The name put on the first `n` rows of `uid` that lack one.
    pub open spec fn name_applied(self, uid: i64, name: Seq<char>, n: int) -> Step
        decreases n,
    {
        if n <= 0 || !self.is_group {
            Step { history: self, effects: Seq::empty() }
        } else {
            let before = self.name_applied(uid, name, n - 1);
            let h = before.history;
            if h.incoming_from(n - 1, uid) {
                let m = h.row(n - 1);
                Step {
                    history: if m.sender_name.len() == 0 {
                        h.with_message(
                            h.store[n - 1] as int,
                            MessageView { sender_name: name, ..m },
                        )
                    } else {
                        h
                    },
                    effects: before.effects.push(
                        EffectView::Rebind { start: (n - 1) as usize, count: 1 },
                    ),
                }
            } else {
                before
            }
        }
    }

    /// The avatar put on the first `n` rows of `uid` that lack one.
    pub open spec fn avatar_applied(self, uid: i64, file_id: i32, n: int) -> Step
        decreases n,
    {
        if n <= 0 || file_id == 0 {
            Step { history: self, effects: Seq::empty() }
        } else {
            let before = self.avatar_applied(uid, file_id, n - 1);
            let h = before.history;
            if h.incoming_from(n - 1, uid) {
                let m = h.row(n - 1);
                Step {
                    history: if m.avatar_file_id == 0 {
                        h.with_message(
                            h.store[n - 1] as int,
                            MessageView { avatar_file_id: file_id, ..m },
                        )
                    } else {
                        h
                    },
                    effects: before.effects.push(
                        EffectView::Rebind { start: (n - 1) as usize, count: 1 },
                    ),
                }
            } else {
                before
            }
        }
    }

    /// A user's name and avatar became known.
    pub open spec fn user_resolved(self, uid: i64, name: Seq<char>, avatar: i32) -> Step {
        let h = HistoryView { names: self.names.insert(uid, name), ..self };
        let named = h.name_applied(uid, name, h.store.len() as int);
        let shown = named.history.avatar_applied(uid, avatar, h.store.len() as int);
        Step { history: shown.history, effects: named.effects + shown.effects }
    }

    /// The senders among the first `n` rows that still lack a name, each once.
    pub open spec fn unnamed_senders(self, n: int) -> Seq<i64>
        decreases n,
    {
        if n <= 0 {
            Seq::empty()
        } else {
            let rest = self.unnamed_senders(n - 1);
            let m = self.row(n - 1);
            if !m.is_outgoing && m.sender_name.len() == 0 && m.sender_id != 0 && !rest.contains(
                m.sender_id,
            ) {
                rest.push(m.sender_id)
            } else {
                rest
            }
        }
    }

    /// What the chat itself is became known.
    pub open spec fn chat_resolved(self, is_group: bool, last_read: i64) -> Step {
        let h = HistoryView { is_group, last_read_outbox: last_read, ..self };
        let read = h.read_refreshed(last_read);
        let users = if is_group {
            read.history.fetches(read.history.unnamed_senders(h.store.len() as int))
        } else {
            Seq::empty()
        };
        Step {
            history: read.history,
            effects: read.effects + users + read.history.rebind_all(),
        }
    }

    /// The fetched target of a reply arrived.
    pub open spec fn reply_fetched(self, id: i64, target: MessageValue) -> Step {
        match self.lookup(id) {
            Some(slot) => {
                let name = if target.is_outgoing {
                    "You"@
                } else {
                    match target.sender_id {
                        MessageSender::User(user) => self.name_of(user),
                        MessageSender::Chat(_) => Seq::empty(),
                    }
                };
                let h = self.with_message(
                    slot as int,
                    MessageView {
                        reply_sender: name,
                        reply_snippet: snippet_text(
                            crate::models::message_object::text_of(target.content),
                        ),
                        ..self.slots[slot as int]
                    },
                );
                Step { history: h, effects: h.rebind_of(id) }
            },
            None => Step { history: self, effects: Seq::empty() },
        }
    }

    // --- Paging -------------------------------------------------------------

    /// A batch of older messages arrived.
    pub open spec fn older_arrived(self, messages: Seq<Option<MessageValue>>) -> Step {
        let step = self.ingested(present(messages), false);
        if messages.len() == 0 {
            Step {
                history: HistoryView { loading_older: false, ..step.history },
                effects: step.effects,
            }
        } else {
            step
        }
    }

    /// Older messages are wanted: the history then, and the id to ask from if a
    /// request is to be made.
    pub open spec fn older_wanted(self) -> (HistoryView, Option<i64>) {
        if self.may_load_older() {
            (HistoryView { loading_older: true, ..self }, Some(self.oldest_id))
        } else {
            (self, None)
        }
    }

    /// A request for older messages is over.
    pub open spec fn older_over(self) -> HistoryView {
        HistoryView { loading_older: false, ..self }
    }

    /// Whether a request for older messages may start now.
    pub open spec fn may_load_older(self) -> bool {
        !self.reached_top && !self.loading_older && self.oldest_id != 0
    }
}

} // verus!
