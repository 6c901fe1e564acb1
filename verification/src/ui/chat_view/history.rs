//! [`History`]: the loaded messages of an open chat and the steps on them.

use crate::models::kind;
use crate::models::message_object::{content_text, MessageObject, MessageView};
use crate::models::send_status;
use crate::tdlib::types::{optional_values, reaction_views, Message, MessageContent, MessageSender,
    MessageValue, Reaction};
use crate::ui::chat_view::effect::{effect_views, emit, Effect, EffectView};
use crate::ui::chat_view::model::{by_id, first_at, incoming_ids, insert_by_id, insertion_point,
    last_before, present, push_some, seen, user_to_resolve, HistoryView};
use crate::ui::chat_view::names::{display_name, full_name, snippet};
use std::collections::{HashMap, HashSet};
use vstd::prelude::*;

verus! {

/// One message, with the id that finds it.
#[derive(Debug)]
struct Slot {
    key: Option<i64>,
    message: MessageObject,
}

/// The loaded messages of an open chat.
///
/// Rows refer to messages by slot number, so a message keeps its slot when its
/// id changes. A slot is never reused while the chat is open.
#[derive(Debug)]
pub struct History {
    slots: Vec<Slot>,
    store: Vec<usize>,
    index: HashMap<i64, usize>,
    temp_ids: HashSet<i64>,
    names: HashMap<i64, String>,
    is_group: bool,
    oldest_id: i64,
    reached_top: bool,
    loading_older: bool,
    last_read_outbox: i64,
}

spec fn slot_messages(slots: Seq<Slot>) -> Seq<MessageView> {
    Seq::new(slots.len(), |i: int| slots[i].message@)
}

spec fn name_views(names: Map<i64, String>) -> Map<i64, Seq<char>> {
    names.map_values(|s: String| s@)
}

impl View for History {
    type V = HistoryView;

    closed spec fn view(&self) -> HistoryView {
        HistoryView {
            slots: slot_messages(self.slots@),
            store: self.store@,
            index: self.index@,
            temp_ids: self.temp_ids@,
            names: name_views(self.names@),
            is_group: self.is_group,
            oldest_id: self.oldest_id,
            reached_top: self.reached_top,
            loading_older: self.loading_older,
            last_read_outbox: self.last_read_outbox,
        }
    }
}

/// Bisection ends inside its bounds.
pub(crate) proof fn lemma_insertion_point_range(ids: Seq<i64>, id: i64, lo: int, hi: int)
    requires
        lo <= hi,
    ensures
        lo <= insertion_point(ids, id, lo, hi) <= hi,
    decreases hi - lo,
{
    if lo < hi {
        let mid = (lo + hi) / 2;
        if ids[mid] < id {
            lemma_insertion_point_range(ids, id, mid + 1, hi);
        } else {
            lemma_insertion_point_range(ids, id, lo, mid);
        }
    }
}

/// The messages of `batch` at the positions `at`.
spec fn picked(batch: Seq<Option<Message>>, at: Seq<usize>) -> Seq<MessageValue> {
    Seq::new(at.len(), |i: int| batch[at[i] as int]->0@)
}

/// A message goes behind those whose id is not greater.
proof fn lemma_insert_by_id(sorted: Seq<MessageValue>, m: MessageValue, at: int)
    requires
        0 <= at <= sorted.len(),
        forall|k: int| at <= k < sorted.len() ==> (#[trigger] sorted[k]).id > m.id,
        at == 0 || sorted[at - 1].id <= m.id,
    ensures
        insert_by_id(sorted, m) == sorted.insert(at, m),
    decreases sorted.len(),
{
    if sorted.len() > at {
        let rest = sorted.drop_last();
        assert(sorted[sorted.len() - 1].id > m.id);
        assert forall|k: int| at <= k < rest.len() implies (#[trigger] rest[k]).id > m.id by {
            assert(rest[k] == sorted[k]);
        }
        lemma_insert_by_id(rest, m, at);
        assert(rest.insert(at, m).push(sorted.last()) =~= sorted.insert(at, m));
    } else {
        assert(sorted.push(m) =~= sorted.insert(at, m));
    }
}

/// Whether the message at `at` has a greater id than `id`.
fn greater(batch: &Vec<Option<Message>>, at: usize, id: i64) -> (r: bool)
    requires
        at < batch@.len(),
        batch@[at as int] is Some,
    ensures
        r == (batch@[at as int]->0@.id > id),
{
    match &batch[at] {
        Some(m) => m.id > id,
        None => false,
    }
}

/// The positions of the messages of `batch`, by ascending message id.
fn ordered(batch: &Vec<Option<Message>>) -> (r: Vec<usize>)
    ensures
        picked(batch@, r@) == by_id(present(optional_values(batch@))),
        forall|i: int|
            0 <= i < r@.len() ==> (#[trigger] r@[i]) < batch@.len() && batch@[r@[i] as int] is Some,
{
    let ghost values = optional_values(batch@);
    let mut r: Vec<usize> = Vec::new();
    assert(picked(batch@, r@) =~= by_id(present(values.take(0))));
    for i in 0..batch.len()
        invariant
            values == optional_values(batch@),
            picked(batch@, r@) == by_id(present(values.take(i as int))),
            forall|k: int|
                0 <= k < r@.len() ==> (#[trigger] r@[k]) < batch@.len()
                    && batch@[r@[k] as int] is Some,
    {
        let ghost sorted = picked(batch@, r@);
        assert(values.take(i + 1).drop_last() =~= values.take(i as int));
        match &batch[i] {
            Some(m) => {
                let mut at: usize = r.len();
                while at > 0 && greater(batch, r[at - 1], m.id)
                    invariant
                        at <= r@.len(),
                        sorted == picked(batch@, r@),
                        forall|k: int| at <= k < sorted.len() ==> (#[trigger] sorted[k]).id > m@.id,
                        forall|k: int|
                            0 <= k < r@.len() ==> (#[trigger] r@[k]) < batch@.len()
                                && batch@[r@[k] as int] is Some,
                    decreases at,
                {
                    assert(sorted[at - 1] == batch@[r@[at - 1] as int]->0@);
                    at = at - 1;
                }
                assert(at > 0 ==> sorted[at - 1] == batch@[r@[at - 1] as int]->0@);
                proof {
                    lemma_insert_by_id(sorted, m@, at as int);
                    assert(present(values.take(i + 1)) == present(values.take(i as int)).push(m@));
                    assert(present(values.take(i + 1)).drop_last() =~= present(
                        values.take(i as int),
                    ));
                }
                let ghost r0 = r@;
                r.insert(at, i);
                assert(picked(batch@, r@) =~= sorted.insert(at as int, m@));
                assert forall|k: int| 0 <= k < r@.len() implies (#[trigger] r@[k]) < batch@.len()
                    && batch@[r@[k] as int] is Some by {
                    if k < at {
                        assert(r@[k] == r0[k]);
                    } else if k > at {
                        assert(r@[k] == r0[k - 1]);
                    }
                }
            },
            None => {},
        }
    }
    assert(values.take(values.len() as int) =~= values);
    r
}

/// Sorting keeps the number of messages.
proof fn lemma_by_id_len(batch: Seq<MessageValue>)
    ensures
        by_id(batch).len() == batch.len(),
    decreases batch.len(),
{
    if batch.len() > 0 {
        lemma_by_id_len(batch.drop_last());
        lemma_insert_by_id_len(by_id(batch.drop_last()), batch.last());
    }
}

proof fn lemma_insert_by_id_len(sorted: Seq<MessageValue>, m: MessageValue)
    ensures
        insert_by_id(sorted, m).len() == sorted.len() + 1,
    decreases sorted.len(),
{
    if sorted.len() > 0 && sorted.last().id > m.id {
        lemma_insert_by_id_len(sorted.drop_last(), m);
    }
}

/// Whether `id` is among `ids`.
fn holds(ids: &Vec<i64>, id: i64) -> (r: bool)
    ensures
        r == ids@.contains(id),
{
    for i in 0..ids.len()
        invariant
            forall|k: int| 0 <= k < i ==> (#[trigger] ids@[k]) != id,
    {
        if ids[i] == id {
            return true;
        }
    }
    false
}

/// Resolving a reply leaves the rows where they are.
pub(crate) proof fn lemma_replies_keep_rows(h: HistoryView, ids: Seq<i64>)
    ensures
        h.replies_resolved(ids).history.store == h.store,
    decreases ids.len(),
{
    if ids.len() > 0 {
        lemma_replies_keep_rows(h, ids.drop_last());
    }
}

/// Reading messages leaves the rows where they are.
pub(crate) proof fn lemma_read_keeps_rows(h: HistoryView, last_read: i64, n: int)
    ensures
        h.read_up_to(last_read, n).history.store == h.store,
    decreases n,
{
    if n > 0 {
        lemma_read_keeps_rows(h, last_read, n - 1);
    }
}

impl History {
    /// Slot numbers are in range, and each slot knows the one id that finds it.
    pub closed spec fn wf(&self) -> bool {
        &&& forall|i: int|
            0 <= i < self.store@.len() ==> (#[trigger] self.store@[i]) < self.slots@.len()
        &&& forall|k: i64| #[trigger]
            self.index@.contains_key(k) ==> self.index@[k] < self.slots@.len()
                && self.slots@[self.index@[k] as int].key == Some(k)
        &&& forall|s: int|
            0 <= s < self.slots@.len() && (#[trigger] self.slots@[s]).key is Some
                ==> self.index@.contains_key(self.slots@[s].key->0)
                && self.index@[self.slots@[s].key->0] == s
    }

    /// An empty history.
    pub fn new() -> (r: History)
        ensures
            r.wf(),
            r@ == HistoryView::empty(),
    {
        let r = History {
            slots: Vec::new(),
            store: Vec::new(),
            index: HashMap::new(),
            temp_ids: HashSet::new(),
            names: HashMap::new(),
            is_group: false,
            oldest_id: 0,
            reached_top: false,
            loading_older: false,
            last_read_outbox: 0,
        };
        assert(r@.slots =~= Seq::empty());
        assert(r@.store =~= Seq::empty());
        assert(r@.index =~= Map::empty());
        assert(r@.temp_ids =~= Set::empty());
        assert(r@.names =~= Map::empty());
        r
    }

    /// How many rows there are.
    pub fn len(&self) -> (n: usize)
        ensures
            n == self@.store.len(),
    {
        self.store.len()
    }

    /// Whether the chat is a group.
    pub fn is_group(&self) -> (r: bool)
        ensures
            r == self@.is_group,
    {
        self.is_group
    }

    /// The message of row `i`.
    pub fn message(&self, i: usize) -> (r: &MessageObject)
        requires
            self.wf(),
            i < self@.store.len(),
        ensures
            r@ == self@.row(i as int),
    {
        &self.slots[self.store[i]].message
    }

    /// The message in `slot`.
    pub fn slot(&self, slot: usize) -> (r: &MessageObject)
        requires
            self.wf(),
            slot < self@.slots.len(),
        ensures
            r@ == self@.slots[slot as int],
    {
        &self.slots[slot].message
    }

    /// The slot of the message `id`.
    pub fn find(&self, id: i64) -> (r: Option<usize>)
        requires
            self.wf(),
        ensures
            r == self@.lookup(id),
            r is Some ==> r->0 < self@.slots.len(),
    {
        match self.index.get(&id) {
            Some(s) => Some(*s),
            None => None,
        }
    }

    /// The slot of row `i`.
    pub fn slot_of_row(&self, i: usize) -> (r: usize)
        requires
            self.wf(),
            i < self@.store.len(),
        ensures
            r == self@.store[i as int],
            r < self@.slots.len(),
    {
        self.store[i]
    }

    /// The first row of `slot`.
    pub fn row_of_slot(&self, slot: usize) -> (r: Option<usize>)
        ensures
            match r {
                Some(i) => i < self@.store.len() && self@.store[i as int] == slot && forall|j: int|
                    0 <= j < i ==> self@.store[j] != slot,
                None => !self@.store.contains(slot),
            },
    {
        for i in 0..self.store.len()
            invariant
                forall|j: int| 0 <= j < i ==> self@.store[j] != slot,
        {
            if self.store[i] == slot {
                return Some(i);
            }
        }
        None
    }

    /// The first row of the message id `id`.
    fn row_of(&self, id: i64) -> (r: Option<usize>)
        requires
            self.wf(),
        ensures
            match first_at(self@.ids(), id, 0) {
                Some(at) => r is Some && r->0 == at && r->0 < self@.store.len(),
                None => r is None,
            },
    {
        let mut i: usize = 0;
        while i < self.store.len()
            invariant
                self.wf(),
                i <= self@.store.len(),
                first_at(self@.ids(), id, 0) == first_at(self@.ids(), id, i as int),
            decreases self@.store.len() - i,
        {
            if self.message(i).id == id {
                return Some(i);
            }
            i = i + 1;
        }
        None
    }

    /// Where a message with this id belongs among the rows.
    fn place(&self, id: i64) -> (r: usize)
        requires
            self.wf(),
        ensures
            r == self@.place(id),
            r <= self@.store.len(),
    {
        let mut lo: usize = 0;
        let mut hi: usize = self.store.len();
        while lo < hi
            invariant
                self.wf(),
                lo <= hi <= self@.store.len(),
                self@.place(id) == insertion_point(self@.ids(), id, lo as int, hi as int),
            decreases hi - lo,
        {
            let mid: usize = lo + (hi - lo) / 2;
            assert(mid == (lo + hi) / 2);
            if self.message(mid).id < id {
                lo = mid + 1;
            } else {
                hi = mid;
            }
        }
        lo
    }

    /// A new slot for `message`, not found by any id yet.
    fn push_slot(&mut self, message: MessageObject) -> (slot: usize)
        requires
            old(self).wf(),
        ensures
            final(self).wf(),
            slot == old(self)@.slots.len(),
            final(self)@ == old(self)@.with_slot(message@),
            final(self).slots@[slot as int].key is None,
    {
        let slot: usize = self.slots.len();
        self.slots.push(Slot { key: None, message });
        assert(self@.slots =~= old(self)@.slots.push(message@));
        slot
    }

    /// Adds the row of `slot` where its message belongs.
    fn insert_sorted(&mut self, slot: usize) -> (pos: usize)
        requires
            old(self).wf(),
            slot < old(self)@.slots.len(),
        ensures
            final(self).wf(),
            pos == old(self)@.place(old(self)@.slots[slot as int].id),
            pos <= old(self)@.store.len(),
            final(self)@ == old(self)@.inserted(slot),
            final(self).slots@ == old(self).slots@,
    {
        let pos: usize = self.place(self.slots[slot].message.id);
        self.store.insert(pos, slot);
        assert forall|i: int| 0 <= i < self.store@.len() implies (#[trigger] self.store@[i])
            < self.slots@.len() by {
            if i < pos {
                assert(self.store@[i] == old(self).store@[i]);
            } else if i > pos {
                assert(self.store@[i] == old(self).store@[i - 1]);
            }
        }
        pos
    }

    /// Lets `id` find `slot`.
    fn bind_key(&mut self, id: i64, slot: usize)
        requires
            old(self).wf(),
            slot < old(self)@.slots.len(),
            old(self).slots@[slot as int].key is None,
        ensures
            final(self).wf(),
            final(self)@ == old(self)@.with_key(id, slot),
    {
        match self.find(id) {
            Some(s) => {
                self.slots[s].key = None;
            },
            None => {},
        }
        self.index.insert(id, slot);
        self.slots[slot].key = Some(id);
        assert(self@.slots =~= old(self)@.slots);
    }

    /// Lets `id` find nothing.
    fn unbind_key(&mut self, id: i64) -> (r: Option<usize>)
        requires
            old(self).wf(),
        ensures
            final(self).wf(),
            final(self)@ == old(self)@.without_key(id),
            r == old(self)@.lookup(id),
            r is Some ==> r->0 < old(self)@.slots.len() && final(self).slots@[r->0 as int].key is None,
            forall|i: int|
                0 <= i < old(self).slots@.len() && old(self).slots@[i].key is None ==> (
                #[trigger] final(self).slots@[i]).key is None,
    {
        match self.index.remove(&id) {
            Some(s) => {
                self.slots[s].key = None;
                assert(self@.slots =~= old(self)@.slots);
                Some(s)
            },
            None => {
                assert(self@.index =~= old(self)@.index.remove(id));
                None
            },
        }
    }

    /// A new message, shown as a row and found by its id.
    fn add(&mut self, message: MessageObject) -> (pos: usize)
        requires
            old(self).wf(),
        ensures
            final(self).wf(),
            final(self)@ == old(self)@.added(message@),
            pos == old(self)@.with_slot(message@).place(message@.id),
            pos < final(self)@.store.len(),
    {
        let id: i64 = message.id;
        let slot: usize = self.push_slot(message);
        let pos: usize = self.insert_sorted(slot);
        self.bind_key(id, slot);
        pos
    }

    // --- Rows ---------------------------------------------------------------

    /// Takes out the first row of the message id `id`.
    fn remove_from_store_by_id(&mut self, id: i64, out: &mut Vec<Effect>)
        requires
            old(self).wf(),
        ensures
            final(self).wf(),
            final(self)@ == old(self)@.row_removed(id).history,
            effect_views(final(out)@) == effect_views(old(out)@) + old(self)@.row_removed(
                id,
            ).effects,
            final(self).slots@ == old(self).slots@,
    {
        match self.row_of(id) {
            Some(at) => {
                self.store.remove(at);
                assert forall|i: int| 0 <= i < self.store@.len() implies (#[trigger] self.store@[i])
                    < self.slots@.len() by {
                    if i < at {
                        assert(self.store@[i] == old(self).store@[i]);
                    } else {
                        assert(self.store@[i] == old(self).store@[i + 1]);
                    }
                }
                emit(out, Effect::Removed { position: at });
            },
            None => {},
        }
    }

    /// Binds the first row of `id` anew.
    fn notify_changed(&self, id: i64, out: &mut Vec<Effect>)
        requires
            self.wf(),
        ensures
            effect_views(final(out)@) == effect_views(old(out)@) + self@.rebind_of(id),
    {
        match self.row_of(id) {
            Some(at) => {
                emit(out, Effect::Rebind { start: at, count: 1 });
            },
            None => {},
        }
    }

    /// Binds every row anew.
    fn rebind_all(&self, out: &mut Vec<Effect>)
        ensures
            effect_views(final(out)@) == effect_views(old(out)@) + self@.rebind_all(),
    {
        let n: usize = self.store.len();
        if n > 0 {
            emit(out, Effect::Rebind { start: 0, count: n });
        }
    }

    /// Binds row `pos` and its neighbours anew.
    fn rebind_around(&self, pos: usize, out: &mut Vec<Effect>)
        requires
            pos < self@.store.len(),
        ensures
            effect_views(final(out)@) == effect_views(old(out)@) + self@.rebind_around(pos as int),
    {
        let n: usize = self.store.len();
        let start: usize = if pos > 0 {
            pos - 1
        } else {
            0
        };
        let end: usize = if pos < n - 1 {
            pos + 1
        } else {
            n - 1
        };
        emit(out, Effect::Rebind { start, count: end - start + 1 });
    }

    /// Binds the rows from the first to the last of an album anew.
    fn rebind_album_run(&self, album_id: i64, out: &mut Vec<Effect>)
        requires
            self.wf(),
        ensures
            effect_views(final(out)@) == effect_views(old(out)@) + self@.rebind_album(album_id),
    {
        if album_id == 0 {
            return;
        }
        let n: usize = self.store.len();
        let mut first: usize = 0;
        while first < n && self.message(first).media_album_id != album_id
            invariant
                self.wf(),
                n == self@.store.len(),
                first <= n,
                first_at(self@.albums(), album_id, 0) == first_at(
                    self@.albums(),
                    album_id,
                    first as int,
                ),
            decreases n - first,
        {
            first = first + 1;
        }
        if first == n {
            return;
        }
        let mut last: usize = n;
        while self.message(last - 1).media_album_id != album_id
            invariant
                self.wf(),
                n == self@.store.len(),
                first < last <= n,
                self@.albums()[first as int] == album_id,
                last_before(self@.albums(), album_id, n as int) == last_before(
                    self@.albums(),
                    album_id,
                    last as int,
                ),
            decreases last,
        {
            assert(last - 1 != first);
            last = last - 1;
        }
        emit(out, Effect::Rebind { start: first, count: last - first });
    }

    // --- Changes of one message --------------------------------------------

    fn set_sender_name(&mut self, slot: usize, name: &str)
        requires
            old(self).wf(),
            slot < old(self)@.slots.len(),
        ensures
            final(self).wf(),
            final(self)@ == old(self)@.with_message(
                slot as int,
                MessageView { sender_name: name@, ..old(self)@.slots[slot as int] },
            ),
    {
        self.slots[slot].message.sender_name = name.to_owned();
        assert(self@.slots =~= old(self)@.slots.update(slot as int, self@.slots[slot as int]));
    }

    fn set_avatar(&mut self, slot: usize, file_id: i32)
        requires
            old(self).wf(),
            slot < old(self)@.slots.len(),
        ensures
            final(self).wf(),
            final(self)@ == old(self)@.with_message(
                slot as int,
                MessageView { avatar_file_id: file_id, ..old(self)@.slots[slot as int] },
            ),
    {
        self.slots[slot].message.avatar_file_id = file_id;
        assert(self@.slots =~= old(self)@.slots.update(slot as int, self@.slots[slot as int]));
    }

    fn set_reply(&mut self, slot: usize, sender: String, text: String)
        requires
            old(self).wf(),
            slot < old(self)@.slots.len(),
        ensures
            final(self).wf(),
            final(self)@ == old(self)@.with_message(
                slot as int,
                MessageView {
                    reply_sender: sender@,
                    reply_snippet: text@,
                    ..old(self)@.slots[slot as int]
                },
            ),
    {
        self.slots[slot].message.reply_sender = sender;
        self.slots[slot].message.reply_snippet = text;
        assert(self@.slots =~= old(self)@.slots.update(slot as int, self@.slots[slot as int]));
    }

    fn set_pending(&mut self, slot: usize)
        requires
            old(self).wf(),
            slot < old(self)@.slots.len(),
        ensures
            final(self).wf(),
            final(self)@ == old(self)@.with_message(
                slot as int,
                MessageView { is_pending: true, ..old(self)@.slots[slot as int] },
            ),
            final(self).slots@[slot as int].key == old(self).slots@[slot as int].key,
    {
        self.slots[slot].message.is_pending = true;
        assert(self@.slots =~= old(self)@.slots.update(slot as int, self@.slots[slot as int]));
    }

    fn set_read(&mut self, slot: usize)
        requires
            old(self).wf(),
            slot < old(self)@.slots.len(),
        ensures
            final(self).wf(),
            final(self)@ == old(self)@.with_message(
                slot as int,
                MessageView { send_status: send_status::READ, ..old(self)@.slots[slot as int] },
            ),
            final(self).index@ == old(self).index@,
            final(self).slots@.len() == old(self).slots@.len(),
            forall|i: int|
                0 <= i < old(self).slots@.len() ==> (#[trigger] final(self).slots@[i]).key == old(
                    self,
                ).slots@[i].key,
    {
        self.slots[slot].message.send_status = send_status::READ;
        assert(self@.slots =~= old(self)@.slots.update(slot as int, self@.slots[slot as int]));
    }

    fn update_slot(&mut self, slot: usize, msg: &Message)
        requires
            old(self).wf(),
            slot < old(self)@.slots.len(),
        ensures
            final(self).wf(),
            final(self)@ == old(self)@.with_message(
                slot as int,
                old(self)@.slots[slot as int].updated(msg@),
            ),
            final(self).slots@[slot as int].key == old(self).slots@[slot as int].key,
    {
        self.slots[slot].message.update_from_message(msg);
        assert(self@.slots =~= old(self)@.slots.update(slot as int, self@.slots[slot as int]));
    }

    // --- Names --------------------------------------------------------------

    /// The display name of a user, empty where it is not known.
    pub fn name_of(&self, user_id: i64) -> (r: String)
        ensures
            r@ == self@.name_of(user_id),
    {
        match self.names.get(&user_id) {
            Some(name) => name.clone(),
            None => String::new(),
        }
    }

    /// Fills in the sender's name of an incoming group message, and returns the
    /// user to resolve.
    fn apply_sender_name(&self, message: &mut MessageObject, sender: MessageSender) -> (r: Option<
        i64,
    >)
        ensures
            final(message)@ == self@.named(old(message)@, sender),
            r == (if old(message)@.is_outgoing {
                None
            } else {
                match sender {
                    MessageSender::User(id) => Some(id),
                    MessageSender::Chat(_) => None,
                }
            }),
    {
        if message.is_outgoing {
            return None;
        }
        match sender {
            MessageSender::User(id) => {
                if self.is_group {
                    match self.names.get(&id) {
                        Some(name) => {
                            message.sender_name = name.clone();
                        },
                        None => {},
                    }
                }
                Some(id)
            },
            MessageSender::Chat(_) => None,
        }
    }

    /// Asks for every user of `ids` without a name.
    pub fn resolve_names(&self, ids: &Vec<i64>, out: &mut Vec<Effect>)
        ensures
            effect_views(final(out)@) == effect_views(old(out)@) + self@.fetches(ids@),
    {
        let ghost start = effect_views(out@);
        assert(start =~= start + self@.fetches(ids@.take(0)));
        for i in 0..ids.len()
            invariant
                effect_views(out@) == start + self@.fetches(ids@.take(i as int)),
        {
            let id: i64 = ids[i];
            assert(ids@.take(i + 1).drop_last() =~= ids@.take(i as int));
            if !(id == 0 || self.names.contains_key(&id)) {
                emit(out, Effect::FetchUser { user_id: id });
            }
            assert(effect_views(out@) =~= start + self@.fetches(ids@.take(i + 1)));
        }
        assert(ids@.take(ids@.len() as int) =~= ids@);
    }

    // --- Replies ------------------------------------------------------------

    /// Fills in the reply header of `slot` from the loaded message in `target`.
    fn stamp_reply(&mut self, slot: usize, target: usize)
        requires
            old(self).wf(),
            slot < old(self)@.slots.len(),
            target < old(self)@.slots.len(),
        ensures
            final(self).wf(),
            final(self)@ == old(self)@.with_message(
                slot as int,
                old(self)@.stamped(
                    old(self)@.slots[slot as int],
                    old(self)@.slots[target as int],
                ),
            ),
    {
        let sender: String;
        let text: String;
        {
            let t: &MessageObject = self.slot(target);
            sender =
            if t.is_outgoing {
                "You".to_owned()
            } else if t.sender_name.as_str().is_empty() {
                self.name_of(t.sender_id)
            } else {
                t.sender_name.clone()
            };
            text = snippet(t.content_text.as_str());
        }
        self.set_reply(slot, sender, text);
    }

    /// Resolves the reply header of message `id`.
    fn resolve_reply(&mut self, id: i64, out: &mut Vec<Effect>)
        requires
            old(self).wf(),
        ensures
            final(self).wf(),
            final(self)@ == old(self)@.reply_resolved(id).history,
            effect_views(final(out)@) == effect_views(old(out)@) + old(self)@.reply_resolved(
                id,
            ).effects,
    {
        let slot: usize = match self.find(id) {
            Some(slot) => slot,
            None => {
                return;
            },
        };
        let target_id: i64 = self.slot(slot).reply_to_id;
        if target_id == 0 || !self.slot(slot).reply_sender.as_str().is_empty() {
            return;
        }
        match self.find(target_id) {
            Some(target) => {
                self.stamp_reply(slot, target);
                self.notify_changed(id, out);
            },
            None => {
                emit(out, Effect::FetchReply { message_id: id, target: target_id });
            },
        }
    }

    /// Resolves the reply headers of all of `ids`.
    fn resolve_replies(&mut self, ids: &Vec<i64>, out: &mut Vec<Effect>)
        requires
            old(self).wf(),
        ensures
            final(self).wf(),
            final(self)@ == old(self)@.replies_resolved(ids@).history,
            effect_views(final(out)@) == effect_views(old(out)@) + old(self)@.replies_resolved(
                ids@,
            ).effects,
    {
        let ghost start = effect_views(out@);
        let ghost base = self@;
        assert(start =~= start + base.replies_resolved(ids@.take(0)).effects);
        for i in 0..ids.len()
            invariant
                self.wf(),
                self@ == base.replies_resolved(ids@.take(i as int)).history,
                effect_views(out@) == start + base.replies_resolved(ids@.take(i as int)).effects,
        {
            assert(ids@.take(i + 1).drop_last() =~= ids@.take(i as int));
            self.resolve_reply(ids[i], out);
            assert(effect_views(out@) =~= start + base.replies_resolved(ids@.take(i + 1)).effects);
        }
        assert(ids@.take(ids@.len() as int) =~= ids@);
    }

    /// The fetched target of the reply `id` arrived.
    pub fn stamp_reply_from_message(&mut self, id: i64, target: &Message, out: &mut Vec<Effect>)
        requires
            old(self).wf(),
        ensures
            final(self).wf(),
            final(self)@ == old(self)@.reply_fetched(id, target@).history,
            effect_views(final(out)@) == effect_views(old(out)@) + old(self)@.reply_fetched(
                id,
                target@,
            ).effects,
    {
        let slot: usize = match self.find(id) {
            Some(slot) => slot,
            None => {
                return;
            },
        };
        let sender: String = if target.is_outgoing {
            "You".to_owned()
        } else {
            match target.sender_id {
                MessageSender::User(user) => self.name_of(user),
                MessageSender::Chat(_) => String::new(),
            }
        };
        let text: String = snippet(content_text(&target.content).as_str());
        self.set_reply(slot, sender, text);
        self.notify_changed(id, out);
    }

    // --- Read state ---------------------------------------------------------

    /// Marks outgoing messages up to `last_read` as read. Only messages that
    /// were sent are touched; pending and failed ones keep their state.
    fn refresh_read_state(&mut self, last_read: i64, out: &mut Vec<Effect>)
        requires
            old(self).wf(),
        ensures
            final(self).wf(),
            final(self)@ == old(self)@.read_refreshed(last_read).history,
            effect_views(final(out)@) == effect_views(old(out)@) + old(self)@.read_refreshed(
                last_read,
            ).effects,
    {
        let ghost start = effect_views(out@);
        let ghost base = self@;
        let n: usize = self.slots.len();
        assert(start =~= start + base.read_up_to(last_read, 0).effects);
        assert forall|i: int| 0 <= i < n implies ((#[trigger] self.slots@[i]).key is Some
            <==> base.indexed(i)) by {
            if self.slots@[i].key is Some {
                assert(base.index.contains_key(self.slots@[i].key->0));
            }
        }
        for s in 0..n
            invariant
                self.wf(),
                n == base.slots.len(),
                n == self@.slots.len(),
                self.slots@.len() == n,
                self@ == base.read_up_to(last_read, s as int).history,
                self@.index == base.index,
                forall|i: int| s <= i < n ==> self@.slots[i] == #[trigger] base.slots[i],
                forall|i: int|
                    0 <= i < n ==> ((#[trigger] self.slots@[i]).key is Some <==> base.indexed(i)),
                effect_views(out@) == start + base.read_up_to(last_read, s as int).effects,
        {
            let ghost before = *self;
            let ghost effects = effect_views(out@);
            assert(self@.slots[s as int] == base.slots[s as int]);
            assert(self.slots@[s as int].key is Some <==> base.indexed(s as int));
            let promoted: bool = {
                let m: &MessageObject = &self.slots[s].message;
                last_read != 0 && self.slots[s].key.is_some() && m.is_outgoing && m.id <= last_read
                    && m.send_status == send_status::SENT
            };
            assert(promoted == base.promotes(s as int, last_read));
            if promoted {
                self.set_read(s);
                emit(out, Effect::Repaint { slot: s });
            }
            assert(effect_views(out@) =~= start + base.read_up_to(last_read, s + 1).effects);
        }
    }

    // --- Batches ------------------------------------------------------------

    /// Adds the messages of a batch that are new, in the order `order`. Returns
    /// the users to resolve, the ids of the new messages and the ids of all
    /// incoming messages of the batch.
    fn take_in(
        &mut self,
        messages: &Vec<Option<Message>>,
        order: &Vec<usize>,
        out: &mut Vec<Effect>,
    ) -> (r: (Vec<i64>, Vec<i64>, Vec<i64>))
        requires
            old(self).wf(),
            forall|i: int|
                0 <= i < order@.len() ==> (#[trigger] order@[i]) < messages@.len()
                    && messages@[order@[i] as int] is Some,
        ensures
            final(self).wf(),
            final(self)@ == old(self)@.taken_in(picked(messages@, order@)).step.history,
            effect_views(final(out)@) == effect_views(old(out)@) + old(self)@.taken_in(
                picked(messages@, order@),
            ).step.effects,
            r.0@ == old(self)@.taken_in(picked(messages@, order@)).users,
            r.1@ == old(self)@.taken_in(picked(messages@, order@)).inserted,
            r.1@.len() <= order@.len(),
            r.2@ == incoming_ids(picked(messages@, order@)),
    {
        let ghost sorted = picked(messages@, order@);
        let ghost base = self@;
        let ghost start = effect_views(out@);
        let mut users: Vec<i64> = Vec::new();
        let mut inserted: Vec<i64> = Vec::new();
        let mut incoming: Vec<i64> = Vec::new();
        assert(start =~= start + base.taken_in(sorted.take(0)).step.effects);
        assert(users@ =~= base.taken_in(sorted.take(0)).users);
        assert(inserted@ =~= base.taken_in(sorted.take(0)).inserted);
        assert(incoming@ =~= incoming_ids(sorted.take(0)));
        for k in 0..order.len()
            invariant
                self.wf(),
                sorted == picked(messages@, order@),
                forall|i: int|
                    0 <= i < order@.len() ==> (#[trigger] order@[i]) < messages@.len()
                        && messages@[order@[i] as int] is Some,
                self@ == base.taken_in(sorted.take(k as int)).step.history,
                effect_views(out@) == start + base.taken_in(sorted.take(k as int)).step.effects,
                users@ == base.taken_in(sorted.take(k as int)).users,
                inserted@ == base.taken_in(sorted.take(k as int)).inserted,
                inserted@.len() <= k,
                incoming@ == incoming_ids(sorted.take(k as int)),
        {
            assert(sorted.take(k + 1).drop_last() =~= sorted.take(k as int));
            let at: usize = order[k];
            assert(sorted[k as int] == messages@[at as int]->0@);
            match &messages[at] {
                Some(m) => {
                    if self.find(m.id).is_none() {
                        let mut object = MessageObject::from_message(m);
                        let user: Option<i64> = self.apply_sender_name(&mut object, m.sender_id);
                        let slot: usize = self.slots.len();
                        let position: usize = self.add(object);
                        emit(out, Effect::Inserted { position, slot });
                        match user {
                            Some(id) => {
                                users.push(id);
                            },
                            None => {},
                        }
                        inserted.push(m.id);
                    }
                    if !m.is_outgoing {
                        incoming.push(m.id);
                    }
                },
                None => {},
            }
            assert(effect_views(out@) =~= start + base.taken_in(sorted.take(k + 1)).step.effects);
        }
        assert(sorted.take(sorted.len() as int) =~= sorted);
        (users, inserted, incoming)
    }

    /// Resolves names and replies of a batch that was taken in, and its read
    /// state.
    fn settle(&mut self, users: &Vec<i64>, inserted: &Vec<i64>, out: &mut Vec<Effect>)
        requires
            old(self).wf(),
        ensures
            final(self).wf(),
            ({
                let replies = old(self)@.replies_resolved(inserted@);
                let read = replies.history.read_refreshed(replies.history.last_read_outbox);
                &&& final(self)@ == read.history
                &&& effect_views(final(out)@) == effect_views(old(out)@) + old(self)@.fetches(
                    users@,
                ) + replies.effects + read.effects
            }),
    {
        self.resolve_names(users, out);
        self.resolve_replies(inserted, out);
        let last_read: i64 = self.last_read_outbox;
        self.refresh_read_state(last_read, out);
    }

    /// Takes in a batch of history. `is_initial` tells the first batch of an
    /// opened chat from a batch of older messages.
    #[verifier::rlimit(30)]
    pub fn ingest_history(
        &mut self,
        messages: &Vec<Option<Message>>,
        is_initial: bool,
        out: &mut Vec<Effect>,
    )
        requires
            old(self).wf(),
        ensures
            final(self).wf(),
            final(self)@ == old(self)@.ingested(
                present(optional_values(messages@)),
                is_initial,
            ).history,
            effect_views(final(out)@) == effect_views(old(out)@) + old(self)@.ingested(
                present(optional_values(messages@)),
                is_initial,
            ).effects,
    {
        let ghost batch = present(optional_values(messages@));
        let ghost start = effect_views(out@);
        let order: Vec<usize> = ordered(messages);
        let ghost sorted = by_id(batch);
        proof {
            lemma_by_id_len(batch);
        }
        if order.len() == 0 {
            // Only an empty batch of older messages means that the top was
            // reached; an empty first batch must not disable paging.
            if !is_initial {
                self.reached_top = true;
            }
            assert(start =~= start + Seq::<EffectView>::empty());
            return;
        }
        let first: usize = order[0];
        assert(sorted[0] == messages@[first as int]->0@);
        match &messages[first] {
            Some(m) => {
                if self.oldest_id == 0 || m.id < self.oldest_id {
                    self.oldest_id = m.id;
                }
            },
            None => {},
        }
        let ghost base = self@;
        assert(base == old(self)@.reaching(sorted.first().id));
        let (users, inserted, incoming) = self.take_in(messages, &order, out);
        let ghost intake = base.taken_in(sorted);
        self.settle(&users, &inserted, out);
        let ghost replies = intake.step.history.replies_resolved(intake.inserted);
        let ghost read = replies.history.read_refreshed(replies.history.last_read_outbox);
        let ghost effects = intake.step.effects + intake.step.history.fetches(intake.users)
            + replies.effects + read.effects;
        assert(effect_views(out@) =~= start + effects);
        if is_initial {
            self.rebind_all(out);
            emit(out, Effect::ScrollToBottom);
            if incoming.len() > 0 {
                emit(out, Effect::ViewMessages { ids: incoming });
            }
            assert(effect_views(out@) =~= start + ((effects + self@.rebind_all()).push(
                EffectView::ScrollToBottom,
            ) + seen(incoming_ids(sorted))));
        } else {
            let n: usize = self.store.len();
            let count: usize = if inserted.len() < n {
                inserted.len() + 1
            } else {
                n
            };
            if count > 0 {
                emit(out, Effect::Rebind { start: 0, count });
            }
            emit(out, Effect::RestoreAnchor);
            assert(effect_views(out@) =~= start + (if count > 0 {
                effects.push(EffectView::Rebind { start: 0, count })
            } else {
                effects
            }).push(EffectView::RestoreAnchor));
        }
    }

    // --- Updates ------------------------------------------------------------

    /// Refreshes a message that is loaded already.
    fn refresh_known(&mut self, msg: &Message, out: &mut Vec<Effect>)
        requires
            old(self).wf(),
            old(self)@.index.contains_key(msg.id) || old(self)@.temp_ids.contains(msg.id),
        ensures
            final(self).wf(),
            final(self)@ == old(self)@.new_message(msg@).history,
            effect_views(final(out)@) == effect_views(old(out)@) + old(self)@.new_message(
                msg@,
            ).effects,
    {
        let ghost start = effect_views(out@);
        match self.find(msg.id) {
            Some(slot) => {
                self.update_slot(slot, msg);
                emit(out, Effect::Repaint { slot });
                self.notify_changed(msg.id, out);
                assert(effect_views(out@) =~= start + (seq![EffectView::Repaint { slot }]
                    + self@.rebind_of(msg.id)));
            },
            None => {
                assert(start =~= start + Seq::<EffectView>::empty());
            },
        }
    }

    /// Adds `object` as a row and resolves its reply. Returns its position.
    fn show(&mut self, object: MessageObject, users: &Vec<i64>, out: &mut Vec<Effect>) -> (pos:
        usize)
        requires
            old(self).wf(),
        ensures
            final(self).wf(),
            pos == old(self)@.with_slot(object@).place(object@.id),
            pos < final(self)@.store.len(),
            ({
                let h = old(self)@.added(object@);
                let replies = h.replies_resolved(seq![object@.id]);
                &&& final(self)@ == replies.history
                &&& effect_views(final(out)@) == effect_views(old(out)@) + (seq![
                    EffectView::Inserted { position: pos, slot: old(self)@.slots.len() as usize },
                ] + h.fetches(users@) + replies.effects)
            }),
    {
        let ghost start = effect_views(out@);
        let id: i64 = object.id;
        let slot: usize = self.slots.len();
        let position: usize = self.add(object);
        let ghost h = self@;
        emit(out, Effect::Inserted { position, slot });
        self.resolve_names(users, out);
        let ids: Vec<i64> = vec![id];
        assert(ids@ =~= seq![id]);
        self.resolve_replies(&ids, out);
        proof {
            lemma_replies_keep_rows(h, ids@);
        }
        assert(effect_views(out@) =~= start + (seq![
            EffectView::Inserted { position, slot },
        ] + h.fetches(users@) + h.replies_resolved(ids@).effects));
        position
    }

    /// A message arrived. Our own sends are echoed here too; those that are
    /// loaded already are refreshed in place.
    #[verifier::rlimit(30)]
    pub fn new_message(&mut self, msg: &Message, out: &mut Vec<Effect>)
        requires
            old(self).wf(),
        ensures
            final(self).wf(),
            final(self)@ == old(self)@.new_message(msg@).history,
            effect_views(final(out)@) == effect_views(old(out)@) + old(self)@.new_message(
                msg@,
            ).effects,
    {
        if self.index.contains_key(&msg.id) || self.temp_ids.contains(&msg.id) {
            self.refresh_known(msg, out);
            return;
        }
        let ghost start = effect_views(out@);
        let mut object = MessageObject::from_message(msg);
        let user: Option<i64> = self.apply_sender_name(&mut object, msg.sender_id);
        let mut users: Vec<i64> = Vec::new();
        match user {
            Some(id) => {
                users.push(id);
            },
            None => {},
        }
        assert(users@ =~= push_some(Seq::empty(), user_to_resolve(msg@)));
        let position: usize = self.show(object, &users, out);
        let ghost shown = effect_views(out@);
        self.rebind_around(position, out);
        self.rebind_album_run(msg.media_album_id, out);
        emit(out, Effect::ScrollToBottom);
        let mut incoming: Vec<i64> = Vec::new();
        if !msg.is_outgoing {
            incoming.push(msg.id);
            assert(incoming@ =~= seq![msg.id]);
            emit(out, Effect::ViewMessages { ids: incoming });
        }
        assert(effect_views(out@) =~= shown + self@.rebind_around(position as int)
            + self@.rebind_album(msg.media_album_id) + seq![EffectView::ScrollToBottom] + seen(
            if msg.is_outgoing {
                Seq::empty()
            } else {
                seq![msg.id]
            },
        ));
        assert(effect_views(out@) =~= start + old(self)@.new_message(msg@).effects);
    }

    /// Binds the window around a row that was added, and its album.
    fn rebind_added(&self, position: usize, album_id: i64, out: &mut Vec<Effect>)
        requires
            self.wf(),
            position < self@.store.len(),
        ensures
            effect_views(final(out)@) == effect_views(old(out)@) + (self@.rebind_around(
                position as int,
            ) + self@.rebind_album(album_id)),
    {
        let ghost start = effect_views(out@);
        self.rebind_around(position, out);
        self.rebind_album_run(album_id, out);
        assert(effect_views(out@) =~= start + (self@.rebind_around(position as int)
            + self@.rebind_album(album_id)));
    }

    /// Moves the message in `slot`, which no id finds, to its real id.
    fn confirm(&mut self, slot: usize, old_id: i64, msg: &Message, out: &mut Vec<Effect>)
        requires
            old(self).wf(),
            slot < old(self)@.slots.len(),
            old(self).slots@[slot as int].key is None,
        ensures
            final(self).wf(),
            ({
                let removed = old(self)@.row_removed(old_id);
                let updated = removed.history.with_message(
                    slot as int,
                    old(self)@.slots[slot as int].updated(msg@),
                );
                let at = updated.place(msg@.id);
                let done = updated.inserted(slot).with_key(msg@.id, slot);
                &&& final(self)@ == done
                &&& effect_views(final(out)@) == effect_views(old(out)@) + (removed.effects.push(
                    EffectView::Inserted { position: at as usize, slot },
                ) + done.rebind_around(at) + done.rebind_album(msg@.media_album_id))
            }),
    {
        let ghost start = effect_views(out@);
        // The row goes before the id changes, so that the order of the rows
        // stays intact for the search below.
        self.remove_from_store_by_id(old_id, out);
        let ghost removed = effect_views(out@);
        self.update_slot(slot, msg);
        let position: usize = self.insert_sorted(slot);
        emit(out, Effect::Inserted { position, slot });
        self.bind_key(msg.id, slot);
        self.rebind_added(position, msg.media_album_id, out);
        assert(effect_views(out@) =~= start + (old(self)@.row_removed(old_id).effects.push(
            EffectView::Inserted { position, slot },
        ) + self@.rebind_around(position as int) + self@.rebind_album(msg.media_album_id)));
    }

    /// A message of ours reached the server and has its real id now.
    pub fn send_succeeded(&mut self, old_id: i64, msg: &Message, out: &mut Vec<Effect>)
        requires
            old(self).wf(),
        ensures
            final(self).wf(),
            final(self)@ == old(self)@.send_succeeded(old_id, msg@).history,
            effect_views(final(out)@) == effect_views(old(out)@) + old(self)@.send_succeeded(
                old_id,
                msg@,
            ).effects,
    {
        let ghost start = effect_views(out@);
        self.temp_ids.remove(&old_id);
        let ghost h = old(self)@.without_temp(old_id);
        assert(self@.temp_ids =~= h.temp_ids);
        assert(self@ == h);
        match self.unbind_key(old_id) {
            Some(slot) => {
                self.confirm(slot, old_id, msg, out);
            },
            None => {
                assert(self@.index =~= h.index);
                assert(self@ == h);
                if self.find(msg.id).is_none() {
                    let slot: usize = self.slots.len();
                    let position: usize = self.add(MessageObject::from_message(msg));
                    emit(out, Effect::Inserted { position, slot });
                    self.rebind_added(position, msg.media_album_id, out);
                    assert(effect_views(out@) =~= start + (seq![
                        EffectView::Inserted { position, slot },
                    ] + self@.rebind_around(position as int) + self@.rebind_album(
                        msg.media_album_id,
                    )));
                } else {
                    assert(start =~= start + Seq::<EffectView>::empty());
                }
            },
        }
    }

    /// Shows the failed message in `slot`, which no id finds and no row shows,
    /// under its new id.
    fn show_failed(&mut self, slot: usize, msg: &Message, out: &mut Vec<Effect>)
        requires
            old(self).wf(),
            slot < old(self)@.slots.len(),
            old(self).slots@[slot as int].key is None,
        ensures
            final(self).wf(),
            ({
                let updated = old(self)@.with_message(
                    slot as int,
                    MessageView {
                        is_pending: true,
                        ..old(self)@.slots[slot as int].updated(msg@)
                    },
                );
                let at = updated.place(msg@.id);
                let done = updated.inserted(slot).with_key(msg@.id, slot);
                &&& final(self)@ == done
                &&& effect_views(final(out)@) == effect_views(old(out)@).push(
                    EffectView::Inserted { position: at as usize, slot },
                ) + (done.rebind_around(at) + done.rebind_album(msg@.media_album_id))
            }),
    {
        self.update_slot(slot, msg);
        self.set_pending(slot);
        assert(self@.slots =~= old(self)@.slots.update(slot as int, self@.slots[slot as int]));
        let position: usize = self.insert_sorted(slot);
        emit(out, Effect::Inserted { position, slot });
        self.bind_key(msg.id, slot);
        self.rebind_added(position, msg.media_album_id, out);
    }

    /// Moves the failed message in `slot`, which no id finds, to its new id.
    fn move_failed(&mut self, slot: usize, old_id: i64, msg: &Message, out: &mut Vec<Effect>)
        requires
            old(self).wf(),
            slot < old(self)@.slots.len(),
            old(self).slots@[slot as int].key is None,
        ensures
            final(self).wf(),
            ({
                let removed = old(self)@.row_removed(old_id);
                let cleared = removed.history.taken_out(msg@.id);
                let updated = cleared.history.with_message(
                    slot as int,
                    MessageView {
                        is_pending: true,
                        ..old(self)@.slots[slot as int].updated(msg@)
                    },
                );
                let at = updated.place(msg@.id);
                let done = updated.inserted(slot).with_key(msg@.id, slot);
                &&& final(self)@ == done
                &&& effect_views(final(out)@) == effect_views(old(out)@) + ((removed.effects
                    + cleared.effects).push(EffectView::Inserted { position: at as usize, slot })
                    + done.rebind_around(at) + done.rebind_album(msg@.media_album_id))
            }),
    {
        let ghost start = effect_views(out@);
        self.remove_from_store_by_id(old_id, out);
        let ghost removed = old(self)@.row_removed(old_id);
        self.unbind_key(msg.id);
        self.remove_from_store_by_id(msg.id, out);
        let ghost cleared = removed.history.taken_out(msg@.id);
        assert(self@ == cleared.history);
        assert(self@.slots == old(self)@.slots);
        assert(effect_views(out@) =~= start + (removed.effects + cleared.effects));
        let ghost taken = effect_views(out@);
        self.show_failed(slot, msg, out);
        proof {
            let updated = cleared.history.with_message(
                slot as int,
                MessageView { is_pending: true, ..old(self)@.slots[slot as int].updated(msg@) },
            );
            let at = updated.place(msg@.id);
            let inserted = EffectView::Inserted { position: at as usize, slot };
            let around = self@.rebind_around(at);
            let album = self@.rebind_album(msg@.media_album_id);
            assert(taken.push(inserted) + (around + album) =~= start + ((removed.effects
                + cleared.effects).push(inserted) + around + album));
        }
    }

    /// A message of ours could not be sent. It stays, marked as pending; under
    /// another id its row moves there.
    pub fn send_failed(&mut self, old_id: i64, msg: &Message, out: &mut Vec<Effect>)
        requires
            old(self).wf(),
        ensures
            final(self).wf(),
            final(self)@ == old(self)@.send_failed(old_id, msg@).history,
            effect_views(final(out)@) == effect_views(old(out)@) + old(self)@.send_failed(old_id, msg@).effects,
    {
        let ghost start = effect_views(out@);
        self.temp_ids.remove(&old_id);
        let ghost h = old(self)@.without_temp(old_id);
        assert(self@.temp_ids =~= h.temp_ids);
        assert(self@ == h);
        match self.find(old_id) {
            Some(slot) => {
                if msg.id == old_id {
                    self.update_slot(slot, msg);
                    self.set_pending(slot);
                    assert(self@.slots =~= old(self)@.send_failed(old_id, msg@).history.slots);
                    emit(out, Effect::Repaint { slot });
                    self.notify_changed(old_id, out);
                } else {
                    self.unbind_key(old_id);
                    self.move_failed(slot, old_id, msg, out);
                }
            },
            None => {},
        }
        assert(effect_views(out@) =~= start + old(self)@.send_failed(old_id, msg@).effects);
    }

    /// The content of a message was edited.
    pub fn content_changed(&mut self, id: i64, content: &MessageContent, out: &mut Vec<Effect>)
        requires
            old(self).wf(),
        ensures
            final(self).wf(),
            final(self)@ == old(self)@.content_changed(id, content@).history,
            effect_views(final(out)@) == effect_views(old(out)@) + old(self)@.content_changed(id, content@).effects,
    {
        let ghost start = effect_views(out@);
        match self.find(id) {
            Some(slot) => {
                let before: i32 = self.slots[slot].message.kind;
                self.slots[slot].message.set_content(content);
                assert(self@.slots =~= old(self)@.slots.update(
                    slot as int,
                    self@.slots[slot as int],
                ));
                emit(out, Effect::Repaint { slot });
                if !(before == kind::TEXT && self.slots[slot].message.kind == kind::TEXT) {
                    self.notify_changed(id, out);
                }
            },
            None => {},
        }
        assert(effect_views(out@) =~= start + old(self)@.content_changed(id, content@).effects);
    }

    /// The reactions on a message changed.
    pub fn reactions_changed(&mut self, id: i64, reactions: &[Reaction], out: &mut Vec<Effect>)
        requires
            old(self).wf(),
        ensures
            final(self).wf(),
            final(self)@ == old(self)@.reactions_changed(id, reaction_views(reactions@)).history,
            effect_views(final(out)@) == effect_views(old(out)@) + old(self)@.reactions_changed(id, reaction_views(reactions@)).effects,
    {
        let ghost start = effect_views(out@);
        match self.find(id) {
            Some(slot) => {
                self.slots[slot].message.set_reactions_from(reactions);
                assert(self@.slots =~= old(self)@.slots.update(
                    slot as int,
                    self@.slots[slot as int],
                ));
                emit(out, Effect::Repaint { slot });
            },
            None => {},
        }
        assert(effect_views(out@) =~= start + old(self)@.reactions_changed(
            id,
            reaction_views(reactions@),
        ).effects);
    }

    /// The recipient's read cursor moved.
    pub fn read_outbox(&mut self, last_read: i64, out: &mut Vec<Effect>)
        requires
            old(self).wf(),
        ensures
            final(self).wf(),
            final(self)@ == old(self)@.read_outbox(last_read).history,
            effect_views(final(out)@) == effect_views(old(out)@) + old(self)@.read_outbox(last_read).effects,
    {
        self.last_read_outbox = last_read;
        self.refresh_read_state(last_read, out);
    }

    /// Shows a message of ours that was just sent. The message carries a
    /// temporary id until the server confirms it.
    pub fn append_sent(&mut self, msg: &Message, out: &mut Vec<Effect>)
        requires
            old(self).wf(),
        ensures
            final(self).wf(),
            final(self)@ == old(self)@.sent(msg@).history,
            effect_views(final(out)@) == effect_views(old(out)@) + old(self)@.sent(msg@).effects,
    {
        let ghost start = effect_views(out@);
        if !self.index.contains_key(&msg.id) {
            let object = MessageObject::from_message(msg);
            self.temp_ids.insert(msg.id);
            let ghost h = old(self)@.with_temp(msg.id);
            assert(self@.temp_ids =~= h.temp_ids);
            let users: Vec<i64> = Vec::new();
            let position: usize = self.show(object, &users, out);
            self.rebind_around(position, out);
            emit(out, Effect::ScrollToBottom);
            assert(h.added(object@).fetches(users@) =~= Seq::empty());
            assert(h.with_slot(object@).ids() =~= old(self)@.with_slot(object@).ids());
        }
        assert(effect_views(out@) =~= start + old(self)@.sent(msg@).effects);
    }

    /// Lets the message `id` be found no more; its row stays. Returns whether it
    /// was known.
    pub fn forget(&mut self, id: i64) -> (r: bool)
        requires
            old(self).wf(),
        ensures
            final(self).wf(),
            final(self)@ == old(self)@.without_key(id),
            r == old(self)@.index.contains_key(id),
    {
        self.unbind_key(id).is_some()
    }

    /// Takes out the first row of the message id `id`.
    pub fn remove_row(&mut self, id: i64, out: &mut Vec<Effect>)
        requires
            old(self).wf(),
        ensures
            final(self).wf(),
            final(self)@ == old(self)@.row_removed(id).history,
            effect_views(final(out)@) == effect_views(old(out)@) + old(self)@.row_removed(id).effects,
    {
        self.remove_from_store_by_id(id, out);
    }

    // --- Resolved users -----------------------------------------------------

    /// Puts a name on every row of `uid` that lacks one. Names are shown in
    /// groups only.
    fn apply_name_to_rows(&mut self, uid: i64, name: &str, out: &mut Vec<Effect>)
        requires
            old(self).wf(),
        ensures
            final(self).wf(),
            final(self)@ == old(self)@.name_applied(uid, name@, old(self)@.store.len() as int).history,
            effect_views(final(out)@) == effect_views(old(out)@) + old(self)@.name_applied(uid, name@, old(self)@.store.len() as int).effects,
            final(self)@.store == old(self)@.store,
    {
        let ghost start = effect_views(out@);
        let ghost base = self@;
        assert(start =~= start + base.name_applied(uid, name@, 0).effects);
        if !self.is_group {
            assert(start =~= start + base.name_applied(uid, name@, base.store.len() as int).effects);
            return;
        }
        let n: usize = self.store.len();
        for i in 0..n
            invariant
                self.wf(),
                base.is_group,
                n == base.store.len(),
                self@.store == base.store,
                self@ == base.name_applied(uid, name@, i as int).history,
                effect_views(out@) == start + base.name_applied(uid, name@, i as int).effects,
        {
            let slot: usize = self.store[i];
            let (matched, unnamed): (bool, bool) = {
                let m: &MessageObject = self.message(i);
                (!m.is_outgoing && m.sender_id == uid, m.sender_name.as_str().is_empty())
            };
            if matched {
                if unnamed {
                    self.set_sender_name(slot, name);
                }
                emit(out, Effect::Rebind { start: i, count: 1 });
            }
            assert(effect_views(out@) =~= start + base.name_applied(uid, name@, i + 1).effects);
        }
    }

    /// Puts an avatar on every row of `uid` that lacks one.
    fn apply_avatar_to_rows(&mut self, uid: i64, file_id: i32, out: &mut Vec<Effect>)
        requires
            old(self).wf(),
        ensures
            final(self).wf(),
            final(self)@ == old(self)@.avatar_applied(uid, file_id, old(self)@.store.len() as int).history,
            effect_views(final(out)@) == effect_views(old(out)@) + old(self)@.avatar_applied(uid, file_id, old(self)@.store.len() as int).effects,
    {
        let ghost start = effect_views(out@);
        let ghost base = self@;
        assert(start =~= start + base.avatar_applied(uid, file_id, 0).effects);
        if file_id == 0 {
            assert(start =~= start + base.avatar_applied(
                uid,
                file_id,
                base.store.len() as int,
            ).effects);
            return;
        }
        let n: usize = self.store.len();
        for i in 0..n
            invariant
                self.wf(),
                file_id != 0,
                n == base.store.len(),
                self@.store == base.store,
                self@ == base.avatar_applied(uid, file_id, i as int).history,
                effect_views(out@) == start + base.avatar_applied(uid, file_id, i as int).effects,
        {
            let slot: usize = self.store[i];
            let (matched, lacking): (bool, bool) = {
                let m: &MessageObject = self.message(i);
                (!m.is_outgoing && m.sender_id == uid, m.avatar_file_id == 0)
            };
            if matched {
                if lacking {
                    self.set_avatar(slot, file_id);
                }
                emit(out, Effect::Rebind { start: i, count: 1 });
            }
            assert(effect_views(out@) =~= start + base.avatar_applied(uid, file_id, i + 1).effects);
        }
    }

    /// A user was fetched. `avatar` is the file id of the small profile photo,
    /// 0 where there is none.
    pub fn user_resolved(
        &mut self,
        uid: i64,
        first_name: &str,
        last_name: &str,
        avatar: i32,
        out: &mut Vec<Effect>,
    )
        requires
            old(self).wf(),
        ensures
            final(self).wf(),
            final(self)@ == old(self)@.user_resolved(uid, full_name(first_name@, last_name@), avatar).history,
            effect_views(final(out)@) == effect_views(old(out)@) + old(self)@.user_resolved(uid, full_name(first_name@, last_name@), avatar).effects,
    {
        let ghost start = effect_views(out@);
        let name: String = display_name(first_name, last_name);
        let kept: String = name.clone();
        self.names.insert(uid, kept);
        let ghost h = HistoryView { names: old(self)@.names.insert(uid, name@), ..old(self)@ };
        assert(self@.names =~= h.names);
        self.apply_name_to_rows(uid, name.as_str(), out);
        self.apply_avatar_to_rows(uid, avatar, out);
        assert(effect_views(out@) =~= start + old(self)@.user_resolved(uid, name@, avatar).effects);
    }

    /// The senders of incoming rows that lack a name, each once.
    fn resolve_all_sender_names(&self) -> (ids: Vec<i64>)
        requires
            self.wf(),
        ensures
            ids@ == self@.unnamed_senders(self@.store.len() as int),
    {
        let mut ids: Vec<i64> = Vec::new();
        let n: usize = self.store.len();
        assert(ids@ =~= self@.unnamed_senders(0));
        for i in 0..n
            invariant
                self.wf(),
                n == self@.store.len(),
                ids@ == self@.unnamed_senders(i as int),
        {
            let m: &MessageObject = self.message(i);
            if !m.is_outgoing && m.sender_name.as_str().is_empty() && m.sender_id != 0 && !holds(
                &ids,
                m.sender_id,
            ) {
                ids.push(m.sender_id);
            }
        }
        ids
    }

    /// What the chat is became known. `last_read` is the recipient's read
    /// cursor.
    pub fn chat_resolved(&mut self, is_group: bool, last_read: i64, out: &mut Vec<Effect>)
        requires
            old(self).wf(),
        ensures
            final(self).wf(),
            final(self)@ == old(self)@.chat_resolved(is_group, last_read).history,
            effect_views(final(out)@) == effect_views(old(out)@) + old(self)@.chat_resolved(is_group, last_read).effects,
    {
        let ghost start = effect_views(out@);
        self.is_group = is_group;
        self.last_read_outbox = last_read;
        let ghost h = self@;
        proof {
            lemma_read_keeps_rows(h, last_read, h.slots.len() as int);
        }
        self.refresh_read_state(last_read, out);
        if is_group {
            let ids: Vec<i64> = self.resolve_all_sender_names();
            self.resolve_names(&ids, out);
        }
        self.rebind_all(out);
        assert(effect_views(out@) =~= start + old(self)@.chat_resolved(is_group, last_read).effects);
    }

    // --- Paging -------------------------------------------------------------

    /// Starts a request for older messages, unless one is under way or there
    /// is nothing older. Returns the id to load from.
    pub fn load_older_history(&mut self) -> (from: Option<i64>)
        requires
            old(self).wf(),
        ensures
            final(self).wf(),
            (final(self)@, from) == old(self)@.older_wanted(),
    {
        if self.reached_top || self.loading_older || self.oldest_id == 0 {
            return None;
        }
        self.loading_older = true;
        Some(self.oldest_id)
    }

    /// A batch of older messages arrived. The guard against overlapping
    /// requests stays until the scroll anchor was restored; on an empty batch
    /// nothing is to be restored, so it is lifted here.
    pub fn older_arrived(&mut self, messages: &Vec<Option<Message>>, out: &mut Vec<Effect>)
        requires
            old(self).wf(),
        ensures
            final(self).wf(),
            final(self)@ == old(self)@.older_arrived(optional_values(messages@)).history,
            effect_views(final(out)@) == effect_views(old(out)@) + old(self)@.older_arrived(optional_values(messages@)).effects,
    {
        let empty: bool = messages.len() == 0;
        self.ingest_history(messages, false, out);
        if empty {
            self.loading_older = false;
        }
    }

    /// A request for older messages failed, or the scroll anchor was restored
    /// after one succeeded.
    pub fn older_done(&mut self)
        requires
            old(self).wf(),
        ensures
            final(self).wf(),
            final(self)@ == old(self)@.older_over(),
    {
        self.loading_older = false;
    }
}

} // verus!
