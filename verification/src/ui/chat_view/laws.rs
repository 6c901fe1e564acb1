//! What holds of a loaded history through every step.

use crate::models::message_object::MessageView;
use crate::models::send_status;
use crate::tdlib::types::{MessageValue, UpdateView};
use crate::ui::chat_view::model::{by_id, first_at, insert_by_id, insertion_point, present,
    HistoryView, Step};
use crate::ui::chat_view::state::ChatState;
use vstd::prelude::*;

verus! {

/// Whether ids grow from row to row, so that no message is shown twice.
pub open spec fn ascending(ids: Seq<i64>) -> bool {
    forall|i: int, j: int| 0 <= i < j < ids.len() ==> (#[trigger] ids[i]) < (#[trigger] ids[j])
}

/// Whether the rows are in order and the index finds exactly them.
pub open spec fn consistent(h: HistoryView) -> bool {
    &&& h.in_range()
    &&& ascending(h.ids())
    &&& forall|i: int|
        0 <= i < h.store.len() ==> h.lookup(h.row(i).id) == Some(#[trigger] h.store[i])
    &&& forall|k: i64| #[trigger]
        h.index.contains_key(k) ==> h.slots[h.index[k] as int].id == k && h.store.contains(
            h.index[k],
        )
}

/// Whether a message of the batch has the id `k`.
pub open spec fn holds_id(batch: Seq<MessageValue>, k: i64) -> bool {
    exists|i: int| 0 <= i < batch.len() && #[trigger] batch[i].id == k
}

/// Whether nothing refers to `slot`.
spec fn is_free(h: HistoryView, slot: int) -> bool {
    &&& forall|i: int| 0 <= i < h.store.len() ==> (#[trigger] h.store[i]) != slot
    &&& forall|k: i64| #[trigger] h.index.contains_key(k) ==> h.index[k] != slot
}

// --- Order -------------------------------------------------------------------

proof fn lemma_insertion_point(ids: Seq<i64>, id: i64, lo: int, hi: int)
    requires
        ascending(ids),
        0 <= lo <= hi <= ids.len(),
        forall|i: int| 0 <= i < lo ==> (#[trigger] ids[i]) < id,
        forall|i: int| hi <= i < ids.len() ==> (#[trigger] ids[i]) >= id,
    ensures
        lo <= insertion_point(ids, id, lo, hi) <= hi,
        forall|i: int|
            0 <= i < insertion_point(ids, id, lo, hi) ==> (#[trigger] ids[i]) < id,
        forall|i: int|
            insertion_point(ids, id, lo, hi) <= i < ids.len() ==> (#[trigger] ids[i]) >= id,
    decreases hi - lo,
{
    if lo < hi {
        let mid = (lo + hi) / 2;
        if ids[mid] < id {
            lemma_insertion_point(ids, id, mid + 1, hi);
        } else {
            lemma_insertion_point(ids, id, lo, mid);
        }
    }
}

/// The search finds the place of a message: every row above it has a smaller
/// id, and no row below it has.
pub proof fn place_splits_the_rows(h: HistoryView, id: i64)
    requires
        ascending(h.ids()),
    ensures
        0 <= h.place(id) <= h.store.len(),
        forall|i: int| 0 <= i < h.place(id) ==> (#[trigger] h.ids()[i]) < id,
        forall|i: int| h.place(id) <= i < h.store.len() ==> (#[trigger] h.ids()[i]) >= id,
{
    lemma_insertion_point(h.ids(), id, 0, h.store.len() as int);
}

/// Whether the ids of a batch do not fall.
pub open spec fn in_order(batch: Seq<MessageValue>) -> bool {
    forall|i: int, j: int|
        0 <= i < j < batch.len() ==> (#[trigger] batch[i]).id <= (#[trigger] batch[j]).id
}

proof fn lemma_insert_in_order(sorted: Seq<MessageValue>, m: MessageValue)
    requires
        in_order(sorted),
    ensures
        in_order(insert_by_id(sorted, m)),
        insert_by_id(sorted, m).len() == sorted.len() + 1,
        insert_by_id(sorted, m).to_multiset() == sorted.to_multiset().insert(m),
        insert_by_id(sorted, m).last().id >= m.id,
        sorted.len() > 0 ==> insert_by_id(sorted, m).last().id >= sorted.last().id,
        insert_by_id(sorted, m).last() == m || (sorted.len() > 0 && insert_by_id(sorted, m).last()
            == sorted.last()),
    decreases sorted.len(),
{
    broadcast use vstd::seq_lib::group_to_multiset_ensures;

    if sorted.len() > 0 && sorted.last().id > m.id {
        let rest = sorted.drop_last();
        lemma_insert_in_order(rest, m);
        let r = insert_by_id(rest, m);
        let all = r.push(sorted.last());
        assert forall|i: int, j: int| 0 <= i < j < all.len() implies (#[trigger] all[i]).id <= (
        #[trigger] all[j]).id by {
            if j == r.len() {
                assert(r[i].id <= r.last().id);
            }
        }
        assert(sorted =~= rest.push(sorted.last()));
        assert(all.to_multiset() =~= sorted.to_multiset().insert(m));
    }
}

/// Sorting a batch puts its messages in order and neither loses nor adds one.
pub proof fn sorting_keeps_the_messages(batch: Seq<MessageValue>)
    ensures
        in_order(by_id(batch)),
        by_id(batch).to_multiset() == batch.to_multiset(),
        by_id(batch).len() == batch.len(),
    decreases batch.len(),
{
    broadcast use vstd::seq_lib::group_to_multiset_ensures;

    if batch.len() > 0 {
        sorting_keeps_the_messages(batch.drop_last());
        lemma_insert_in_order(by_id(batch.drop_last()), batch.last());
        assert(batch =~= batch.drop_last().push(batch.last()));
    } else {
        assert(batch =~= Seq::empty());
    }
}

pub(crate) proof fn lemma_first_at(ids: Seq<i64>, id: i64, from: int)
    requires
        0 <= from <= ids.len(),
    ensures
        match first_at(ids, id, from) {
            Some(at) => from <= at < ids.len() && ids[at] == id,
            None => forall|i: int| from <= i < ids.len() ==> (#[trigger] ids[i]) != id,
        },
    decreases ids.len() - from,
{
    if from < ids.len() && ids[from] != id {
        lemma_first_at(ids, id, from + 1);
    }
}

// --- Single changes ----------------------------------------------------------

/// A change of a message that keeps its id keeps the history consistent.
proof fn lemma_message(h: HistoryView, slot: int, m: MessageView)
    requires
        consistent(h),
        0 <= slot < h.slots.len(),
        m.id == h.slots[slot].id,
    ensures
        consistent(h.with_message(slot, m)),
        h.with_message(slot, m).ids() == h.ids(),
{
    let g = h.with_message(slot, m);
    assert(g.ids() =~= h.ids());
}

/// A free slot that is shown and found by its id.
proof fn lemma_shown(h: HistoryView, slot: usize, m: MessageView)
    requires
        consistent(h),
        slot < h.slots.len(),
        is_free(h, slot as int),
        !h.index.contains_key(m.id),
    ensures
        ({
            let g = h.with_message(slot as int, m).inserted(slot).with_key(m.id, slot);
            &&& consistent(g)
            &&& g.store == h.store.insert(h.with_message(slot as int, m).place(m.id), slot)
            &&& g.ids() == h.ids().insert(h.with_message(slot as int, m).place(m.id), m.id)
            &&& 0 <= h.with_message(slot as int, m).place(m.id) <= h.store.len()
        }),
{
    let w = h.with_message(slot as int, m);
    let g = w.inserted(slot).with_key(m.id, slot);
    assert(w.ids() =~= h.ids());
    lemma_insertion_point(w.ids(), m.id, 0, w.store.len() as int);
    let at = w.place(m.id);
    assert forall|i: int| 0 <= i < h.store.len() implies (#[trigger] h.ids()[i]) != m.id by {
        assert(h.lookup(h.row(i).id) == Some(h.store[i]));
    }
    assert(g.ids() =~= h.ids().insert(at, m.id)) by {
        assert forall|i: int| 0 <= i < g.store.len() implies #[trigger] g.ids()[i] == h.ids().insert(
            at,
            m.id,
        )[i] by {
            if i < at {
                assert(g.store[i] == h.store[i]);
            } else if i > at {
                assert(g.store[i] == h.store[i - 1]);
            }
        }
    }
    assert(ascending(g.ids())) by {
        assert forall|i: int, j: int| 0 <= i < j < g.ids().len() implies (#[trigger] g.ids()[i]) < (
        #[trigger] g.ids()[j]) by {
            let a = if i < at {
                h.ids()[i]
            } else if i == at {
                m.id
            } else {
                h.ids()[i - 1]
            };
            let b = if j < at {
                h.ids()[j]
            } else if j == at {
                m.id
            } else {
                h.ids()[j - 1]
            };
            assert(g.ids()[i] == a && g.ids()[j] == b);
        }
    }
    assert forall|i: int| 0 <= i < g.store.len() implies g.lookup(g.row(i).id) == Some(
        #[trigger] g.store[i],
    ) by {
        if i < at {
            assert(g.store[i] == h.store[i]);
            assert(h.lookup(h.row(i).id) == Some(h.store[i]));
        } else if i > at {
            assert(g.store[i] == h.store[i - 1]);
            assert(h.lookup(h.row(i - 1).id) == Some(h.store[i - 1]));
        }
    }
    assert(g.store[at] == slot);
    assert forall|k: i64| #[trigger] g.index.contains_key(k) implies g.slots[g.index[k] as int].id
        == k && g.store.contains(g.index[k]) by {
        if k != m.id {
            assert(h.index.contains_key(k));
            let i = choose|i: int| 0 <= i < h.store.len() && h.store[i] == h.index[k];
            if i < at {
                assert(g.store[i] == h.index[k]);
            } else {
                assert(g.store[i + 1] == h.index[k]);
            }
        }
    }
    assert forall|i: int| 0 <= i < g.store.len() implies (#[trigger] g.store[i]) < g.slots.len() by {
        if i < at {
            assert(g.store[i] == h.store[i]);
        } else if i > at {
            assert(g.store[i] == h.store[i - 1]);
        }
    }
}

/// A new message that is shown and found by its id.
pub(crate) proof fn lemma_added(h: HistoryView, m: MessageView)
    requires
        consistent(h),
        h.slots.len() < usize::MAX,
        !h.index.contains_key(m.id),
    ensures
        consistent(h.added(m)),
        0 <= h.with_slot(m).place(m.id) <= h.store.len(),
        h.added(m).ids() == h.ids().insert(h.with_slot(m).place(m.id), m.id),
        h.added(m).index == h.index.insert(m.id, h.slots.len() as usize),
{
    let slot = h.slots.len() as usize;
    let w = h.with_slot(m);
    assert(w.ids() =~= h.ids());
    assert forall|i: int| 0 <= i < w.store.len() implies w.lookup(w.row(i).id) == Some(
        #[trigger] w.store[i],
    ) by {
        assert(h.lookup(h.row(i).id) == Some(h.store[i]));
    }
    assert(consistent(w));
    assert(w.with_message(slot as int, m).slots =~= w.slots);
    lemma_shown(w, slot, m);
}

/// A message that is forgotten and taken out.
proof fn lemma_taken_out(h: HistoryView, id: i64)
    requires
        consistent(h),
        h.index.contains_key(id),
    ensures
        ({
            let g = h.without_key(id).row_removed(id).history;
            &&& consistent(g)
            &&& is_free(g, h.index[id] as int)
            &&& forall|i: int| 0 <= i < g.store.len() ==> (#[trigger] g.ids()[i]) != id
            &&& first_at(h.ids(), id, 0) is Some
            &&& g.ids() == h.ids().remove(first_at(h.ids(), id, 0)->0)
            &&& g.slots == h.slots
        }),
{
    let w = h.without_key(id);
    assert(w.ids() =~= h.ids());
    lemma_first_at(h.ids(), id, 0);
    let slot = h.index[id];
    let row = choose|i: int| 0 <= i < h.store.len() && h.store[i] == slot;
    assert(h.ids()[row] == id);
    let at = first_at(h.ids(), id, 0)->0;
    assert(at == row) by {
        if at < row {
            assert(h.ids()[at] < h.ids()[row]);
        } else if row < at {
            assert(h.ids()[row] < h.ids()[at]);
        }
    }
    let g = w.row_removed(id).history;
    assert(g.store == h.store.remove(at));
    assert(g.ids() =~= h.ids().remove(at)) by {
        assert forall|i: int| 0 <= i < g.store.len() implies #[trigger] g.ids()[i] == h.ids().remove(
            at,
        )[i] by {
            if i < at {
                assert(g.store[i] == h.store[i]);
            } else {
                assert(g.store[i] == h.store[i + 1]);
            }
        }
    }
    assert(ascending(g.ids())) by {
        assert forall|i: int, j: int| 0 <= i < j < g.ids().len() implies (#[trigger] g.ids()[i]) < (
        #[trigger] g.ids()[j]) by {
            let x = if i < at {
                i
            } else {
                i + 1
            };
            let y = if j < at {
                j
            } else {
                j + 1
            };
            assert(g.ids()[i] == h.ids()[x] && g.ids()[j] == h.ids()[y]);
        }
    }
    assert forall|i: int| 0 <= i < g.store.len() implies (#[trigger] g.ids()[i]) != id by {
        if i < at {
            assert(h.ids()[i] < h.ids()[at]);
        } else {
            assert(h.ids()[at] < h.ids()[i + 1]);
        }
    }
    assert forall|i: int| 0 <= i < g.store.len() implies g.lookup(g.row(i).id) == Some(
        #[trigger] g.store[i],
    ) by {
        assert(g.ids()[i] != id);
        if i < at {
            assert(h.lookup(h.row(i).id) == Some(h.store[i]));
        } else {
            assert(h.lookup(h.row(i + 1).id) == Some(h.store[i + 1]));
        }
    }
    assert forall|k: i64| #[trigger] g.index.contains_key(k) implies g.slots[g.index[k] as int].id
        == k && g.store.contains(g.index[k]) && g.index[k] != slot by {
        assert(h.index.contains_key(k));
        let i = choose|i: int| 0 <= i < h.store.len() && h.store[i] == h.index[k];
        assert(h.ids()[i] == k);
        if i < at {
            assert(g.store[i] == h.index[k]);
        } else {
            assert(i != at);
            assert(g.store[i - 1] == h.index[k]);
        }
    }
    assert forall|i: int| 0 <= i < g.store.len() implies (#[trigger] g.store[i]) != slot && g.store[i]
        < g.slots.len() by {
        assert(g.ids()[i] != id);
        if i < at {
            assert(g.store[i] == h.store[i]);
        } else {
            assert(g.store[i] == h.store[i + 1]);
        }
    }
}

// --- Runs of changes ---------------------------------------------------------

proof fn lemma_reply(h: HistoryView, id: i64)
    requires
        consistent(h),
    ensures
        consistent(h.reply_resolved(id).history),
        h.reply_resolved(id).history.ids() == h.ids(),
        h.reply_resolved(id).history.index == h.index,
        h.reply_resolved(id).history.slots.len() == h.slots.len(),
{
    match h.lookup(id) {
        None => {},
        Some(slot) => {
            let m = h.slots[slot as int];
            match h.lookup(m.reply_to_id) {
                Some(target) => {
                    lemma_message(h, slot as int, h.stamped(m, h.slots[target as int]));
                },
                None => {},
            }
        },
    }
}

proof fn lemma_replies(h: HistoryView, ids: Seq<i64>)
    requires
        consistent(h),
    ensures
        consistent(h.replies_resolved(ids).history),
        h.replies_resolved(ids).history.ids() == h.ids(),
        h.replies_resolved(ids).history.index == h.index,
        h.replies_resolved(ids).history.slots.len() == h.slots.len(),
    decreases ids.len(),
{
    if ids.len() > 0 {
        lemma_replies(h, ids.drop_last());
        lemma_reply(h.replies_resolved(ids.drop_last()).history, ids.last());
    }
}

proof fn lemma_read(h: HistoryView, last_read: i64, n: int)
    requires
        consistent(h),
        n <= h.slots.len(),
    ensures
        consistent(h.read_up_to(last_read, n).history),
        h.read_up_to(last_read, n).history.ids() == h.ids(),
        h.read_up_to(last_read, n).history.index == h.index,
        h.read_up_to(last_read, n).history.slots.len() == h.slots.len(),
        forall|i: int|
            0 <= i < h.slots.len() ==> (#[trigger] h.read_up_to(last_read, n).history.slots[i]) == (
            if i < n && h.promotes(i, last_read) {
                MessageView { send_status: send_status::READ, ..h.slots[i] }
            } else {
                h.slots[i]
            }),
    decreases n,
{
    if n > 0 {
        lemma_read(h, last_read, n - 1);
        if h.promotes(n - 1, last_read) {
            lemma_message(
                h.read_up_to(last_read, n - 1).history,
                n - 1,
                MessageView { send_status: send_status::READ, ..h.slots[n - 1] },
            );
        }
    }
}

proof fn lemma_named(h: HistoryView, uid: i64, name: Seq<char>, n: int)
    requires
        consistent(h),
        n <= h.store.len(),
    ensures
        consistent(h.name_applied(uid, name, n).history),
        h.name_applied(uid, name, n).history.store == h.store,
        h.name_applied(uid, name, n).history.ids() == h.ids(),
        h.name_applied(uid, name, n).history.index == h.index,
    decreases n,
{
    if n > 0 && h.is_group {
        lemma_named(h, uid, name, n - 1);
        let g = h.name_applied(uid, name, n - 1).history;
        lemma_message(
            g,
            g.store[n - 1] as int,
            MessageView { sender_name: name, ..g.row(n - 1) },
        );
    }
}

proof fn lemma_avatar(h: HistoryView, uid: i64, file_id: i32, n: int)
    requires
        consistent(h),
        n <= h.store.len(),
    ensures
        consistent(h.avatar_applied(uid, file_id, n).history),
        h.avatar_applied(uid, file_id, n).history.store == h.store,
        h.avatar_applied(uid, file_id, n).history.ids() == h.ids(),
        h.avatar_applied(uid, file_id, n).history.index == h.index,
    decreases n,
{
    if n > 0 && file_id != 0 {
        lemma_avatar(h, uid, file_id, n - 1);
        let g = h.avatar_applied(uid, file_id, n - 1).history;
        lemma_message(
            g,
            g.store[n - 1] as int,
            MessageView { avatar_file_id: file_id, ..g.row(n - 1) },
        );
    }
}

pub(crate) proof fn lemma_taken_in(h: HistoryView, batch: Seq<MessageValue>)
    requires
        consistent(h),
        h.slots.len() + batch.len() <= usize::MAX,
    ensures
        consistent(h.taken_in(batch).step.history),
        h.taken_in(batch).step.history.slots.len() <= h.slots.len() + batch.len(),
        forall|k: i64| #[trigger]
            h.taken_in(batch).step.history.index.contains_key(k) <==> h.index.contains_key(k)
                || holds_id(batch, k),
    decreases batch.len(),
{
    if batch.len() > 0 {
        let before = batch.drop_last();
        lemma_taken_in(h, before);
        let g = h.taken_in(before).step.history;
        let msg = batch.last();
        let after = h.taken_in(batch).step.history;
        if !g.index.contains_key(msg.id) {
            lemma_added(g, g.named(MessageView::from_message(msg), msg.sender_id));
        }
        assert forall|k: i64| #[trigger] after.index.contains_key(k) <==> h.index.contains_key(k)
            || holds_id(batch, k) by {
            if holds_id(before, k) {
                let i = choose|i: int| 0 <= i < before.len() && #[trigger] before[i].id == k;
                assert(batch[i].id == k);
            }
            if holds_id(batch, k) {
                let i = choose|i: int| 0 <= i < batch.len() && #[trigger] batch[i].id == k;
                if i < before.len() {
                    assert(before[i].id == k);
                }
            }
            assert(batch[batch.len() - 1].id == msg.id);
        }
    }
}

// --- Laws --------------------------------------------------------------------

/// An empty history is consistent.
pub proof fn empty_is_consistent()
    ensures
        consistent(HistoryView::empty()),
{
}

/// A batch that is taken in keeps the history consistent, and every message of
/// it is loaded then, beside those that were.
pub proof fn ingesting_loads_the_batch(
    h: HistoryView,
    batch: Seq<MessageValue>,
    is_initial: bool,
)
    requires
        consistent(h),
        h.slots.len() + batch.len() <= usize::MAX,
    ensures
        consistent(h.ingested(batch, is_initial).history),
        forall|k: i64| #[trigger]
            h.ingested(batch, is_initial).history.index.contains_key(k) <==> h.index.contains_key(k)
                || holds_id(batch, k),
{
    if batch.len() > 0 {
        let ordered = by_id(batch);
        sorting_keeps_the_messages(batch);
        let r = h.reaching(ordered.first().id);
        assert(r.ids() =~= h.ids());
        assert(consistent(r));
        lemma_taken_in(r, ordered);
        let intake = r.taken_in(ordered);
        lemma_replies(intake.step.history, intake.inserted);
        let replies = intake.step.history.replies_resolved(intake.inserted);
        lemma_read(
            replies.history,
            replies.history.last_read_outbox,
            replies.history.slots.len() as int,
        );
        assert forall|k: i64| #[trigger] holds_id(batch, k) <==> holds_id(ordered, k) by {
            broadcast use vstd::seq_lib::group_to_multiset_ensures;

            if holds_id(batch, k) {
                let i = choose|i: int| 0 <= i < batch.len() && #[trigger] batch[i].id == k;
                assert(batch.contains(batch[i]));
                assert(batch.to_multiset().count(batch[i]) > 0);
                assert(ordered.contains(batch[i]));
            }
            if holds_id(ordered, k) {
                let i = choose|i: int| 0 <= i < ordered.len() && #[trigger] ordered[i].id == k;
                assert(ordered.contains(ordered[i]));
                assert(ordered.to_multiset().count(ordered[i]) > 0);
                assert(batch.contains(ordered[i]));
            }
        }
    } else {
        let g = h.ingested(batch, is_initial).history;
        assert(g.ids() =~= h.ids());
    }
}

proof fn lemma_known_batch(h: HistoryView, batch: Seq<MessageValue>)
    requires
        forall|i: int| 0 <= i < batch.len() ==> h.index.contains_key((#[trigger] batch[i]).id),
    ensures
        h.taken_in(batch).step.history == h,
        h.taken_in(batch).inserted.len() == 0,
    decreases batch.len(),
{
    if batch.len() > 0 {
        let before = batch.drop_last();
        assert forall|i: int| 0 <= i < before.len() implies h.index.contains_key(
            (#[trigger] before[i]).id,
        ) by {
            assert(before[i] == batch[i]);
        }
        lemma_known_batch(h, before);
        assert(batch[batch.len() - 1] == batch.last());
    }
}

/// Messages that are loaded already are not added again: a batch of them leaves
/// the rows as they are.
pub proof fn ingesting_again_adds_no_row(
    h: HistoryView,
    batch: Seq<MessageValue>,
    is_initial: bool,
)
    requires
        consistent(h),
        forall|i: int| 0 <= i < batch.len() ==> h.index.contains_key((#[trigger] batch[i]).id),
    ensures
        h.ingested(batch, is_initial).history.ids() == h.ids(),
{
    let g = h.ingested(batch, is_initial).history;
    if batch.len() == 0 {
        assert(g.ids() =~= h.ids());
    } else {
        let ordered = by_id(batch);
        sorting_keeps_the_messages(batch);
        let r = h.reaching(ordered.first().id);
        assert(r.ids() =~= h.ids());
        assert(consistent(r));
        assert forall|i: int| 0 <= i < ordered.len() implies r.index.contains_key(
            (#[trigger] ordered[i]).id,
        ) by {
            broadcast use vstd::seq_lib::group_to_multiset_ensures;

            assert(ordered.contains(ordered[i]));
            assert(ordered.to_multiset().count(ordered[i]) > 0);
            assert(batch.contains(ordered[i]));
            let k = choose|k: int| 0 <= k < batch.len() && batch[k] == ordered[i];
            assert(r.index.contains_key(batch[k].id));
        }
        lemma_known_batch(r, ordered);
        let intake = r.taken_in(ordered);
        lemma_replies(intake.step.history, intake.inserted);
        let replies = intake.step.history.replies_resolved(intake.inserted);
        lemma_read(
            replies.history,
            replies.history.last_read_outbox,
            replies.history.slots.len() as int,
        );
    }
}

/// A message that arrives is loaded then; one that is known is not shown twice.
pub proof fn new_message_is_loaded(h: HistoryView, msg: MessageValue)
    requires
        consistent(h),
        h.slots.len() < usize::MAX,
    ensures
        consistent(h.new_message(msg).history),
        h.index.contains_key(msg.id) ==> h.new_message(msg).history.ids() == h.ids(),
        !h.temp_ids.contains(msg.id) ==> h.new_message(msg).history.index.contains_key(msg.id),
{
    if h.index.contains_key(msg.id) || h.temp_ids.contains(msg.id) {
        match h.lookup(msg.id) {
            Some(slot) => {
                lemma_message(h, slot as int, h.slots[slot as int].updated(msg));
            },
            None => {},
        }
    } else {
        let m = h.named(MessageView::from_message(msg), msg.sender_id);
        lemma_added(h, m);
        lemma_replies(h.added(m), seq![msg.id]);
    }
}

/// A message of ours is shown at once, and is not shown again when the server
/// echoes it.
pub proof fn sent_message_is_shown_once(h: HistoryView, msg: MessageValue, echo: MessageValue)
    requires
        consistent(h),
        h.slots.len() < usize::MAX,
        echo.id == msg.id,
    ensures
        consistent(h.sent(msg).history),
        h.sent(msg).history.index.contains_key(msg.id),
        h.sent(msg).history.new_message(echo).history.ids() == h.sent(msg).history.ids(),
        consistent(h.sent(msg).history.new_message(echo).history),
{
    let g = h.sent(msg).history;
    if !h.index.contains_key(msg.id) {
        let t = h.with_temp(msg.id);
        assert(t.ids() =~= h.ids());
        let m = MessageView::from_message(msg);
        lemma_added(t, m);
        lemma_replies(t.added(m), seq![msg.id]);
    }
    let slot = g.index[msg.id];
    lemma_message(g, slot as int, g.slots[slot as int].updated(echo));
}

/// A confirmed message moves from its temporary id to its real one: its row
/// stays the only one of it, and nothing is found under the old id.
pub proof fn confirmed_message_moves(h: HistoryView, old_id: i64, msg: MessageValue)
    requires
        consistent(h),
        h.slots.len() < usize::MAX,
        msg.id == old_id || !h.index.contains_key(old_id) || !h.index.contains_key(msg.id),
    ensures
        consistent(h.send_succeeded(old_id, msg).history),
        h.send_succeeded(old_id, msg).history.index.contains_key(msg.id),
        msg.id != old_id ==> !h.send_succeeded(old_id, msg).history.index.contains_key(old_id),
        h.index.contains_key(old_id) ==> h.send_succeeded(old_id, msg).history.store.len()
            == h.store.len(),
        h.index.contains_key(old_id) ==> h.send_succeeded(old_id, msg).history.index[msg.id]
            == h.index[old_id],
{
    let t = h.without_temp(old_id);
    assert(t.ids() =~= h.ids());
    assert(consistent(t));
    match t.lookup(old_id) {
        Some(slot) => {
            lemma_taken_out(t, old_id);
            let removed = t.without_key(old_id).row_removed(old_id).history;
            lemma_shown(removed, slot, t.slots[slot as int].updated(msg));
            lemma_first_at(t.ids(), old_id, 0);
            assert(removed.ids().len() == removed.store.len());
        },
        None => {
            if !t.index.contains_key(msg.id) {
                lemma_added(t, MessageView::from_message(msg));
            }
        },
    }
}

/// A message that could not be sent stays, marked as pending. Under the same id
/// it stays where it is; under another one it is found there and no more under
/// the old id.
pub proof fn failed_message_stays(h: HistoryView, old_id: i64, msg: MessageValue)
    requires
        consistent(h),
    ensures
        consistent(h.send_failed(old_id, msg).history),
        h.index.contains_key(old_id) ==> {
            let g = h.send_failed(old_id, msg).history;
            &&& g.lookup(msg.id) == h.lookup(old_id)
            &&& g.slots[h.index[old_id] as int].is_pending
            &&& g.slots[h.index[old_id] as int].id == msg.id
            &&& msg.id != old_id ==> !g.index.contains_key(old_id)
        },
        msg.id == old_id || !h.index.contains_key(old_id) ==> h.send_failed(
            old_id,
            msg,
        ).history.ids() == h.ids(),
{
    let t = h.without_temp(old_id);
    assert(t.ids() =~= h.ids());
    assert(consistent(t));
    match t.lookup(old_id) {
        Some(slot) => {
            let m = MessageView { is_pending: true, ..t.slots[slot as int].updated(msg) };
            if msg.id == old_id {
                lemma_message(t, slot as int, m);
            } else {
                lemma_taken_out(t, old_id);
                let removed = t.taken_out(old_id).history;
                let cleared = removed.taken_out(msg.id).history;
                if removed.index.contains_key(msg.id) {
                    lemma_taken_out(removed, msg.id);
                } else {
                    assert(removed.without_key(msg.id).index =~= removed.index);
                    lemma_first_at(removed.ids(), msg.id, 0);
                    assert forall|i: int| 0 <= i < removed.store.len() implies (
                    #[trigger] removed.ids()[i]) != msg.id by {
                        assert(removed.lookup(removed.row(i).id) == Some(removed.store[i]));
                    }
                    assert(cleared == removed);
                }
                assert(is_free(cleared, slot as int));
                lemma_shown(cleared, slot, m);
            }
        },
        None => {},
    }
}

/// Edits, reactions, read cursors, names, avatars and reply headers never move,
/// add or remove a row.
pub proof fn changes_in_place_keep_the_rows(
    h: HistoryView,
    id: i64,
    content: crate::tdlib::types::ContentView,
    reactions: Seq<crate::tdlib::types::ReactionView>,
    last_read: i64,
    is_group: bool,
    name: Seq<char>,
    avatar: i32,
    target: MessageValue,
)
    requires
        consistent(h),
    ensures
        consistent(h.content_changed(id, content).history),
        h.content_changed(id, content).history.ids() == h.ids(),
        consistent(h.reactions_changed(id, reactions).history),
        h.reactions_changed(id, reactions).history.ids() == h.ids(),
        consistent(h.read_outbox(last_read).history),
        h.read_outbox(last_read).history.ids() == h.ids(),
        consistent(h.chat_resolved(is_group, last_read).history),
        h.chat_resolved(is_group, last_read).history.ids() == h.ids(),
        consistent(h.user_resolved(id, name, avatar).history),
        h.user_resolved(id, name, avatar).history.ids() == h.ids(),
        consistent(h.reply_fetched(id, target).history),
        h.reply_fetched(id, target).history.ids() == h.ids(),
{
    match h.lookup(id) {
        Some(slot) => {
            let m = h.slots[slot as int];
            lemma_message(h, slot as int, m.with_content(content));
            lemma_message(
                h,
                slot as int,
                MessageView { reactions: crate::models::message_object::chips(reactions), ..m },
            );
            let g = h.reply_fetched(id, target).history;
            lemma_message(h, slot as int, g.slots[slot as int]);
        },
        None => {},
    }
    let r = HistoryView { last_read_outbox: last_read, ..h };
    assert(r.ids() =~= h.ids());
    assert(consistent(r));
    lemma_read(r, last_read, r.slots.len() as int);
    let c = HistoryView { is_group, last_read_outbox: last_read, ..h };
    assert(c.ids() =~= h.ids());
    assert(consistent(c));
    lemma_read(c, last_read, c.slots.len() as int);
    let u = HistoryView { names: h.names.insert(id, name), ..h };
    assert(u.ids() =~= h.ids());
    assert(consistent(u));
    lemma_named(u, id, name, u.store.len() as int);
    let named = u.name_applied(id, name, u.store.len() as int).history;
    lemma_avatar(named, id, avatar, named.store.len() as int);
}

/// The read cursor promotes exactly the outgoing messages up to it that were
/// sent. Pending and failed messages keep their state, and no message is ever
/// taken back.
pub proof fn read_cursor_promotes_sent_messages(h: HistoryView, last_read: i64, slot: int)
    requires
        consistent(h),
        0 <= slot < h.slots.len(),
    ensures
        ({
            let before = h.slots[slot];
            let after = h.read_outbox(last_read).history.slots[slot];
            &&& after == MessageView { send_status: after.send_status, ..before }
            &&& after.send_status == if last_read != 0 && h.indexed(slot) && before.is_outgoing
                && before.id <= last_read && before.send_status == send_status::SENT {
                send_status::READ
            } else {
                before.send_status
            }
            &&& before.send_status == send_status::READ ==> after.send_status == send_status::READ
            &&& before.send_status == send_status::PENDING ==> after.send_status
                == send_status::PENDING
        }),
{
    let r = HistoryView { last_read_outbox: last_read, ..h };
    assert(r.ids() =~= h.ids());
    assert(consistent(r));
    lemma_read(r, last_read, r.slots.len() as int);
    assert(r.indexed(slot) == h.indexed(slot));
    assert(r.read_refreshed(last_read).history.slots[slot] == if r.promotes(slot, last_read) {
        MessageView { send_status: send_status::READ, ..r.slots[slot] }
    } else {
        r.slots[slot]
    });
}

proof fn lemma_indexed(g: HistoryView, h: HistoryView, slot: int)
    requires
        g.index == h.index,
    ensures
        g.indexed(slot) == h.indexed(slot),
{
    if g.indexed(slot) {
        let k = choose|k: i64| #[trigger] g.index.contains_key(k) && g.index[k] == slot;
        assert(h.index.contains_key(k));
    }
    if h.indexed(slot) {
        let k = choose|k: i64| #[trigger] h.index.contains_key(k) && h.index[k] == slot;
        assert(g.index.contains_key(k));
    }
}

/// What the read cursor does to the slots, with no demand on the history.
pub(crate) proof fn lemma_read_slots(h: HistoryView, last_read: i64, n: int)
    requires
        n <= h.slots.len(),
    ensures
        ({
            let g = h.read_up_to(last_read, n).history;
            &&& g == HistoryView { slots: g.slots, ..h }
            &&& g.slots.len() == h.slots.len()
            &&& forall|i: int|
                0 <= i < h.slots.len() ==> (#[trigger] g.slots[i]) == (if i < n && h.promotes(
                    i,
                    last_read,
                ) {
                    MessageView { send_status: send_status::READ, ..h.slots[i] }
                } else {
                    h.slots[i]
                })
        }),
    decreases n,
{
    if n > 0 {
        lemma_read_slots(h, last_read, n - 1);
    }
}

proof fn lemma_nothing_to_promote(h: HistoryView, last_read: i64, n: int)
    requires
        forall|i: int| 0 <= i < n ==> !(#[trigger] h.promotes(i, last_read)),
    ensures
        h.read_up_to(last_read, n) == (Step { history: h, effects: Seq::empty() }),
    decreases n,
{
    if n > 0 {
        lemma_nothing_to_promote(h, last_read, n - 1);
    }
}

/// A read cursor that comes again, or one that lags behind, changes no message
/// and repaints none. A cursor of 0 says that nothing was read, so nothing
/// counts as lagging behind it but another 0.
pub proof fn read_cursor_settles(h: HistoryView, last_read: i64, again: i64)
    requires
        again <= last_read,
        last_read == 0 ==> again == 0,
    ensures
        ({
            let g = h.read_refreshed(last_read).history;
            g.read_refreshed(again) == (Step { history: g, effects: Seq::empty() })
        }),
        ({
            let g = h.read_outbox(last_read).history;
            g.read_outbox(again) == (Step {
                history: HistoryView { last_read_outbox: again, ..g },
                effects: Seq::empty(),
            })
        }),
{
    lemma_settled(h, last_read, again);
    let moved = HistoryView { last_read_outbox: last_read, ..h };
    lemma_read_slots(moved, last_read, moved.slots.len() as int);
    let g = moved.read_refreshed(last_read).history;
    let back = HistoryView { last_read_outbox: again, ..g };
    assert forall|i: int| 0 <= i < back.slots.len() implies !(#[trigger] back.promotes(
        i,
        again,
    )) by {
        lemma_indexed(back, moved, i);
        assert(g.slots[i].id == moved.slots[i].id);
        assert(moved.promotes(i, last_read) || !moved.promotes(i, last_read));
    }
    lemma_nothing_to_promote(back, again, back.slots.len() as int);
}

proof fn lemma_settled(h: HistoryView, last_read: i64, again: i64)
    requires
        again <= last_read,
        last_read == 0 ==> again == 0,
    ensures
        ({
            let g = h.read_refreshed(last_read).history;
            g.read_refreshed(again) == (Step { history: g, effects: Seq::empty() })
        }),
{
    lemma_read_slots(h, last_read, h.slots.len() as int);
    let g = h.read_refreshed(last_read).history;
    assert forall|i: int| 0 <= i < g.slots.len() implies !(#[trigger] g.promotes(i, again)) by {
        lemma_indexed(g, h, i);
        assert(g.slots[i].id == h.slots[i].id);
        assert(h.promotes(i, last_read) || !h.promotes(i, last_read));
    }
    lemma_nothing_to_promote(g, again, g.slots.len() as int);
}

/// Whether a message is shown as sent although the cursor says it was read.
pub open spec fn lags(m: MessageView, cursor: i64) -> bool {
    cursor != 0 && m.is_outgoing && m.id <= cursor && m.send_status == send_status::SENT
}

/// Whether every loaded message is shown as the read cursor says.
pub open spec fn cursor_applied(h: HistoryView) -> bool {
    forall|k: i64| #[trigger]
        h.index.contains_key(k) ==> !lags(h.slots[h.index[k] as int], h.last_read_outbox)
}

/// Whether an update brings a message that was read before it arrived: one of
/// ours that was sent, under an id that the read cursor has passed already. The
/// server gives a message a greater id than any that was read by then.
pub open spec fn arrives_read(s: ChatState, update: UpdateView) -> bool {
    match update {
        UpdateView::NewMessage { message }
        | UpdateView::MessageSendSucceeded { message, .. }
        | UpdateView::MessageSendFailed { message, .. } => {
            &&& message.is_outgoing
            &&& message.sending_state is None
            &&& s.history.last_read_outbox != 0
            &&& message.id <= s.history.last_read_outbox
        },
        _ => false,
    }
}

proof fn lemma_slot_changed(h: HistoryView, slot: int, m: MessageView)
    requires
        consistent(h),
        cursor_applied(h),
        0 <= slot < h.slots.len(),
        !lags(m, h.last_read_outbox),
    ensures
        cursor_applied(h.with_message(slot, m)),
{
    let g = h.with_message(slot, m);
    assert forall|k: i64| #[trigger] g.index.contains_key(k) implies !lags(
        g.slots[g.index[k] as int],
        g.last_read_outbox,
    ) by {
        assert(h.index.contains_key(k));
    }
}

proof fn lemma_reply_keeps_cursor(h: HistoryView, id: i64)
    requires
        consistent(h),
        cursor_applied(h),
    ensures
        cursor_applied(h.replies_resolved(seq![id]).history),
{
    let before = seq![id].drop_last();
    assert(before =~= Seq::empty());
    assert(h.replies_resolved(before).history == h);
    let g = h.reply_resolved(id).history;
    assert(h.replies_resolved(seq![id]).history == g);
    match h.lookup(id) {
        Some(slot) => {
            let m = h.slots[slot as int];
            assert(!lags(m, h.last_read_outbox));
            if m.reply_to_id != 0 && m.reply_sender.len() == 0 {
                match h.lookup(m.reply_to_id) {
                    Some(target) => {
                        lemma_slot_changed(
                            h,
                            slot as int,
                            h.stamped(m, h.slots[target as int]),
                        );
                    },
                    None => {},
                }
            }
        },
        None => {},
    }
}

proof fn lemma_added_keeps_cursor(h: HistoryView, m: MessageView)
    requires
        consistent(h),
        cursor_applied(h),
        h.slots.len() < usize::MAX,
        !lags(m, h.last_read_outbox),
    ensures
        cursor_applied(h.added(m)),
{
    let g = h.added(m);
    assert forall|k: i64| #[trigger] g.index.contains_key(k) implies !lags(
        g.slots[g.index[k] as int],
        g.last_read_outbox,
    ) by {
        if k != m.id {
            assert(h.index.contains_key(k));
        }
    }
}

proof fn lemma_removed_keeps_cursor(s: ChatState, ids: Seq<i64>)
    requires
        cursor_applied(s.history),
    ensures
        cursor_applied(s.all_removed(ids).state.history),
    decreases ids.len(),
{
    if ids.len() > 0 {
        lemma_removed_keeps_cursor(s, ids.drop_last());
        let before = s.all_removed(ids.drop_last()).state;
        let after = before.removed(ids.last()).state;
        assert(after.history.slots == before.history.slots);
        assert(after.history.last_read_outbox == before.history.last_read_outbox);
        assert forall|k: i64| #[trigger] after.history.index.contains_key(k) implies !lags(
            after.history.slots[after.history.index[k] as int],
            after.history.last_read_outbox,
        ) by {
            assert(before.history.index.contains_key(k));
            assert(after.history.index[k] == before.history.index[k]);
        }
    }
}

/// Whatever the history was, messages are shown as the cursor says once it was
/// applied.
proof fn lemma_refreshed(h: HistoryView)
    requires
        h.in_range(),
    ensures
        cursor_applied(h.read_refreshed(h.last_read_outbox).history),
{
    let cursor = h.last_read_outbox;
    lemma_read_slots(h, cursor, h.slots.len() as int);
    let g = h.read_refreshed(cursor).history;
    assert forall|k: i64| #[trigger] g.index.contains_key(k) implies !lags(
        g.slots[g.index[k] as int],
        g.last_read_outbox,
    ) by {
        let slot = h.index[k] as int;
        assert(h.index.contains_key(k) && h.index[k] == slot);
        assert(h.indexed(slot));
        assert(g.slots[slot].id == h.slots[slot].id);
        assert(h.promotes(slot, cursor) || !h.promotes(slot, cursor));
    }
}

/// The read cursor that came last stays in force: after every update, each
/// message of ours that was sent and that the cursor has passed is shown as
/// read. This leaves out only a message that arrives when it was read already.
pub proof fn read_cursor_stays_in_force(s: ChatState, update: UpdateView)
    requires
        consistent(s.history),
        s.history.slots.len() < usize::MAX,
        cursor_applied(s.history),
        !arrives_read(s, update),
    ensures
        cursor_applied(s.updated(update).state.history),
{
    let h = s.history;
    match update {
        UpdateView::NewMessage { message } => {
            match h.lookup(message.id) {
                Some(slot) => {
                    lemma_slot_changed(h, slot as int, h.slots[slot as int].updated(message));
                },
                None => {
                    if !h.temp_ids.contains(message.id) {
                        let m = h.named(MessageView::from_message(message), message.sender_id);
                        lemma_added_keeps_cursor(h, m);
                        lemma_added(h, m);
                        lemma_reply_keeps_cursor(h.added(m), message.id);
                    }
                },
            }
        },
        UpdateView::MessageSendSucceeded { message, old_message_id } => {
            let t = h.without_temp(old_message_id);
            assert(t.ids() =~= h.ids());
            assert(consistent(t));
            match t.lookup(old_message_id) {
                Some(slot) => {
                    lemma_moved_keeps_cursor(
                        t,
                        slot,
                        message.id,
                        t.slots[slot as int].updated(message),
                        h.send_succeeded(old_message_id, message).history,
                    );
                },
                None => {
                    lemma_added_keeps_cursor(t, MessageView::from_message(message));
                },
            }
        },
        UpdateView::MessageSendFailed { message, old_message_id } => {
            let t = h.without_temp(old_message_id);
            assert(t.ids() =~= h.ids());
            assert(consistent(t));
            match t.lookup(old_message_id) {
                Some(slot) => {
                    let m = MessageView {
                        is_pending: true,
                        ..t.slots[slot as int].updated(message)
                    };
                    if message.id == old_message_id {
                        lemma_slot_changed(t, slot as int, m);
                    } else {
                        lemma_moved_keeps_cursor(
                            t,
                            slot,
                            message.id,
                            m,
                            h.send_failed(old_message_id, message).history,
                        );
                    }
                },
                None => {},
            }
        },
        UpdateView::MessageContent { message_id, new_content, .. } => {
            match h.lookup(message_id) {
                Some(slot) => {
                    lemma_slot_changed(
                        h,
                        slot as int,
                        h.slots[slot as int].with_content(new_content),
                    );
                },
                None => {},
            }
        },
        UpdateView::MessageInteractionInfo { message_id, reactions, .. } => {
            match h.lookup(message_id) {
                Some(slot) => {
                    lemma_slot_changed(
                        h,
                        slot as int,
                        MessageView {
                            reactions: crate::models::message_object::chips(reactions),
                            ..h.slots[slot as int]
                        },
                    );
                },
                None => {},
            }
        },
        UpdateView::DeleteMessages { message_ids, .. } => {
            lemma_removed_keeps_cursor(s, message_ids);
        },
        UpdateView::ChatReadOutbox { last_read_outbox_message_id, .. } => {
            lemma_refreshed(
                HistoryView { last_read_outbox: last_read_outbox_message_id, ..h },
            );
        },
        _ => {},
    }
}

/// A message that moved to another id, with the rows put aside.
proof fn lemma_moved_keeps_cursor(
    h: HistoryView,
    slot: usize,
    id: i64,
    m: MessageView,
    g: HistoryView,
)
    requires
        consistent(h),
        slot < h.slots.len(),
        !lags(m, h.last_read_outbox),
        cursor_applied(h),
        g.last_read_outbox == h.last_read_outbox,
        g.slots == h.slots.update(slot as int, m),
        g.index.contains_key(id) ==> g.index[id] == slot,
        forall|k: i64| #[trigger]
            g.index.contains_key(k) && k != id ==> h.index.contains_key(k) && g.index[k]
                == h.index[k],
    ensures
        cursor_applied(g),
{
    assert forall|k: i64| #[trigger] g.index.contains_key(k) implies !lags(
        g.slots[g.index[k] as int],
        g.last_read_outbox,
    ) by {
        if k != id {
            assert(h.index.contains_key(k));
        }
    }
}

/// A batch of history that is loaded, the chat once it is known, and a new
/// cursor leave every message shown as the cursor says, whatever came before.
pub proof fn loading_applies_the_cursor(
    h: HistoryView,
    batch: Seq<MessageValue>,
    is_initial: bool,
    is_group: bool,
    last_read: i64,
)
    requires
        consistent(h),
        h.slots.len() + batch.len() <= usize::MAX,
    ensures
        batch.len() > 0 ==> cursor_applied(h.ingested(batch, is_initial).history),
        cursor_applied(h.chat_resolved(is_group, last_read).history),
        cursor_applied(h.read_outbox(last_read).history),
{
    lemma_refreshed(HistoryView { is_group, last_read_outbox: last_read, ..h });
    lemma_refreshed(HistoryView { last_read_outbox: last_read, ..h });
    if batch.len() > 0 {
        let ordered = by_id(batch);
        sorting_keeps_the_messages(batch);
        let r = h.reaching(ordered.first().id);
        assert(r.ids() =~= h.ids());
        assert(consistent(r));
        lemma_taken_in(r, ordered);
        let intake = r.taken_in(ordered);
        lemma_replies(intake.step.history, intake.inserted);
        let g = intake.step.history.replies_resolved(intake.inserted).history;
        lemma_refreshed(g);
        lemma_read_slots(g, g.last_read_outbox, g.slots.len() as int);
    }
}

/// A deleted message leaves no row, and nothing is found under its id; every
/// other row stays.
pub proof fn deleted_message_leaves_no_row(s: ChatState, id: i64)
    requires
        consistent(s.history),
    ensures
        ({
            let h = s.removed(id).state.history;
            &&& consistent(h)
            &&& !h.index.contains_key(id)
            &&& forall|i: int| 0 <= i < h.store.len() ==> (#[trigger] h.ids()[i]) != id
            &&& forall|k: i64| k != id ==> (#[trigger] h.index.contains_key(k)
                <==> s.history.index.contains_key(k))
        }),
{
    let h = s.history;
    if h.index.contains_key(id) {
        lemma_taken_out(h, id);
    } else {
        assert forall|i: int| 0 <= i < h.store.len() implies (#[trigger] h.ids()[i]) != id by {
            assert(h.lookup(h.row(i).id) == Some(h.store[i]));
        }
    }
}

proof fn lemma_all_removed(s: ChatState, ids: Seq<i64>)
    requires
        consistent(s.history),
    ensures
        consistent(s.all_removed(ids).state.history),
        s.all_removed(ids).state.chat_id == s.chat_id,
        forall|i: int|
            0 <= i < ids.len() ==> !s.all_removed(ids).state.history.index.contains_key(
                #[trigger] ids[i],
            ),
    decreases ids.len(),
{
    if ids.len() > 0 {
        let before = ids.drop_last();
        lemma_all_removed(s, before);
        let g = s.all_removed(before).state;
        deleted_message_leaves_no_row(g, ids.last());
        assert forall|i: int| 0 <= i < ids.len() implies !s.all_removed(
            ids,
        ).state.history.index.contains_key(#[trigger] ids[i]) by {
            if i < before.len() {
                assert(before[i] == ids[i]);
                assert(!g.history.index.contains_key(ids[i]));
            }
        }
    }
}

/// All messages of a deletion are gone afterwards.
pub proof fn deleted_messages_are_gone(s: ChatState, ids: Seq<i64>)
    requires
        consistent(s.history),
    ensures
        consistent(s.all_removed(ids).state.history),
        forall|i: int|
            0 <= i < ids.len() ==> !s.all_removed(ids).state.history.index.contains_key(
                #[trigger] ids[i],
            ),
{
    lemma_all_removed(s, ids);
}

/// Whether an update confirms a message under an id that another loaded message
/// has. The server does not do that.
pub open spec fn takes_over_an_id(h: HistoryView, update: UpdateView) -> bool {
    match update {
        UpdateView::MessageSendSucceeded { message, old_message_id } => message.id != old_message_id
            && h.index.contains_key(old_message_id) && h.index.contains_key(message.id),
        _ => false,
    }
}

/// Every update keeps the rows in order, without a message shown twice, and
/// the index in step with them.
pub proof fn every_update_keeps_the_history_consistent(s: ChatState, update: UpdateView)
    requires
        consistent(s.history),
        s.history.slots.len() < usize::MAX,
        !takes_over_an_id(s.history, update),
    ensures
        consistent(s.updated(update).state.history),
{
    let h = s.history;
    match update {
        UpdateView::NewMessage { message } => {
            new_message_is_loaded(h, message);
        },
        UpdateView::MessageSendSucceeded { message, old_message_id } => {
            confirmed_message_moves(h, old_message_id, message);
        },
        UpdateView::MessageSendFailed { message, old_message_id } => {
            failed_message_stays(h, old_message_id, message);
        },
        UpdateView::MessageContent { message_id, new_content, .. } => {
            match h.lookup(message_id) {
                Some(slot) => {
                    lemma_message(
                        h,
                        slot as int,
                        h.slots[slot as int].with_content(new_content),
                    );
                },
                None => {},
            }
        },
        UpdateView::MessageInteractionInfo { message_id, reactions, .. } => {
            match h.lookup(message_id) {
                Some(slot) => {
                    lemma_message(
                        h,
                        slot as int,
                        MessageView {
                            reactions: crate::models::message_object::chips(reactions),
                            ..h.slots[slot as int]
                        },
                    );
                },
                None => {},
            }
        },
        UpdateView::DeleteMessages { message_ids, .. } => {
            lemma_all_removed(s, message_ids);
        },
        UpdateView::ChatReadOutbox { last_read_outbox_message_id, .. } => {
            let r = HistoryView { last_read_outbox: last_read_outbox_message_id, ..h };
            assert(r.ids() =~= h.ids());
            assert(consistent(r));
            lemma_read(r, last_read_outbox_message_id, r.slots.len() as int);
        },
        _ => {},
    }
}

/// While older messages are on their way no second request starts, and once
/// the top was reached none starts any more.
pub proof fn older_requests_do_not_overlap(h: HistoryView, batch: Seq<Option<MessageValue>>)
    ensures
        !(HistoryView { loading_older: true, ..h }).may_load_older(),
        batch.len() == 0 ==> h.older_arrived(batch).history.reached_top
            && !h.older_arrived(batch).history.loading_older
            && !h.older_arrived(batch).history.may_load_older(),
{
    if batch.len() == 0 {
        assert(present(batch) =~= Seq::empty());
    }
}

} // verus!
