//! The index of a history finds exactly its rows, whatever the order of the
//! rows is.

use crate::models::message_object::MessageView;
use crate::tdlib::types::{MessageValue, UpdateView};
use crate::ui::chat_view::history::lemma_insertion_point_range;
use crate::ui::chat_view::laws::{lemma_first_at, lemma_read_slots, takes_over_an_id};
use crate::ui::chat_view::model::{first_at, HistoryView};
use crate::ui::chat_view::state::ChatState;
use vstd::prelude::*;

verus! {

/// Whether every id finds the message with that id, and the rows are exactly
/// the messages that are found, once each.
pub open spec fn in_step(h: HistoryView) -> bool {
    &&& h.in_range()
    &&& h.store.no_duplicates()
    &&& forall|k: i64| #[trigger]
        h.index.contains_key(k) ==> h.slots[h.index[k] as int].id == k && h.store.contains(
            h.index[k],
        )
    &&& forall|i: int|
        0 <= i < h.store.len() ==> h.lookup(h.row(i).id) == Some(#[trigger] h.store[i])
}

/// Whether two histories differ at most in what the messages say.
spec fn same_rows(h: HistoryView, g: HistoryView) -> bool {
    &&& g.store == h.store
    &&& g.index == h.index
    &&& g.slots.len() == h.slots.len()
    &&& forall|i: int| 0 <= i < h.slots.len() ==> (#[trigger] g.slots[i]).id == h.slots[i].id
}

/// Whether nothing refers to `slot`.
spec fn is_unused(h: HistoryView, slot: int) -> bool {
    &&& forall|i: int| 0 <= i < h.store.len() ==> (#[trigger] h.store[i]) != slot
    &&& forall|k: i64| #[trigger] h.index.contains_key(k) ==> h.index[k] != slot
}

proof fn lemma_same_rows(h: HistoryView, g: HistoryView)
    requires
        in_step(h),
        same_rows(h, g),
    ensures
        in_step(g),
{
    assert forall|i: int| 0 <= i < g.store.len() implies g.lookup(g.row(i).id) == Some(
        #[trigger] g.store[i],
    ) by {
        assert(h.lookup(h.row(i).id) == Some(h.store[i]));
        assert(h.store[i] < h.slots.len());
        assert(g.row(i).id == h.row(i).id);
    }
    assert forall|k: i64| #[trigger] g.index.contains_key(k) implies g.slots[g.index[k] as int].id
        == k && g.store.contains(g.index[k]) by {
        assert(h.index.contains_key(k));
    }
}

proof fn lemma_reply_in_step(h: HistoryView, id: i64)
    requires
        in_step(h),
    ensures
        in_step(h.replies_resolved(seq![id]).history),
{
    let before = seq![id].drop_last();
    assert(before =~= Seq::empty());
    assert(h.replies_resolved(before).history == h);
    assert(h.replies_resolved(seq![id]).history == h.reply_resolved(id).history);
    lemma_same_rows(h, h.reply_resolved(id).history);
}

/// An unused slot that is shown and found by its id.
proof fn lemma_shown_in_step(h: HistoryView, slot: usize, m: MessageView)
    requires
        in_step(h),
        slot < h.slots.len(),
        is_unused(h, slot as int),
        !h.index.contains_key(m.id),
    ensures
        in_step(h.with_message(slot as int, m).inserted(slot).with_key(m.id, slot)),
{
    let w = h.with_message(slot as int, m);
    let g = w.inserted(slot).with_key(m.id, slot);
    lemma_insertion_point_range(w.ids(), m.id, 0, w.store.len() as int);
    let at = w.place(m.id);
    assert(g.store == h.store.insert(at, slot));
    assert forall|i: int| 0 <= i < g.store.len() implies (#[trigger] g.store[i]) == (if i < at {
        h.store[i]
    } else if i == at {
        slot
    } else {
        h.store[i - 1]
    }) by {}
    assert forall|i: int| 0 <= i < g.store.len() implies (#[trigger] g.store[i]) < g.slots.len() by {
        if i < at {
            assert(h.store[i] < h.slots.len());
        } else if i > at {
            assert(h.store[i - 1] < h.slots.len());
        }
    }
    assert forall|i: int, j: int| 0 <= i < g.store.len() && 0 <= j < g.store.len() && i
        != j implies g.store[i] != g.store[j] by {
        let x = if i < at {
            i
        } else {
            i - 1
        };
        let y = if j < at {
            j
        } else {
            j - 1
        };
        if i != at {
            assert(h.store[x] != slot);
        }
        if j != at {
            assert(h.store[y] != slot);
        }
        if i != at && j != at {
            assert(x != y);
            assert(h.store[x] != h.store[y]);
        }
    }
    assert forall|i: int| 0 <= i < g.store.len() implies g.lookup(g.row(i).id) == Some(
        #[trigger] g.store[i],
    ) by {
        if i < at {
            assert(h.lookup(h.row(i).id) == Some(h.store[i]));
        } else if i > at {
            assert(h.lookup(h.row(i - 1).id) == Some(h.store[i - 1]));
        }
    }
    assert(g.store[at] == slot);
    assert forall|k: i64| #[trigger] g.index.contains_key(k) implies g.slots[g.index[k] as int].id
        == k && g.store.contains(g.index[k]) by {
        if k != m.id {
            assert(h.index.contains_key(k));
            let i = choose|i: int| 0 <= i < h.store.len() && h.store[i] == h.index[k];
            if i < at {
                assert(g.store[i] == h.index[k]);
            } else {
                assert(g.store[i + 1] == h.index[k]);
            }
        }
    }
}

proof fn lemma_added_in_step(h: HistoryView, m: MessageView)
    requires
        in_step(h),
        h.slots.len() < usize::MAX,
        !h.index.contains_key(m.id),
    ensures
        in_step(h.added(m)),
{
    let slot = h.slots.len() as usize;
    let w = h.with_slot(m);
    assert forall|i: int| 0 <= i < w.store.len() implies w.lookup(w.row(i).id) == Some(
        #[trigger] w.store[i],
    ) by {
        assert(h.lookup(h.row(i).id) == Some(h.store[i]));
    }
    assert(in_step(w));
    assert(w.with_message(slot as int, m).slots =~= w.slots);
    lemma_shown_in_step(w, slot, m);
}

/// A message that is forgotten and taken out leaves its slot unused.
proof fn lemma_taken_out_in_step(h: HistoryView, id: i64)
    requires
        in_step(h),
        h.index.contains_key(id),
    ensures
        in_step(h.taken_out(id).history),
        is_unused(h.taken_out(id).history, h.index[id] as int),
        h.taken_out(id).history.index == h.index.remove(id),
        h.taken_out(id).history.slots == h.slots,
{
    let w = h.without_key(id);
    assert(w.ids() =~= h.ids());
    lemma_first_at(h.ids(), id, 0);
    let slot = h.index[id];
    let row = choose|i: int| 0 <= i < h.store.len() && h.store[i] == slot;
    assert(h.ids()[row] == id);
    let at = first_at(h.ids(), id, 0)->0;
    assert(h.row(at).id == h.ids()[at]);
    assert(h.lookup(h.row(at).id) == Some(h.store[at]));
    let g = h.taken_out(id).history;
    assert(g.store == h.store.remove(at));
    assert forall|i: int| 0 <= i < g.store.len() implies (#[trigger] g.store[i]) == h.store[if i
        < at {
        i
    } else {
        i + 1
    }] by {}
    assert forall|i: int| 0 <= i < g.store.len() implies (#[trigger] g.store[i]) != slot && g.store[i]
        < g.slots.len() && g.lookup(g.row(i).id) == Some(g.store[i]) by {
        let x = if i < at {
            i
        } else {
            i + 1
        };
        assert(h.store[x] != h.store[at]);
        assert(h.lookup(h.row(x).id) == Some(h.store[x]));
    }
    assert forall|i: int, j: int| 0 <= i < g.store.len() && 0 <= j < g.store.len() && i
        != j implies g.store[i] != g.store[j] by {
        let x = if i < at {
            i
        } else {
            i + 1
        };
        let y = if j < at {
            j
        } else {
            j + 1
        };
        assert(h.store[x] != h.store[y]);
    }
    assert forall|k: i64| #[trigger] g.index.contains_key(k) implies g.slots[g.index[k] as int].id
        == k && g.store.contains(g.index[k]) && g.index[k] != slot by {
        assert(h.index.contains_key(k));
        let i = choose|i: int| 0 <= i < h.store.len() && h.store[i] == h.index[k];
        if i < at {
            assert(g.store[i] == h.index[k]);
        } else {
            assert(i != at);
            assert(g.store[i - 1] == h.index[k]);
        }
    }
}

proof fn lemma_all_removed_in_step(s: ChatState, ids: Seq<i64>)
    requires
        in_step(s.history),
    ensures
        in_step(s.all_removed(ids).state.history),
    decreases ids.len(),
{
    if ids.len() > 0 {
        lemma_all_removed_in_step(s, ids.drop_last());
        let before = s.all_removed(ids.drop_last()).state.history;
        if before.index.contains_key(ids.last()) {
            lemma_taken_out_in_step(before, ids.last());
        }
    }
}

proof fn lemma_succeeded_in_step(h: HistoryView, old_id: i64, msg: MessageValue)
    requires
        in_step(h),
        h.slots.len() < usize::MAX,
        msg.id == old_id || !h.index.contains_key(old_id) || !h.index.contains_key(msg.id),
    ensures
        in_step(h.send_succeeded(old_id, msg).history),
{
    let t = h.without_temp(old_id);
    lemma_same_rows(h, t);
    match t.lookup(old_id) {
        Some(slot) => {
            lemma_taken_out_in_step(t, old_id);
            lemma_shown_in_step(
                t.taken_out(old_id).history,
                slot,
                t.slots[slot as int].updated(msg),
            );
        },
        None => {
            if !t.index.contains_key(msg.id) {
                lemma_added_in_step(t, MessageView::from_message(msg));
            }
        },
    }
}

proof fn lemma_failed_in_step(h: HistoryView, old_id: i64, msg: MessageValue)
    requires
        in_step(h),
    ensures
        in_step(h.send_failed(old_id, msg).history),
{
    let t = h.without_temp(old_id);
    lemma_same_rows(h, t);
    match t.lookup(old_id) {
        Some(slot) => {
            let m = MessageView { is_pending: true, ..t.slots[slot as int].updated(msg) };
            if msg.id == old_id {
                lemma_same_rows(t, t.with_message(slot as int, m));
            } else {
                lemma_taken_out_in_step(t, old_id);
                let removed = t.taken_out(old_id).history;
                let cleared = removed.taken_out(msg.id).history;
                if removed.index.contains_key(msg.id) {
                    lemma_taken_out_in_step(removed, msg.id);
                } else {
                    assert(removed.without_key(msg.id).index =~= removed.index);
                    lemma_first_at(removed.ids(), msg.id, 0);
                    assert forall|i: int| 0 <= i < removed.store.len() implies (
                    #[trigger] removed.ids()[i]) != msg.id by {
                        assert(removed.lookup(removed.row(i).id) == Some(removed.store[i]));
                    }
                    assert(cleared == removed);
                }
                assert(is_unused(cleared, slot as int)) by {
                    assert forall|i: int| 0 <= i < cleared.store.len() implies (
                    #[trigger] cleared.store[i]) != slot by {
                        lemma_first_at(removed.ids(), msg.id, 0);
                        assert(removed.without_key(msg.id).ids() =~= removed.ids());
                        match first_at(removed.ids(), msg.id, 0) {
                            Some(at) => {
                                let x = if i < at {
                                    i
                                } else {
                                    i + 1
                                };
                                assert(cleared.store[i] == removed.store[x]);
                            },
                            None => {
                                assert(cleared.store[i] == removed.store[i]);
                            },
                        }
                    }
                    assert forall|k: i64| #[trigger]
                        cleared.index.contains_key(k) implies cleared.index[k] != slot by {
                        assert(removed.index.contains_key(k));
                    }
                }
                lemma_shown_in_step(cleared, slot, m);
            }
        },
        None => {},
    }
}

/// Whatever update arrives, every id goes on to find the message with that id,
/// and the rows stay exactly the messages that are found, once each. The rows
/// need not be in order for that.
pub proof fn every_update_keeps_the_index_in_step(s: ChatState, update: UpdateView)
    requires
        in_step(s.history),
        s.history.slots.len() < usize::MAX,
        !takes_over_an_id(s.history, update),
    ensures
        in_step(s.updated(update).state.history),
{
    let h = s.history;
    match update {
        UpdateView::NewMessage { message } => {
            match h.lookup(message.id) {
                Some(slot) => {
                    lemma_same_rows(
                        h,
                        h.with_message(slot as int, h.slots[slot as int].updated(message)),
                    );
                },
                None => {
                    if !h.temp_ids.contains(message.id) {
                        let m = h.named(MessageView::from_message(message), message.sender_id);
                        lemma_added_in_step(h, m);
                        lemma_reply_in_step(h.added(m), message.id);
                    }
                },
            }
        },
        UpdateView::MessageSendSucceeded { message, old_message_id } => {
            lemma_succeeded_in_step(h, old_message_id, message);
        },
        UpdateView::MessageSendFailed { message, old_message_id } => {
            lemma_failed_in_step(h, old_message_id, message);
        },
        UpdateView::MessageContent { message_id, new_content, .. } => {
            lemma_same_rows(h, h.content_changed(message_id, new_content).history);
        },
        UpdateView::MessageInteractionInfo { message_id, reactions, .. } => {
            lemma_same_rows(h, h.reactions_changed(message_id, reactions).history);
        },
        UpdateView::DeleteMessages { message_ids, .. } => {
            lemma_all_removed_in_step(s, message_ids);
        },
        UpdateView::ChatReadOutbox { last_read_outbox_message_id, .. } => {
            let r = HistoryView { last_read_outbox: last_read_outbox_message_id, ..h };
            lemma_read_slots(r, last_read_outbox_message_id, r.slots.len() as int);
            lemma_same_rows(h, h.read_outbox(last_read_outbox_message_id).history);
        },
        _ => {},
    }
}

} // verus!
