//! The list on screen mirrors the rows: it is changed by the effects alone.

use crate::models::message_object::MessageView;
use crate::tdlib::types::{ContentView, MessageSender, MessageValue, ReactionView, UpdateView};
use crate::ui::chat_view::effect::EffectView;
use crate::ui::chat_view::history::{lemma_insertion_point_range, lemma_read_keeps_rows,
    lemma_replies_keep_rows};
use crate::ui::chat_view::laws::{lemma_first_at, sorting_keeps_the_messages};
use crate::ui::chat_view::model::{by_id, first_at, incoming_ids, last_before, present, push_some,
    seen, user_to_resolve, HistoryView, Step};
use crate::ui::chat_view::state::ChatState;
use vstd::prelude::*;

verus! {

/// The list after one effect; none if the effect speaks of a row that is not
/// there.
pub open spec fn followed_one(list: Seq<usize>, effect: EffectView) -> Option<Seq<usize>> {
    match effect {
        EffectView::Inserted { position, slot } => if position <= list.len() {
            Some(list.insert(position as int, slot))
        } else {
            None
        },
        EffectView::Removed { position } => if position < list.len() {
            Some(list.remove(position as int))
        } else {
            None
        },
        EffectView::Rebind { start, count } => if start + count <= list.len() {
            Some(list)
        } else {
            None
        },
        _ => Some(list),
    }
}

/// The list after the effects, one after the other.
pub open spec fn followed(list: Seq<usize>, effects: Seq<EffectView>) -> Option<Seq<usize>>
    decreases effects.len(),
{
    if effects.len() == 0 {
        Some(list)
    } else {
        match followed(list, effects.drop_last()) {
            Some(before) => followed_one(before, effects.last()),
            None => None,
        }
    }
}

/// Whether slot numbers are in range, and `more` messages can still be counted.
pub open spec fn has_room(h: HistoryView, more: nat) -> bool {
    &&& h.in_range()
    &&& h.slots.len() + more <= usize::MAX
    &&& h.store.len() + more <= usize::MAX
}

/// Whether a list that shows the rows of `h` shows those of the step after it.
pub open spec fn mirrors(h: HistoryView, step: Step) -> bool {
    followed(h.store, step.effects) == Some(step.history.store)
}

/// Whether an effect leaves a list of `n` rows as it is.
spec fn quiet_one(effect: EffectView, n: int) -> bool {
    match effect {
        EffectView::Inserted { .. } => false,
        EffectView::Removed { .. } => false,
        EffectView::Rebind { start, count } => start + count <= n,
        _ => true,
    }
}

spec fn quiet(effects: Seq<EffectView>, n: int) -> bool {
    forall|i: int| 0 <= i < effects.len() ==> quiet_one(#[trigger] effects[i], n)
}

proof fn lemma_concat(list: Seq<usize>, a: Seq<EffectView>, b: Seq<EffectView>)
    ensures
        followed(list, a + b) == match followed(list, a) {
            Some(l) => followed(l, b),
            None => None,
        },
    decreases b.len(),
{
    if b.len() == 0 {
        assert(a + b =~= a);
    } else {
        assert((a + b).drop_last() =~= a + b.drop_last());
        lemma_concat(list, a, b.drop_last());
    }
}

proof fn lemma_push(list: Seq<usize>, a: Seq<EffectView>, e: EffectView)
    ensures
        followed(list, a.push(e)) == match followed(list, a) {
            Some(l) => followed_one(l, e),
            None => None,
        },
{
    assert(a.push(e).drop_last() =~= a);
}

proof fn lemma_quiet(list: Seq<usize>, effects: Seq<EffectView>)
    requires
        quiet(effects, list.len() as int),
    ensures
        followed(list, effects) == Some(list),
    decreases effects.len(),
{
    if effects.len() > 0 {
        let before = effects.drop_last();
        assert forall|i: int| 0 <= i < before.len() implies quiet_one(
            #[trigger] before[i],
            list.len() as int,
        ) by {
            assert(before[i] == effects[i]);
        }
        lemma_quiet(list, before);
        assert(quiet_one(effects[effects.len() - 1], list.len() as int));
    }
}

/// Quiet effects after others change nothing more.
proof fn lemma_then_quiet(list: Seq<usize>, a: Seq<EffectView>, b: Seq<EffectView>)
    requires
        followed(list, a) is Some,
        quiet(b, followed(list, a)->0.len() as int),
    ensures
        followed(list, a + b) == followed(list, a),
{
    lemma_concat(list, a, b);
    lemma_quiet(followed(list, a)->0, b);
}

// --- The quiet parts of the steps --------------------------------------------

proof fn lemma_last_before(ids: Seq<i64>, id: i64, to: int)
    requires
        to <= ids.len(),
    ensures
        last_before(ids, id, to) matches Some(at) ==> 0 <= at < to && ids[at] == id,
    decreases to,
{
    if to > 0 && ids[to - 1] != id {
        lemma_last_before(ids, id, to - 1);
    }
}

proof fn lemma_fetches(h: HistoryView, ids: Seq<i64>, n: int)
    ensures
        quiet(h.fetches(ids), n),
    decreases ids.len(),
{
    if ids.len() > 0 {
        lemma_fetches(h, ids.drop_last(), n);
    }
}

proof fn lemma_rebind_of(h: HistoryView, id: i64)
    requires
        h.store.len() <= usize::MAX,
    ensures
        quiet(h.rebind_of(id), h.store.len() as int),
{
    lemma_first_at(h.ids(), id, 0);
}

proof fn lemma_rebind_album(h: HistoryView, album_id: i64)
    requires
        h.store.len() <= usize::MAX,
    ensures
        quiet(h.rebind_album(album_id), h.store.len() as int),
{
    let n = h.store.len() as int;
    lemma_first_at(h.albums(), album_id, 0);
    lemma_last_before(h.albums(), album_id, n);
    if h.rebind_album(album_id).len() > 0 {
        let first = first_at(h.albums(), album_id, 0)->0;
        let last = last_before(h.albums(), album_id, n)->0;
        lemma_first_is_least(h.albums(), album_id, 0, last);
        assert(first <= last < n);
    }
}

/// No position of `id` comes before the first one.
proof fn lemma_first_is_least(ids: Seq<i64>, id: i64, from: int, at: int)
    requires
        from <= at < ids.len(),
        ids[at] == id,
    ensures
        first_at(ids, id, from) matches Some(first) && first <= at,
    decreases ids.len() - from,
{
    if ids[from] != id {
        lemma_first_is_least(ids, id, from + 1, at);
    }
}

proof fn lemma_rebind_around(h: HistoryView, pos: int)
    requires
        0 <= pos < h.store.len() <= usize::MAX,
    ensures
        quiet(h.rebind_around(pos), h.store.len() as int),
{
}

proof fn lemma_reply(h: HistoryView, id: i64)
    requires
        h.store.len() <= usize::MAX,
    ensures
        h.reply_resolved(id).history.store == h.store,
        quiet(h.reply_resolved(id).effects, h.store.len() as int),
{
    match h.lookup(id) {
        Some(slot) => {
            let m = h.slots[slot as int];
            match h.lookup(m.reply_to_id) {
                Some(target) => {
                    let g = h.with_message(slot as int, h.stamped(m, h.slots[target as int]));
                    lemma_rebind_of(g, id);
                },
                None => {},
            }
        },
        None => {},
    }
}

proof fn lemma_replies(h: HistoryView, ids: Seq<i64>)
    requires
        h.store.len() <= usize::MAX,
    ensures
        h.replies_resolved(ids).history.store == h.store,
        quiet(h.replies_resolved(ids).effects, h.store.len() as int),
    decreases ids.len(),
{
    lemma_replies_keep_rows(h, ids);
    if ids.len() > 0 {
        lemma_replies(h, ids.drop_last());
        lemma_reply(h.replies_resolved(ids.drop_last()).history, ids.last());
    }
}

proof fn lemma_read(h: HistoryView, last_read: i64, n: int)
    ensures
        h.read_up_to(last_read, n).history.store == h.store,
        quiet(h.read_up_to(last_read, n).effects, h.store.len() as int),
    decreases n,
{
    lemma_read_keeps_rows(h, last_read, n);
    if n > 0 {
        lemma_read(h, last_read, n - 1);
    }
}

proof fn lemma_named(h: HistoryView, uid: i64, name: Seq<char>, n: int)
    requires
        n <= h.store.len() <= usize::MAX,
    ensures
        h.name_applied(uid, name, n).history.store == h.store,
        quiet(h.name_applied(uid, name, n).effects, h.store.len() as int),
    decreases n,
{
    if n > 0 {
        lemma_named(h, uid, name, n - 1);
    }
}

proof fn lemma_avatar(h: HistoryView, uid: i64, file_id: i32, n: int)
    requires
        n <= h.store.len() <= usize::MAX,
    ensures
        h.avatar_applied(uid, file_id, n).history.store == h.store,
        quiet(h.avatar_applied(uid, file_id, n).effects, h.store.len() as int),
    decreases n,
{
    if n > 0 {
        lemma_avatar(h, uid, file_id, n - 1);
    }
}

/// A new row is shown where the effect says.
proof fn lemma_added(h: HistoryView, m: MessageView)
    requires
        h.store.len() <= usize::MAX,
        h.slots.len() < usize::MAX,
    ensures
        0 <= h.with_slot(m).place(m.id) <= h.store.len(),
        h.added(m).store.len() == h.store.len() + 1,
        followed_one(
            h.store,
            EffectView::Inserted {
                position: h.with_slot(m).place(m.id) as usize,
                slot: h.slots.len() as usize,
            },
        ) == Some(h.added(m).store),
{
    lemma_insertion_point_range(h.with_slot(m).ids(), m.id, 0, h.store.len() as int);
}

proof fn lemma_taken_in(h: HistoryView, ordered: Seq<MessageValue>)
    requires
        h.store.len() + ordered.len() <= usize::MAX,
        h.slots.len() + ordered.len() <= usize::MAX,
    ensures
        h.taken_in(ordered).step.history.slots.len() <= h.slots.len() + ordered.len(),
        h.taken_in(ordered).step.history.store.len() <= h.store.len() + ordered.len(),
        followed(h.store, h.taken_in(ordered).step.effects) == Some(
            h.taken_in(ordered).step.history.store,
        ),
        h.taken_in(ordered).inserted.len() + h.store.len() == h.taken_in(
            ordered,
        ).step.history.store.len(),
    decreases ordered.len(),
{
    if ordered.len() > 0 {
        let before = h.taken_in(ordered.drop_last());
        let g = before.step.history;
        let msg = ordered.last();
        if g.index.contains_key(msg.id) {
            lemma_taken_in(h, ordered.drop_last());
        } else {
            let m = g.named(MessageView::from_message(msg), msg.sender_id);
            lemma_taken_in(h, ordered.drop_last());
            lemma_added(g, m);
            lemma_push(
                h.store,
                before.step.effects,
                EffectView::Inserted {
                    position: g.with_slot(m).place(m.id) as usize,
                    slot: g.slots.len() as usize,
                },
            );
        }
    }
}

// --- Laws --------------------------------------------------------------------

/// A batch of history: the list on screen shows the rows after it, and no
/// effect speaks of a row that is not there.
pub proof fn list_mirrors_a_batch(h: HistoryView, batch: Seq<MessageValue>, is_initial: bool)
    requires
        has_room(h, batch.len()),
    ensures
        mirrors(h, h.ingested(batch, is_initial)),
{
    if batch.len() > 0 {
        let ordered = by_id(batch);
        let start = h.reaching(ordered.first().id);
        let intake = start.taken_in(ordered);
        let rows = intake.step.history.store;
        let replies = intake.step.history.replies_resolved(intake.inserted);
        let read = replies.history.read_refreshed(replies.history.last_read_outbox);
        sorting_keeps_the_messages(batch);
        lemma_taken_in(start, ordered);
        lemma_replies_keep_rows(intake.step.history, intake.inserted);
        lemma_read(
            replies.history,
            replies.history.last_read_outbox,
            replies.history.slots.len() as int,
        );
        lemma_fetches(intake.step.history, intake.users, rows.len() as int);
        lemma_replies(intake.step.history, intake.inserted);
        let a = intake.step.effects;
        let b = a + intake.step.history.fetches(intake.users);
        lemma_then_quiet(h.store, a, intake.step.history.fetches(intake.users));
        let c = b + replies.effects;
        lemma_then_quiet(h.store, b, replies.effects);
        let d = c + read.effects;
        lemma_then_quiet(h.store, c, read.effects);
        if is_initial {
            lemma_then_quiet(h.store, d, read.history.rebind_all());
            let e = d + read.history.rebind_all();
            lemma_push(h.store, e, EffectView::ScrollToBottom);
            lemma_then_quiet(
                h.store,
                e.push(EffectView::ScrollToBottom),
                seen(incoming_ids(ordered)),
            );
        } else {
            let n = intake.inserted.len() + 1;
            let count = if n < rows.len() {
                n
            } else {
                rows.len()
            };
            let rebind = EffectView::Rebind { start: 0, count: count as usize };
            lemma_push(h.store, d, rebind);
            lemma_push(h.store, d.push(rebind), EffectView::RestoreAnchor);
            lemma_push(h.store, d, EffectView::RestoreAnchor);
        }
    }
}

proof fn lemma_present(messages: Seq<Option<MessageValue>>)
    ensures
        present(messages).len() <= messages.len(),
    decreases messages.len(),
{
    if messages.len() > 0 {
        lemma_present(messages.drop_last());
    }
}

/// A batch of older messages arrives.
pub proof fn list_mirrors_older_messages(h: HistoryView, messages: Seq<Option<MessageValue>>)
    requires
        has_room(h, messages.len()),
    ensures
        mirrors(h, h.older_arrived(messages)),
{
    lemma_present(messages);
    list_mirrors_a_batch(h, present(messages), false);
}

/// A message arrives.
pub proof fn list_mirrors_a_new_message(h: HistoryView, msg: MessageValue)
    requires
        has_room(h, 1),
    ensures
        mirrors(h, h.new_message(msg)),
{
    if h.index.contains_key(msg.id) || h.temp_ids.contains(msg.id) {
        match h.lookup(msg.id) {
            Some(slot) => {
                let g = h.with_message(slot as int, h.slots[slot as int].updated(msg));
                lemma_rebind_of(g, msg.id);
                lemma_quiet(h.store, h.new_message(msg).effects);
            },
            None => {},
        }
    } else {
        let m = h.named(MessageView::from_message(msg), msg.sender_id);
        let at = h.with_slot(m).place(m.id);
        let users = push_some(Seq::empty(), user_to_resolve(msg));
        let g = h.added(m);
        lemma_added(h, m);
        let replies = g.replies_resolved(seq![msg.id]);
        lemma_replies_keep_rows(g, seq![msg.id]);
        lemma_replies(g, seq![msg.id]);
        lemma_fetches(g, users, g.store.len() as int);
        lemma_rebind_around(replies.history, at);
        lemma_rebind_album(replies.history, msg.media_album_id);
        let inserted = EffectView::Inserted {
            position: at as usize,
            slot: h.slots.len() as usize,
        };
        let a = seq![inserted];
        assert(Seq::<EffectView>::empty().push(inserted) =~= a);
        lemma_push(h.store, Seq::empty(), inserted);
        lemma_then_quiet(h.store, a, g.fetches(users));
        let b = a + g.fetches(users);
        lemma_then_quiet(h.store, b, replies.effects);
        let c = b + replies.effects;
        lemma_then_quiet(h.store, c, replies.history.rebind_around(at));
        let d = c + replies.history.rebind_around(at);
        lemma_then_quiet(h.store, d, replies.history.rebind_album(msg.media_album_id));
        let e = d + replies.history.rebind_album(msg.media_album_id);
        lemma_push(h.store, e, EffectView::ScrollToBottom);
        let told = seen(
            if msg.is_outgoing {
                Seq::empty()
            } else {
                seq![msg.id]
            },
        );
        lemma_then_quiet(h.store, e.push(EffectView::ScrollToBottom), told);
    }
}

/// A message of ours is sent and shown at once.
pub proof fn list_mirrors_a_sent_message(h: HistoryView, msg: MessageValue)
    requires
        has_room(h, 1),
    ensures
        mirrors(h, h.sent(msg)),
{
    if !h.index.contains_key(msg.id) {
        let m = MessageView::from_message(msg);
        let at = h.with_slot(m).place(m.id);
        let t = h.with_temp(msg.id);
        assert(t.with_slot(m).ids() =~= h.with_slot(m).ids());
        let g = t.added(m);
        lemma_added(t, m);
        let replies = g.replies_resolved(seq![msg.id]);
        lemma_replies_keep_rows(g, seq![msg.id]);
        lemma_replies(g, seq![msg.id]);
        lemma_rebind_around(replies.history, at);
        let inserted = EffectView::Inserted {
            position: at as usize,
            slot: h.slots.len() as usize,
        };
        let a = seq![inserted];
        assert(Seq::<EffectView>::empty().push(inserted) =~= a);
        lemma_push(h.store, Seq::empty(), inserted);
        lemma_then_quiet(h.store, a, replies.effects);
        let b = a + replies.effects;
        lemma_then_quiet(h.store, b, replies.history.rebind_around(at));
        lemma_push(
            h.store,
            b + replies.history.rebind_around(at),
            EffectView::ScrollToBottom,
        );
    }
}

/// A message of ours is confirmed and moves to its real id.
pub proof fn list_mirrors_a_confirmed_message(h: HistoryView, old_id: i64, msg: MessageValue)
    requires
        has_room(h, 1),
    ensures
        mirrors(h, h.send_succeeded(old_id, msg)),
{
    let g = h.without_temp(old_id);
    match g.lookup(old_id) {
        Some(slot) => {
            let k = g.without_key(old_id);
            lemma_row_removed(k, old_id);
            let removed = k.row_removed(old_id);
            let updated = removed.history.with_message(
                slot as int,
                g.slots[slot as int].updated(msg),
            );
            let at = updated.place(msg.id);
            lemma_insertion_point_range(updated.ids(), msg.id, 0, updated.store.len() as int);
            let done = updated.inserted(slot).with_key(msg.id, slot);
            let inserted = EffectView::Inserted { position: at as usize, slot };
            lemma_push(h.store, removed.effects, inserted);
            assert(updated.slots[slot as int].id == msg.id);
            lemma_rebind_around(done, at);
            lemma_rebind_album(done, msg.media_album_id);
            let a = removed.effects.push(inserted);
            lemma_then_quiet(h.store, a, done.rebind_around(at));
            lemma_then_quiet(
                h.store,
                a + done.rebind_around(at),
                done.rebind_album(msg.media_album_id),
            );
        },
        None => {
            if !g.index.contains_key(msg.id) {
                let m = MessageView::from_message(msg);
                let at = g.with_slot(m).place(m.id);
                let done = g.added(m);
                lemma_added(g, m);
                lemma_rebind_around(done, at);
                lemma_rebind_album(done, msg.media_album_id);
                let inserted = EffectView::Inserted {
                    position: at as usize,
                    slot: g.slots.len() as usize,
                };
                let a = seq![inserted];
                assert(Seq::<EffectView>::empty().push(inserted) =~= a);
                lemma_push(h.store, Seq::empty(), inserted);
                lemma_then_quiet(h.store, a, done.rebind_around(at));
                lemma_then_quiet(
                    h.store,
                    a + done.rebind_around(at),
                    done.rebind_album(msg.media_album_id),
                );
            }
        },
    }
}

/// A message of ours fails: it stays in place, or moves to its new id.
pub proof fn list_mirrors_a_failed_message(h: HistoryView, old_id: i64, msg: MessageValue)
    requires
        has_room(h, 1),
    ensures
        mirrors(h, h.send_failed(old_id, msg)),
{
    let g = h.without_temp(old_id);
    match g.lookup(old_id) {
        Some(slot) => {
            if msg.id == old_id {
                lemma_rebind_of(h.send_failed(old_id, msg).history, old_id);
                lemma_quiet(h.store, h.send_failed(old_id, msg).effects);
            } else {
                lemma_row_removed(g.without_key(old_id), old_id);
                let removed = g.taken_out(old_id);
                lemma_row_removed(removed.history.without_key(msg.id), msg.id);
                let cleared = removed.history.taken_out(msg.id);
                let taken = removed.effects + cleared.effects;
                lemma_first_at(removed.history.ids(), msg.id, 0);
                assert(removed.history.without_key(msg.id).ids() =~= removed.history.ids());
                match first_at(removed.history.ids(), msg.id, 0) {
                    Some(at) => {
                        let e = EffectView::Removed { position: at as usize };
                        assert(taken =~= removed.effects.push(e));
                        lemma_push(h.store, removed.effects, e);
                    },
                    None => {
                        assert(taken =~= removed.effects);
                    },
                }
                let updated = cleared.history.with_message(
                    slot as int,
                    MessageView { is_pending: true, ..g.slots[slot as int].updated(msg) },
                );
                let at = updated.place(msg.id);
                lemma_insertion_point_range(updated.ids(), msg.id, 0, updated.store.len() as int);
                let done = updated.inserted(slot).with_key(msg.id, slot);
                let inserted = EffectView::Inserted { position: at as usize, slot };
                lemma_push(h.store, taken, inserted);
                assert(updated.slots[slot as int].id == msg.id);
                lemma_rebind_around(done, at);
                lemma_rebind_album(done, msg.media_album_id);
                let a = taken.push(inserted);
                lemma_then_quiet(h.store, a, done.rebind_around(at));
                lemma_then_quiet(
                    h.store,
                    a + done.rebind_around(at),
                    done.rebind_album(msg.media_album_id),
                );
            }
        },
        None => {},
    }
}

/// The row of a message is taken out.
proof fn lemma_row_removed(h: HistoryView, id: i64)
    requires
        h.store.len() <= usize::MAX,
    ensures
        mirrors(h, h.row_removed(id)),
        h.row_removed(id).history.store.len() <= h.store.len(),
{
    lemma_first_at(h.ids(), id, 0);
    match first_at(h.ids(), id, 0) {
        Some(at) => {
            let removed = EffectView::Removed { position: at as usize };
            assert(Seq::<EffectView>::empty().push(removed) =~= seq![removed]);
            lemma_push(h.store, Seq::empty(), removed);
        },
        None => {},
    }
}

/// Changes of a loaded message, of users and of the chat leave the rows where
/// they are.
pub proof fn list_mirrors_changes_in_place(
    h: HistoryView,
    id: i64,
    msg: MessageValue,
    content: ContentView,
    reactions: Seq<ReactionView>,
    name: Seq<char>,
    file_id: i32,
    is_group: bool,
)
    requires
        has_room(h, 0),
    ensures
        mirrors(h, h.content_changed(id, content)),
        mirrors(h, h.reactions_changed(id, reactions)),
        mirrors(h, h.read_outbox(id)),
        mirrors(h, h.user_resolved(id, name, file_id)),
        mirrors(h, h.chat_resolved(is_group, id)),
        mirrors(h, h.reply_fetched(id, msg)),
{
    lemma_in_place(h, id, msg, content, reactions);
    let r = HistoryView { last_read_outbox: id, ..h };
    lemma_read(r, id, r.slots.len() as int);
    lemma_quiet(h.store, h.read_outbox(id).effects);

    let u = HistoryView { names: h.names.insert(id, name), ..h };
    lemma_named(u, id, name, u.store.len() as int);
    let named = u.name_applied(id, name, u.store.len() as int);
    lemma_avatar(named.history, id, file_id, u.store.len() as int);
    lemma_quiet(h.store, h.user_resolved(id, name, file_id).effects);

    let c = HistoryView { is_group, last_read_outbox: id, ..h };
    lemma_read(c, id, c.slots.len() as int);
    let read = c.read_refreshed(id);
    lemma_fetches(
        read.history,
        read.history.unnamed_senders(c.store.len() as int),
        h.store.len() as int,
    );
    lemma_quiet(h.store, h.chat_resolved(is_group, id).effects);
}

proof fn lemma_in_place(
    h: HistoryView,
    id: i64,
    msg: MessageValue,
    content: ContentView,
    reactions: Seq<ReactionView>,
)
    requires
        h.store.len() <= usize::MAX,
    ensures
        mirrors(h, h.content_changed(id, content)),
        mirrors(h, h.reactions_changed(id, reactions)),
        mirrors(h, h.reply_fetched(id, msg)),
{
    lemma_rebind_of(h.content_changed(id, content).history, id);
    lemma_quiet(h.store, h.content_changed(id, content).effects);
    lemma_quiet(h.store, h.reactions_changed(id, reactions).effects);
    lemma_rebind_of(h.reply_fetched(id, msg).history, id);
    lemma_quiet(h.store, h.reply_fetched(id, msg).effects);
}

proof fn lemma_removed(s: ChatState, id: i64)
    requires
        s.history.store.len() <= usize::MAX,
    ensures
        followed(s.history.store, s.removed(id).effects) == Some(s.removed(id).state.history.store),
        s.removed(id).state.history.store.len() <= s.history.store.len(),
{
    if s.history.index.contains_key(id) {
        let forgot = ChatState { history: s.history.without_key(id), ..s };
        let edit = if forgot.editing == id {
            forgot.edit_left()
        } else {
            forgot.unchanged()
        };
        let reply = if edit.state.reply_to == id {
            edit.state.reply_cleared()
        } else {
            edit.state.unchanged()
        };
        let list = s.history.store;
        lemma_quiet(list, edit.effects);
        lemma_then_quiet(list, edit.effects, reply.effects);
        lemma_row_removed(reply.state.history, id);
        lemma_concat(
            list,
            edit.effects + reply.effects,
            reply.state.history.row_removed(id).effects,
        );
    }
}

proof fn lemma_all_removed(s: ChatState, ids: Seq<i64>)
    requires
        s.history.store.len() <= usize::MAX,
    ensures
        followed(s.history.store, s.all_removed(ids).effects) == Some(
            s.all_removed(ids).state.history.store,
        ),
        s.all_removed(ids).state.history.store.len() <= s.history.store.len(),
    decreases ids.len(),
{
    if ids.len() > 0 {
        lemma_all_removed(s, ids.drop_last());
        let before = s.all_removed(ids.drop_last());
        lemma_removed(before.state, ids.last());
        lemma_concat(
            s.history.store,
            before.effects,
            before.state.removed(ids.last()).effects,
        );
    }
}

/// Whatever update arrives, the list on screen shows the rows after it, and no
/// effect speaks of a row that is not there.
pub proof fn list_mirrors_every_update(s: ChatState, update: UpdateView)
    requires
        has_room(s.history, 1),
    ensures
        followed(s.history.store, s.updated(update).effects) == Some(
            s.updated(update).state.history.store,
        ),
{
    let h = s.history;
    match update {
        UpdateView::NewMessage { message } if message.chat_id == s.chat_id => {
            list_mirrors_a_new_message(h, message);
        },
        UpdateView::MessageSendSucceeded { message, old_message_id } if message.chat_id
            == s.chat_id => {
            list_mirrors_a_confirmed_message(h, old_message_id, message);
        },
        UpdateView::MessageSendFailed { message, old_message_id } if message.chat_id
            == s.chat_id => {
            list_mirrors_a_failed_message(h, old_message_id, message);
        },
        UpdateView::MessageContent { chat_id, message_id, new_content } if chat_id
            == s.chat_id => {
            lemma_rebind_of(h.content_changed(message_id, new_content).history, message_id);
            lemma_quiet(h.store, h.content_changed(message_id, new_content).effects);
        },
        UpdateView::MessageInteractionInfo { chat_id, message_id, reactions } if chat_id
            == s.chat_id => {
            lemma_quiet(h.store, h.reactions_changed(message_id, reactions).effects);
        },
        UpdateView::DeleteMessages { chat_id, message_ids, from_cache } if chat_id
            == s.chat_id => {
            lemma_all_removed(s, message_ids);
        },
        UpdateView::ChatReadOutbox { chat_id, last_read_outbox_message_id } if chat_id
            == s.chat_id => {
            let id = last_read_outbox_message_id;
            let r = HistoryView { last_read_outbox: id, ..h };
            lemma_read(r, id, r.slots.len() as int);
            lemma_quiet(h.store, h.read_outbox(id).effects);
        },
        UpdateView::ChatAction { chat_id, sender_id, action } if chat_id == s.chat_id => {
            match sender_id {
                MessageSender::User(user) => {
                    lemma_fetches(h, seq![user], h.store.len() as int);
                },
                _ => {},
            }
            lemma_quiet(h.store, s.updated(update).effects);
        },
        _ => {},
    }
}

} // verus!
