//! What the messages of a batch look like once it was taken in.

use crate::models::message_laws::{new_row_reports_its_message, reports};
use crate::models::message_object::MessageView;
use crate::models::send_status;
use crate::tdlib::types::{MessageSender, MessageValue};
use crate::ui::chat_view::effect::EffectView;
use crate::ui::chat_view::laws::{consistent, in_order, ingesting_loads_the_batch, lemma_read_slots,
    lemma_taken_in, sorting_keeps_the_messages};
use crate::ui::chat_view::model::{by_id, incoming_ids, insertion_point, HistoryView};
use crate::ui::chat_view::names::snippet_text;
use vstd::prelude::*;

verus! {

/// Whether `m` is the message `msg` as a history that knows the names of `h`
/// first shows it, apart from its delivery state and its reply header. In a
/// group an incoming message carries the name of its user where it is known;
/// no other message carries one.
pub open spec fn arrived(h: HistoryView, m: MessageView, msg: MessageValue) -> bool {
    &&& reports(m, msg)
    &&& m.is_pending == (msg.sending_state is Some)
    &&& m.avatar_file_id == 0
    &&& msg.sender_id matches MessageSender::User(u) ==> {
        &&& h.is_group && !msg.is_outgoing && h.names.contains_key(u) ==> m.sender_name
            == h.names[u]
        &&& !(h.is_group && !msg.is_outgoing && h.names.contains_key(u)) ==> m.sender_name.len()
            == 0
    }
    &&& msg.sender_id is Chat ==> m.sender_name.len() == 0
}

/// Whether the reply header of `m` quotes `target`: its text in short, and who
/// sent it. That is us, or the name on the message, or else the name that is
/// known of its sender.
pub open spec fn quotes(names: Map<i64, Seq<char>>, m: MessageView, target: MessageView) -> bool {
    &&& m.reply_snippet == snippet_text(target.content_text)
    &&& target.is_outgoing ==> m.reply_sender == "You"@
    &&& !target.is_outgoing && target.sender_name.len() > 0 ==> m.reply_sender
        == target.sender_name
    &&& !target.is_outgoing && target.sender_name.len() == 0 && names.contains_key(target.sender_id)
        ==> m.reply_sender == names[target.sender_id]
    &&& !target.is_outgoing && target.sender_name.len() == 0 && !names.contains_key(
        target.sender_id,
    ) ==> m.reply_sender.len() == 0
}

/// Whether two histories differ in their messages alone.
pub(crate) open(crate) spec fn same_apart_from_messages(h: HistoryView, g: HistoryView) -> bool {
    &&& g == HistoryView { slots: g.slots, ..h }
    &&& g.slots.len() == h.slots.len()
}

/// Whether two messages differ in their reply headers alone.
pub open spec fn same_apart_from_header(a: MessageView, b: MessageView) -> bool {
    b == MessageView { reply_sender: b.reply_sender, reply_snippet: b.reply_snippet, ..a }
}

/// Whether two messages differ in their delivery states alone.
pub open spec fn same_apart_from_state(a: MessageView, b: MessageView) -> bool {
    b == MessageView { send_status: b.send_status, ..a }
}

// --- Replies -----------------------------------------------------------------

/// Whether message `id` is a loaded reply without a header yet.
pub open spec fn lacks_header(h: HistoryView, id: i64) -> bool {
    &&& h.index.contains_key(id)
    &&& h.slots[h.index[id] as int].reply_to_id != 0
    &&& h.slots[h.index[id] as int].reply_sender.len() == 0
}

/// Resolving replies touches nothing but the headers of those that lack one.
/// Where the target is loaded the header quotes it, and otherwise the target is
/// asked for.
pub proof fn replies_quote_their_targets(h: HistoryView, ids: Seq<i64>, k: int)
    requires
        h.in_range(),
        0 <= k < ids.len(),
        lacks_header(h, ids[k]),
    ensures
        ({
            let step = h.replies_resolved(ids);
            let m = step.history.slots[h.index[ids[k]] as int];
            &&& same_apart_from_header(h.slots[h.index[ids[k]] as int], m)
            &&& h.index.contains_key(m.reply_to_id) ==> quotes(
                h.names,
                m,
                h.slots[h.index[m.reply_to_id] as int],
            )
            &&& !h.index.contains_key(m.reply_to_id) ==> m == h.slots[h.index[ids[k]] as int]
                && step.effects.contains(
                EffectView::FetchReply { message_id: ids[k], target: m.reply_to_id },
            )
        }),
    decreases ids.len(),
{
    let before = h.replies_resolved(ids.drop_last());
    let last = before.history.reply_resolved(ids.last());
    let step = h.replies_resolved(ids);
    lemma_headers_only(h, ids.drop_last());
    lemma_headers_only(h, ids);
    let slot = h.index[ids[k]] as int;
    let target = h.slots[slot].reply_to_id;
    if k < ids.len() - 1 {
        replies_quote_their_targets(h, ids.drop_last(), k);
        if !h.index.contains_key(target) {
            let wanted = EffectView::FetchReply { message_id: ids[k], target };
            let i = choose|i: int| 0 <= i < before.effects.len() && before.effects[i] == wanted;
            assert(step.effects[i] == wanted);
        }
    } else {
        if !h.index.contains_key(target) {
            lemma_unanswered(h, ids.drop_last(), slot);
            assert(last.effects[0] == (EffectView::FetchReply { message_id: ids[k], target }));
            assert(step.effects[before.effects.len() as int] == last.effects[0]);
        } else {
            lemma_answered(h, ids.drop_last(), slot);
        }
    }
}

pub(crate) proof fn lemma_headers_only(h: HistoryView, ids: Seq<i64>)
    requires
        h.in_range(),
    ensures
        same_apart_from_messages(h, h.replies_resolved(ids).history),
        forall|s: int|
            0 <= s < h.slots.len() ==> same_apart_from_header(
                h.slots[s],
                #[trigger] h.replies_resolved(ids).history.slots[s],
            ),
        forall|s: int|
            0 <= s < h.slots.len() && (forall|k: int|
                0 <= k < ids.len() && h.index.contains_key(#[trigger] ids[k]) ==> h.index[ids[k]]
                    != s) ==> (#[trigger] h.replies_resolved(ids).history.slots[s]) == h.slots[s],
    decreases ids.len(),
{
    if ids.len() > 0 {
        let rest = ids.drop_last();
        lemma_headers_only(h, rest);
        let before = h.replies_resolved(rest).history;
        let after = h.replies_resolved(ids).history;
        assert forall|s: int|
            0 <= s < h.slots.len() && (forall|k: int|
                0 <= k < ids.len() && h.index.contains_key(#[trigger] ids[k]) ==> h.index[ids[k]]
                    != s) implies (#[trigger] after.slots[s]) == h.slots[s] by {
            assert forall|k: int| 0 <= k < rest.len() && h.index.contains_key(#[trigger] rest[k])
                implies h.index[rest[k]] != s by {
                assert(ids[k] == rest[k]);
            }
            assert(before.slots[s] == h.slots[s]);
            assert(ids[ids.len() - 1] == ids.last());
        }
    }
}

/// A reply to a message that is not loaded keeps what it had.
proof fn lemma_unanswered(h: HistoryView, ids: Seq<i64>, slot: int)
    requires
        h.in_range(),
        0 <= slot < h.slots.len(),
        h.slots[slot].reply_to_id != 0,
        !h.index.contains_key(h.slots[slot].reply_to_id),
    ensures
        h.replies_resolved(ids).history.slots[slot] == h.slots[slot],
    decreases ids.len(),
{
    if ids.len() > 0 {
        lemma_unanswered(h, ids.drop_last(), slot);
        lemma_headers_only(h, ids.drop_last());
    }
}

/// A reply to a loaded message has no header yet, or quotes it.
proof fn lemma_answered(h: HistoryView, ids: Seq<i64>, slot: int)
    requires
        h.in_range(),
        0 <= slot < h.slots.len(),
        h.slots[slot].reply_to_id != 0,
        h.slots[slot].reply_sender.len() == 0,
        h.index.contains_key(h.slots[slot].reply_to_id),
    ensures
        ({
            let m = h.replies_resolved(ids).history.slots[slot];
            m == h.slots[slot] || quotes(
                h.names,
                m,
                h.slots[h.index[h.slots[slot].reply_to_id] as int],
            )
        }),
    decreases ids.len(),
{
    if ids.len() > 0 {
        lemma_answered(h, ids.drop_last(), slot);
        lemma_headers_only(h, ids.drop_last());
    }
}

// --- Taking a batch in -------------------------------------------------------

/// Whether the user of an incoming message is among `users`.
spec fn user_noted(users: Seq<i64>, msg: MessageValue) -> bool {
    msg.sender_id matches MessageSender::User(u) ==> !msg.is_outgoing ==> users.contains(u)
}

spec fn taken_as(h: HistoryView, users: Seq<i64>, m: MessageView, msg: MessageValue) -> bool {
    &&& arrived(h, m, msg)
    &&& m.reply_sender.len() == 0
    &&& m.reply_snippet.len() == 0
    &&& m.send_status == send_status::SENT || m.send_status == send_status::PENDING
    &&& m.send_status == send_status::PENDING <==> msg.sending_state is Some
    &&& user_noted(users, msg)
}

proof fn lemma_intake(h: HistoryView, ordered: Seq<MessageValue>)
    requires
        h.slots.len() + ordered.len() <= usize::MAX,
    ensures
        ({
            let r = h.taken_in(ordered);
            let g = r.step.history;
            let n = h.slots.len();
            &&& g == HistoryView { slots: g.slots, store: g.store, index: g.index, ..h }
            &&& g.slots.len() == n + r.inserted.len()
            &&& r.inserted.len() <= ordered.len()
            &&& forall|s: int| 0 <= s < n ==> (#[trigger] g.slots[s]) == h.slots[s]
            &&& forall|i: int|
                0 <= i < r.inserted.len() ==> !h.index.contains_key(#[trigger] r.inserted[i])
                    && g.index.contains_key(r.inserted[i]) && g.index[r.inserted[i]] == n + i
                    && g.slots[n + i].id == r.inserted[i]
            &&& forall|k: i64| #[trigger]
                h.index.contains_key(k) ==> g.index.contains_key(k) && g.index[k] == h.index[k]
            &&& forall|k: i64| #[trigger]
                g.index.contains_key(k) ==> h.index.contains_key(k) || r.inserted.contains(k)
            &&& forall|j: int|
                0 <= j < ordered.len() ==> g.index.contains_key((#[trigger] ordered[j]).id)
            &&& forall|s: int|
                n <= s < g.slots.len() ==> exists|j: int|
                    0 <= j < ordered.len() && taken_as(
                        h,
                        r.users,
                        #[trigger] g.slots[s],
                        #[trigger] ordered[j],
                    )
        }),
    decreases ordered.len(),
{
    if ordered.len() > 0 {
        let rest = ordered.drop_last();
        lemma_intake(h, rest);
        let before = h.taken_in(rest);
        let b = before.step.history;
        let r = h.taken_in(ordered);
        let g = r.step.history;
        let n = h.slots.len();
        let msg = ordered.last();
        let last = ordered.len() - 1;
        assert(ordered[last] == msg);
        assert forall|j: int| 0 <= j < ordered.len() implies g.index.contains_key(
            (#[trigger] ordered[j]).id,
        ) by {
            if j < last {
                assert(rest[j] == ordered[j]);
            }
        }
        new_row_reports_its_message(msg);
        assert forall|k: i64| #[trigger] g.index.contains_key(k) implies h.index.contains_key(k)
            || r.inserted.contains(k) by {
            if b.index.contains_key(k) {
                if before.inserted.contains(k) {
                    let i = choose|i: int| 0 <= i < before.inserted.len() && before.inserted[i] == k;
                    assert(r.inserted[i] == k);
                }
            } else {
                assert(r.inserted[r.inserted.len() - 1] == k);
            }
        }
        assert forall|s: int| n <= s < g.slots.len() implies exists|j: int|
            0 <= j < ordered.len() && taken_as(
                h,
                r.users,
                #[trigger] g.slots[s],
                #[trigger] ordered[j],
            ) by {
            if s < b.slots.len() {
                assert(g.slots[s] == b.slots[s]);
                let j = choose|j: int|
                    0 <= j < rest.len() && taken_as(
                        h,
                        before.users,
                        #[trigger] b.slots[s],
                        #[trigger] rest[j],
                    );
                assert(ordered[j] == rest[j]);
                lemma_still_noted(before.users, r.users, rest[j]);
                assert(taken_as(h, r.users, g.slots[s], ordered[j]));
            } else {
                assert(user_noted(r.users, msg)) by {
                    if r.users.len() > 0 {
                        assert(r.users[r.users.len() - 1] == r.users.last());
                    }
                }
                assert(reports(g.slots[s], msg));
                assert(taken_as(h, r.users, g.slots[s], ordered[last]));
            }
        }
    }
}

proof fn lemma_still_noted(before: Seq<i64>, after: Seq<i64>, msg: MessageValue)
    requires
        user_noted(before, msg),
        before.len() <= after.len(),
        forall|i: int| 0 <= i < before.len() ==> after[i] == before[i],
    ensures
        user_noted(after, msg),
{
    match msg.sender_id {
        MessageSender::User(u) => {
            if !msg.is_outgoing {
                let i = choose|i: int| 0 <= i < before.len() && before[i] == u;
                assert(after[i] == u);
            }
        },
        MessageSender::Chat(_) => {},
    }
}

/// The users without a name are fetched, and no others.
pub proof fn unknown_users_are_fetched(h: HistoryView, ids: Seq<i64>, u: i64)
    ensures
        h.fetches(ids).contains(EffectView::FetchUser { user_id: u }) <==> ids.contains(u) && u
            != 0 && !h.names.contains_key(u),
    decreases ids.len(),
{
    if ids.len() > 0 {
        let rest = ids.drop_last();
        unknown_users_are_fetched(h, rest, u);
        let all = h.fetches(ids);
        let few = h.fetches(rest);
        let wanted = EffectView::FetchUser { user_id: u };
        if few.contains(wanted) {
            let i = choose|i: int| 0 <= i < few.len() && few[i] == wanted;
            assert(all[i] == wanted);
        }
        if all.contains(wanted) {
            let i = choose|i: int| 0 <= i < all.len() && all[i] == wanted;
            if i < few.len() {
                assert(few[i] == wanted);
                assert(few.contains(wanted));
            } else {
                assert(ids[ids.len() - 1] == u);
            }
        }
        if rest.contains(u) {
            let i = choose|i: int| 0 <= i < rest.len() && rest[i] == u;
            assert(ids[i] == u);
        }
        if ids.contains(u) && !rest.contains(u) {
            let i = choose|i: int| 0 <= i < ids.len() && ids[i] == u;
            if i < rest.len() {
                assert(rest[i] == u);
            }
            if u != 0 && !h.names.contains_key(u) {
                assert(all[few.len() as int] == wanted);
            }
        }
    }
}

// --- Laws --------------------------------------------------------------------

/// The stages of taking in a batch that is not empty.
proof fn lemma_ingested(h: HistoryView, batch: Seq<MessageValue>, is_initial: bool)
    requires
        consistent(h),
        batch.len() > 0,
        h.slots.len() + batch.len() <= usize::MAX,
    ensures
        ({
            let step = h.ingested(batch, is_initial);
            let after = step.history;
            let intake = h.reaching(by_id(batch).first().id).taken_in(by_id(batch));
            let g = intake.step.history;
            let replies = g.replies_resolved(intake.inserted);
            &&& g.in_range()
            &&& same_apart_from_messages(g, replies.history)
            &&& same_apart_from_messages(replies.history, after)
            &&& forall|s: int|
                0 <= s < after.slots.len() ==> same_apart_from_state(
                    replies.history.slots[s],
                    #[trigger] after.slots[s],
                )
            &&& forall|e: EffectView| #[trigger]
                g.fetches(intake.users).contains(e) ==> step.effects.contains(e)
            &&& forall|e: EffectView| #[trigger]
                replies.effects.contains(e) ==> step.effects.contains(e)
            &&& consistent(after)
        }),
{
    let ordered = by_id(batch);
    let step = h.ingested(batch, is_initial);
    let r = h.reaching(ordered.first().id);
    let intake = r.taken_in(ordered);
    let g = intake.step.history;
    sorting_keeps_the_messages(batch);
    ingesting_loads_the_batch(h, batch, is_initial);
    lemma_intake_in_range(h, batch, is_initial);
    lemma_headers_only(g, intake.inserted);
    let replies = g.replies_resolved(intake.inserted);
    let read = replies.history.read_refreshed(replies.history.last_read_outbox);
    lemma_read_slots(
        replies.history,
        replies.history.last_read_outbox,
        replies.history.slots.len() as int,
    );
    let users = g.fetches(intake.users);
    assert forall|e: EffectView| #[trigger] users.contains(e) implies step.effects.contains(e) by {
        let i = choose|i: int| 0 <= i < users.len() && users[i] == e;
        assert(step.effects[intake.step.effects.len() + i] == e);
    }
    assert forall|e: EffectView| #[trigger] replies.effects.contains(e) implies step.effects.contains(
        e,
    ) by {
        let i = choose|i: int| 0 <= i < replies.effects.len() && replies.effects[i] == e;
        assert(step.effects[intake.step.effects.len() + users.len() + i] == e);
    }
}

proof fn lemma_intake_in_range(h: HistoryView, batch: Seq<MessageValue>, is_initial: bool)
    requires
        consistent(h),
        batch.len() > 0,
        h.slots.len() + batch.len() <= usize::MAX,
    ensures
        h.reaching(by_id(batch).first().id).taken_in(by_id(batch)).step.history.in_range(),
{
    let ordered = by_id(batch);
    let r = h.reaching(ordered.first().id);
    sorting_keeps_the_messages(batch);
    assert(r.ids() =~= h.ids());
    assert(consistent(r));
    lemma_taken_in(r, ordered);
}

/// What a batch brings is shown as the server reported it, and found by its id.
/// In a group each incoming message carries the name of its user where the name
/// is known; where it is not, the user is fetched.
pub proof fn batch_is_shown_as_reported(
    h: HistoryView,
    batch: Seq<MessageValue>,
    is_initial: bool,
    j: int,
)
    requires
        consistent(h),
        h.slots.len() + batch.len() <= usize::MAX,
        0 <= j < batch.len(),
        !h.index.contains_key(batch[j].id),
        forall|i: int| 0 <= i < batch.len() && (#[trigger] batch[i]).id == batch[j].id ==> batch[i]
            == batch[j],
    ensures
        ({
            let step = h.ingested(batch, is_initial);
            let after = step.history;
            let slot = after.index[batch[j].id];
            &&& after.index.contains_key(batch[j].id)
            &&& h.slots.len() <= slot < after.slots.len()
            &&& after.store.contains(slot)
            &&& arrived(h, after.slots[slot as int], batch[j])
            &&& batch[j].sending_state is Some <==> after.slots[slot as int].send_status
                == send_status::PENDING
            &&& after.slots[slot as int].send_status == send_status::READ ==> batch[j].is_outgoing
                && batch[j].id <= h.last_read_outbox
            &&& batch[j].sending_state is None && !batch[j].is_outgoing
                ==> after.slots[slot as int].send_status == send_status::SENT
            &&& batch[j].sender_id matches MessageSender::User(u) ==> !batch[j].is_outgoing && u
                != 0 && !h.names.contains_key(u) ==> step.effects.contains(
                EffectView::FetchUser { user_id: u },
            )
        }),
{
    let step = h.ingested(batch, is_initial);
    let after = step.history;
    let ordered = by_id(batch);
    let r = h.reaching(ordered.first().id);
    let intake = r.taken_in(ordered);
    let g = intake.step.history;
    let replies = g.replies_resolved(intake.inserted);
    lemma_ingested(h, batch, is_initial);
    sorting_keeps_the_messages(batch);
    lemma_intake(r, ordered);
    lemma_headers_only(g, intake.inserted);
    lemma_sorted_holds(batch, batch[j]);
    let p = choose|p: int| 0 <= p < ordered.len() && ordered[p] == batch[j];
    assert(g.index.contains_key(ordered[p].id));
    let q = choose|q: int| 0 <= q < intake.inserted.len() && intake.inserted[q] == batch[j].id;
    let s = h.slots.len() + q;
    assert(g.index[intake.inserted[q]] == s);
    let p = choose|p: int|
        0 <= p < ordered.len() && taken_as(
            r,
            intake.users,
            #[trigger] g.slots[s],
            #[trigger] ordered[p],
        );
    lemma_sorted_came_from(batch, p);
    let i = choose|i: int| 0 <= i < batch.len() && batch[i] == ordered[p];
    assert(batch[i].id == batch[j].id);
    assert(same_apart_from_header(g.slots[s], replies.history.slots[s]));
    assert(same_apart_from_state(replies.history.slots[s], after.slots[s]));
    assert(arrived(h, after.slots[s], batch[j]));
    lemma_read_slots(
        replies.history,
        replies.history.last_read_outbox,
        replies.history.slots.len() as int,
    );
    match batch[j].sender_id {
        MessageSender::User(u) => {
            unknown_users_are_fetched(g, intake.users, u);
            let wanted = EffectView::FetchUser { user_id: u };
            if !batch[j].is_outgoing && u != 0 && !h.names.contains_key(u) {
                assert(g.fetches(intake.users).contains(wanted));
            }
        },
        MessageSender::Chat(_) => {},
    }
}

proof fn lemma_sorted_holds(batch: Seq<MessageValue>, m: MessageValue)
    requires
        batch.contains(m),
    ensures
        by_id(batch).contains(m),
{
    broadcast use vstd::seq_lib::group_to_multiset_ensures;

    sorting_keeps_the_messages(batch);
    assert(batch.to_multiset().count(m) > 0);
}

proof fn lemma_sorted_came_from(batch: Seq<MessageValue>, p: int)
    requires
        0 <= p < by_id(batch).len(),
    ensures
        batch.contains(by_id(batch)[p]),
{
    broadcast use vstd::seq_lib::group_to_multiset_ensures;

    sorting_keeps_the_messages(batch);
    assert(by_id(batch).contains(by_id(batch)[p]));
    assert(by_id(batch).to_multiset().count(by_id(batch)[p]) > 0);
}

/// After a group took a batch in, every row of a new incoming message of a user
/// whose name is known carries that name, and there is such a row.
pub proof fn known_senders_are_named(
    h: HistoryView,
    batch: Seq<MessageValue>,
    is_initial: bool,
    j: int,
    u: i64,
)
    requires
        consistent(h),
        h.slots.len() + batch.len() <= usize::MAX,
        0 <= j < batch.len(),
        !h.index.contains_key(batch[j].id),
        forall|i: int| 0 <= i < batch.len() && (#[trigger] batch[i]).id == batch[j].id ==> batch[i]
            == batch[j],
        h.is_group,
        !batch[j].is_outgoing,
        batch[j].sender_id == MessageSender::User(u),
        h.names.contains_key(u),
    ensures
        ({
            let after = h.ingested(batch, is_initial).history;
            &&& exists|i: int| 0 <= i < after.store.len() && (#[trigger] after.row(i)).id
                == batch[j].id
            &&& forall|i: int|
                0 <= i < after.store.len() && (#[trigger] after.row(i)).id == batch[j].id
                    ==> after.row(i).sender_name == h.names[u]
        }),
{
    let after = h.ingested(batch, is_initial).history;
    batch_is_shown_as_reported(h, batch, is_initial, j);
    ingesting_loads_the_batch(h, batch, is_initial);
    let slot = after.index[batch[j].id];
    let at = choose|i: int| 0 <= i < after.store.len() && after.store[i] == slot;
    assert(after.row(at).id == batch[j].id);
    assert forall|i: int|
        0 <= i < after.store.len() && (#[trigger] after.row(i)).id == batch[j].id implies after.row(
        i,
    ).sender_name == h.names[u] by {
        assert(after.lookup(after.row(i).id) == Some(after.store[i]));
    }
}

/// Taking a batch in leaves the messages that were loaded as they were, but for
/// outgoing ones that the recipient has read.
pub proof fn loaded_messages_stay(
    h: HistoryView,
    batch: Seq<MessageValue>,
    is_initial: bool,
    id: i64,
)
    requires
        consistent(h),
        h.slots.len() + batch.len() <= usize::MAX,
        h.index.contains_key(id),
    ensures
        ({
            let after = h.ingested(batch, is_initial).history;
            let m = h.slots[h.index[id] as int];
            &&& after.index.contains_key(id)
            &&& after.index[id] == h.index[id]
            &&& after.slots[h.index[id] as int] == m || m.is_outgoing && m.id
                <= h.last_read_outbox && m.send_status == send_status::SENT
                && after.slots[h.index[id] as int] == (MessageView {
                send_status: send_status::READ,
                ..m
            })
        }),
{
    if batch.len() > 0 {
        let ordered = by_id(batch);
        let r = h.reaching(ordered.first().id);
        let intake = r.taken_in(ordered);
        let g = intake.step.history;
        lemma_ingested(h, batch, is_initial);
        sorting_keeps_the_messages(batch);
        lemma_intake(r, ordered);
        lemma_headers_only(g, intake.inserted);
        let replies = g.replies_resolved(intake.inserted);
        let slot = h.index[id] as int;
        assert(g.slots[slot] == h.slots[slot]);
        assert forall|k: int|
            0 <= k < intake.inserted.len() && g.index.contains_key(
                #[trigger] intake.inserted[k],
            ) implies g.index[intake.inserted[k]] != slot by {
            assert(g.index[intake.inserted[k]] == h.slots.len() + k);
        }
        assert(replies.history.slots[slot] == g.slots[slot]);
        lemma_read_slots(
            replies.history,
            replies.history.last_read_outbox,
            replies.history.slots.len() as int,
        );
    }
}

/// A new reply quotes its target if that is loaded: the header names the target's
/// sender and says its text in short. Otherwise the target is fetched, and there
/// is no header yet.
pub proof fn new_replies_quote_their_targets(
    h: HistoryView,
    batch: Seq<MessageValue>,
    is_initial: bool,
    id: i64,
)
    requires
        consistent(h),
        h.slots.len() + batch.len() <= usize::MAX,
        !h.index.contains_key(id),
        h.ingested(batch, is_initial).history.index.contains_key(id),
    ensures
        ({
            let step = h.ingested(batch, is_initial);
            let after = step.history;
            let m = after.slots[after.index[id] as int];
            &&& m.reply_to_id == 0 ==> m.reply_sender.len() == 0 && m.reply_snippet.len() == 0
            &&& m.reply_to_id != 0 && after.index.contains_key(m.reply_to_id) ==> quotes(
                h.names,
                m,
                after.slots[after.index[m.reply_to_id] as int],
            )
            &&& m.reply_to_id != 0 && !after.index.contains_key(m.reply_to_id) ==> {
                &&& m.reply_sender.len() == 0
                &&& m.reply_snippet.len() == 0
                &&& step.effects.contains(
                    EffectView::FetchReply { message_id: id, target: m.reply_to_id },
                )
            }
        }),
{
    let step = h.ingested(batch, is_initial);
    let after = step.history;
    assert(batch.len() > 0);
    let ordered = by_id(batch);
    let r = h.reaching(ordered.first().id);
    let intake = r.taken_in(ordered);
    let g = intake.step.history;
    lemma_ingested(h, batch, is_initial);
    sorting_keeps_the_messages(batch);
    lemma_intake(r, ordered);
    lemma_headers_only(g, intake.inserted);
    let replies = g.replies_resolved(intake.inserted);
    assert(g.index.contains_key(id));
    let q = choose|q: int| 0 <= q < intake.inserted.len() && intake.inserted[q] == id;
    let s = h.slots.len() + q;
    assert(g.index[intake.inserted[q]] == s);
    let p = choose|p: int|
        0 <= p < ordered.len() && taken_as(
            r,
            intake.users,
            #[trigger] g.slots[s],
            #[trigger] ordered[p],
        );
    assert(taken_as(r, intake.users, g.slots[s], ordered[p]));
    assert(same_apart_from_state(replies.history.slots[s], after.slots[s]));
    let t = g.slots[s].reply_to_id;
    if t != 0 {
        assert(lacks_header(g, intake.inserted[q]));
        replies_quote_their_targets(g, intake.inserted, q);
        if g.index.contains_key(t) {
            let target = g.index[t] as int;
            assert(same_apart_from_header(g.slots[target], replies.history.slots[target]));
            assert(same_apart_from_state(replies.history.slots[target], after.slots[target]));
        }
    } else {
        lemma_no_reply(g, intake.inserted, s as int);
    }
}

/// A message that is no reply gets no header.
pub(crate) proof fn lemma_no_reply(h: HistoryView, ids: Seq<i64>, slot: int)
    requires
        h.in_range(),
        0 <= slot < h.slots.len(),
        h.slots[slot].reply_to_id == 0,
    ensures
        h.replies_resolved(ids).history.slots[slot] == h.slots[slot],
    decreases ids.len(),
{
    if ids.len() > 0 {
        lemma_no_reply(h, ids.drop_last(), slot);
        lemma_headers_only(h, ids.drop_last());
    }
}

/// The oldest id that is known reaches down to every message of the batch, and
/// no further.
pub proof fn oldest_id_is_the_least(
    h: HistoryView,
    batch: Seq<MessageValue>,
    is_initial: bool,
    j: int,
)
    requires
        consistent(h),
        h.slots.len() + batch.len() <= usize::MAX,
        0 <= j < batch.len(),
    ensures
        ({
            let after = h.ingested(batch, is_initial).history;
            &&& after.oldest_id <= batch[j].id
            &&& h.oldest_id != 0 ==> after.oldest_id <= h.oldest_id
            &&& after.oldest_id == h.oldest_id && h.oldest_id != 0 || exists|i: int|
                0 <= i < batch.len() && (#[trigger] batch[i]).id == after.oldest_id
            &&& after.reached_top == h.reached_top
            &&& after.loading_older == h.loading_older
            &&& after.last_read_outbox == h.last_read_outbox
            &&& after.names == h.names
            &&& after.is_group == h.is_group
            &&& after.temp_ids == h.temp_ids
        }),
{
    let ordered = by_id(batch);
    let r = h.reaching(ordered.first().id);
    lemma_ingested(h, batch, is_initial);
    sorting_keeps_the_messages(batch);
    lemma_intake(r, ordered);
    lemma_sorted_came_from(batch, 0);
    assert(batch.contains(ordered[0]));
    let i = choose|i: int| 0 <= i < batch.len() && batch[i] == ordered[0];
    assert(batch[i].id == ordered.first().id);
    lemma_sorted_holds(batch, batch[j]);
    let p = choose|p: int| 0 <= p < ordered.len() && ordered[p] == batch[j];
    assert(in_order(ordered));
}

/// Once a request for older messages brings none, the top was reached; no first
/// batch says so.
pub proof fn empty_batch_ends_paging(h: HistoryView)
    ensures
        h.ingested(Seq::empty(), false).history.reached_top,
        h.ingested(Seq::empty(), true).history.reached_top == h.reached_top,
        h.ingested(Seq::empty(), false).history.slots == h.slots,
        h.ingested(Seq::empty(), false).history.store == h.store,
        h.ingested(Seq::empty(), true).history.slots == h.slots,
        h.ingested(Seq::empty(), true).history.store == h.store,
{
}

proof fn lemma_incoming(batch: Seq<MessageValue>, id: i64)
    ensures
        incoming_ids(batch).contains(id) <==> exists|i: int|
            0 <= i < batch.len() && (#[trigger] batch[i]).id == id && !batch[i].is_outgoing,
    decreases batch.len(),
{
    if batch.len() > 0 {
        let rest = batch.drop_last();
        let few = incoming_ids(rest);
        let all = incoming_ids(batch);
        lemma_incoming(rest, id);
        if few.contains(id) {
            let k = choose|k: int| 0 <= k < few.len() && few[k] == id;
            assert(all[k] == id);
            let i = choose|i: int|
                0 <= i < rest.len() && (#[trigger] rest[i]).id == id && !rest[i].is_outgoing;
            assert(batch[i] == rest[i]);
        }
        assert(batch[batch.len() - 1] == batch.last());
        if !batch.last().is_outgoing && batch.last().id == id {
            assert(all[all.len() - 1] == id);
        }
        if all.contains(id) && !few.contains(id) {
            let k = choose|k: int| 0 <= k < all.len() && all[k] == id;
            if k < few.len() {
                assert(few[k] == id);
            }
        }
        if exists|i: int|
            0 <= i < batch.len() && (#[trigger] batch[i]).id == id && !batch[i].is_outgoing {
            let i = choose|i: int|
                0 <= i < batch.len() && (#[trigger] batch[i]).id == id && !batch[i].is_outgoing;
            if i < rest.len() {
                assert(rest[i] == batch[i]);
            }
        }
    }
}

/// The first batch is shown from its end, every row is bound, and exactly its
/// incoming messages are marked as seen. An older batch leaves the reader where
/// they were and marks nothing.
pub proof fn first_batch_is_seen(h: HistoryView, batch: Seq<MessageValue>, id: i64)
    requires
        consistent(h),
        h.slots.len() + batch.len() <= usize::MAX,
        batch.len() > 0,
    ensures
        ({
            let step = h.ingested(batch, true);
            let older = h.ingested(batch, false);
            let n = step.history.store.len();
            &&& step.effects.contains(EffectView::ScrollToBottom)
            &&& n > 0 ==> step.effects.contains(EffectView::Rebind { start: 0, count: n as usize })
            &&& (exists|i: int|
                0 <= i < batch.len() && (#[trigger] batch[i]).id == id && !batch[i].is_outgoing)
                <==> (step.effects.last() matches EffectView::ViewMessages { ids } && ids.contains(
                id,
            ))
            &&& older.effects.contains(EffectView::RestoreAnchor)
            &&& older.history == step.history
        }),
{
    let ordered = by_id(batch);
    sorting_keeps_the_messages(batch);
    let step = h.ingested(batch, true);
    let older = h.ingested(batch, false);
    let r = h.reaching(ordered.first().id);
    let intake = r.taken_in(ordered);
    let users = intake.step.history.fetches(intake.users);
    let replies = intake.step.history.replies_resolved(intake.inserted);
    let read = replies.history.read_refreshed(replies.history.last_read_outbox);
    let effects = intake.step.effects + users + replies.effects + read.effects;
    let n = read.history.store.len();
    assert(older.effects.last() == EffectView::RestoreAnchor);
    assert(older.effects.contains(older.effects.last()));
    let bound = effects + read.history.rebind_all();
    if n > 0 {
        assert(step.effects[effects.len() as int] == (EffectView::Rebind {
            start: 0,
            count: n as usize,
        }));
    }
    assert(step.effects[bound.len() as int] == EffectView::ScrollToBottom);
    lemma_incoming(ordered, id);
    let ids = incoming_ids(ordered);
    if ids.len() > 0 {
        assert(step.effects.last() == (EffectView::ViewMessages { ids }));
    } else {
        assert(step.effects.last() == EffectView::ScrollToBottom);
        assert(!ids.contains(id));
    }
    if exists|i: int|
        0 <= i < batch.len() && (#[trigger] batch[i]).id == id && !batch[i].is_outgoing {
        let i = choose|i: int|
            0 <= i < batch.len() && (#[trigger] batch[i]).id == id && !batch[i].is_outgoing;
        lemma_sorted_holds(batch, batch[i]);
        let p = choose|p: int| 0 <= p < ordered.len() && ordered[p] == batch[i];
        assert(ordered[p].id == id);
    }
    if ids.contains(id) {
        let p = choose|p: int|
            0 <= p < ordered.len() && (#[trigger] ordered[p]).id == id && !ordered[p].is_outgoing;
        lemma_sorted_came_from(batch, p);
        let i = choose|i: int| 0 <= i < batch.len() && batch[i] == ordered[p];
        assert(batch[i].id == id);
    }
}

/// After an older batch the rows that it added on top are bound, and the one
/// below them with them.
pub proof fn older_rows_are_painted(h: HistoryView, batch: Seq<MessageValue>, i: int)
    requires
        consistent(h),
        h.slots.len() + batch.len() < usize::MAX,
        batch.len() > 0,
        0 <= i < h.ingested(batch, false).history.store.len() <= usize::MAX,
        i <= h.ingested(batch, false).history.store.len() - h.store.len(),
    ensures
        ({
            let step = h.ingested(batch, false);
            let n = step.effects.len();
            &&& n >= 2
            &&& step.effects[n - 2] matches EffectView::Rebind { start, count } && start <= i
                < start + count
        }),
{
    let ordered = by_id(batch);
    sorting_keeps_the_messages(batch);
    let r = h.reaching(ordered.first().id);
    let intake = r.taken_in(ordered);
    lemma_intake(r, ordered);
    lemma_ingested(h, batch, false);
    lemma_rows_added(r, ordered);
}

proof fn lemma_rows_added(h: HistoryView, ordered: Seq<MessageValue>)
    ensures
        h.taken_in(ordered).step.history.store.len() <= h.store.len() + h.taken_in(
            ordered,
        ).inserted.len(),
    decreases ordered.len(),
{
    if ordered.len() > 0 {
        let rest = ordered.drop_last();
        lemma_rows_added(h, rest);
        let before = h.taken_in(rest);
        let b = before.step.history;
        let msg = ordered.last();
        if !b.index.contains_key(msg.id) {
            let m = b.named(MessageView::from_message(msg), msg.sender_id);
            let w = b.with_slot(m);
            let slot = b.slots.len() as usize;
            lemma_place(w.ids(), w.slots[slot as int].id, 0, w.store.len() as int);
        }
    }
}

pub(crate) proof fn lemma_place(ids: Seq<i64>, id: i64, lo: int, hi: int)
    requires
        0 <= lo <= hi,
    ensures
        lo <= insertion_point(ids, id, lo, hi) <= hi,
    decreases hi - lo,
{
    if lo < hi {
        let mid = (lo + hi) / 2;
        if ids[mid] < id {
            lemma_place(ids, id, mid + 1, hi);
        } else {
            lemma_place(ids, id, lo, mid);
        }
    }
}

} // verus!
