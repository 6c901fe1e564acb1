//! What a loaded history shows after each thing that can happen to a message.

use crate::models::kind;
use crate::models::message_laws::{content_is_shown, new_row_reports_its_message,
    refreshed_row_reports_its_message, reports, shows};
use crate::models::message_object::{chips, MessageView};
use crate::models::send_status;
use crate::tdlib::types::{ContentView, MessageSender, MessageValue, ReactionView};
use crate::ui::chat_view::batch_laws::{arrived, lacks_header, lemma_headers_only, lemma_no_reply,
    lemma_place, quotes, replies_quote_their_targets, unknown_users_are_fetched};
use crate::ui::chat_view::effect::EffectView;
use crate::ui::chat_view::laws::{consistent, lemma_added, lemma_first_at, lemma_read_slots};
use crate::ui::chat_view::model::{first_at, last_before, present, push_some, seen,
    user_to_resolve, HistoryView};
use crate::ui::chat_view::names::snippet_text;
use vstd::prelude::*;

verus! {

/// Whether one of the effects binds row `i` anew.
pub open spec fn rebinds(effects: Seq<EffectView>, i: int) -> bool {
    exists|k: int|
        0 <= k < effects.len() && (#[trigger] effects[k] matches EffectView::Rebind { start, count }
            && start <= i < start + count)
}

proof fn lemma_joined(a: Seq<EffectView>, b: Seq<EffectView>)
    ensures
        forall|e: EffectView| #[trigger] a.contains(e) ==> (a + b).contains(e),
        forall|e: EffectView| #[trigger] b.contains(e) ==> (a + b).contains(e),
        forall|i: int| #[trigger] rebinds(a, i) ==> rebinds(a + b, i),
        forall|i: int| #[trigger] rebinds(b, i) ==> rebinds(a + b, i),
{
    let all = a + b;
    assert forall|e: EffectView| #[trigger] a.contains(e) implies all.contains(e) by {
        let k = choose|k: int| 0 <= k < a.len() && a[k] == e;
        assert(all[k] == e);
    }
    assert forall|e: EffectView| #[trigger] b.contains(e) implies all.contains(e) by {
        let k = choose|k: int| 0 <= k < b.len() && b[k] == e;
        assert(all[a.len() + k] == e);
    }
    assert forall|i: int| #[trigger] rebinds(a, i) implies rebinds(all, i) by {
        let k = choose|k: int|
            0 <= k < a.len() && (#[trigger] a[k] matches EffectView::Rebind { start, count }
                && start <= i < start + count);
        assert(all[k] == a[k]);
    }
    assert forall|i: int| #[trigger] rebinds(b, i) implies rebinds(all, i) by {
        let k = choose|k: int|
            0 <= k < b.len() && (#[trigger] b[k] matches EffectView::Rebind { start, count }
                && start <= i < start + count);
        assert(all[a.len() + k] == b[k]);
    }
}

/// Binding the row of a message anew reaches that row.
proof fn lemma_rebind_of(h: HistoryView, id: i64, at: int)
    requires
        consistent(h),
        0 <= at < h.store.len() <= usize::MAX,
        h.row(at).id == id,
    ensures
        rebinds(h.rebind_of(id), at),
{
    lemma_first_at(h.ids(), id, 0);
    assert(h.ids()[at] == id);
    let found = first_at(h.ids(), id, 0)->0;
    assert(h.ids()[found] == id);
    assert(found == at);
    assert(h.rebind_of(id)[0] == (EffectView::Rebind { start: at as usize, count: 1 }));
}

proof fn lemma_rebind_around(h: HistoryView, at: int, i: int)
    requires
        0 <= at < h.store.len() <= usize::MAX,
        0 <= i < h.store.len(),
        at - 1 <= i <= at + 1,
    ensures
        rebinds(h.rebind_around(at), i),
{
    let e = h.rebind_around(at)[0];
    assert(e is Rebind);
}

proof fn lemma_last_before(ids: Seq<i64>, id: i64, to: int, i: int)
    requires
        0 <= i < to <= ids.len(),
        ids[i] == id,
    ensures
        last_before(ids, id, to) is Some,
        i <= last_before(ids, id, to)->0 < to,
    decreases to,
{
    if ids[to - 1] != id {
        lemma_last_before(ids, id, to - 1, i);
    }
}

proof fn lemma_first_is_least(ids: Seq<i64>, id: i64, from: int, i: int)
    requires
        0 <= from <= i < ids.len(),
        ids[i] == id,
    ensures
        first_at(ids, id, from) is Some,
        from <= first_at(ids, id, from)->0 <= i,
    decreases ids.len() - from,
{
    if ids[from] != id {
        lemma_first_is_least(ids, id, from + 1, i);
    }
}

/// Binding an album anew reaches every row of it.
proof fn lemma_rebind_album(h: HistoryView, album: i64, i: int)
    requires
        0 <= i < h.store.len() <= usize::MAX,
        album != 0,
        h.row(i).media_album_id == album,
    ensures
        rebinds(h.rebind_album(album), i),
{
    assert(h.albums()[i] == album);
    lemma_first_is_least(h.albums(), album, 0, i);
    lemma_last_before(h.albums(), album, h.store.len() as int, i);
    let e = h.rebind_album(album)[0];
    assert(e is Rebind);
}

// --- New messages ------------------------------------------------------------

/// The message of a slot that was just added, with its reply header.
proof fn lemma_added_and_resolved(h: HistoryView, m: MessageView)
    requires
        consistent(h),
        h.slots.len() < usize::MAX,
        !h.index.contains_key(m.id),
        m.reply_sender.len() == 0,
        m.reply_snippet.len() == 0,
    ensures
        ({
            let g = h.added(m);
            let step = g.replies_resolved(seq![m.id]);
            let after = step.history;
            let n = h.slots.len() as int;
            let shown = after.slots[n];
            &&& after == HistoryView { slots: after.slots, ..g }
            &&& after.slots.len() == n + 1
            &&& after.index.contains_key(m.id)
            &&& after.index[m.id] == n
            &&& forall|s: int| 0 <= s < n ==> (#[trigger] after.slots[s]) == h.slots[s]
            &&& shown == MessageView {
                reply_sender: shown.reply_sender,
                reply_snippet: shown.reply_snippet,
                ..m
            }
            &&& consistent(g)
            &&& answers(after, step.effects, m.id)
        }),
{
    lemma_added(h, m);
    let g = h.added(m);
    let ids = seq![m.id];
    let n = h.slots.len() as int;
    lemma_headers_only(g, ids);
    let step = g.replies_resolved(ids);
    let after = step.history;
    assert(g.slots[n] == m);
    assert forall|s: int| 0 <= s < n implies (#[trigger] after.slots[s]) == h.slots[s] by {
        assert(g.slots[s] == h.slots[s]);
        assert forall|k: int| 0 <= k < ids.len() && g.index.contains_key(#[trigger] ids[k]) implies
            g.index[ids[k]] != s by {}
    }
    if m.reply_to_id != 0 {
        assert(lacks_header(g, ids[0]));
        replies_quote_their_targets(g, ids, 0);
        if g.index.contains_key(m.reply_to_id) {
            let t = g.index[m.reply_to_id] as int;
            assert(g.index.contains_key(m.reply_to_id));
            assert(after.slots[t] == g.slots[t] || t == n);
        }
    } else {
        lemma_no_reply(g, ids, n);
    }
}

/// Whether the loaded reply `id` quotes its target where that is loaded, and the
/// target is asked for where it is not. A message that is no reply has no
/// header.
pub open spec fn answers(h: HistoryView, effects: Seq<EffectView>, id: i64) -> bool {
    let m = h.slots[h.index[id] as int];
    &&& m.reply_to_id == 0 ==> m.reply_sender.len() == 0 && m.reply_snippet.len() == 0
    &&& m.reply_to_id != 0 && h.index.contains_key(m.reply_to_id) ==> quotes(
        h.names,
        m,
        h.slots[h.index[m.reply_to_id] as int],
    )
    &&& m.reply_to_id != 0 && !h.index.contains_key(m.reply_to_id) ==> m.reply_sender.len() == 0
        && m.reply_snippet.len() == 0 && effects.contains(
        EffectView::FetchReply { message_id: id, target: m.reply_to_id },
    )
}

/// A message that arrives is shown as the server reported it, in a group under
/// the name of its user where that is known; an unknown user is fetched, a reply
/// quotes its target, and no other message changes. The view moves to its end,
/// and an incoming message is marked as seen.
pub proof fn arriving_message_is_shown(h: HistoryView, msg: MessageValue)
    requires
        consistent(h),
        h.slots.len() < usize::MAX,
        !h.index.contains_key(msg.id),
        !h.temp_ids.contains(msg.id),
    ensures
        ({
            let step = h.new_message(msg);
            let after = step.history;
            let n = h.slots.len() as int;
            &&& after.index.contains_key(msg.id)
            &&& after.index[msg.id] == n
            &&& arrived(h, after.slots[n], msg)
            &&& msg.sending_state is Some ==> after.slots[n].send_status == send_status::PENDING
            &&& msg.sending_state is None ==> after.slots[n].send_status == send_status::SENT
            &&& answers(after, step.effects, msg.id)
            &&& forall|s: int| 0 <= s < n ==> (#[trigger] after.slots[s]) == h.slots[s]
            &&& after == HistoryView {
                slots: after.slots,
                store: after.store,
                index: after.index,
                ..h
            }
            &&& msg.sender_id matches MessageSender::User(u) ==> !msg.is_outgoing && u != 0
                && !h.names.contains_key(u) ==> step.effects.contains(
                EffectView::FetchUser { user_id: u },
            )
            &&& step.effects.contains(EffectView::ScrollToBottom)
            &&& !msg.is_outgoing ==> step.effects.last() == (EffectView::ViewMessages {
                ids: seq![msg.id],
            })
            &&& msg.is_outgoing ==> step.effects.last() == EffectView::ScrollToBottom
        }),
{
    let step = h.new_message(msg);
    let m = h.named(MessageView::from_message(msg), msg.sender_id);
    new_row_reports_its_message(msg);
    assert(reports(m, msg));
    lemma_added_and_resolved(h, m);
    let g = h.added(m);
    let at = h.with_slot(m).place(m.id);
    let replies = g.replies_resolved(seq![msg.id]);
    let after = replies.history;
    let users = push_some(Seq::empty(), user_to_resolve(msg));
    let inserted = seq![
        EffectView::Inserted { position: at as usize, slot: h.slots.len() as usize },
    ];
    let fetched = g.fetches(users);
    let around = after.rebind_around(at);
    let album = after.rebind_album(msg.media_album_id);
    let shown = (inserted + fetched + replies.effects + around + album).push(
        EffectView::ScrollToBottom,
    );
    assert(shown[shown.len() - 1] == EffectView::ScrollToBottom);
    assert(shown.contains(EffectView::ScrollToBottom));
    let ids = if msg.is_outgoing {
        Seq::<i64>::empty()
    } else {
        seq![msg.id]
    };
    let marked = seen(ids);
    assert(step.effects == shown + marked);
    lemma_joined(inserted, fetched);
    lemma_joined(inserted + fetched, replies.effects);
    lemma_joined(inserted + fetched + replies.effects, around);
    lemma_joined(inserted + fetched + replies.effects + around, album);
    lemma_joined(
        inserted + fetched + replies.effects + around + album,
        seq![EffectView::ScrollToBottom],
    );
    assert(shown =~= inserted + fetched + replies.effects + around + album + seq![
        EffectView::ScrollToBottom,
    ]);
    lemma_joined(shown, marked);
    match msg.sender_id {
        MessageSender::User(u) => {
            unknown_users_are_fetched(g, users, u);
            if !msg.is_outgoing {
                assert(users[0] == u);
                assert(users.contains(u));
            }
        },
        MessageSender::Chat(_) => {},
    }
}

/// The row of a message that arrives is bound, and with it the rows above and
/// below it and every row of its album.
pub proof fn arriving_message_is_painted(h: HistoryView, msg: MessageValue, at: int, i: int)
    requires
        consistent(h),
        h.slots.len() < usize::MAX,
        !h.index.contains_key(msg.id),
        !h.temp_ids.contains(msg.id),
        0 <= at < h.new_message(msg).history.store.len() <= usize::MAX,
        h.new_message(msg).history.row(at).id == msg.id,
        0 <= i < h.new_message(msg).history.store.len(),
        at - 1 <= i <= at + 1 || msg.media_album_id != 0 && h.new_message(msg).history.row(
            i,
        ).media_album_id == msg.media_album_id,
    ensures
        rebinds(h.new_message(msg).effects, i),
{
    let step = h.new_message(msg);
    let m = h.named(MessageView::from_message(msg), msg.sender_id);
    new_row_reports_its_message(msg);
    lemma_added_and_resolved(h, m);
    let g = h.added(m);
    let pos = h.with_slot(m).place(m.id);
    let replies = g.replies_resolved(seq![msg.id]);
    let after = replies.history;
    let around = after.rebind_around(pos);
    let album = after.rebind_album(msg.media_album_id);
    lemma_added(h, m);
    assert(g.ids()[pos] == msg.id);
    lemma_headers_only(g, seq![msg.id]);
    let slot = g.store[at] as int;
    assert(slot < g.slots.len());
    assert(after.slots[slot].id == g.slots[slot].id);
    assert(g.ids()[at] == msg.id);
    assert(at == pos);
    if at - 1 <= i <= at + 1 {
        lemma_rebind_around(after, pos, i);
    } else {
        lemma_rebind_album(after, msg.media_album_id, i);
    }
    let users = push_some(Seq::empty(), user_to_resolve(msg));
    let before = seq![
        EffectView::Inserted { position: pos as usize, slot: h.slots.len() as usize },
    ] + g.fetches(users) + replies.effects;
    lemma_joined(before, around);
    lemma_joined(before + around, album);
    let tail = step.effects.skip((before + around + album).len() as int);
    assert(step.effects =~= (before + around + album) + tail);
    lemma_joined(before + around + album, tail);
}

/// Whether two histories hold the same messages, except for that in `slot`.
pub open spec fn others_stay(h: HistoryView, g: HistoryView, slot: int) -> bool {
    &&& g.slots.len() == h.slots.len()
    &&& forall|s: int| 0 <= s < h.slots.len() && s != slot ==> (#[trigger] g.slots[s]) == h.slots[s]
}

/// Whether `m` says what `msg` reports and keeps what was looked up for
/// `before`.
pub open spec fn refreshed(before: MessageView, m: MessageView, msg: MessageValue) -> bool {
    &&& reports(m, msg)
    &&& msg.sending_state is Some ==> m.send_status == send_status::PENDING
    &&& msg.sending_state is None ==> m.send_status == send_status::SENT
    &&& m.sender_name == before.sender_name
    &&& m.avatar_file_id == before.avatar_file_id
    &&& m.reply_sender == before.reply_sender
    &&& m.reply_snippet == before.reply_snippet
}

/// A message that is loaded already says what the server reports now. It keeps
/// its place and what was looked up for it, is repainted and bound anew, and no
/// other message changes.
pub proof fn known_message_is_refreshed(h: HistoryView, msg: MessageValue, at: int)
    requires
        consistent(h),
        h.index.contains_key(msg.id),
        0 <= at < h.store.len() <= usize::MAX,
        h.row(at).id == msg.id,
    ensures
        ({
            let step = h.new_message(msg);
            let after = step.history;
            let slot = h.index[msg.id];
            &&& after == HistoryView { slots: after.slots, ..h }
            &&& others_stay(h, after, slot as int)
            &&& refreshed(h.slots[slot as int], after.slots[slot as int], msg)
            &&& after.slots[slot as int].is_pending == (msg.sending_state is Some)
            &&& step.effects.contains(EffectView::Repaint { slot })
            &&& rebinds(step.effects, at)
        }),
{
    let step = h.new_message(msg);
    let after = step.history;
    let slot = h.index[msg.id];
    refreshed_row_reports_its_message(h.slots[slot as int], msg);
    assert(h.lookup(h.row(at).id) == Some(h.store[at]));
    assert(after.ids() =~= h.ids());
    assert(consistent(after)) by {
        assert forall|i: int| 0 <= i < after.store.len() implies after.lookup(after.row(i).id)
            == Some(#[trigger] after.store[i]) by {
            assert(h.lookup(h.row(i).id) == Some(h.store[i]));
            assert(after.ids()[i] == h.ids()[i]);
        }
    }
    assert(after.row(at).id == msg.id);
    lemma_rebind_of(after, msg.id, at);
    let repaint = seq![EffectView::Repaint { slot }];
    assert(repaint[0] == (EffectView::Repaint { slot }));
    lemma_joined(repaint, after.rebind_of(msg.id));
    assert(repaint.contains(EffectView::Repaint { slot }));
}

/// A message of ours that was just sent is shown as it was sent, quotes what it
/// replies to, and is known to await its confirmation. No other message
/// changes.
pub proof fn sent_message_is_shown(h: HistoryView, msg: MessageValue)
    requires
        consistent(h),
        h.slots.len() < usize::MAX,
        !h.index.contains_key(msg.id),
    ensures
        ({
            let step = h.sent(msg);
            let after = step.history;
            let n = h.slots.len() as int;
            &&& after.temp_ids == h.temp_ids.insert(msg.id)
            &&& after.index.contains_key(msg.id)
            &&& after.index[msg.id] == n
            &&& reports(after.slots[n], msg)
            &&& after.slots[n].is_pending == (msg.sending_state is Some)
            &&& msg.sending_state is Some ==> after.slots[n].send_status == send_status::PENDING
            &&& msg.sending_state is None ==> after.slots[n].send_status == send_status::SENT
            &&& after == HistoryView {
                slots: after.slots,
                store: after.store,
                index: after.index,
                temp_ids: after.temp_ids,
                ..h
            }
            &&& answers(after, step.effects, msg.id)
            &&& forall|s: int| 0 <= s < n ==> (#[trigger] after.slots[s]) == h.slots[s]
            &&& step.effects.last() == EffectView::ScrollToBottom
        }),
{
    let step = h.sent(msg);
    let m = MessageView::from_message(msg);
    new_row_reports_its_message(msg);
    let w = h.with_temp(msg.id);
    assert(w.ids() =~= h.ids());
    assert(consistent(w)) by {
        assert forall|i: int| 0 <= i < w.store.len() implies w.lookup(w.row(i).id) == Some(
            #[trigger] w.store[i],
        ) by {
            assert(h.lookup(h.row(i).id) == Some(h.store[i]));
        }
    }
    lemma_added_and_resolved(w, m);
    let replies = w.added(m).replies_resolved(seq![msg.id]);
    assert(reports(replies.history.slots[h.slots.len() as int], msg));
    let at = h.with_slot(m).place(m.id);
    let inserted = seq![
        EffectView::Inserted { position: at as usize, slot: h.slots.len() as usize },
    ];
    let around = replies.history.rebind_around(at);
    lemma_joined(inserted, replies.effects);
    lemma_joined(inserted + replies.effects, around);
    lemma_joined(inserted + replies.effects + around, seq![EffectView::ScrollToBottom]);
    assert(step.effects =~= inserted + replies.effects + around + seq![EffectView::ScrollToBottom]);
}

/// A message that the server confirmed is found under its new id, in the slot
/// that it had. It says what was confirmed, keeps what was looked up for it, and
/// awaits nothing any more. No other message changes.
pub proof fn confirmed_message_is_refreshed(h: HistoryView, old_id: i64, msg: MessageValue)
    requires
        h.in_range(),
        h.index.contains_key(old_id),
    ensures
        ({
            let after = h.send_succeeded(old_id, msg).history;
            let slot = h.index[old_id];
            &&& after.temp_ids == h.temp_ids.remove(old_id)
            &&& after.index == h.index.remove(old_id).insert(msg.id, slot)
            &&& after == HistoryView {
                slots: after.slots,
                store: after.store,
                index: after.index,
                temp_ids: after.temp_ids,
                ..h
            }
            &&& others_stay(h, after, slot as int)
            &&& refreshed(h.slots[slot as int], after.slots[slot as int], msg)
            &&& after.slots[slot as int].is_pending == (msg.sending_state is Some)
        }),
{
    refreshed_row_reports_its_message(h.slots[h.index[old_id] as int], msg);
}

/// A confirmation of a message that was never shown shows it.
pub proof fn unknown_confirmation_is_shown(h: HistoryView, old_id: i64, msg: MessageValue)
    requires
        h.in_range(),
        h.slots.len() < usize::MAX,
        !h.index.contains_key(old_id),
        !h.index.contains_key(msg.id),
    ensures
        ({
            let after = h.send_succeeded(old_id, msg).history;
            let n = h.slots.len() as int;
            &&& after.temp_ids == h.temp_ids.remove(old_id)
            &&& after.index == h.index.insert(msg.id, n as usize)
            &&& after == HistoryView {
                slots: after.slots,
                store: after.store,
                index: after.index,
                temp_ids: after.temp_ids,
                ..h
            }
            &&& reports(after.slots[n], msg)
            &&& msg.sending_state is Some ==> after.slots[n].send_status == send_status::PENDING
            &&& msg.sending_state is None ==> after.slots[n].send_status == send_status::SENT
            &&& forall|s: int| 0 <= s < n ==> (#[trigger] after.slots[s]) == h.slots[s]
        }),
{
    new_row_reports_its_message(msg);
}

/// A message that could not be sent stays in its slot, found under the id that
/// it has now, and is marked as pending. No other message changes.
pub proof fn failed_message_is_kept(h: HistoryView, old_id: i64, msg: MessageValue)
    requires
        h.in_range(),
        h.index.contains_key(old_id),
    ensures
        ({
            let after = h.send_failed(old_id, msg).history;
            let slot = h.index[old_id];
            &&& after.temp_ids == h.temp_ids.remove(old_id)
            &&& after.index.contains_key(msg.id)
            &&& after.index[msg.id] == slot
            &&& msg.id != old_id ==> !after.index.contains_key(old_id)
            &&& after == HistoryView {
                slots: after.slots,
                store: after.store,
                index: after.index,
                temp_ids: after.temp_ids,
                ..h
            }
            &&& others_stay(h, after, slot as int)
            &&& refreshed(h.slots[slot as int], after.slots[slot as int], msg)
            &&& after.slots[slot as int].is_pending
        }),
{
    let slot = h.index[old_id] as int;
    let w = h.without_temp(old_id);
    refreshed_row_reports_its_message(h.slots[slot], msg);
    let m = MessageView { is_pending: true, ..h.slots[slot].updated(msg) };
    assert(reports(m, msg));
    assert(h.send_failed(old_id, msg).history.slots == w.with_message(slot, m).slots);
}

// --- Changes in place --------------------------------------------------------

/// A message that was edited shows its new content; all else that it says stays.
/// It is repainted, and bound anew unless it was a text and still is. No other
/// message changes.
pub proof fn edited_message_shows_its_content(
    h: HistoryView,
    id: i64,
    content: ContentView,
    at: int,
)
    requires
        consistent(h),
        h.index.contains_key(id),
        0 <= at < h.store.len() <= usize::MAX,
        h.row(at).id == id,
    ensures
        ({
            let step = h.content_changed(id, content);
            let after = step.history;
            let slot = h.index[id];
            let b = h.slots[slot as int];
            let m = after.slots[slot as int];
            &&& after == HistoryView { slots: after.slots, ..h }
            &&& others_stay(h, after, slot as int)
            &&& shows(m, content)
            &&& m.id == b.id
            &&& m.sender_id == b.sender_id
            &&& m.is_outgoing == b.is_outgoing
            &&& m.date == b.date
            &&& m.sender_name == b.sender_name
            &&& m.is_pending == b.is_pending
            &&& m.send_status == b.send_status
            &&& m.media_album_id == b.media_album_id
            &&& m.reply_to_id == b.reply_to_id
            &&& m.reply_sender == b.reply_sender
            &&& m.reply_snippet == b.reply_snippet
            &&& m.avatar_file_id == b.avatar_file_id
            &&& m.reactions == b.reactions
            &&& step.effects.contains(EffectView::Repaint { slot })
            &&& b.kind != kind::TEXT || m.kind != kind::TEXT ==> rebinds(step.effects, at)
        }),
{
    let step = h.content_changed(id, content);
    let after = step.history;
    let slot = h.index[id];
    content_is_shown(h.slots[slot as int], content);
    assert(after.ids() =~= h.ids());
    assert(consistent(after)) by {
        assert forall|i: int| 0 <= i < after.store.len() implies after.lookup(after.row(i).id)
            == Some(#[trigger] after.store[i]) by {
            assert(h.lookup(h.row(i).id) == Some(h.store[i]));
            assert(after.ids()[i] == h.ids()[i]);
        }
    }
    assert(after.ids()[at] == id);
    lemma_rebind_of(after, id, at);
    let repaint = seq![EffectView::Repaint { slot }];
    assert(repaint[0] == (EffectView::Repaint { slot }));
    assert(repaint.contains(EffectView::Repaint { slot }));
    lemma_joined(repaint, after.rebind_of(id));
    assert(repaint + Seq::empty() =~= repaint);
}

/// A message that was reacted to has the chips of what is reported now, and is
/// repainted. All else that it says stays, and so does every other message.
pub proof fn reactions_reach_their_message(
    h: HistoryView,
    id: i64,
    reactions: Seq<ReactionView>,
)
    requires
        h.in_range(),
        h.index.contains_key(id),
    ensures
        ({
            let step = h.reactions_changed(id, reactions);
            let after = step.history;
            let slot = h.index[id];
            &&& after == HistoryView { slots: after.slots, ..h }
            &&& others_stay(h, after, slot as int)
            &&& after.slots[slot as int] == MessageView {
                reactions: chips(reactions),
                ..h.slots[slot as int]
            }
            &&& step.effects.contains(EffectView::Repaint { slot })
        }),
{
    let step = h.reactions_changed(id, reactions);
    assert(step.effects[0] == (EffectView::Repaint { slot: h.index[id] }));
}

/// The target of a reply that was fetched is quoted: the header names its sender
/// and says its text in short. All else that the reply says stays, its row is
/// bound anew, and no other message changes.
pub proof fn fetched_target_is_quoted(h: HistoryView, id: i64, target: MessageValue, at: int)
    requires
        consistent(h),
        h.index.contains_key(id),
        0 <= at < h.store.len() <= usize::MAX,
        h.row(at).id == id,
    ensures
        ({
            let step = h.reply_fetched(id, target);
            let after = step.history;
            let slot = h.index[id] as int;
            let m = after.slots[slot];
            &&& after == HistoryView { slots: after.slots, ..h }
            &&& others_stay(h, after, slot)
            &&& m == MessageView {
                reply_sender: m.reply_sender,
                reply_snippet: m.reply_snippet,
                ..h.slots[slot]
            }
            &&& target.is_outgoing ==> m.reply_sender == "You"@
            &&& target.sender_id matches MessageSender::User(u) ==> !target.is_outgoing ==> {
                &&& h.names.contains_key(u) ==> m.reply_sender == h.names[u]
                &&& !h.names.contains_key(u) ==> m.reply_sender.len() == 0
            }
            &&& target.sender_id is Chat && !target.is_outgoing ==> m.reply_sender.len() == 0
            &&& m.reply_snippet == snippet_text(MessageView::from_message(target).content_text)
            &&& target.content matches ContentView::MessageText { text } ==> m.reply_snippet
                == snippet_text(text)
            &&& rebinds(step.effects, at)
        }),
{
    let step = h.reply_fetched(id, target);
    let after = step.history;
    let slot = h.index[id] as int;
    assert(after.ids() =~= h.ids());
    assert(consistent(after)) by {
        assert forall|i: int| 0 <= i < after.store.len() implies after.lookup(after.row(i).id)
            == Some(#[trigger] after.store[i]) by {
            assert(h.lookup(h.row(i).id) == Some(h.store[i]));
            assert(after.ids()[i] == h.ids()[i]);
        }
    }
    assert(after.ids()[at] == id);
    lemma_rebind_of(after, id, at);
}

// --- Resolved users and chats ------------------------------------------------

/// Whether row `i` is an incoming message of user `uid`.
pub open spec fn is_from(h: HistoryView, i: int, uid: i64) -> bool {
    0 <= i < h.store.len() && !h.row(i).is_outgoing && h.row(i).sender_id == uid
}

proof fn lemma_distinct_rows(h: HistoryView, i: int, j: int)
    requires
        consistent(h),
        0 <= i < h.store.len(),
        0 <= j < h.store.len(),
        h.store[i] == h.store[j],
    ensures
        i == j,
{
    assert(h.ids()[i] == h.ids()[j]);
}

/// The first `n` rows after a name was put on them.
proof fn lemma_names(h: HistoryView, uid: i64, name: Seq<char>, n: int)
    requires
        consistent(h),
        0 <= n <= h.store.len() <= usize::MAX,
    ensures
        ({
            let step = h.name_applied(uid, name, n);
            let g = step.history;
            &&& g == HistoryView { slots: g.slots, ..h }
            &&& g.slots.len() == h.slots.len()
            &&& forall|i: int|
                0 <= i < h.store.len() ==> (#[trigger] g.row(i)) == (if h.is_group && i < n
                    && is_from(h, i, uid) && h.row(i).sender_name.len() == 0 {
                    MessageView { sender_name: name, ..h.row(i) }
                } else {
                    h.row(i)
                })
            &&& forall|i: int|
                0 <= i < n && h.is_group && #[trigger] is_from(h, i, uid) ==> rebinds(
                    step.effects,
                    i,
                )
        }),
    decreases n,
{
    if n > 0 && h.is_group {
        lemma_names(h, uid, name, n - 1);
        let before = h.name_applied(uid, name, n - 1);
        let step = h.name_applied(uid, name, n);
        let b = before.history;
        let g = step.history;
        assert(b.row(n - 1) == h.row(n - 1));
        assert forall|i: int| 0 <= i < h.store.len() implies (#[trigger] g.row(i)) == (
        if h.is_group && i < n && is_from(h, i, uid) && h.row(i).sender_name.len() == 0 {
            MessageView { sender_name: name, ..h.row(i) }
        } else {
            h.row(i)
        }) by {
            assert(h.store[i] < h.slots.len());
            if h.store[i] == h.store[n - 1] {
                lemma_distinct_rows(h, i, n - 1);
            }
            assert(b.row(i) == b.slots[h.store[i] as int]);
        }
        if b.incoming_from(n - 1, uid) {
            let e = EffectView::Rebind { start: (n - 1) as usize, count: 1 };
            assert(step.effects =~= before.effects + seq![e]);
            lemma_joined(before.effects, seq![e]);
            assert(seq![e][0] == e);
            assert(rebinds(seq![e], n - 1));
        }
        assert forall|i: int| 0 <= i < n && #[trigger] is_from(h, i, uid) implies rebinds(
            step.effects,
            i,
        ) by {
            if i < n - 1 {
                assert(rebinds(before.effects, i));
            }
        }
    }
}

/// The first `n` rows after an avatar was put on them.
proof fn lemma_avatars(h: HistoryView, uid: i64, file_id: i32, n: int)
    requires
        consistent(h),
        0 <= n <= h.store.len() <= usize::MAX,
    ensures
        ({
            let step = h.avatar_applied(uid, file_id, n);
            let g = step.history;
            &&& g == HistoryView { slots: g.slots, ..h }
            &&& g.slots.len() == h.slots.len()
            &&& forall|i: int|
                0 <= i < h.store.len() ==> (#[trigger] g.row(i)) == (if file_id != 0 && i < n
                    && is_from(h, i, uid) && h.row(i).avatar_file_id == 0 {
                    MessageView { avatar_file_id: file_id, ..h.row(i) }
                } else {
                    h.row(i)
                })
            &&& forall|i: int|
                0 <= i < n && file_id != 0 && #[trigger] is_from(h, i, uid) ==> rebinds(
                    step.effects,
                    i,
                )
        }),
    decreases n,
{
    if n > 0 && file_id != 0 {
        lemma_avatars(h, uid, file_id, n - 1);
        let before = h.avatar_applied(uid, file_id, n - 1);
        let step = h.avatar_applied(uid, file_id, n);
        let b = before.history;
        let g = step.history;
        assert(b.row(n - 1) == h.row(n - 1));
        assert forall|i: int| 0 <= i < h.store.len() implies (#[trigger] g.row(i)) == (if file_id
            != 0 && i < n && is_from(h, i, uid) && h.row(i).avatar_file_id == 0 {
            MessageView { avatar_file_id: file_id, ..h.row(i) }
        } else {
            h.row(i)
        }) by {
            assert(h.store[i] < h.slots.len());
            if h.store[i] == h.store[n - 1] {
                lemma_distinct_rows(h, i, n - 1);
            }
            assert(b.row(i) == b.slots[h.store[i] as int]);
        }
        if b.incoming_from(n - 1, uid) {
            let e = EffectView::Rebind { start: (n - 1) as usize, count: 1 };
            assert(step.effects =~= before.effects + seq![e]);
            lemma_joined(before.effects, seq![e]);
            assert(seq![e][0] == e);
            assert(rebinds(seq![e], n - 1));
        }
        assert forall|i: int| 0 <= i < n && #[trigger] is_from(h, i, uid) implies rebinds(
            step.effects,
            i,
        ) by {
            if i < n - 1 {
                assert(rebinds(before.effects, i));
            }
        }
    }
}

/// Once a user is known, each row of theirs that lacks a name gets it in a group,
/// and each that lacks an avatar gets that; rows that have one keep it. These
/// rows are bound anew. Every other row stays as it is, and the name is known
/// from then on.
pub proof fn resolved_user_is_shown(
    h: HistoryView,
    uid: i64,
    name: Seq<char>,
    avatar: i32,
    i: int,
)
    requires
        consistent(h),
        0 <= i < h.store.len() <= usize::MAX,
    ensures
        ({
            let step = h.user_resolved(uid, name, avatar);
            let after = step.history;
            let b = h.row(i);
            let m = after.row(i);
            &&& after.names == h.names.insert(uid, name)
            &&& after == HistoryView { slots: after.slots, names: after.names, ..h }
            &&& !is_from(h, i, uid) ==> m == b
            &&& m == MessageView {
                sender_name: m.sender_name,
                avatar_file_id: m.avatar_file_id,
                ..b
            }
            &&& is_from(h, i, uid) && h.is_group && b.sender_name.len() == 0 ==> m.sender_name
                == name
            &&& !h.is_group || b.sender_name.len() > 0 ==> m.sender_name == b.sender_name
            &&& is_from(h, i, uid) && b.avatar_file_id == 0 ==> m.avatar_file_id == avatar
            &&& b.avatar_file_id != 0 ==> m.avatar_file_id == b.avatar_file_id
            &&& m != b ==> rebinds(step.effects, i)
        }),
{
    let w = HistoryView { names: h.names.insert(uid, name), ..h };
    let n = h.store.len() as int;
    assert(w.ids() =~= h.ids());
    assert(consistent(w)) by {
        assert forall|i: int| 0 <= i < w.store.len() implies w.lookup(w.row(i).id) == Some(
            #[trigger] w.store[i],
        ) by {
            assert(h.lookup(h.row(i).id) == Some(h.store[i]));
        }
    }
    lemma_names(w, uid, name, n);
    let named = w.name_applied(uid, name, n);
    let g = named.history;
    assert forall|j: int| 0 <= j < n implies #[trigger] g.ids()[j] == w.ids()[j] by {
        assert(g.row(j).id == w.row(j).id);
    }
    assert(g.ids() =~= w.ids());
    assert(consistent(g)) by {
        assert forall|i: int| 0 <= i < g.store.len() implies g.lookup(g.row(i).id) == Some(
            #[trigger] g.store[i],
        ) by {
            assert(w.lookup(w.row(i).id) == Some(w.store[i]));
            assert(g.ids()[i] == w.ids()[i]);
        }
        assert forall|k: i64| #[trigger] g.index.contains_key(k) implies g.slots[g.index[k] as int].id
            == k && g.store.contains(g.index[k]) by {
            assert(w.index.contains_key(k));
            let j = choose|j: int| 0 <= j < w.store.len() && w.store[j] == w.index[k];
            assert(g.ids()[j] == w.ids()[j]);
        }
    }
    lemma_avatars(g, uid, avatar, n);
    let shown = g.avatar_applied(uid, avatar, n);
    lemma_joined(named.effects, shown.effects);
    assert(w.row(i) == h.row(i));
    assert(g.row(i).sender_id == h.row(i).sender_id);
    assert(is_from(w, i, uid) == is_from(h, i, uid));
    assert(is_from(g, i, uid) == is_from(h, i, uid));
}

proof fn lemma_unnamed(h: HistoryView, n: int, i: int)
    requires
        0 <= i < n,
        !h.row(i).is_outgoing,
        h.row(i).sender_name.len() == 0,
        h.row(i).sender_id != 0,
    ensures
        h.unnamed_senders(n).contains(h.row(i).sender_id),
    decreases n,
{
    let all = h.unnamed_senders(n);
    let rest = h.unnamed_senders(n - 1);
    if i == n - 1 {
        if !rest.contains(h.row(i).sender_id) {
            assert(all[rest.len() as int] == h.row(i).sender_id);
        }
    } else {
        lemma_unnamed(h, n - 1, i);
        let k = choose|k: int| 0 <= k < rest.len() && rest[k] == h.row(i).sender_id;
        assert(all[k] == rest[k]);
    }
}

/// Once it is known what the chat is, every row is bound anew. In a group the
/// user of each incoming row without a name is fetched, unless the name is
/// known; outside a group nobody is.
pub proof fn resolved_chat_is_shown(h: HistoryView, is_group: bool, last_read: i64, i: int)
    requires
        consistent(h),
        0 <= i < h.store.len() <= usize::MAX,
    ensures
        ({
            let step = h.chat_resolved(is_group, last_read);
            let after = step.history;
            let u = h.row(i).sender_id;
            &&& after == HistoryView {
                slots: after.slots,
                is_group,
                last_read_outbox: last_read,
                ..h
            }
            &&& rebinds(step.effects, i)
            &&& is_group && !h.row(i).is_outgoing && h.row(i).sender_name.len() == 0 && u != 0
                && !h.names.contains_key(u) ==> step.effects.contains(
                EffectView::FetchUser { user_id: u },
            )
        }),
{
    let w = HistoryView { is_group, last_read_outbox: last_read, ..h };
    let read = w.read_refreshed(last_read);
    let g = read.history;
    lemma_read_slots(w, last_read, w.slots.len() as int);
    let n = h.store.len() as int;
    let u = h.row(i).sender_id;
    let users = if is_group {
        g.fetches(g.unnamed_senders(n))
    } else {
        Seq::empty()
    };
    assert(h.store[i] < h.slots.len());
    assert(g.slots[h.store[i] as int].sender_id == u);
    if is_group && !h.row(i).is_outgoing && h.row(i).sender_name.len() == 0 && u != 0 {
        lemma_unnamed(g, n, i);
        unknown_users_are_fetched(g, g.unnamed_senders(n), u);
    }
    lemma_joined(read.effects, users);
    lemma_joined(read.effects + users, g.rebind_all());
    assert(g.rebind_all()[0] == (EffectView::Rebind { start: 0, count: n as usize }));
    assert(rebinds(g.rebind_all(), i));
}

// --- Older messages ----------------------------------------------------------

/// How many of the first `n` messages of a batch are there.
pub open spec fn there(batch: Seq<Option<MessageValue>>, n: int) -> nat
    decreases n,
{
    if n <= 0 {
        0
    } else {
        there(batch, n - 1) + if batch[n - 1] is Some {
            1nat
        } else {
            0
        }
    }
}

proof fn lemma_there(a: Seq<Option<MessageValue>>, b: Seq<Option<MessageValue>>, n: int)
    requires
        n <= a.len(),
        n <= b.len(),
        forall|i: int| 0 <= i < n ==> a[i] == b[i],
    ensures
        there(a, n) == there(b, n),
    decreases n,
{
    if n > 0 {
        lemma_there(a, b, n - 1);
    }
}

/// Of a batch, exactly the messages that are there are taken in, in order.
pub proof fn present_messages_are_kept(batch: Seq<Option<MessageValue>>, k: int)
    requires
        0 <= k < batch.len(),
    ensures
        present(batch).len() == there(batch, batch.len() as int),
        batch[k] matches Some(m) ==> there(batch, k) < present(batch).len() && present(batch)[there(
            batch,
            k,
        ) as int] == m,
    decreases batch.len(),
{
    let rest = batch.drop_last();
    lemma_there(rest, batch, rest.len() as int);
    lemma_there(rest, batch, k);
    if k < rest.len() {
        present_messages_are_kept(rest, k);
        assert(rest[k] == batch[k]);
    } else if rest.len() > 0 {
        present_messages_are_kept(rest, 0);
    } else {
        assert(present(rest).len() == 0);
    }
}

/// An answer without any message ends paging for good, and lets no request seem
/// under way.
pub proof fn empty_answer_ends_paging(h: HistoryView)
    ensures
        h.older_arrived(Seq::empty()).history.reached_top,
        !h.older_arrived(Seq::empty()).history.loading_older,
        !h.older_arrived(Seq::empty()).history.may_load_older(),
{
}

/// An answer that holds any message is taken in as a batch of those that are
/// there; where none is, the top was reached.
pub proof fn answers_are_taken_in(h: HistoryView, messages: Seq<Option<MessageValue>>)
    ensures
        h.older_arrived(messages).effects == h.ingested(present(messages), false).effects,
        messages.len() > 0 ==> h.older_arrived(messages).history == h.ingested(
            present(messages),
            false,
        ).history,
        present(messages).len() == 0 ==> h.older_arrived(messages).history.reached_top,
{
}

// --- What concerns no message ------------------------------------------------

/// What is reported of a message that is not loaded changes nothing.
pub proof fn unknown_messages_do_not_count(
    h: HistoryView,
    id: i64,
    content: ContentView,
    reactions: Seq<ReactionView>,
    target: MessageValue,
)
    requires
        !h.index.contains_key(id),
    ensures
        h.content_changed(id, content).history == h,
        h.content_changed(id, content).effects.len() == 0,
        h.reactions_changed(id, reactions).history == h,
        h.reactions_changed(id, reactions).effects.len() == 0,
        h.reply_fetched(id, target).history == h,
        h.reply_fetched(id, target).effects.len() == 0,
{
}

/// A message that awaits its confirmation is not shown a second time when the
/// server echoes it, nor one that is there already when it is sent. An answer to
/// a message that is not loaded only ends the wait for it.
pub proof fn echoes_add_nothing(h: HistoryView, old_id: i64, msg: MessageValue)
    ensures
        !h.index.contains_key(msg.id) && h.temp_ids.contains(msg.id) ==> h.new_message(msg).history
            == h && h.new_message(msg).effects.len() == 0,
        h.index.contains_key(msg.id) ==> h.sent(msg).history == h && h.sent(msg).effects.len() == 0,
        !h.index.contains_key(old_id) ==> h.send_failed(old_id, msg).history == (HistoryView {
            temp_ids: h.temp_ids.remove(old_id),
            ..h
        }) && h.send_failed(old_id, msg).effects.len() == 0,
        !h.index.contains_key(old_id) && h.index.contains_key(msg.id) ==> h.send_succeeded(
            old_id,
            msg,
        ).history == (HistoryView { temp_ids: h.temp_ids.remove(old_id), ..h })
            && h.send_succeeded(old_id, msg).effects.len() == 0,
{
}

// --- Painting ----------------------------------------------------------------

proof fn lemma_read_effects(h: HistoryView, last_read: i64, n: int, s: int)
    requires
        0 <= s < n <= h.slots.len() <= usize::MAX,
        h.promotes(s, last_read),
    ensures
        h.read_up_to(last_read, n).effects.contains(EffectView::Repaint { slot: s as usize }),
    decreases n,
{
    let all = h.read_up_to(last_read, n).effects;
    let rest = h.read_up_to(last_read, n - 1).effects;
    let wanted = EffectView::Repaint { slot: s as usize };
    if s == n - 1 {
        assert(all[rest.len() as int] == wanted);
    } else {
        lemma_read_effects(h, last_read, n - 1, s);
        let k = choose|k: int| 0 <= k < rest.len() && rest[k] == wanted;
        assert(all[k] == wanted);
    }
}

/// A message that turns out to be read is repainted, and the cursor is kept.
pub proof fn read_messages_are_repainted(h: HistoryView, last_read: i64, slot: int)
    requires
        0 <= slot < h.slots.len() <= usize::MAX,
        h.read_outbox(last_read).history.slots[slot] != h.slots[slot],
    ensures
        h.read_outbox(last_read).history.last_read_outbox == last_read,
        h.read_outbox(last_read).effects.contains(EffectView::Repaint { slot: slot as usize }),
{
    let w = HistoryView { last_read_outbox: last_read, ..h };
    lemma_read_slots(w, last_read, w.slots.len() as int);
    assert(w.promotes(slot, last_read));
    lemma_read_effects(w, last_read, w.slots.len() as int, slot);
}

/// Once it is known what the chat is, nothing about a message changes but that an
/// outgoing one may turn out to be read.
pub proof fn resolved_chat_keeps_the_messages(
    h: HistoryView,
    is_group: bool,
    last_read: i64,
    slot: int,
)
    requires
        0 <= slot < h.slots.len() <= usize::MAX,
    ensures
        ({
            let step = h.chat_resolved(is_group, last_read);
            let b = h.slots[slot];
            let m = step.history.slots[slot];
            &&& m == h.read_outbox(last_read).history.slots[slot]
            &&& m != b ==> b.is_outgoing && b.id <= last_read && m == (MessageView {
                send_status: 2,
                ..b
            }) && step.effects.contains(EffectView::Repaint { slot: slot as usize })
        }),
{
    let w = HistoryView { is_group, last_read_outbox: last_read, ..h };
    let v = HistoryView { last_read_outbox: last_read, ..h };
    let n = h.slots.len() as int;
    lemma_read_slots(w, last_read, n);
    lemma_read_slots(v, last_read, n);
    assert(w.indexed(slot) == v.indexed(slot)) by {
        if w.indexed(slot) {
            let k = choose|k: i64| #[trigger] w.index.contains_key(k) && w.index[k] == slot;
            assert(v.index.contains_key(k));
        }
        if v.indexed(slot) {
            let k = choose|k: i64| #[trigger] v.index.contains_key(k) && v.index[k] == slot;
            assert(w.index.contains_key(k));
        }
    }
    assert(w.promotes(slot, last_read) == v.promotes(slot, last_read));
    if w.promotes(slot, last_read) {
        lemma_read_effects(w, last_read, n, slot);
        let read = w.read_refreshed(last_read);
        let rest = h.chat_resolved(is_group, last_read).effects.skip(read.effects.len() as int);
        assert(h.chat_resolved(is_group, last_read).effects =~= read.effects + rest);
        lemma_joined(read.effects, rest);
    }
}

/// The row of a message that was confirmed is bound at its new place, and with it
/// the rows above and below it and every row of its album.
pub proof fn confirmed_message_is_painted(
    h: HistoryView,
    old_id: i64,
    msg: MessageValue,
    at: int,
    i: int,
)
    requires
        h.index.contains_key(old_id),
        consistent(h.send_succeeded(old_id, msg).history),
        h.send_succeeded(old_id, msg).history.index.contains_key(msg.id),
        0 <= at < h.send_succeeded(old_id, msg).history.store.len() <= usize::MAX,
        h.send_succeeded(old_id, msg).history.row(at).id == msg.id,
        0 <= i < h.send_succeeded(old_id, msg).history.store.len(),
        at - 1 <= i <= at + 1 || msg.media_album_id != 0 && h.send_succeeded(
            old_id,
            msg,
        ).history.row(i).media_album_id == msg.media_album_id,
    ensures
        rebinds(h.send_succeeded(old_id, msg).effects, i),
{
    let step = h.send_succeeded(old_id, msg);
    let done = step.history;
    let w = h.without_temp(old_id);
    let slot = h.index[old_id];
    let removed = w.without_key(old_id).row_removed(old_id);
    let updated = removed.history.with_message(slot as int, w.slots[slot as int].updated(msg));
    let pos = updated.place(msg.id);
    lemma_moved_painted(updated, slot, msg, removed.effects, at, i);
}

/// The row of a message that could not be sent is bound where it stands now, and
/// with it the rows above and below it and every row of its album.
pub proof fn failed_message_is_painted(
    h: HistoryView,
    old_id: i64,
    msg: MessageValue,
    at: int,
    i: int,
)
    requires
        h.index.contains_key(old_id),
        consistent(h.send_failed(old_id, msg).history),
        0 <= at < h.send_failed(old_id, msg).history.store.len() <= usize::MAX,
        h.send_failed(old_id, msg).history.row(at).id == msg.id,
        0 <= i < h.send_failed(old_id, msg).history.store.len(),
        i == at || msg.id != old_id && (at - 1 <= i <= at + 1 || msg.media_album_id != 0
            && h.send_failed(old_id, msg).history.row(i).media_album_id == msg.media_album_id),
    ensures
        rebinds(h.send_failed(old_id, msg).effects, i),
{
    let step = h.send_failed(old_id, msg);
    let w = h.without_temp(old_id);
    let slot = h.index[old_id];
    let m = MessageView { is_pending: true, ..w.slots[slot as int].updated(msg) };
    if msg.id == old_id {
        lemma_rebind_of(step.history, old_id, at);
        lemma_joined(seq![EffectView::Repaint { slot }], step.history.rebind_of(old_id));
    } else {
        let removed = w.taken_out(old_id);
        let cleared = removed.history.taken_out(msg.id);
        let updated = cleared.history.with_message(slot as int, m);
        lemma_moved_painted(updated, slot, msg, removed.effects + cleared.effects, at, i);
    }
}

proof fn lemma_moved_painted(
    updated: HistoryView,
    slot: usize,
    msg: MessageValue,
    before: Seq<EffectView>,
    at: int,
    i: int,
)
    requires
        slot < updated.slots.len(),
        updated.slots[slot as int].id == msg.id,
        ({
            let done = updated.inserted(slot).with_key(msg.id, slot);
            &&& consistent(done)
            &&& 0 <= at < done.store.len() <= usize::MAX
            &&& done.row(at).id == msg.id
            &&& 0 <= i < done.store.len()
            &&& at - 1 <= i <= at + 1 || msg.media_album_id != 0 && done.row(i).media_album_id
                == msg.media_album_id
        }),
    ensures
        ({
            let done = updated.inserted(slot).with_key(msg.id, slot);
            let pos = updated.place(msg.id);
            rebinds(
                before.push(EffectView::Inserted { position: pos as usize, slot })
                    + done.rebind_around(pos) + done.rebind_album(msg.media_album_id),
                i,
            )
        }),
{
    let done = updated.inserted(slot).with_key(msg.id, slot);
    let pos = updated.place(msg.id);
    lemma_place(updated.ids(), msg.id, 0, updated.store.len() as int);
    assert(done.store[pos] == slot);
    assert(done.ids()[pos] == msg.id);
    assert(done.ids()[at] == msg.id);
    assert(at == pos);
    let first = before.push(EffectView::Inserted { position: pos as usize, slot });
    let around = done.rebind_around(pos);
    let album = done.rebind_album(msg.media_album_id);
    if at - 1 <= i <= at + 1 {
        lemma_rebind_around(done, pos, i);
    } else {
        lemma_rebind_album(done, msg.media_album_id, i);
    }
    lemma_joined(first, around);
    lemma_joined(first + around, album);
}

// --- What is fetched ---------------------------------------------------------

/// Resolving replies fetches no user.
proof fn lemma_replies_fetch_no_user(h: HistoryView, ids: Seq<i64>, u: i64)
    ensures
        !h.replies_resolved(ids).effects.contains(EffectView::FetchUser { user_id: u }),
    decreases ids.len(),
{
    if ids.len() > 0 {
        lemma_replies_fetch_no_user(h, ids.drop_last(), u);
        let before = h.replies_resolved(ids.drop_last());
        let last = before.history.reply_resolved(ids.last());
        let wanted = EffectView::FetchUser { user_id: u };
        let all = before.effects + last.effects;
        if all.contains(wanted) {
            let k = choose|k: int| 0 <= k < all.len() && all[k] == wanted;
            if k < before.effects.len() {
                assert(before.effects[k] == wanted);
                assert(before.effects.contains(wanted));
            } else {
                assert(last.effects[k - before.effects.len()] == wanted);
            }
        }
    }
}

/// Marking messages as read fetches no user.
proof fn lemma_reading_fetches_no_user(h: HistoryView, last_read: i64, n: int, u: i64)
    ensures
        !h.read_up_to(last_read, n).effects.contains(EffectView::FetchUser { user_id: u }),
    decreases n,
{
    if n > 0 {
        lemma_reading_fetches_no_user(h, last_read, n - 1, u);
        let before = h.read_up_to(last_read, n - 1).effects;
        let all = h.read_up_to(last_read, n).effects;
        let wanted = EffectView::FetchUser { user_id: u };
        if all.contains(wanted) {
            let k = choose|k: int| 0 <= k < all.len() && all[k] == wanted;
            if k < before.len() {
                assert(before[k] == wanted);
                assert(before.contains(wanted));
            }
        }
    }
}

proof fn lemma_unnamed_came_from(h: HistoryView, n: int, u: i64)
    requires
        h.unnamed_senders(n).contains(u),
    ensures
        u != 0,
        exists|i: int|
            0 <= i < n && !(#[trigger] h.row(i)).is_outgoing && h.row(i).sender_id == u && h.row(
                i,
            ).sender_name.len() == 0,
    decreases n,
{
    let all = h.unnamed_senders(n);
    let k = choose|k: int| 0 <= k < all.len() && all[k] == u;
    if n > 0 {
        let rest = h.unnamed_senders(n - 1);
        if k < rest.len() {
            assert(rest[k] == u);
            lemma_unnamed_came_from(h, n - 1, u);
        } else {
            assert(h.row(n - 1).sender_id == u);
        }
    }
}

/// Once it is known what the chat is, nobody is fetched for it but users of
/// incoming rows without a name, and nobody at all outside a group.
pub proof fn only_unnamed_senders_are_fetched(
    h: HistoryView,
    is_group: bool,
    last_read: i64,
    u: i64,
)
    requires
        consistent(h),
        h.chat_resolved(is_group, last_read).effects.contains(EffectView::FetchUser { user_id: u }),
    ensures
        is_group,
        u != 0,
        !h.names.contains_key(u),
        exists|i: int|
            0 <= i < h.store.len() && !(#[trigger] h.row(i)).is_outgoing && h.row(i).sender_id == u
                && h.row(i).sender_name.len() == 0,
{
    let w = HistoryView { is_group, last_read_outbox: last_read, ..h };
    let n = h.store.len() as int;
    let read = w.read_refreshed(last_read);
    let g = read.history;
    lemma_read_slots(w, last_read, w.slots.len() as int);
    lemma_reading_fetches_no_user(w, last_read, w.slots.len() as int, u);
    let users = if is_group {
        g.fetches(g.unnamed_senders(n))
    } else {
        Seq::empty()
    };
    let wanted = EffectView::FetchUser { user_id: u };
    let all = read.effects + users + g.rebind_all();
    let k = choose|k: int| 0 <= k < all.len() && all[k] == wanted;
    let a = read.effects.len() as int;
    if k < a {
        assert(read.effects[k] == wanted);
        assert(read.effects.contains(wanted));
    } else if k < a + users.len() {
        assert(users[k - a] == wanted);
        assert(users.contains(wanted));
        unknown_users_are_fetched(g, g.unnamed_senders(n), u);
        lemma_unnamed_came_from(g, n, u);
        let i = choose|i: int|
            0 <= i < n && !(#[trigger] g.row(i)).is_outgoing && g.row(i).sender_id == u && g.row(
                i,
            ).sender_name.len() == 0;
        assert(h.store[i] < h.slots.len());
        assert(g.slots[h.store[i] as int].sender_id == h.row(i).sender_id);
        assert(!h.row(i).is_outgoing);
    } else {
        assert(g.rebind_all()[k - a - users.len()] == wanted);
    }
}

/// For a message that arrives nobody is fetched but its own user, and not where
/// that is known or the message is ours.
pub proof fn only_the_sender_is_fetched(h: HistoryView, msg: MessageValue, u: i64)
    requires
        h.new_message(msg).effects.contains(EffectView::FetchUser { user_id: u }),
    ensures
        msg.sender_id == MessageSender::User(u),
        !msg.is_outgoing,
        u != 0,
        !h.names.contains_key(u),
{
    let step = h.new_message(msg);
    let wanted = EffectView::FetchUser { user_id: u };
    let k = choose|k: int| 0 <= k < step.effects.len() && step.effects[k] == wanted;
    if h.index.contains_key(msg.id) || h.temp_ids.contains(msg.id) {
        assert(step.effects[k] != wanted);
    } else {
        let m = h.named(MessageView::from_message(msg), msg.sender_id);
        let at = h.with_slot(m).place(m.id);
        let g = h.added(m);
        let users = push_some(Seq::empty(), user_to_resolve(msg));
        let replies = g.replies_resolved(seq![msg.id]);
        let fetched = g.fetches(users);
        let around = replies.history.rebind_around(at);
        let album = replies.history.rebind_album(msg.media_album_id);
        let a = 1 + fetched.len();
        let b = a + replies.effects.len();
        let c = b + around.len();
        let d = c + album.len();
        lemma_replies_fetch_no_user(g, seq![msg.id], u);
        if k == 0 {
        } else if k < a {
            assert(fetched[k - 1] == wanted);
            assert(fetched.contains(wanted));
            unknown_users_are_fetched(g, users, u);
            let i = choose|i: int| 0 <= i < users.len() && users[i] == u;
            assert(users.len() <= 1);
        } else if k < b {
            assert(replies.effects[k - a] == wanted);
            assert(replies.effects.contains(wanted));
        } else if k < c {
            assert(around[k - b] == wanted);
        } else if k < d {
            assert(album[k - c] == wanted);
        } else {
            assert(step.effects[k] == wanted);
        }
    }
}

} // verus!
