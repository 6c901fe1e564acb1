//! [`ChatList`]: the chats of the sidebar.

use crate::models::chat_object::{last_message_preview, main_list_order, main_order_of,
    order_is_that_in_the_main_list, photo_file_id_of, photo_or_zero, preview_of, preview_text,
    ChatObject, ChatRow};
use crate::tdlib::types::{Chat, ChatListKind, ChatPosition, ChatValue, MessageValue, Update,
    UpdateView};
use crate::text::{decimal, decimal_string, numeral_round_trip, opt_view, parse_int};
use vstd::prelude::*;

verus! {

/// How many chats of the main list are asked for at first.
pub const LISTED_CHATS: i32 = 50;

/// The download priority of a chat photo.
pub const CHAT_PHOTO_PRIORITY: i32 = 16;

/// What the list asks of the widgets and of the network after a step.
#[derive(Clone, Copy, Debug, PartialEq, Eq, Structural)]
pub enum ListEffect {
    /// A row was added at the end.
    Appended,
    /// The row at `position` was taken out.
    Removed { position: usize },
    /// Bind the row at `position` anew.
    Rebind { position: usize },
    /// Sort the rows anew.
    Resort,
    /// Show the list.
    ShowList,
    /// Show that there are no chats.
    ShowEmpty,
    /// Fetch a chat.
    FetchChat { chat_id: i64 },
}

/// How two chats stand to each other in the list.
#[derive(Clone, Copy, Debug, PartialEq, Eq, Structural)]
pub enum Rank {
    Before,
    Level,
    After,
}

/// The chats after a step, with what the step asks for.
pub struct ListStep {
    pub chats: Seq<ChatRow>,
    pub effects: Seq<ListEffect>,
}

/// The position of a chat at or after `from`.
pub open spec fn chat_at(chats: Seq<ChatRow>, id: i64, from: int) -> Option<int>
    decreases chats.len() - from,
{
    if from >= chats.len() {
        None
    } else if chats[from].id == id {
        Some(from)
    } else {
        chat_at(chats, id, from + 1)
    }
}

/// The position of a chat.
pub open spec fn find(chats: Seq<ChatRow>, id: i64) -> Option<int> {
    chat_at(chats, id, 0)
}

/// Which page is shown for so many chats.
pub open spec fn visibility(n: nat) -> ListEffect {
    if n == 0 {
        ListEffect::ShowEmpty
    } else {
        ListEffect::ShowList
    }
}

/// A chat is changed, if it is known, and its row bound anew.
pub open spec fn changed(
    chats: Seq<ChatRow>,
    id: i64,
    change: spec_fn(ChatRow) -> ChatRow,
) -> ListStep {
    match find(chats, id) {
        Some(at) => ListStep {
            chats: chats.update(at, change(chats[at])),
            effects: seq![ListEffect::Rebind { position: at as usize }],
        },
        None => ListStep { chats, effects: Seq::empty() },
    }
}

/// A chat that is not known is added.
pub open spec fn appended(chats: Seq<ChatRow>, chat: ChatValue) -> ListStep {
    ListStep {
        chats: chats.push(ChatRow::from_chat(chat)),
        effects: seq![ListEffect::Appended],
    }
}

/// A step, then another page or order.
pub open spec fn followed(step: ListStep, effects: Seq<ListEffect>) -> ListStep {
    ListStep { chats: step.chats, effects: step.effects + effects }
}

/// A chat left the main list.
pub open spec fn removed(chats: Seq<ChatRow>, id: i64) -> ListStep {
    match find(chats, id) {
        Some(at) => ListStep {
            chats: chats.remove(at),
            effects: seq![
                ListEffect::Removed { position: at as usize },
                visibility((chats.len() - 1) as nat),
            ],
        },
        None => ListStep { chats, effects: Seq::empty() },
    }
}

/// A chat was fetched.
pub open spec fn added_or_updated(chats: Seq<ChatRow>, chat: ChatValue) -> ListStep {
    let step = if find(chats, chat.id) is Some {
        changed(chats, chat.id, |row: ChatRow| row.refreshed(chat))
    } else {
        appended(chats, chat)
    };
    followed(step, seq![visibility(step.chats.len()), ListEffect::Resort])
}

/// An update arrived.
pub open spec fn updated(chats: Seq<ChatRow>, update: UpdateView) -> ListStep {
    match update {
        UpdateView::NewChat { chat } => if find(chats, chat.id) is Some {
            ListStep { chats, effects: Seq::empty() }
        } else {
            let step = appended(chats, chat);
            followed(step, seq![visibility(step.chats.len()), ListEffect::Resort])
        },
        UpdateView::ChatLastMessage { chat_id, last_message, positions } => followed(
            changed(
                chats,
                chat_id,
                |row: ChatRow|
                    ChatRow {
                        last_message: preview_of(last_message),
                        order: main_order_of(positions),
                        ..row
                    },
            ),
            seq![ListEffect::Resort],
        ),
        UpdateView::ChatPosition { chat_id, position } => if position.list != ChatListKind::Main {
            ListStep { chats, effects: Seq::empty() }
        } else if position.order == 0 {
            removed(chats, chat_id)
        } else {
            followed(
                changed(chats, chat_id, |row: ChatRow| ChatRow { order: position.order, ..row }),
                seq![ListEffect::Resort],
            )
        },
        UpdateView::ChatTitle { chat_id, title } => changed(
            chats,
            chat_id,
            |row: ChatRow| ChatRow { title, ..row },
        ),
        UpdateView::ChatPhoto { chat_id, photo } => changed(
            chats,
            chat_id,
            |row: ChatRow| ChatRow { photo_file_id: photo_or_zero(photo), ..row },
        ),
        UpdateView::ChatReadInbox { chat_id, unread_count } => changed(
            chats,
            chat_id,
            |row: ChatRow| ChatRow { unread_count, ..row },
        ),
        _ => ListStep { chats, effects: Seq::empty() },
    }
}

/// The chats of `ids` that are to be fetched: those that are not known.
pub open spec fn unknown(chats: Seq<ChatRow>, ids: Seq<i64>) -> Seq<ListEffect>
    decreases ids.len(),
{
    if ids.len() == 0 {
        Seq::empty()
    } else {
        let rest = unknown(chats, ids.drop_last());
        if find(chats, ids.last()) is Some {
            rest
        } else {
            rest.push(ListEffect::FetchChat { chat_id: ids.last() })
        }
    }
}

/// The rows of a list of items.
pub open spec fn chat_rows(v: Seq<ChatObject>) -> Seq<ChatRow> {
    Seq::new(v.len(), |i: int| v[i]@)
}

/// How a chat of order `a` stands to one of order `b`: greater orders first.
pub open spec fn rank_of(a: i64, b: i64) -> Rank {
    if a > b {
        Rank::Before
    } else if a == b {
        Rank::Level
    } else {
        Rank::After
    }
}

/// Where a chat of this order goes among sorted rows, at or after `from`: in
/// front of the first row that comes after it.
pub open spec fn gap_for(rows: Seq<ChatRow>, order: i64, from: int) -> int
    decreases rows.len() - from,
{
    if from >= rows.len() {
        rows.len() as int
    } else if rank_of(rows[from].order, order) is After {
        from
    } else {
        gap_for(rows, order, from + 1)
    }
}

/// The chats as the rows show them: sorted by rank, level ones as they came.
pub open spec fn shown(chats: Seq<ChatRow>) -> Seq<ChatRow>
    decreases chats.len(),
{
    if chats.len() == 0 {
        Seq::empty()
    } else {
        let rows = shown(chats.drop_last());
        rows.insert(gap_for(rows, chats.last().order, 0), chats.last())
    }
}

/// The chats at some positions.
pub open spec fn rows_at(chats: Seq<ChatRow>, places: Seq<usize>) -> Seq<ChatRow> {
    Seq::new(places.len(), |i: int| chats[places[i] as int])
}

/// The id and the title of the chat that a row shows.
pub open spec fn opened(chats: Seq<ChatRow>, row: int) -> Option<(i64, Seq<char>)> {
    if 0 <= row < shown(chats).len() {
        Some((shown(chats)[row].id, shown(chats)[row].title))
    } else {
        None
    }
}

/// The id and the title of a chat.
pub open spec fn id_and_title(r: Option<(i64, String)>) -> Option<(i64, Seq<char>)> {
    match r {
        Some((id, title)) => Some((id, title@)),
        None => None,
    }
}

/// The chats of the sidebar.
#[derive(Debug)]
pub struct ChatList {
    chats: Vec<ChatObject>,
}

impl View for ChatList {
    type V = Seq<ChatRow>;

    closed spec fn view(&self) -> Seq<ChatRow> {
        chat_rows(self.chats@)
    }
}

impl ChatList {
    /// No chats yet.
    pub fn new() -> (r: ChatList)
        ensures
            r@ == Seq::<ChatRow>::empty(),
    {
        let r = ChatList { chats: Vec::new() };
        assert(r@ =~= Seq::empty());
        r
    }

    /// How many chats there are.
    pub fn len(&self) -> (r: usize)
        ensures
            r == self@.len(),
    {
        self.chats.len()
    }

    /// The chat at `position`.
    pub fn chat(&self, position: usize) -> (r: &ChatObject)
        requires
            position < self@.len(),
        ensures
            r@ == self@[position as int],
    {
        &self.chats[position]
    }

    /// The position of a chat.
    pub fn position(&self, id: i64) -> (r: Option<usize>)
        ensures
            match find(self@, id) {
                Some(at) => r is Some && r->0 == at && 0 <= at < self@.len(),
                None => r is None,
            },
    {
        for i in 0..self.chats.len()
            invariant
                find(self@, id) == chat_at(self@, id, i as int),
        {
            assert(self@[i as int] == self.chats@[i as int]@);
            if self.chats[i].id == id {
                return Some(i);
            }
        }
        None
    }

    /// Where the chat at `position` goes among the rows of `places`.
    fn gap(&self, places: &[usize], position: usize) -> (r: usize)
        requires
            position < self@.len(),
            forall|i: int| 0 <= i < places@.len() ==> (#[trigger] places@[i]) < self@.len(),
        ensures
            r == gap_for(rows_at(self@, places@), self@[position as int].order, 0),
            r <= places@.len(),
    {
        let ghost rows = rows_at(self@, places@);
        let order: i64 = self.chats[position].order;
        for i in 0..places.len()
            invariant
                rows == rows_at(self@, places@),
                order == self@[position as int].order,
                forall|i: int| 0 <= i < places@.len() ==> (#[trigger] places@[i]) < self@.len(),
                gap_for(rows, order, 0) == gap_for(rows, order, i as int),
        {
            assert(rows[i as int] == self.chats@[places@[i as int] as int]@);
            if rank(self.chats[places[i]].order, order) == Rank::After {
                return i;
            }
        }
        places.len()
    }

    /// The positions of the chats in the order of the rows.
    pub fn sorted_places(&self) -> (r: Vec<usize>)
        ensures
            forall|i: int| 0 <= i < r@.len() ==> (#[trigger] r@[i]) < self@.len(),
            rows_at(self@, r@) == shown(self@),
    {
        let mut r: Vec<usize> = Vec::new();
        assert(rows_at(self@, r@) =~= shown(self@.take(0)));
        for n in 0..self.chats.len()
            invariant
                n <= self.chats@.len(),
                forall|i: int| 0 <= i < r@.len() ==> (#[trigger] r@[i]) < n,
                rows_at(self@, r@) == shown(self@.take(n as int)),
        {
            let at: usize = self.gap(r.as_slice(), n);
            let ghost before = r@;
            r.insert(at, n);
            assert(self@.take(n + 1).drop_last() =~= self@.take(n as int));
            assert forall|i: int| 0 <= i < r@.len() implies (#[trigger] r@[i]) < n + 1 by {
                if i < at {
                    assert(r@[i] == before[i]);
                } else if i > at {
                    assert(r@[i] == before[i - 1]);
                }
            }
            assert(rows_at(self@, r@) =~= rows_at(self@, before).insert(
                at as int,
                self@[n as int],
            ));
        }
        assert(self@.take(self@.len() as int) =~= self@);
        r
    }

    /// What the activation of a row hands on: the id and the title of the chat
    /// that the row shows.
    pub fn activated(&self, row: usize) -> (r: Option<(i64, String)>)
        ensures
            id_and_title(r) == opened(self@, row as int),
    {
        let places: Vec<usize> = self.sorted_places();
        if row < places.len() {
            let place: usize = places[row];
            assert(shown(self@)[row as int] == self.chats@[place as int]@);
            let chat: &ChatObject = &self.chats[place];
            Some((chat.id, chat.title.clone()))
        } else {
            None
        }
    }

    /// Shows the list if there are chats, else that there are none.
    pub fn update_visibility(&self, out: &mut Vec<ListEffect>)
        ensures
            final(out)@ == old(out)@.push(visibility(self@.len())),
    {
        if self.chats.len() == 0 {
            out.push(ListEffect::ShowEmpty);
        } else {
            out.push(ListEffect::ShowList);
        }
    }

    fn append(&mut self, chat: &Chat, out: &mut Vec<ListEffect>)
        ensures
            final(self)@ == appended(old(self)@, chat@).chats,
            final(out)@ == old(out)@ + appended(old(self)@, chat@).effects,
    {
        self.chats.push(ChatObject::from_chat(chat));
        assert(self@ =~= old(self)@.push(ChatRow::from_chat(chat@)));
        out.push(ListEffect::Appended);
    }

    /// Inserts a chat that is new, or refreshes the one that is known.
    pub fn add_or_update(&mut self, chat: &Chat, out: &mut Vec<ListEffect>)
        ensures
            final(self)@ == added_or_updated(old(self)@, chat@).chats,
            final(out)@ == old(out)@ + added_or_updated(old(self)@, chat@).effects,
    {
        let ghost start = out@;
        match self.position(chat.id) {
            Some(at) => {
                self.chats[at].refresh(chat);
                assert(self@ =~= old(self)@.update(at as int, old(self)@[at as int].refreshed(chat@)));
                out.push(ListEffect::Rebind { position: at });
            },
            None => {
                self.append(chat, out);
            },
        }
        self.update_visibility(out);
        out.push(ListEffect::Resort);
        assert(out@ =~= start + added_or_updated(old(self)@, chat@).effects);
    }

    /// Takes out a chat that left the main list.
    pub fn remove_chat(&mut self, id: i64, out: &mut Vec<ListEffect>)
        ensures
            final(self)@ == removed(old(self)@, id).chats,
            final(out)@ == old(out)@ + removed(old(self)@, id).effects,
    {
        let ghost start = out@;
        match self.position(id) {
            Some(at) => {
                self.chats.remove(at);
                assert(self@ =~= old(self)@.remove(at as int));
                out.push(ListEffect::Removed { position: at });
                self.update_visibility(out);
            },
            None => {},
        }
        assert(out@ =~= start + removed(old(self)@, id).effects);
    }

    fn set_last_message(
        &mut self,
        id: i64,
        preview: String,
        order: i64,
        out: &mut Vec<ListEffect>,
    )
        ensures
            ({
                let step = changed(
                    old(self)@,
                    id,
                    |row: ChatRow| ChatRow { last_message: preview@, order, ..row },
                );
                &&& final(self)@ == step.chats
                &&& final(out)@ == old(out)@ + step.effects
            }),
    {
        let ghost start = out@;
        let ghost shown = preview@;
        let ghost change = |row: ChatRow| ChatRow { last_message: shown, order, ..row };
        match self.position(id) {
            Some(at) => {
                self.chats[at].last_message = preview;
                self.chats[at].order = order;
                assert(self@ =~= old(self)@.update(at as int, change(old(self)@[at as int])));
                out.push(ListEffect::Rebind { position: at });
            },
            None => {},
        }
        assert(out@ =~= start + changed(old(self)@, id, change).effects);
    }

    fn set_order(&mut self, id: i64, order: i64, out: &mut Vec<ListEffect>)
        ensures
            ({
                let step = changed(old(self)@, id, |row: ChatRow| ChatRow { order, ..row });
                &&& final(self)@ == step.chats
                &&& final(out)@ == old(out)@ + step.effects
            }),
    {
        let ghost start = out@;
        let ghost change = |row: ChatRow| ChatRow { order, ..row };
        match self.position(id) {
            Some(at) => {
                self.chats[at].order = order;
                assert(self@ =~= old(self)@.update(at as int, change(old(self)@[at as int])));
                out.push(ListEffect::Rebind { position: at });
            },
            None => {},
        }
        assert(out@ =~= start + changed(old(self)@, id, change).effects);
    }

    fn set_title(&mut self, id: i64, title: &str, out: &mut Vec<ListEffect>)
        ensures
            ({
                let step = changed(
                    old(self)@,
                    id,
                    |row: ChatRow| ChatRow { title: title@, ..row },
                );
                &&& final(self)@ == step.chats
                &&& final(out)@ == old(out)@ + step.effects
            }),
    {
        let ghost start = out@;
        let ghost change = |row: ChatRow| ChatRow { title: title@, ..row };
        match self.position(id) {
            Some(at) => {
                self.chats[at].title = title.to_owned();
                assert(self@ =~= old(self)@.update(at as int, change(old(self)@[at as int])));
                out.push(ListEffect::Rebind { position: at });
            },
            None => {},
        }
        assert(out@ =~= start + changed(old(self)@, id, change).effects);
    }

    fn set_photo(&mut self, id: i64, photo_file_id: i32, out: &mut Vec<ListEffect>)
        ensures
            ({
                let step = changed(old(self)@, id, |row: ChatRow| ChatRow { photo_file_id, ..row });
                &&& final(self)@ == step.chats
                &&& final(out)@ == old(out)@ + step.effects
            }),
    {
        let ghost start = out@;
        let ghost change = |row: ChatRow| ChatRow { photo_file_id, ..row };
        match self.position(id) {
            Some(at) => {
                self.chats[at].photo_file_id = photo_file_id;
                assert(self@ =~= old(self)@.update(at as int, change(old(self)@[at as int])));
                out.push(ListEffect::Rebind { position: at });
            },
            None => {},
        }
        assert(out@ =~= start + changed(old(self)@, id, change).effects);
    }

    fn set_unread(&mut self, id: i64, unread_count: i32, out: &mut Vec<ListEffect>)
        ensures
            ({
                let step = changed(old(self)@, id, |row: ChatRow| ChatRow { unread_count, ..row });
                &&& final(self)@ == step.chats
                &&& final(out)@ == old(out)@ + step.effects
            }),
    {
        let ghost start = out@;
        let ghost change = |row: ChatRow| ChatRow { unread_count, ..row };
        match self.position(id) {
            Some(at) => {
                self.chats[at].unread_count = unread_count;
                assert(self@ =~= old(self)@.update(at as int, change(old(self)@[at as int])));
                out.push(ListEffect::Rebind { position: at });
            },
            None => {},
        }
        assert(out@ =~= start + changed(old(self)@, id, change).effects);
    }

    /// Applies one update.
    pub fn handle_update(&mut self, update: &Update, out: &mut Vec<ListEffect>)
        ensures
            final(self)@ == updated(old(self)@, update@).chats,
            final(out)@ == old(out)@ + updated(old(self)@, update@).effects,
    {
        let ghost start = out@;
        match update {
            Update::NewChat { chat } => {
                if self.position(chat.id).is_none() {
                    self.append(chat, out);
                    self.update_visibility(out);
                    out.push(ListEffect::Resort);
                }
            },
            Update::ChatLastMessage { chat_id, last_message, positions } => {
                let order: i64 = main_list_order(positions.as_slice());
                let preview: String = last_message_preview(last_message);
                self.set_last_message(*chat_id, preview, order, out);
                out.push(ListEffect::Resort);
            },
            Update::ChatPosition { chat_id, position } => {
                if position.list == ChatListKind::Main {
                    if position.order == 0 {
                        self.remove_chat(*chat_id, out);
                    } else {
                        self.set_order(*chat_id, position.order, out);
                        out.push(ListEffect::Resort);
                    }
                }
            },
            Update::ChatTitle { chat_id, title } => {
                self.set_title(*chat_id, title.as_str(), out);
            },
            Update::ChatPhoto { chat_id, photo } => {
                self.set_photo(*chat_id, photo_file_id_of(*photo), out);
            },
            Update::ChatReadInbox { chat_id, unread_count } => {
                self.set_unread(*chat_id, *unread_count, out);
            },
            _ => {},
        }
        assert(out@ =~= start + updated(old(self)@, update@).effects);
    }

    /// The ids of the main list were fetched: asks for the chats that are not
    /// known.
    pub fn hydrate_chats(&self, ids: &Vec<i64>, out: &mut Vec<ListEffect>)
        ensures
            final(out)@ == (old(out)@ + unknown(self@, ids@)).push(visibility(self@.len())),
    {
        let ghost start = out@;
        assert(start =~= start + unknown(self@, ids@.take(0)));
        for i in 0..ids.len()
            invariant
                out@ == start + unknown(self@, ids@.take(i as int)),
        {
            assert(ids@.take(i + 1).drop_last() =~= ids@.take(i as int));
            if self.position(ids[i]).is_none() {
                out.push(ListEffect::FetchChat { chat_id: ids[i] });
            }
            assert(out@ =~= start + unknown(self@, ids@.take(i + 1)));
        }
        assert(ids@.take(ids@.len() as int) =~= ids@);
        self.update_visibility(out);
    }
}

/// The badge of a row: the number of unread messages, none for 0.
pub open spec fn badge_of(unread_count: i32) -> Option<Seq<char>> {
    if unread_count > 0 {
        Some(decimal(unread_count as nat))
    } else {
        None
    }
}

/// The badge of a row: the number of unread messages, none for 0.
pub fn badge(unread_count: i32) -> (r: Option<String>)
    ensures
        opt_view(r) == badge_of(unread_count),
{
    if unread_count > 0 {
        Some(decimal_string(unread_count as u64))
    } else {
        None
    }
}

/// How a chat of order `a` stands to one of order `b`: greater orders first.
pub fn rank(a: i64, b: i64) -> (r: Rank)
    ensures
        r == rank_of(a, b),
{
    if a > b {
        Rank::Before
    } else if a == b {
        Rank::Level
    } else {
        Rank::After
    }
}

// --- Laws --------------------------------------------------------------------

/// Whether every chat is listed once.
pub open spec fn listed_once(chats: Seq<ChatRow>) -> bool {
    forall|i: int, j: int|
        0 <= i < j < chats.len() ==> (#[trigger] chats[i]).id != (#[trigger] chats[j]).id
}

proof fn lemma_chat_at(chats: Seq<ChatRow>, id: i64, from: int)
    requires
        0 <= from <= chats.len(),
    ensures
        match chat_at(chats, id, from) {
            Some(at) => from <= at < chats.len() && chats[at].id == id,
            None => forall|i: int| from <= i < chats.len() ==> (#[trigger] chats[i]).id != id,
        },
    decreases chats.len() - from,
{
    if from < chats.len() && chats[from].id != id {
        lemma_chat_at(chats, id, from + 1);
    }
}

proof fn lemma_changed(chats: Seq<ChatRow>, id: i64, change: spec_fn(ChatRow) -> ChatRow)
    requires
        listed_once(chats),
        forall|row: ChatRow| (#[trigger] change(row)).id == row.id,
    ensures
        listed_once(changed(chats, id, change).chats),
{
    lemma_chat_at(chats, id, 0);
}

/// Rows are compared by a total order: exactly one of two orders comes first
/// unless they are level, and what comes first of what comes first does so too.
pub proof fn rank_is_a_total_order(a: i64, b: i64, c: i64)
    ensures
        rank_of(a, b) is Before <==> rank_of(b, a) is After,
        rank_of(a, b) is Level <==> a == b,
        !(rank_of(a, b) is After) && !(rank_of(b, c) is After) ==> !(rank_of(a, c) is After),
        !(rank_of(a, b) is After) || !(rank_of(b, a) is After),
{
}

proof fn lemma_gap(rows: Seq<ChatRow>, order: i64, from: int)
    requires
        0 <= from <= rows.len(),
    ensures
        ({
            let gap = gap_for(rows, order, from);
            &&& from <= gap <= rows.len()
            &&& forall|i: int| from <= i < gap ==> (#[trigger] rows[i]).order >= order
            &&& gap < rows.len() ==> rows[gap].order < order
        }),
    decreases rows.len() - from,
{
    if from < rows.len() && !(rank_of(rows[from].order, order) is After) {
        lemma_gap(rows, order, from + 1);
    }
}

/// The rows show every chat exactly once, with greater orders first.
pub proof fn rows_show_the_chats_in_order(chats: Seq<ChatRow>)
    ensures
        shown(chats).to_multiset() == chats.to_multiset(),
        shown(chats).len() == chats.len(),
        forall|i: int, j: int|
            0 <= i < j < shown(chats).len() ==> (#[trigger] shown(chats)[i]).order >= (
            #[trigger] shown(chats)[j]).order,
    decreases chats.len(),
{
    if chats.len() > 0 {
        let before = chats.drop_last();
        rows_show_the_chats_in_order(before);
        let rows = shown(before);
        let order = chats.last().order;
        lemma_gap(rows, order, 0);
        let at = gap_for(rows, order, 0);
        vstd::seq_lib::to_multiset_insert(rows, at, chats.last());
        vstd::seq_lib::to_multiset_build(before, chats.last());
        assert(before.push(chats.last()) =~= chats);
        let all = shown(chats);
        assert forall|i: int, j: int| 0 <= i < j < all.len() implies (#[trigger] all[i]).order >= (
        #[trigger] all[j]).order by {
            if i < at {
                assert(all[i] == rows[i]);
            } else if i > at {
                assert(all[i] == rows[i - 1]);
            }
            if j < at {
                assert(all[j] == rows[j]);
            } else if j > at {
                assert(all[j] == rows[j - 1]);
            }
            if i == at && j > at {
                assert(rows[at].order < order);
                assert(rows[j - 1].order <= rows[at].order);
            }
        }
    } else {
        assert(shown(chats) =~= chats);
    }
}

/// Level chats stay in the order in which they were listed: the last of them is
/// shown below the others.
pub proof fn level_chats_keep_their_order(chats: Seq<ChatRow>, chat: ChatRow, i: int)
    requires
        0 <= i < shown(chats).len(),
        shown(chats)[i].order == chat.order,
    ensures
        shown(chats.push(chat))[i] == shown(chats)[i],
        exists|j: int| i < j < shown(chats.push(chat)).len() && shown(chats.push(chat))[j] == chat,
{
    let rows = shown(chats);
    assert(chats.push(chat).drop_last() =~= chats);
    rows_show_the_chats_in_order(chats);
    lemma_gap(rows, chat.order, 0);
    let at = gap_for(rows, chat.order, 0);
    if at <= i {
        assert(rows[at].order >= rows[i].order);
    }
    assert(shown(chats.push(chat))[at] == chat);
}

/// No chat is ever listed twice, whatever update arrives and whatever chat is
/// fetched.
pub proof fn chats_stay_listed_once(chats: Seq<ChatRow>, update: UpdateView, chat: ChatValue)
    requires
        listed_once(chats),
    ensures
        listed_once(Seq::<ChatRow>::empty()),
        listed_once(updated(chats, update).chats),
        listed_once(added_or_updated(chats, chat).chats),
{
    lemma_chat_at(chats, chat.id, 0);
    lemma_changed(chats, chat.id, |row: ChatRow| row.refreshed(chat));
    match update {
        UpdateView::NewChat { chat } => {
            lemma_chat_at(chats, chat.id, 0);
        },
        UpdateView::ChatLastMessage { chat_id, last_message, positions } => {
            lemma_changed(
                chats,
                chat_id,
                |row: ChatRow|
                    ChatRow {
                        last_message: preview_of(last_message),
                        order: main_order_of(positions),
                        ..row
                    },
            );
        },
        UpdateView::ChatPosition { chat_id, position } => {
            lemma_chat_at(chats, chat_id, 0);
            lemma_changed(
                chats,
                chat_id,
                |row: ChatRow| ChatRow { order: position.order, ..row },
            );
        },
        UpdateView::ChatTitle { chat_id, title } => {
            lemma_changed(chats, chat_id, |row: ChatRow| ChatRow { title, ..row });
        },
        UpdateView::ChatPhoto { chat_id, photo } => {
            lemma_changed(
                chats,
                chat_id,
                |row: ChatRow| ChatRow { photo_file_id: photo_or_zero(photo), ..row },
            );
        },
        UpdateView::ChatReadInbox { chat_id, unread_count } => {
            lemma_changed(chats, chat_id, |row: ChatRow| ChatRow { unread_count, ..row });
        },
        _ => {},
    }
}

/// A chat that left the main list is not listed any more, and no other chat
/// goes with it.
pub proof fn chat_that_left_is_gone(chats: Seq<ChatRow>, id: i64)
    requires
        listed_once(chats),
    ensures
        ({
            let position = ChatPosition { list: ChatListKind::Main, order: 0 };
            let after = updated(chats, UpdateView::ChatPosition { chat_id: id, position }).chats;
            &&& forall|i: int| 0 <= i < after.len() ==> (#[trigger] after[i]).id != id
            &&& forall|i: int|
                0 <= i < chats.len() && (#[trigger] chats[i]).id != id ==> after.contains(chats[i])
        }),
{
    lemma_chat_at(chats, id, 0);
    let after = removed(chats, id).chats;
    assert forall|i: int| 0 <= i < chats.len() && (#[trigger] chats[i]).id
        != id implies after.contains(chats[i]) by {
        match find(chats, id) {
            Some(at) => {
                if i < at {
                    assert(after[i] == chats[i]);
                } else {
                    assert(after[i - 1] == chats[i]);
                }
            },
            None => {
                assert(after[i] == chats[i]);
            },
        }
    }
}

/// A chat that was fetched is listed, with the data that was fetched.
pub proof fn fetched_chat_is_listed(chats: Seq<ChatRow>, chat: ChatValue)
    ensures
        ({
            let after = added_or_updated(chats, chat).chats;
            &&& find(after, chat.id) is Some
            &&& after[find(after, chat.id)->0].title == chat.title
            &&& after[find(after, chat.id)->0].order == main_order_of(chat.positions)
        }),
{
    let after = added_or_updated(chats, chat).chats;
    lemma_chat_at(chats, chat.id, 0);
    match find(chats, chat.id) {
        Some(at) => {
            lemma_same_ids(chats, after, chat.id, 0);
        },
        None => {
            lemma_found_last(after, chat.id, 0);
        },
    }
}

proof fn lemma_same_ids(a: Seq<ChatRow>, b: Seq<ChatRow>, id: i64, from: int)
    requires
        a.len() == b.len(),
        0 <= from,
        forall|i: int| 0 <= i < a.len() ==> (#[trigger] a[i]).id == (#[trigger] b[i]).id,
    ensures
        chat_at(a, id, from) == chat_at(b, id, from),
    decreases a.len() - from,
{
    if from < a.len() {
        assert(a[from].id == b[from].id);
        lemma_same_ids(a, b, id, from + 1);
    }
}

proof fn lemma_found_last(chats: Seq<ChatRow>, id: i64, from: int)
    requires
        0 <= from < chats.len(),
        chats.last().id == id,
        forall|i: int| 0 <= i < chats.len() - 1 ==> (#[trigger] chats[i]).id != id,
    ensures
        chat_at(chats, id, from) == Some(chats.len() - 1),
    decreases chats.len() - from,
{
    if from < chats.len() - 1 {
        lemma_found_last(chats, id, from + 1);
    }
}

/// Whether `after` is `before` with only the row of the chat `id` changed.
pub open spec fn only_changes(before: Seq<ChatRow>, after: Seq<ChatRow>, id: i64) -> bool {
    &&& after.len() == before.len()
    &&& forall|i: int|
        0 <= i < before.len() ==> (#[trigger] after[i]).id == before[i].id && (before[i].id != id
            ==> after[i] == before[i])
}

/// A new title is what the row of that chat shows from then on. The rest of the
/// row stays, and so does every other row.
pub proof fn title_reaches_its_row(chats: Seq<ChatRow>, at: int, title: Seq<char>)
    requires
        listed_once(chats),
        0 <= at < chats.len(),
    ensures
        ({
            let after = updated(
                chats,
                UpdateView::ChatTitle { chat_id: chats[at].id, title },
            ).chats;
            &&& only_changes(chats, after, chats[at].id)
            &&& after[at] == ChatRow { title, ..chats[at] }
        }),
{
    lemma_chat_at(chats, chats[at].id, 0);
}

/// A new photo is what the row of that chat shows from then on, and none where
/// there is none any more. The rest of the row stays, and so does every other
/// row.
pub proof fn photo_reaches_its_row(chats: Seq<ChatRow>, at: int, photo: Option<i32>)
    requires
        listed_once(chats),
        0 <= at < chats.len(),
    ensures
        ({
            let after = updated(
                chats,
                UpdateView::ChatPhoto { chat_id: chats[at].id, photo },
            ).chats;
            &&& only_changes(chats, after, chats[at].id)
            &&& photo matches Some(file_id) ==> after[at] == (ChatRow {
                photo_file_id: file_id,
                ..chats[at]
            })
            &&& photo is None ==> after[at] == (ChatRow { photo_file_id: 0, ..chats[at] })
        }),
{
    lemma_chat_at(chats, chats[at].id, 0);
}

/// After a read of the inbox the row of that chat has exactly the unread count
/// that was reported. The rest of the row stays, and so does every other row.
pub proof fn unread_count_reaches_its_row(chats: Seq<ChatRow>, at: int, unread_count: i32)
    requires
        listed_once(chats),
        0 <= at < chats.len(),
    ensures
        ({
            let after = updated(
                chats,
                UpdateView::ChatReadInbox { chat_id: chats[at].id, unread_count },
            ).chats;
            &&& only_changes(chats, after, chats[at].id)
            &&& after[at] == ChatRow { unread_count, ..chats[at] }
        }),
{
    lemma_chat_at(chats, chats[at].id, 0);
}

/// A new place in the main list is the order of that chat from then on. The
/// rest of the row stays, and so does every other row.
pub proof fn order_reaches_its_row(chats: Seq<ChatRow>, at: int, order: i64)
    requires
        listed_once(chats),
        0 <= at < chats.len(),
        order != 0,
    ensures
        ({
            let position = ChatPosition { list: ChatListKind::Main, order };
            let after = updated(
                chats,
                UpdateView::ChatPosition { chat_id: chats[at].id, position },
            ).chats;
            &&& only_changes(chats, after, chats[at].id)
            &&& after[at] == ChatRow { order, ..chats[at] }
        }),
{
    lemma_chat_at(chats, chats[at].id, 0);
}

/// After a new last message the row of that chat previews it and stands where
/// the positions that came with it say. The rest of the row stays, and so does
/// every other row.
pub proof fn last_message_reaches_its_row(
    chats: Seq<ChatRow>,
    at: int,
    last_message: Option<MessageValue>,
    positions: Seq<ChatPosition>,
    k: int,
)
    requires
        listed_once(chats),
        0 <= at < chats.len(),
        0 <= k <= positions.len(),
        forall|i: int| 0 <= i < k ==> (#[trigger] positions[i]).list != ChatListKind::Main,
        k < positions.len() ==> positions[k].list == ChatListKind::Main,
    ensures
        ({
            let after = updated(
                chats,
                UpdateView::ChatLastMessage { chat_id: chats[at].id, last_message, positions },
            ).chats;
            &&& only_changes(chats, after, chats[at].id)
            &&& last_message matches Some(m) ==> after[at].last_message == preview_text(m.content)
            &&& last_message is None ==> after[at].last_message.len() == 0
            &&& after[at].order == (if k < positions.len() {
                positions[k].order
            } else {
                0
            })
            &&& after[at] == ChatRow {
                last_message: after[at].last_message,
                order: after[at].order,
                ..chats[at]
            }
        }),
{
    lemma_chat_at(chats, chats[at].id, 0);
    order_is_that_in_the_main_list(positions, k);
}

/// The chat that an update of the list speaks of.
pub open spec fn subject(update: UpdateView) -> Option<i64> {
    match update {
        UpdateView::ChatTitle { chat_id, .. } => Some(chat_id),
        UpdateView::ChatPhoto { chat_id, .. } => Some(chat_id),
        UpdateView::ChatReadInbox { chat_id, .. } => Some(chat_id),
        UpdateView::ChatPosition { chat_id, .. } => Some(chat_id),
        UpdateView::ChatLastMessage { chat_id, .. } => Some(chat_id),
        _ => None,
    }
}

/// No update but that of a new chat adds a row, none touches the row of a chat
/// that it does not speak of, and a place in another list changes nothing.
pub proof fn updates_leave_other_chats_alone(chats: Seq<ChatRow>, update: UpdateView, row: ChatRow)
    ensures
        ({
            let after = updated(chats, update).chats;
            &&& chats.contains(row) && subject(update) != Some(row.id) ==> after.contains(row)
            &&& after.contains(row) && subject(update) != Some(row.id) && !(
            update is NewChat) ==> chats.contains(row)
            &&& update matches UpdateView::ChatPosition { position, .. } ==> position.list
                != ChatListKind::Main ==> after == chats
            &&& subject(update) is None && !(update is NewChat) ==> after == chats
            &&& subject(update) matches Some(id) ==> (forall|i: int|
                0 <= i < chats.len() ==> (#[trigger] chats[i]).id != id) ==> after == chats
        }),
{
    let after = updated(chats, update).chats;
    match subject(update) {
        Some(id) => {
            lemma_chat_at(chats, id, 0);
        },
        None => {},
    }
    if chats.contains(row) && subject(update) != Some(row.id) {
        let i = choose|i: int| 0 <= i < chats.len() && chats[i] == row;
        match update {
            UpdateView::ChatPosition { chat_id, position } if position.list == ChatListKind::Main
                && position.order == 0 => {
                match find(chats, chat_id) {
                    Some(at) => {
                        if i < at {
                            assert(after[i] == row);
                        } else {
                            assert(after[i - 1] == row);
                        }
                    },
                    None => {},
                }
            },
            _ => {
                assert(after[i] == row);
            },
        }
    }
    if after.contains(row) && subject(update) != Some(row.id) && !(update is NewChat) {
        let i = choose|i: int| 0 <= i < after.len() && after[i] == row;
        match update {
            UpdateView::ChatPosition { chat_id, position } if position.list == ChatListKind::Main
                && position.order == 0 => {
                match find(chats, chat_id) {
                    Some(at) => {
                        if i < at {
                            assert(chats[i] == row);
                        } else {
                            assert(chats[i + 1] == row);
                        }
                    },
                    None => {},
                }
            },
            UpdateView::ChatTitle { chat_id, .. } => {
                lemma_kept(chats, after, chat_id, i);
            },
            UpdateView::ChatPhoto { chat_id, .. } => {
                lemma_kept(chats, after, chat_id, i);
            },
            UpdateView::ChatReadInbox { chat_id, .. } => {
                lemma_kept(chats, after, chat_id, i);
            },
            UpdateView::ChatPosition { chat_id, .. } => {
                lemma_kept(chats, after, chat_id, i);
            },
            UpdateView::ChatLastMessage { chat_id, .. } => {
                lemma_kept(chats, after, chat_id, i);
            },
            _ => {},
        }
    }
}

proof fn lemma_kept(chats: Seq<ChatRow>, after: Seq<ChatRow>, id: i64, i: int)
    requires
        after.len() == chats.len(),
        0 <= i < after.len(),
        after[i].id != id,
        forall|k: int| 0 <= k < chats.len() ==> (#[trigger] after[k]) == chats[k] || after[k].id
            == id,
    ensures
        chats.contains(after[i]),
{
    assert(chats[i] == after[i]);
}

/// A chat that is new is listed, with what the server says of it; one that is
/// listed already is left as it is. The rows that were there stay.
pub proof fn new_chat_is_listed(chats: Seq<ChatRow>, chat: ChatValue, k: int)
    requires
        0 <= k < chats.len() ==> chats[k].id != chat.id,
    ensures
        ({
            let after = updated(chats, UpdateView::NewChat { chat }).chats;
            &&& 0 <= k < chats.len() ==> after[k] == chats[k]
            &&& (exists|i: int| 0 <= i < chats.len() && (#[trigger] chats[i]).id == chat.id)
                ==> after == chats
            &&& (forall|i: int| 0 <= i < chats.len() ==> (#[trigger] chats[i]).id != chat.id) ==> {
                &&& after.len() == chats.len() + 1
                &&& after.last().id == chat.id
                &&& after.last().title == chat.title
                &&& after.last().unread_count == chat.unread_count
                &&& after.last().order == main_order_of(chat.positions)
            }
        }),
{
    lemma_chat_at(chats, chat.id, 0);
}

/// The row of a chat that was fetched again says what the server says now, and
/// every other row stays.
pub proof fn fetched_chat_is_shown(chats: Seq<ChatRow>, chat: ChatValue, at: int)
    requires
        listed_once(chats),
        0 <= at < chats.len(),
        chats[at].id == chat.id,
    ensures
        ({
            let after = added_or_updated(chats, chat).chats;
            &&& only_changes(chats, after, chat.id)
            &&& after[at].title == chat.title
            &&& after[at].unread_count == chat.unread_count
            &&& after[at].order == main_order_of(chat.positions)
            &&& chat.photo matches Some(file_id) ==> after[at].photo_file_id == file_id
            &&& chat.photo is None ==> after[at].photo_file_id == 0
            &&& chat.last_message matches Some(m) ==> after[at].last_message
                == preview_text(m.content)
        }),
{
    lemma_chat_at(chats, chat.id, 0);
}

/// A change of a row is seen: its row is bound anew, rows are sorted anew
/// wherever an order may have changed, and the list is shown exactly while it
/// holds a chat.
pub proof fn changes_are_painted(chats: Seq<ChatRow>, update: UpdateView, at: int)
    requires
        listed_once(chats),
        0 <= at < chats.len() <= usize::MAX,
    ensures
        ({
            let step = updated(chats, update);
            &&& step.chats.len() == chats.len() && step.chats[at] != chats[at]
                ==> step.effects.contains(ListEffect::Rebind { position: at as usize })
            &&& step.chats.len() == chats.len() && step.chats[at].order != chats[at].order
                ==> step.effects.contains(ListEffect::Resort)
            &&& step.chats.len() > chats.len() ==> step.effects.contains(ListEffect::Appended)
                && step.effects.contains(ListEffect::ShowList) && step.effects.contains(
                ListEffect::Resort,
            )
            &&& step.chats.len() == 0 ==> step.effects.contains(ListEffect::ShowEmpty)
        }),
{
    let step = updated(chats, update);
    match subject(update) {
        Some(id) => {
            lemma_chat_at(chats, id, 0);
        },
        None => {},
    }
    let e = step.effects;
    if e.len() > 0 {
        assert(e.contains(e[0]));
    }
    if e.len() > 1 {
        assert(e.contains(e[1]));
    }
    if e.len() > 2 {
        assert(e.contains(e[2]));
    }
}

/// Exactly the chats of a list that are not known are fetched.
pub proof fn unknown_chats_are_fetched(chats: Seq<ChatRow>, ids: Seq<i64>, id: i64)
    ensures
        unknown(chats, ids).contains(ListEffect::FetchChat { chat_id: id }) <==> ids.contains(id)
            && forall|i: int| 0 <= i < chats.len() ==> (#[trigger] chats[i]).id != id,
        forall|k: int|
            0 <= k < unknown(chats, ids).len() ==> (#[trigger] unknown(chats, ids)[k]) is FetchChat,
    decreases ids.len(),
{
    lemma_chat_at(chats, id, 0);
    if ids.len() > 0 {
        let before = ids.drop_last();
        unknown_chats_are_fetched(chats, before, id);
        lemma_chat_at(chats, ids.last(), 0);
        let rest = unknown(chats, before);
        let all = unknown(chats, ids);
        let wanted = ListEffect::FetchChat { chat_id: id };
        if rest.contains(wanted) {
            let k = choose|k: int| 0 <= k < rest.len() && rest[k] == wanted;
            assert(all[k] == wanted);
        }
        if before.contains(id) {
            let k = choose|k: int| 0 <= k < before.len() && before[k] == id;
            assert(ids[k] == id);
        }
        if ids.last() == id {
            assert(ids[ids.len() - 1] == id);
            if find(chats, id) is None {
                assert(all[rest.len() as int] == wanted);
            }
        }
        if all.contains(wanted) {
            let k = choose|k: int| 0 <= k < all.len() && all[k] == wanted;
            if k < rest.len() {
                assert(rest[k] == wanted);
                assert(rest.contains(wanted));
            }
        }
        if ids.contains(id) && ids.last() != id {
            let k = choose|k: int| 0 <= k < ids.len() && ids[k] == id;
            assert(before[k] == id);
        }
    }
}

/// A badge says how many messages are unread; a chat without any has none.
pub proof fn badge_counts_unread_messages(unread_count: i32)
    ensures
        badge_of(unread_count) is None <==> unread_count <= 0,
        badge_of(unread_count) matches Some(text) ==> parse_int(
            text,
            i32::MIN as int,
            i32::MAX as int,
        ) == Some(unread_count as int),
{
    if unread_count > 0 {
        numeral_round_trip(unread_count as int, i32::MIN as int, i32::MAX as int);
    }
}

/// A chat that was fetched is seen: its row is bound, or added where there was
/// none, the rows are sorted anew and the list is shown.
pub proof fn fetched_chat_is_painted(chats: Seq<ChatRow>, chat: ChatValue, at: int)
    requires
        listed_once(chats),
        chats.len() <= usize::MAX,
    ensures
        ({
            let step = added_or_updated(chats, chat);
            &&& 0 <= at < chats.len() && chats[at].id == chat.id ==> step.effects.contains(
                ListEffect::Rebind { position: at as usize },
            )
            &&& step.chats.len() > chats.len() <==> step.effects.contains(ListEffect::Appended)
            &&& step.effects.contains(ListEffect::ShowList)
            &&& !step.effects.contains(ListEffect::ShowEmpty)
            &&& step.effects.contains(ListEffect::Resort)
        }),
{
    let e = added_or_updated(chats, chat).effects;
    lemma_chat_at(chats, chat.id, 0);
    assert(e.contains(e[0]));
    assert(e.contains(e[1]));
    assert(e.contains(e[2]));
}

/// The row of a chat that leaves the main list is taken out where it stood. The
/// list is shown on while it holds a chat.
pub proof fn chat_that_left_is_taken_out(chats: Seq<ChatRow>, at: int)
    requires
        listed_once(chats),
        0 <= at < chats.len() <= usize::MAX,
    ensures
        ({
            let step = removed(chats, chats[at].id);
            &&& step.chats == chats.remove(at)
            &&& step.effects.len() == 2
            &&& step.effects[0] == (ListEffect::Removed { position: at as usize })
            &&& chats.len() > 1 ==> step.effects[1] == ListEffect::ShowList
            &&& chats.len() == 1 ==> step.effects[1] == ListEffect::ShowEmpty
        }),
{
    lemma_chat_at(chats, chats[at].id, 0);
}

/// Every chat can be opened from some row, under its own title, and every row
/// opens a chat that is listed.
pub proof fn every_chat_can_be_opened(chats: Seq<ChatRow>, at: int, row: int)
    requires
        0 <= at < chats.len(),
    ensures
        exists|r: int| #[trigger] opened(chats, r) == Some((chats[at].id, chats[at].title)),
        opened(chats, row) is Some <==> 0 <= row < chats.len(),
        opened(chats, row) matches Some((id, title)) ==> exists|i: int|
            0 <= i < chats.len() && (#[trigger] chats[i]).id == id && chats[i].title == title,
{
    broadcast use vstd::seq_lib::group_to_multiset_ensures;

    rows_show_the_chats_in_order(chats);
    let rows = shown(chats);
    assert(chats.contains(chats[at]));
    assert(chats.to_multiset().count(chats[at]) > 0);
    assert(rows.contains(chats[at]));
    let r = choose|r: int| 0 <= r < rows.len() && rows[r] == chats[at];
    assert(opened(chats, r) == Some((chats[at].id, chats[at].title)));
    assert(rows.len() == rows.to_multiset().len());
    assert(chats.len() == chats.to_multiset().len());
    if 0 <= row < rows.len() {
        assert(rows.contains(rows[row]));
        assert(rows.to_multiset().count(rows[row]) > 0);
        assert(chats.contains(rows[row]));
        let i = choose|i: int| 0 <= i < chats.len() && chats[i] == rows[row];
        assert(chats[i].id == rows[row].id);
    }
}

} // verus!
