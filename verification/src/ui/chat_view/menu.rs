//! The context menu of a message: its reaction bar, its items and its place.

use crate::tdlib::types::ReactionType;
use crate::text::{after_prefix, all_views, numeral_round_trip, parse_i64, parse_int,
    prefix_round_trip, same_text, signed_decimal, signed_decimal_string, strip_prefix};
use vstd::prelude::*;

verus! {

/// The most reactions the bar offers.
pub const BAR_MAX: usize = 8;

/// A reaction that the server offers for a message.
#[derive(Debug)]
pub struct AvailableReaction {
    pub reaction_type: ReactionType,
    /// Whether only Telegram Premium users can add it.
    pub needs_premium: bool,
}

/// The reactions that the server offers for a message.
#[derive(Debug)]
pub struct AvailableReactions {
    pub top: Vec<AvailableReaction>,
    pub popular: Vec<AvailableReaction>,
    pub recent: Vec<AvailableReaction>,
}

/// The mathematical value of an [`AvailableReaction`]: its emoji, if it is a
/// plain one, and whether it needs Premium.
pub struct OfferView {
    pub emoji: Option<Seq<char>>,
    pub needs_premium: bool,
}

impl View for AvailableReaction {
    type V = OfferView;

    open spec fn view(&self) -> OfferView {
        OfferView { emoji: self.reaction_type.emoji(), needs_premium: self.needs_premium }
    }
}

/// The values of a list of offers.
pub open spec fn offer_views(v: Seq<AvailableReaction>) -> Seq<OfferView> {
    Seq::new(v.len(), |i: int| v[i]@)
}

impl View for AvailableReactions {
    type V = Seq<OfferView>;

    /// All offers: the top ones, then the popular ones, then the recent ones.
    open spec fn view(&self) -> Seq<OfferView> {
        offer_views(self.top@) + offer_views(self.popular@) + offer_views(self.recent@)
    }
}

/// The emoji that the bar offers, out of `offers` and after those of `first`.
pub open spec fn picked(first: Seq<Seq<char>>, offers: Seq<OfferView>) -> Seq<Seq<char>>
    decreases offers.len(),
{
    if offers.len() == 0 {
        first
    } else {
        let rest = picked(first, offers.drop_last());
        let offer = offers.last();
        if rest.len() >= BAR_MAX || offer.needs_premium || offer.emoji is None || rest.contains(
            offer.emoji->0,
        ) {
            rest
        } else {
            rest.push(offer.emoji->0)
        }
    }
}

/// What becomes of the reaction bar once the offers are known.
#[derive(Debug)]
pub enum BarChange {
    Keep,
    Hide,
    Replace { emoji: Vec<String> },
}

/// The mathematical value of a [`BarChange`].
pub enum BarChangeView {
    Keep,
    Hide,
    Replace { emoji: Seq<Seq<char>> },
}

impl View for BarChange {
    type V = BarChangeView;

    open spec fn view(&self) -> BarChangeView {
        match *self {
            BarChange::Keep => BarChangeView::Keep,
            BarChange::Hide => BarChangeView::Hide,
            BarChange::Replace { emoji } => BarChangeView::Replace { emoji: all_views(emoji@) },
        }
    }
}

/// What becomes of a bar that shows `current`. Where the offers could not be
/// fetched it stays; where nothing can be added it is hidden.
pub open spec fn bar_change(
    offers: Option<Seq<OfferView>>,
    current: Seq<Seq<char>>,
) -> BarChangeView {
    match offers {
        None => BarChangeView::Keep,
        Some(o) => {
            let emoji = picked(Seq::empty(), o);
            if emoji.len() == 0 {
                BarChangeView::Hide
            } else if emoji == current {
                BarChangeView::Keep
            } else {
                BarChangeView::Replace { emoji }
            }
        },
    }
}

/// The emoji the bar shows until the offers are known.
pub open spec fn seed() -> Seq<Seq<char>> {
    seq!["👍"@, "❤️"@, "🔥"@, "🎉"@, "😁"@, "😢"@, "🙏"@]
}

/// The emoji the bar shows until the offers are known.
pub fn picker_emoji() -> (r: Vec<String>)
    ensures
        all_views(r@) == seed(),
{
    let mut r: Vec<String> = Vec::new();
    r.push("👍".to_owned());
    r.push("❤️".to_owned());
    r.push("🔥".to_owned());
    r.push("🎉".to_owned());
    r.push("😁".to_owned());
    r.push("😢".to_owned());
    r.push("🙏".to_owned());
    assert(all_views(r@) =~= seed());
    r
}

fn listed(list: &Vec<String>, emoji: &str) -> (r: bool)
    ensures
        r == all_views(list@).contains(emoji@),
{
    for i in 0..list.len()
        invariant
            forall|k: int| 0 <= k < i ==> (#[trigger] all_views(list@)[k]) != emoji@,
    {
        if same_text(list[i].as_str(), emoji) {
            assert(all_views(list@)[i as int] == emoji@);
            return true;
        }
    }
    false
}

/// Adds the emoji that the bar takes out of one group of offers.
fn pick_group(emoji: &mut Vec<String>, group: &Vec<AvailableReaction>)
    ensures
        all_views(final(emoji)@) == picked(all_views(old(emoji)@), offer_views(group@)),
{
    let ghost first = all_views(emoji@);
    let ghost offers = offer_views(group@);
    assert(picked(first, offers.take(0)) =~= first);
    for i in 0..group.len()
        invariant
            offers == offer_views(group@),
            all_views(emoji@) == picked(first, offers.take(i as int)),
    {
        let ghost before = emoji@;
        assert(offers.take(i + 1).drop_last() =~= offers.take(i as int));
        if emoji.len() < BAR_MAX && !group[i].needs_premium {
            match &group[i].reaction_type {
                ReactionType::Emoji(e) => {
                    if !listed(emoji, e.as_str()) {
                        emoji.push(e.clone());
                        assert(all_views(emoji@) =~= all_views(before).push(e@));
                    }
                },
                ReactionType::Other => {},
            }
        }
    }
    assert(offers.take(offers.len() as int) =~= offers);
}

proof fn lemma_picked_concat(first: Seq<Seq<char>>, a: Seq<OfferView>, b: Seq<OfferView>)
    ensures
        picked(first, a + b) == picked(picked(first, a), b),
    decreases b.len(),
{
    if b.len() == 0 {
        assert(a + b =~= a);
    } else {
        lemma_picked_concat(first, a, b.drop_last());
        assert((a + b).drop_last() =~= a + b.drop_last());
    }
}

/// The emoji that the bar offers: those that can be added without Premium,
/// each once, up to [`BAR_MAX`].
pub fn pick_reactions(offers: &AvailableReactions) -> (r: Vec<String>)
    ensures
        all_views(r@) == picked(Seq::empty(), offers@),
{
    let mut emoji: Vec<String> = Vec::new();
    assert(all_views(emoji@) =~= Seq::empty());
    pick_group(&mut emoji, &offers.top);
    pick_group(&mut emoji, &offers.popular);
    pick_group(&mut emoji, &offers.recent);
    proof {
        let (t, p, r) = (
            offer_views(offers.top@),
            offer_views(offers.popular@),
            offer_views(offers.recent@),
        );
        lemma_picked_concat(Seq::empty(), t, p);
        lemma_picked_concat(Seq::empty(), t + p, r);
    }
    emoji
}

fn same_list(a: &Vec<String>, b: &Vec<String>) -> (r: bool)
    ensures
        r == (all_views(a@) == all_views(b@)),
{
    if a.len() != b.len() {
        assert(all_views(a@).len() != all_views(b@).len());
        return false;
    }
    for i in 0..a.len()
        invariant
            a@.len() == b@.len(),
            forall|k: int| 0 <= k < i ==> all_views(a@)[k] == all_views(b@)[k],
    {
        if !same_text(a[i].as_str(), b[i].as_str()) {
            assert(all_views(a@)[i as int] != all_views(b@)[i as int]);
            return false;
        }
    }
    assert(all_views(a@) =~= all_views(b@));
    true
}

/// What becomes of a bar that shows `current`, once the offers were fetched or
/// could not be fetched.
pub fn offers_arrived(offers: Option<&AvailableReactions>, current: &Vec<String>) -> (r: BarChange)
    ensures
        r@ == bar_change(
            match offers {
                Some(o) => Some(o@),
                None => None,
            },
            all_views(current@),
        ),
{
    match offers {
        None => BarChange::Keep,
        Some(o) => {
            let emoji: Vec<String> = pick_reactions(o);
            if emoji.len() == 0 {
                BarChange::Hide
            } else if same_list(&emoji, current) {
                BarChange::Keep
            } else {
                BarChange::Replace { emoji }
            }
        },
    }
}

// --- Items -------------------------------------------------------------------

/// An item of the menu.
#[derive(Clone, Copy, Debug, PartialEq, Eq, Structural)]
pub enum MenuItem {
    Reply,
    Edit,
    Copy,
    Forward,
    Delete,
}

/// The items of the menu of a message, top to bottom.
pub open spec fn items_of(is_text: bool) -> Seq<MenuItem> {
    if is_text {
        seq![
            MenuItem::Reply,
            MenuItem::Edit,
            MenuItem::Copy,
            MenuItem::Forward,
            MenuItem::Delete,
        ]
    } else {
        seq![MenuItem::Reply, MenuItem::Copy, MenuItem::Forward, MenuItem::Delete]
    }
}

/// The items of the menu of a message. Only text messages can be edited.
pub fn menu_items(is_text: bool) -> (r: Vec<MenuItem>)
    ensures
        r@ == items_of(is_text),
{
    let mut r: Vec<MenuItem> = Vec::new();
    r.push(MenuItem::Reply);
    if is_text {
        r.push(MenuItem::Edit);
    }
    r.push(MenuItem::Copy);
    r.push(MenuItem::Forward);
    r.push(MenuItem::Delete);
    r
}

/// How an item looks: its icon, its label, and whether it is destructive.
pub open spec fn look_of(item: MenuItem) -> (Seq<char>, Seq<char>, bool) {
    match item {
        MenuItem::Reply => ("mail-reply-sender-symbolic"@, "Reply"@, false),
        MenuItem::Edit => ("document-edit-symbolic"@, "Edit"@, false),
        MenuItem::Copy => ("edit-copy-symbolic"@, "Copy"@, false),
        MenuItem::Forward => ("mail-forward-symbolic"@, "Forward"@, false),
        MenuItem::Delete => ("user-trash-symbolic"@, "Delete"@, true),
    }
}

/// How an item looks: its icon, its label, and whether it is destructive.
pub fn look(item: MenuItem) -> (r: (String, String, bool))
    ensures
        (r.0@, r.1@, r.2) == look_of(item),
{
    match item {
        MenuItem::Reply => ("mail-reply-sender-symbolic".to_owned(), "Reply".to_owned(), false),
        MenuItem::Edit => ("document-edit-symbolic".to_owned(), "Edit".to_owned(), false),
        MenuItem::Copy => ("edit-copy-symbolic".to_owned(), "Copy".to_owned(), false),
        MenuItem::Forward => ("mail-forward-symbolic".to_owned(), "Forward".to_owned(), false),
        MenuItem::Delete => ("user-trash-symbolic".to_owned(), "Delete".to_owned(), true),
    }
}

// --- Place -------------------------------------------------------------------

/// Where an edge at `start` of something `size` long goes, so that it does not
/// reach out of a space `room` long; unknown room is 0.
pub open spec fn clamped(start: int, size: int, room: int) -> int {
    let s = if room > 0 && start + size > room {
        room - size
    } else {
        start
    };
    if s < 0 {
        0
    } else {
        s
    }
}

/// Keeps the menu inside the overlay, along one axis.
pub fn clamp(start: i32, size: i32, room: i32) -> (r: i32)
    requires
        room > 0 ==> i32::MIN <= start + size <= i32::MAX,
        room > 0 && start + size > room ==> i32::MIN <= room - size <= i32::MAX,
    ensures
        r == clamped(start as int, size as int, room as int),
{
    let s: i32 = if room > 0 && start + size > room {
        room - size
    } else {
        start
    };
    if s < 0 {
        0
    } else {
        s
    }
}

// --- Names of widgets --------------------------------------------------------

/// The name of the row of a message.
pub open spec fn row_name_of(id: i64) -> Seq<char> {
    "msg-row-"@ + signed_decimal(id as int)
}

/// The name of a picture.
pub open spec fn photo_name_of(file_id: i32) -> Seq<char> {
    "photo-"@ + signed_decimal(file_id as int)
}

/// The message that a row with this name shows.
pub open spec fn row_id(name: Seq<char>) -> Option<int> {
    match strip_prefix(name, "msg-row-"@) {
        Some(rest) => parse_int(rest, i64::MIN as int, i64::MAX as int),
        None => None,
    }
}

/// The file that a picture with this name shows.
pub open spec fn photo_id(name: Seq<char>) -> Option<int> {
    match strip_prefix(name, "photo-"@) {
        Some(rest) => parse_int(rest, i32::MIN as int, i32::MAX as int),
        None => None,
    }
}

/// The message under the pointer: `names` are those of the widgets there, from
/// the innermost out.
pub open spec fn message_under(names: Seq<Seq<char>>) -> Option<int>
    decreases names.len(),
{
    if names.len() == 0 {
        None
    } else if row_id(names.first()) is Some {
        row_id(names.first())
    } else {
        message_under(names.drop_first())
    }
}

/// The picture under the pointer; the first widget named like one decides.
pub open spec fn photo_under(names: Seq<Seq<char>>) -> Option<int>
    decreases names.len(),
{
    if names.len() == 0 {
        None
    } else if strip_prefix(names.first(), "photo-"@) is Some {
        photo_id(names.first())
    } else {
        photo_under(names.drop_first())
    }
}

/// The name of the row of a message.
pub fn row_name(id: i64) -> (r: String)
    ensures
        r@ == row_name_of(id),
{
    let mut r: String = "msg-row-".to_owned();
    let n: String = signed_decimal_string(id);
    r.append(n.as_str());
    r
}

/// The name of a picture.
pub fn photo_name(file_id: i32) -> (r: String)
    ensures
        r@ == photo_name_of(file_id),
{
    let mut r: String = "photo-".to_owned();
    let n: String = signed_decimal_string(file_id as i64);
    r.append(n.as_str());
    r
}

/// The message under the pointer, if any.
pub fn message_id_at(names: &Vec<String>) -> (r: Option<i64>)
    ensures
        match message_under(all_views(names@)) {
            Some(n) => r is Some && r->0 == n,
            None => r is None,
        },
{
    let ghost all = all_views(names@);
    assert(all.skip(0) =~= all);
    for i in 0..names.len()
        invariant
            all == all_views(names@),
            message_under(all) == message_under(all.skip(i as int)),
    {
        assert(all.skip(i as int).first() == names@[i as int]@);
        assert(all.skip(i as int).drop_first() =~= all.skip(i + 1));
        match after_prefix(names[i].as_str(), "msg-row-") {
            Some(rest) => {
                let id: Option<i64> = parse_i64(rest.as_str(), i64::MIN, i64::MAX);
                if id.is_some() {
                    return id;
                }
            },
            None => {},
        }
    }
    assert(all.skip(all.len() as int) =~= Seq::empty());
    None
}

/// The picture under the pointer, if any; file 0 is none.
pub fn maybe_open_photo(names: &Vec<String>) -> (r: Option<i32>)
    ensures
        match photo_under(all_views(names@)) {
            Some(n) => if n == 0 {
                r is None
            } else {
                r is Some && r->0 == n
            },
            None => r is None,
        },
{
    let ghost all = all_views(names@);
    assert(all.skip(0) =~= all);
    for i in 0..names.len()
        invariant
            all == all_views(names@),
            photo_under(all) == photo_under(all.skip(i as int)),
    {
        assert(all.skip(i as int).first() == names@[i as int]@);
        assert(all.skip(i as int).drop_first() =~= all.skip(i + 1));
        match after_prefix(names[i].as_str(), "photo-") {
            Some(rest) => {
                return match parse_i64(rest.as_str(), i32::MIN as i64, i32::MAX as i64) {
                    Some(n) => if n == 0 {
                        None
                    } else {
                        Some(n as i32)
                    },
                    None => None,
                };
            },
            None => {},
        }
    }
    assert(all.skip(all.len() as int) =~= Seq::empty());
    None
}

// --- Laws --------------------------------------------------------------------

/// The name of a row leads back to its message.
pub proof fn row_name_round_trip(id: i64)
    ensures
        row_id(row_name_of(id)) == Some(id as int),
{
    prefix_round_trip("msg-row-"@, signed_decimal(id as int));
    numeral_round_trip(id as int, i64::MIN as int, i64::MAX as int);
}

/// The name of a picture leads back to its file.
pub proof fn photo_name_round_trip(file_id: i32)
    ensures
        photo_id(photo_name_of(file_id)) == Some(file_id as int),
{
    prefix_round_trip("photo-"@, signed_decimal(file_id as int));
    numeral_round_trip(file_id as int, i32::MIN as int, i32::MAX as int);
}

/// The bar never offers more than [`BAR_MAX`] emoji, never one twice, and only
/// such as the server offers without Premium.
pub proof fn picked_can_be_added(offers: Seq<OfferView>)
    ensures
        picked(Seq::empty(), offers).len() <= BAR_MAX,
        picked(Seq::empty(), offers).no_duplicates(),
        forall|i: int|
            0 <= i < picked(Seq::empty(), offers).len() ==> exists|k: int|
                0 <= k < offers.len() && !offers[k].needs_premium
                    && #[trigger] offers[k].emoji == Some(
                    #[trigger] picked(Seq::empty(), offers)[i],
                ),
    decreases offers.len(),
{
    if offers.len() > 0 {
        let before = offers.drop_last();
        picked_can_be_added(before);
        let rest = picked(Seq::empty(), before);
        let all = picked(Seq::empty(), offers);
        assert forall|i: int| 0 <= i < all.len() implies exists|k: int|
            0 <= k < offers.len() && !offers[k].needs_premium && #[trigger] offers[k].emoji == Some(
                #[trigger] all[i],
            ) by {
            if i < rest.len() {
                assert(all[i] == rest[i]);
                let k = choose|k: int|
                    0 <= k < before.len() && !before[k].needs_premium
                        && #[trigger] before[k].emoji == Some(rest[i]);
                assert(offers[k] == before[k]);
                assert(offers[k].emoji == Some(all[i]));
            } else {
                assert(offers[offers.len() - 1].emoji == Some(all[i]));
            }
        }
    }
}

/// A menu that fits the overlay ends up inside it.
pub proof fn clamped_fits(start: int, size: int, room: int)
    requires
        0 <= size <= room,
        0 < room,
    ensures
        0 <= clamped(start, size, room),
        clamped(start, size, room) + size <= room,
{
}

/// Every emoji that the server offers without Premium is on the bar, as long as
/// there is room for it: only a bar that is full leaves one out.
pub proof fn bar_leaves_out_only_for_room(offers: Seq<OfferView>, k: int)
    requires
        0 <= k < offers.len(),
        !offers[k].needs_premium,
        offers[k].emoji is Some,
    ensures
        picked(Seq::empty(), offers).contains(offers[k].emoji->0) || picked(
            Seq::empty(),
            offers,
        ).len() >= 8,
    decreases offers.len(),
{
    let before = offers.drop_last();
    let rest = picked(Seq::empty(), before);
    let all = picked(Seq::empty(), offers);
    if k < before.len() {
        bar_leaves_out_only_for_room(before, k);
        if rest.contains(offers[k].emoji->0) {
            let i = choose|i: int| 0 <= i < rest.len() && rest[i] == offers[k].emoji->0;
            assert(all[i] == rest[i]);
        }
    } else if rest.len() < BAR_MAX && !rest.contains(offers[k].emoji->0) {
        assert(all[rest.len() as int] == offers[k].emoji->0);
    }
}

/// The bar holds eight emoji at most, and goes through the offers in order: what
/// the first of them bring stands first.
pub proof fn bar_keeps_the_order(offers: Seq<OfferView>, n: int)
    requires
        0 <= n <= offers.len(),
    ensures
        picked(Seq::empty(), offers).len() <= 8,
        picked(Seq::empty(), offers.take(n)).is_prefix_of(picked(Seq::empty(), offers)),
    decreases offers.len(),
{
    picked_can_be_added(offers);
    if n == offers.len() {
        assert(offers.take(n) =~= offers);
    } else {
        let before = offers.drop_last();
        bar_keeps_the_order(before, n);
        assert(before.take(n) =~= offers.take(n));
        let few = picked(Seq::empty(), offers.take(n));
        let rest = picked(Seq::empty(), before);
        let all = picked(Seq::empty(), offers);
        assert forall|i: int| 0 <= i < few.len() implies few[i] == all[i] by {
            assert(few[i] == rest[i]);
        }
        assert(few =~= all.subrange(0, few.len() as int));
    }
}

/// Once the offers are known the bar shows what can be added, and is hidden
/// where nothing can. It is left alone where it shows that already, or where the
/// offers are not known.
pub proof fn bar_follows_the_offers(offers: Seq<OfferView>, current: Seq<Seq<char>>)
    ensures
        bar_change(None, current) is Keep,
        bar_change(Some(offers), current) is Hide <==> picked(Seq::empty(), offers).len() == 0,
        bar_change(Some(offers), current) is Keep ==> current == picked(Seq::empty(), offers),
        bar_change(Some(offers), current) matches BarChangeView::Replace { emoji } ==> emoji
            == picked(Seq::empty(), offers) && emoji != current,
{
}

/// A menu that fits where it is asked for stays there; one that would reach out
/// ends at the edge, and none begins before the start.
pub proof fn menu_moves_only_as_needed(start: int, size: int, room: int)
    requires
        0 <= size,
    ensures
        0 <= start && (room <= 0 || start + size <= room) ==> clamped(start, size, room) == start,
        room > 0 && start + size > room && size <= room ==> clamped(start, size, room) + size
            == room,
        start < 0 && (room <= 0 || start + size <= room) ==> clamped(start, size, room) == 0,
        0 < room < size && start + size > room ==> clamped(start, size, room) == 0,
{
}

/// The message under the pointer is that of the innermost row.
pub proof fn innermost_row_counts(names: Seq<Seq<char>>, k: int)
    requires
        0 <= k <= names.len(),
        forall|i: int| 0 <= i < k ==> row_id(#[trigger] names[i]) is None,
        k < names.len() ==> row_id(names[k]) is Some,
    ensures
        k < names.len() ==> message_under(names) == row_id(names[k]),
        k == names.len() ==> message_under(names) is None,
    decreases k,
{
    if k > 0 {
        let rest = names.drop_first();
        assert(row_id(names[0]) is None);
        assert forall|i: int| 0 <= i < k - 1 implies row_id(#[trigger] rest[i]) is None by {
            assert(rest[i] == names[i + 1]);
        }
        innermost_row_counts(rest, k - 1);
    }
}

/// The picture under the pointer is the innermost widget that is named like one.
pub proof fn innermost_picture_counts(names: Seq<Seq<char>>, k: int)
    requires
        0 <= k <= names.len(),
        forall|i: int|
            0 <= i < k ==> strip_prefix(#[trigger] names[i], "photo-"@) is None,
        k < names.len() ==> strip_prefix(names[k], "photo-"@) is Some,
    ensures
        k < names.len() ==> photo_under(names) == photo_id(names[k]),
        k == names.len() ==> photo_under(names) is None,
    decreases k,
{
    if k > 0 {
        let rest = names.drop_first();
        assert(strip_prefix(names[0], "photo-"@) is None);
        assert forall|i: int| 0 <= i < k - 1 implies strip_prefix(
            #[trigger] rest[i],
            "photo-"@,
        ) is None by {
            assert(rest[i] == names[i + 1]);
        }
        innermost_picture_counts(rest, k - 1);
    }
}

/// No two items look alike, and only deleting is marked as destructive.
pub proof fn items_look_different(a: MenuItem, b: MenuItem)
    ensures
        look_of(a).0 == look_of(b).0 ==> a == b,
        look_of(a).1 == look_of(b).1 ==> a == b,
        look_of(a).2 <==> a == MenuItem::Delete,
{
    reveal_strlit("mail-reply-sender-symbolic");
    reveal_strlit("document-edit-symbolic");
    reveal_strlit("edit-copy-symbolic");
    reveal_strlit("mail-forward-symbolic");
    reveal_strlit("user-trash-symbolic");
    reveal_strlit("Reply");
    reveal_strlit("Edit");
    reveal_strlit("Copy");
    reveal_strlit("Forward");
    reveal_strlit("Delete");
    let i = look_of(a).0;
    let j = look_of(b).0;
    let s = look_of(a).1;
    let t = look_of(b).1;
    if i == j {
        assert(i.len() == j.len());
    }
    if s == t {
        assert(s.len() == t.len());
        assert(s[0] == t[0]);
    }
}

/// A menu offers every item once, editing only for a text, and ends with
/// deleting.
pub proof fn menu_offers_every_item(is_text: bool, item: MenuItem)
    ensures
        items_of(is_text).contains(item) <==> item != MenuItem::Edit || is_text,
        items_of(is_text).no_duplicates(),
        items_of(is_text).first() == MenuItem::Reply,
        items_of(is_text).last() == MenuItem::Delete,
{
    let items = items_of(is_text);
    assert(items[0] == MenuItem::Reply);
    if is_text {
        assert(items[1] == MenuItem::Edit);
        assert(items[2] == MenuItem::Copy);
        assert(items[3] == MenuItem::Forward);
        assert(items[4] == MenuItem::Delete);
    } else {
        assert(items[1] == MenuItem::Copy);
        assert(items[2] == MenuItem::Forward);
        assert(items[3] == MenuItem::Delete);
    }
}

} // verus!
