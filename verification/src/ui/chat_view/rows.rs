//! What a row of the history shows, from its message and its neighbours.

use crate::format::{same_local_day, LocalDate};
use crate::models::kind;
use crate::models::message_object::{chip_views, ChipView, MessageObject, MessageView, ReactionChip};
use crate::text::{opt_view, signed_decimal, signed_decimal_string};
use crate::ui::chat_view::history::History;
use crate::ui::chat_view::markup::{linked, linkify};
use crate::ui::chat_view::model::HistoryView;
use vstd::prelude::*;

verus! {

/// Messages of one sender within this many seconds of each other are grouped:
/// one name above them and one avatar below.
pub const GROUP_WINDOW_SECS: i64 = 300;

/// The width of an album, in pixels.
pub const ALBUM_WIDTH: i32 = 320;

/// The gap between the cells of an album.
pub const ALBUM_GAP: i32 = 2;

/// The least size of a cell of an album.
pub const MIN_CELL: i32 = 60;

/// The download priority of a sender's avatar.
pub const AVATAR_PRIORITY: i32 = 12;

/// The download priority of a photo in a row.
pub const PHOTO_PRIORITY: i32 = 8;

/// The download priority of a photo that is opened.
pub const VIEWER_PRIORITY: i32 = 20;

/// The local dates that a row needs: that of the row above, and its own.
#[derive(Clone, Copy, Debug, PartialEq, Eq, Structural)]
pub struct Days {
    pub previous: Option<LocalDate>,
    pub current: Option<LocalDate>,
}

/// Where the sender's name goes.
#[derive(Debug)]
pub enum SenderSlot {
    Hidden,
    /// Not known yet; it shows up as soon as it is.
    Waiting,
    Shown { name: String },
}

/// Where the sender's avatar goes.
#[derive(Debug)]
pub enum AvatarSlot {
    /// No space is kept.
    Collapsed,
    /// Space is kept, so that bubbles of a run stay aligned.
    Reserved { text: String },
    /// The photo `file_id` is shown, or initials for 0.
    Shown { text: String, file_id: i32 },
}

/// The pictures of a row.
#[derive(Debug)]
pub enum Media {
    Nothing,
    Photo { file_id: i32, width: i32, height: i32 },
    /// A grid of square cells.
    Album { cells: Vec<i32>, columns: usize, cell: i32 },
}

/// The voice note of a row.
#[derive(Clone, Copy, Debug, PartialEq, Eq, Structural)]
pub struct VoiceNote {
    pub file_id: i32,
    /// Seconds.
    pub duration: i32,
    /// The end of the seek bar in seconds; never 0.
    pub range: i32,
}

/// The reply header of a row.
#[derive(Debug)]
pub struct ReplyHeader {
    pub sender: String,
    pub text: String,
}

/// One reaction chip of a row.
#[derive(Debug)]
pub struct ChipPlan {
    pub label: String,
    pub emoji: String,
    pub is_chosen: bool,
}

/// What a row with content shows.
#[derive(Debug)]
pub struct RowContent {
    pub outgoing: bool,
    pub pending: bool,
    /// Whether a date separator stands above the row.
    pub separator: bool,
    pub reply: Option<ReplyHeader>,
    pub sender: SenderSlot,
    pub avatar: AvatarSlot,
    pub media: Media,
    pub voice: Option<VoiceNote>,
    /// The body as markup, if there is one.
    pub body: Option<String>,
    /// Whether the body follows the text of the message.
    pub live_body: bool,
    /// The delivery state, for outgoing messages.
    pub status: Option<i32>,
    pub chips: Vec<ChipPlan>,
}

/// What a row shows.
#[derive(Debug)]
pub enum RowPlan {
    /// Nothing: its picture is shown in the grid of the album's first row.
    Continuation,
    Shown { content: RowContent },
}

/// The mathematical value of a [`SenderSlot`].
pub enum SenderSlotView {
    Hidden,
    Waiting,
    Shown { name: Seq<char> },
}

/// The mathematical value of an [`AvatarSlot`].
pub enum AvatarSlotView {
    Collapsed,
    Reserved { text: Seq<char> },
    Shown { text: Seq<char>, file_id: i32 },
}

/// The mathematical value of [`Media`].
pub enum MediaView {
    Nothing,
    Photo { file_id: i32, width: i32, height: i32 },
    Album { cells: Seq<i32>, columns: int, cell: int },
}

/// The mathematical value of a [`ChipPlan`].
pub struct ChipPlanView {
    pub label: Seq<char>,
    pub emoji: Seq<char>,
    pub is_chosen: bool,
}

/// The mathematical value of [`RowContent`].
pub struct RowContentView {
    pub outgoing: bool,
    pub pending: bool,
    pub separator: bool,
    pub reply: Option<(Seq<char>, Seq<char>)>,
    pub sender: SenderSlotView,
    pub avatar: AvatarSlotView,
    pub media: MediaView,
    pub voice: Option<VoiceNote>,
    pub body: Option<Seq<char>>,
    pub live_body: bool,
    pub status: Option<i32>,
    pub chips: Seq<ChipPlanView>,
}

/// The mathematical value of a [`RowPlan`].
pub enum RowPlanView {
    Continuation,
    Shown { content: RowContentView },
}

impl View for SenderSlot {
    type V = SenderSlotView;

    open spec fn view(&self) -> SenderSlotView {
        match *self {
            SenderSlot::Hidden => SenderSlotView::Hidden,
            SenderSlot::Waiting => SenderSlotView::Waiting,
            SenderSlot::Shown { name } => SenderSlotView::Shown { name: name@ },
        }
    }
}

impl View for AvatarSlot {
    type V = AvatarSlotView;

    open spec fn view(&self) -> AvatarSlotView {
        match *self {
            AvatarSlot::Collapsed => AvatarSlotView::Collapsed,
            AvatarSlot::Reserved { text } => AvatarSlotView::Reserved { text: text@ },
            AvatarSlot::Shown { text, file_id } => AvatarSlotView::Shown { text: text@, file_id },
        }
    }
}

impl View for Media {
    type V = MediaView;

    open spec fn view(&self) -> MediaView {
        match *self {
            Media::Nothing => MediaView::Nothing,
            Media::Photo { file_id, width, height } => MediaView::Photo { file_id, width, height },
            Media::Album { cells, columns, cell } => MediaView::Album {
                cells: cells@,
                columns: columns as int,
                cell: cell as int,
            },
        }
    }
}

impl View for ChipPlan {
    type V = ChipPlanView;

    open spec fn view(&self) -> ChipPlanView {
        ChipPlanView { label: self.label@, emoji: self.emoji@, is_chosen: self.is_chosen }
    }
}

/// The values of a list of chip plans.
pub open spec fn chip_plan_views(v: Seq<ChipPlan>) -> Seq<ChipPlanView> {
    Seq::new(v.len(), |i: int| v[i]@)
}

impl View for RowContent {
    type V = RowContentView;

    open spec fn view(&self) -> RowContentView {
        RowContentView {
            outgoing: self.outgoing,
            pending: self.pending,
            separator: self.separator,
            reply: match self.reply {
                Some(r) => Some((r.sender@, r.text@)),
                None => None,
            },
            sender: self.sender@,
            avatar: self.avatar@,
            media: self.media@,
            voice: self.voice,
            body: opt_view(self.body),
            live_body: self.live_body,
            status: self.status,
            chips: chip_plan_views(self.chips@),
        }
    }
}

impl View for RowPlan {
    type V = RowPlanView;

    open spec fn view(&self) -> RowPlanView {
        match *self {
            RowPlan::Continuation => RowPlanView::Continuation,
            RowPlan::Shown { content } => RowPlanView::Shown { content: content@ },
        }
    }
}

// --- What a row shows --------------------------------------------------------

/// The message of row `i`, if there is such a row.
pub open spec fn message_at(h: HistoryView, i: int) -> Option<MessageView> {
    if 0 <= i < h.store.len() {
        Some(h.row(i))
    } else {
        None
    }
}

/// Whether `a` is grouped with the message `b` before it. A missing neighbour
/// is never grouped with.
pub open spec fn grouped(a: Option<MessageView>, b: Option<MessageView>) -> bool {
    &&& a is Some
    &&& b is Some
    &&& a->0.is_outgoing == b->0.is_outgoing
    &&& a->0.sender_id == b->0.sender_id
    &&& -GROUP_WINDOW_SECS <= a->0.date - b->0.date <= GROUP_WINDOW_SECS
}

/// Whether row `i` is there and belongs to `album`.
pub open spec fn in_album(h: HistoryView, i: int, album: i64) -> bool {
    0 <= i < h.store.len() && h.row(i).media_album_id == album
}

/// One past the last row of the run of `album` that holds row `i`.
pub open spec fn run_end(h: HistoryView, i: int, album: i64) -> int
    decreases h.store.len() - i,
{
    if in_album(h, i, album) {
        run_end(h, i + 1, album)
    } else {
        i
    }
}

/// The photos of the rows `from .. to`.
pub open spec fn photos(h: HistoryView, from: int, to: int) -> Seq<i32>
    decreases to - from,
{
    if to <= from {
        Seq::empty()
    } else {
        let rest = photos(h, from, to - 1);
        if h.row(to - 1).kind == kind::PHOTO {
            rest.push(h.row(to - 1).photo_file_id)
        } else {
            rest
        }
    }
}

/// The first caption among the rows `from .. to`, empty if there is none.
pub open spec fn first_caption(h: HistoryView, from: int, to: int) -> Seq<char>
    decreases to - from,
{
    if to <= from {
        Seq::empty()
    } else if h.row(from).media_caption.len() > 0 {
        h.row(from).media_caption
    } else {
        first_caption(h, from + 1, to)
    }
}

/// How many columns a grid of `n` cells has.
pub open spec fn columns_for(n: int) -> int {
    if n <= 1 {
        1
    } else if n == 2 || n == 4 {
        2
    } else {
        3
    }
}

/// The size of a cell in a grid of `columns` columns.
pub open spec fn cell_size(columns: int) -> int {
    let size = (ALBUM_WIDTH - (columns - 1) * ALBUM_GAP) / columns;
    if size < MIN_CELL {
        MIN_CELL as int
    } else {
        size
    }
}

/// The width of a grid of `columns` columns, up to three: its cells and the gaps
/// between them.
pub open spec fn grid_width(columns: int) -> int {
    if columns <= 1 {
        cell_size(1)
    } else if columns == 2 {
        2 * cell_size(2) + ALBUM_GAP
    } else {
        3 * cell_size(3) + 2 * ALBUM_GAP
    }
}

/// Whether row `pos` is a later row of an album.
pub open spec fn is_continuation(h: HistoryView, pos: int) -> bool {
    let album = h.row(pos).media_album_id;
    album != 0 && in_album(h, pos - 1, album)
}

/// The row that follows the message of row `pos`, an album counting as one.
pub open spec fn group_next(h: HistoryView, pos: int) -> int {
    let album = h.row(pos).media_album_id;
    if album != 0 {
        run_end(h, pos, album)
    } else {
        pos + 1
    }
}

/// Whether a date separator stands above row `pos`.
pub open spec fn has_separator(pos: int, days: Days) -> bool {
    pos == 0 || !(days.previous is Some && days.previous == days.current)
}

pub open spec fn sender_slot(h: HistoryView, pos: int) -> SenderSlotView {
    let m = h.row(pos);
    if m.is_outgoing || grouped(Some(m), message_at(h, pos - 1)) {
        SenderSlotView::Hidden
    } else if m.sender_name.len() == 0 {
        SenderSlotView::Waiting
    } else {
        SenderSlotView::Shown { name: m.sender_name }
    }
}

pub open spec fn avatar_slot(h: HistoryView, pos: int) -> AvatarSlotView {
    let m = h.row(pos);
    if m.is_outgoing {
        AvatarSlotView::Collapsed
    } else if grouped(message_at(h, group_next(h, pos)), Some(m)) {
        AvatarSlotView::Reserved { text: m.sender_name }
    } else {
        AvatarSlotView::Shown { text: m.sender_name, file_id: m.avatar_file_id }
    }
}

pub open spec fn media(h: HistoryView, pos: int) -> MediaView {
    let m = h.row(pos);
    if m.media_album_id != 0 {
        let cells = photos(h, pos, run_end(h, pos, m.media_album_id));
        let columns = columns_for(cells.len() as int);
        MediaView::Album { cells, columns, cell: cell_size(columns) }
    } else if m.kind == kind::PHOTO {
        MediaView::Photo {
            file_id: m.photo_file_id,
            width: m.photo_width,
            height: m.photo_height,
        }
    } else {
        MediaView::Nothing
    }
}

pub open spec fn voice_note(m: MessageView) -> Option<VoiceNote> {
    if m.kind == kind::VOICE {
        let duration = if m.voice_duration < 0 {
            0
        } else {
            m.voice_duration
        };
        Some(
            VoiceNote {
                file_id: m.voice_file_id,
                duration,
                range: if duration < 1 {
                    1
                } else {
                    duration
                },
            },
        )
    } else {
        None
    }
}

/// Whether the body of a message is its text.
pub open spec fn is_text_body(m: MessageView) -> bool {
    m.kind != kind::VOICE && m.media_album_id == 0 && m.kind != kind::PHOTO
}

/// The body of row `pos`, before it is rendered.
pub open spec fn body_text(h: HistoryView, pos: int) -> Seq<char> {
    let m = h.row(pos);
    if m.kind == kind::VOICE {
        Seq::empty()
    } else if m.media_album_id != 0 {
        first_caption(h, pos, run_end(h, pos, m.media_album_id))
    } else if m.kind == kind::PHOTO {
        m.media_caption
    } else {
        m.content_text
    }
}

/// A body as markup; an empty one is not shown.
pub open spec fn rendered(text: Seq<char>) -> Option<Seq<char>> {
    if text.len() == 0 {
        None
    } else {
        Some(linked(text))
    }
}

pub open spec fn chip_plan(c: ChipView) -> ChipPlanView {
    ChipPlanView {
        label: c.emoji + " "@ + signed_decimal(c.count as int),
        emoji: c.emoji,
        is_chosen: c.is_chosen,
    }
}

pub open spec fn chip_plans(chips: Seq<ChipView>) -> Seq<ChipPlanView> {
    Seq::new(chips.len(), |i: int| chip_plan(chips[i]))
}

/// What row `pos` shows.
pub open spec fn row_plan(h: HistoryView, pos: int, days: Days) -> RowPlanView {
    let m = h.row(pos);
    if is_continuation(h, pos) {
        RowPlanView::Continuation
    } else {
        RowPlanView::Shown {
            content: RowContentView {
                outgoing: m.is_outgoing,
                pending: m.is_pending,
                separator: has_separator(pos, days),
                reply: if m.reply_to_id != 0 && m.reply_snippet.len() > 0 {
                    Some((m.reply_sender, m.reply_snippet))
                } else {
                    None
                },
                sender: sender_slot(h, pos),
                avatar: avatar_slot(h, pos),
                media: media(h, pos),
                voice: voice_note(m),
                body: rendered(body_text(h, pos)),
                live_body: is_text_body(m),
                status: if m.is_outgoing {
                    Some(m.send_status)
                } else {
                    None
                },
                chips: chip_plans(m.reactions),
            },
        }
    }
}

// --- Computing it ------------------------------------------------------------

/// The message `delta` rows below row `pos`, or above it where `delta` is
/// negative.
fn neighbour(h: &History, pos: usize, delta: i32) -> (r: Option<&MessageObject>)
    requires
        h.wf(),
    ensures
        match message_at(h@, pos + delta) {
            Some(m) => r is Some && r->0@ == m,
            None => r is None,
        },
{
    let target: i128 = pos as i128 + delta as i128;
    if target < 0 || target >= h.len() as i128 {
        None
    } else {
        Some(h.message(target as usize))
    }
}

/// Whether `a` is grouped with the message `b` before it. A missing neighbour
/// is never grouped with.
pub fn grouped_with(a: Option<&MessageObject>, b: Option<&MessageObject>) -> (r: bool)
    ensures
        r == (a is Some && b is Some && grouped(Some(a->0@), Some(b->0@))),
{
    match (a, b) {
        (Some(a), Some(b)) => {
            let apart: i128 = a.date as i128 - b.date as i128;
            a.is_outgoing == b.is_outgoing && a.sender_id == b.sender_id && -(
            GROUP_WINDOW_SECS as i128) <= apart && apart <= GROUP_WINDOW_SECS as i128
        },
        _ => false,
    }
}

/// One past the last row of the run of `album` that holds row `pos`.
fn end_of_run(h: &History, pos: usize, album: i64) -> (r: usize)
    requires
        h.wf(),
        pos <= h@.store.len(),
    ensures
        r == run_end(h@, pos as int, album),
        pos <= r <= h@.store.len(),
{
    let mut i: usize = pos;
    while i < h.len() && h.message(i).media_album_id == album
        invariant
            h.wf(),
            pos <= i <= h@.store.len(),
            run_end(h@, pos as int, album) == run_end(h@, i as int, album),
        decreases h@.store.len() - i,
    {
        i = i + 1;
    }
    i
}

/// The photos of the rows `from .. to`.
fn photo_cells(h: &History, from: usize, to: usize) -> (r: Vec<i32>)
    requires
        h.wf(),
        from <= to <= h@.store.len(),
    ensures
        r@ == photos(h@, from as int, to as int),
{
    let mut cells: Vec<i32> = Vec::new();
    assert(cells@ =~= photos(h@, from as int, from as int));
    for i in from..to
        invariant
            h.wf(),
            from <= to <= h@.store.len(),
            cells@ == photos(h@, from as int, i as int),
    {
        let m: &MessageObject = h.message(i);
        if m.kind == kind::PHOTO {
            cells.push(m.photo_file_id);
        }
    }
    cells
}

/// The first caption among the rows `from .. to`.
fn album_caption(h: &History, from: usize, to: usize) -> (r: String)
    requires
        h.wf(),
        from <= to <= h@.store.len(),
    ensures
        r@ == first_caption(h@, from as int, to as int),
{
    for i in from..to
        invariant
            h.wf(),
            from <= to <= h@.store.len(),
            first_caption(h@, from as int, to as int) == first_caption(h@, i as int, to as int),
    {
        let m: &MessageObject = h.message(i);
        if !m.media_caption.as_str().is_empty() {
            return m.media_caption.clone();
        }
    }
    String::new()
}

/// How many columns a grid of `n` cells has.
pub fn album_columns(n: usize) -> (r: usize)
    ensures
        r == columns_for(n as int),
        1 <= r <= 3,
{
    match n {
        0 | 1 => 1,
        2 => 2,
        3 => 3,
        4 => 2,
        _ => 3,
    }
}

/// The size of a cell, so that the columns and the gaps fill the width.
pub fn album_cell(columns: usize) -> (r: i32)
    requires
        1 <= columns <= 3,
    ensures
        r == cell_size(columns as int),
{
    let n: i32 = columns as i32;
    let size: i32 = (ALBUM_WIDTH - (n - 1) * ALBUM_GAP) / n;
    if size < MIN_CELL {
        MIN_CELL
    } else {
        size
    }
}

fn plan_sender(h: &History, pos: usize) -> (r: SenderSlot)
    requires
        h.wf(),
        pos < h@.store.len(),
    ensures
        r@ == sender_slot(h@, pos as int),
{
    let m: &MessageObject = h.message(pos);
    let prev: Option<&MessageObject> = neighbour(h, pos, -1);
    if m.is_outgoing || grouped_with(Some(m), prev) {
        SenderSlot::Hidden
    } else if m.sender_name.as_str().is_empty() {
        SenderSlot::Waiting
    } else {
        SenderSlot::Shown { name: m.sender_name.clone() }
    }
}

fn plan_avatar(h: &History, pos: usize) -> (r: AvatarSlot)
    requires
        h.wf(),
        pos < h@.store.len(),
    ensures
        r@ == avatar_slot(h@, pos as int),
{
    let m: &MessageObject = h.message(pos);
    if m.is_outgoing {
        return AvatarSlot::Collapsed;
    }
    let last: usize = if m.media_album_id != 0 {
        let end: usize = end_of_run(h, pos, m.media_album_id);
        assert(run_end(h@, pos as int, m@.media_album_id) == run_end(
            h@,
            pos + 1,
            m@.media_album_id,
        ));
        proof {
            lemma_run_end(h@, pos + 1, m@.media_album_id);
        }
        end - 1
    } else {
        pos
    };
    let text: String = m.sender_name.clone();
    if grouped_with(neighbour(h, last, 1), Some(m)) {
        AvatarSlot::Reserved { text }
    } else {
        AvatarSlot::Shown { text, file_id: m.avatar_file_id }
    }
}

/// A run does not end before it begins.
proof fn lemma_run_end(h: HistoryView, i: int, album: i64)
    ensures
        i <= run_end(h, i, album),
    decreases h.store.len() - i,
{
    if in_album(h, i, album) {
        lemma_run_end(h, i + 1, album);
    }
}

fn plan_media(h: &History, pos: usize) -> (r: Media)
    requires
        h.wf(),
        pos < h@.store.len(),
    ensures
        r@ == media(h@, pos as int),
{
    let m: &MessageObject = h.message(pos);
    if m.media_album_id != 0 {
        let end: usize = end_of_run(h, pos, m.media_album_id);
        let cells: Vec<i32> = photo_cells(h, pos, end);
        let columns: usize = album_columns(cells.len());
        Media::Album { cells, columns, cell: album_cell(columns) }
    } else if m.kind == kind::PHOTO {
        Media::Photo { file_id: m.photo_file_id, width: m.photo_width, height: m.photo_height }
    } else {
        Media::Nothing
    }
}

fn plan_voice(m: &MessageObject) -> (r: Option<VoiceNote>)
    ensures
        r == voice_note(m@),
{
    if m.kind != kind::VOICE {
        return None;
    }
    let duration: i32 = if m.voice_duration < 0 {
        0
    } else {
        m.voice_duration
    };
    let range: i32 = if duration < 1 {
        1
    } else {
        duration
    };
    Some(VoiceNote { file_id: m.voice_file_id, duration, range })
}

/// A body as markup; an empty one is not shown.
pub fn render_body(text: &str) -> (r: Option<String>)
    ensures
        opt_view(r) == rendered(text@),
{
    if text.is_empty() {
        None
    } else {
        Some(linkify(text))
    }
}

fn plan_body(h: &History, pos: usize) -> (r: Option<String>)
    requires
        h.wf(),
        pos < h@.store.len(),
    ensures
        opt_view(r) == rendered(body_text(h@, pos as int)),
{
    let m: &MessageObject = h.message(pos);
    if m.kind == kind::VOICE {
        None
    } else if m.media_album_id != 0 {
        let end: usize = end_of_run(h, pos, m.media_album_id);
        let caption: String = album_caption(h, pos, end);
        render_body(caption.as_str())
    } else if m.kind == kind::PHOTO {
        render_body(m.media_caption.as_str())
    } else {
        render_body(m.content_text.as_str())
    }
}

/// The chips under a bubble: an emoji and its count each.
pub fn render_reaction_chips(chips: &Vec<ReactionChip>) -> (r: Vec<ChipPlan>)
    ensures
        chip_plan_views(r@) == chip_plans(chip_views(chips@)),
{
    let ghost all = chip_plans(chip_views(chips@));
    let mut r: Vec<ChipPlan> = Vec::new();
    assert(chip_plan_views(r@) =~= all.take(0));
    for i in 0..chips.len()
        invariant
            all == chip_plans(chip_views(chips@)),
            chip_plan_views(r@) == all.take(i as int),
    {
        let ghost before = r@;
        let chip: &ReactionChip = &chips[i];
        let mut label: String = chip.emoji.clone();
        label.append(" ");
        let count: String = signed_decimal_string(chip.count as i64);
        label.append(count.as_str());
        let plan = ChipPlan { label, emoji: chip.emoji.clone(), is_chosen: chip.is_chosen };
        assert(plan@ == all[i as int]);
        r.push(plan);
        assert(chip_plan_views(r@) =~= chip_plan_views(before).push(all[i as int]));
        assert(all.take(i + 1) =~= all.take(i as int).push(all[i as int]));
    }
    assert(all.take(all.len() as int) =~= all);
    r
}

/// What row `pos` shows. `days` holds the local dates of the row above and of
/// the row itself.
pub fn bind_row(h: &History, pos: usize, days: Days) -> (r: RowPlan)
    requires
        h.wf(),
        pos < h@.store.len(),
    ensures
        r@ == row_plan(h@, pos as int, days),
{
    let m: &MessageObject = h.message(pos);
    let continues: bool = match neighbour(h, pos, -1) {
        Some(prev) => m.media_album_id != 0 && prev.media_album_id == m.media_album_id,
        None => false,
    };
    assert(continues == is_continuation(h@, pos as int));
    if continues {
        return RowPlan::Continuation;
    }
    let reply: Option<ReplyHeader> = if m.reply_to_id != 0 && !m.reply_snippet.as_str().is_empty() {
        Some(ReplyHeader { sender: m.reply_sender.clone(), text: m.reply_snippet.clone() })
    } else {
        None
    };
    let status: Option<i32> = if m.is_outgoing {
        Some(m.send_status)
    } else {
        None
    };
    let content = RowContent {
        outgoing: m.is_outgoing,
        pending: m.is_pending,
        separator: pos == 0 || !same_local_day(days.previous, days.current),
        reply,
        sender: plan_sender(h, pos),
        avatar: plan_avatar(h, pos),
        media: plan_media(h, pos),
        voice: plan_voice(m),
        body: plan_body(h, pos),
        live_body: m.kind != kind::VOICE && m.media_album_id == 0 && m.kind != kind::PHOTO,
        status,
        chips: render_reaction_chips(&m.reactions),
    };
    RowPlan::Shown { content }
}

// --- Laws --------------------------------------------------------------------

/// Where the run of `album` that holds row `pos` begins.
pub open spec fn run_start(h: HistoryView, pos: int, album: i64) -> int
    decreases pos,
{
    if pos > 0 && in_album(h, pos - 1, album) {
        run_start(h, pos - 1, album)
    } else {
        pos
    }
}

proof fn lemma_run_from(h: HistoryView, from: int, pos: int, album: i64)
    requires
        0 <= from <= pos < h.store.len(),
        forall|i: int| from <= i <= pos ==> in_album(h, i, album),
    ensures
        run_end(h, from, album) == run_end(h, pos, album),
        pos < run_end(h, from, album),
    decreases pos - from,
{
    assert(in_album(h, from, album));
    if from < pos {
        lemma_run_from(h, from + 1, pos, album);
    } else {
        lemma_run_end(h, pos + 1, album);
    }
}

proof fn lemma_run_start(h: HistoryView, pos: int, album: i64)
    requires
        0 <= pos < h.store.len(),
        in_album(h, pos, album),
    ensures
        0 <= run_start(h, pos, album) <= pos,
        forall|i: int| run_start(h, pos, album) <= i <= pos ==> in_album(h, i, album),
        !in_album(h, run_start(h, pos, album) - 1, album),
    decreases pos,
{
    if pos > 0 && in_album(h, pos - 1, album) {
        lemma_run_start(h, pos - 1, album);
    }
}

proof fn lemma_photos(h: HistoryView, from: int, to: int, pos: int)
    requires
        from <= pos < to,
        h.row(pos).kind == kind::PHOTO,
    ensures
        photos(h, from, to).contains(h.row(pos).photo_file_id),
    decreases to - from,
{
    let all = photos(h, from, to);
    let rest = photos(h, from, to - 1);
    if pos == to - 1 {
        assert(all[all.len() - 1] == h.row(pos).photo_file_id);
    } else {
        lemma_photos(h, from, to - 1, pos);
        let k = choose|k: int| 0 <= k < rest.len() && rest[k] == h.row(pos).photo_file_id;
        assert(all[k] == rest[k]);
    }
}

/// A photo of an album is always shown: a row that shows nothing itself has its
/// picture in the grid of the first row of its run.
pub proof fn album_photos_are_shown(h: HistoryView, pos: int, days: Days)
    requires
        0 <= pos < h.store.len(),
        is_continuation(h, pos),
        h.row(pos).kind == kind::PHOTO,
    ensures
        ({
            let first = run_start(h, pos, h.row(pos).media_album_id);
            &&& 0 <= first < pos
            &&& row_plan(h, first, days) is Shown
            &&& media(h, first) is Album
            &&& media(h, first)->cells.contains(h.row(pos).photo_file_id)
        }),
{
    let album = h.row(pos).media_album_id;
    lemma_run_start(h, pos, album);
    let first = run_start(h, pos, album);
    lemma_run_start(h, pos - 1, album);
    assert(in_album(h, first, album));
    assert(!is_continuation(h, first));
    lemma_run_from(h, first, pos, album);
    lemma_photos(h, first, run_end(h, first, album), pos);
}

/// The grid of an album fits its width.
pub proof fn album_fits_its_width(n: int)
    requires
        0 <= n,
    ensures
        1 <= columns_for(n) <= 3,
        grid_width(columns_for(n)) <= ALBUM_WIDTH,
        cell_size(columns_for(n)) >= MIN_CELL,
{
    if n <= 1 {
        assert(columns_for(n) == 1);
        assert(cell_size(1) == 320);
    } else if n == 2 || n == 4 {
        assert(columns_for(n) == 2);
        assert(cell_size(2) == 159);
    } else {
        assert(columns_for(n) == 3);
        assert(cell_size(3) == 105);
    }
}

/// The first row always has a date separator, and so has every row on another
/// day than the row above it.
pub proof fn days_are_separated(pos: int, days: Days)
    ensures
        pos == 0 ==> has_separator(pos, days),
        days.previous != days.current ==> has_separator(pos, days),
        pos != 0 && days.current is Some && days.previous == days.current ==> !has_separator(
            pos,
            days,
        ),
{
}

/// Grouping does not ask which of two messages comes first, and nothing groups
/// with a missing neighbour.
pub proof fn grouping_is_mutual(a: Option<MessageView>, b: Option<MessageView>)
    ensures
        grouped(a, b) == grouped(b, a),
        a is None ==> !grouped(a, b),
        a is Some ==> grouped(a, a),
{
}

/// Consecutive messages of one sender within [`GROUP_WINDOW_SECS`] hide the
/// repeated name and share one avatar at their end; others do neither.
pub proof fn runs_share_one_avatar(h: HistoryView, pos: int)
    requires
        0 <= pos,
        pos + 1 < h.store.len(),
        !h.row(pos).is_outgoing,
        !h.row(pos + 1).is_outgoing,
        h.row(pos).media_album_id == 0,
    ensures
        ({
            let apart = h.row(pos + 1).date - h.row(pos).date;
            let together = h.row(pos + 1).sender_id == h.row(pos).sender_id && -GROUP_WINDOW_SECS
                <= apart <= GROUP_WINDOW_SECS;
            &&& together == (sender_slot(h, pos + 1) is Hidden)
            &&& together == (avatar_slot(h, pos) is Reserved)
            &&& together != (avatar_slot(h, pos) is Shown)
        }),
{
}

/// Outgoing messages show neither a name nor an avatar, and incoming ones no
/// delivery state.
pub proof fn directions_look_different(h: HistoryView, pos: int, days: Days)
    requires
        !is_continuation(h, pos),
    ensures
        ({
            let c = row_plan(h, pos, days)->content;
            &&& c.outgoing ==> c.sender is Hidden && c.avatar is Collapsed && c.status is Some
            &&& !c.outgoing ==> !(c.avatar is Collapsed) && c.status is None
        }),
{
}

} // verus!
