//! What a row shows of the message that it stands for.

use crate::models::kind;
use crate::text::{numeral_round_trip, parse_int, signed_decimal};
use crate::ui::chat_list::CHAT_PHOTO_PRIORITY;
use crate::ui::chat_view::markup::linked;
use crate::ui::chat_view::model::HistoryView;
use crate::ui::chat_view::rows::{cell_size, first_caption,
    photos, row_plan, run_end, AvatarSlotView, Days, MediaView, RowPlanView, SenderSlotView,
    VoiceNote, AVATAR_PRIORITY, PHOTO_PRIORITY, VIEWER_PRIORITY};
use crate::ui::chat_view::voice_row::VOICE_PRIORITY;
use vstd::prelude::*;

verus! {

/// Exactly the later rows of an album show nothing: those right below a row of
/// the same album.
pub proof fn only_later_album_rows_are_empty(h: HistoryView, pos: int, days: Days)
    requires
        0 <= pos < h.store.len(),
    ensures
        row_plan(h, pos, days) is Continuation <==> pos > 0 && h.row(pos).media_album_id != 0
            && h.row(pos - 1).media_album_id == h.row(pos).media_album_id,
{
}

/// The delivery state that the row of an outgoing message shows is that of the
/// message, whether it is pending, sent or read. An incoming one shows none.
pub proof fn delivery_state_is_shown(h: HistoryView, pos: int, days: Days)
    requires
        0 <= pos < h.store.len(),
    ensures
        row_plan(h, pos, days) matches RowPlanView::Shown { content } ==> {
            &&& content.outgoing == h.row(pos).is_outgoing
            &&& content.pending == h.row(pos).is_pending
            &&& h.row(pos).is_outgoing ==> content.status == Some(h.row(pos).send_status)
            &&& !h.row(pos).is_outgoing ==> content.status is None
        },
{
}

/// A date separator stands above the first row and above every row on another
/// day than the row before it, and nowhere else.
pub proof fn separators_part_days(h: HistoryView, pos: int, days: Days)
    requires
        0 <= pos < h.store.len(),
    ensures
        row_plan(h, pos, days) matches RowPlanView::Shown { content } ==> {
            &&& pos == 0 ==> content.separator
            &&& days.previous != days.current ==> content.separator
            &&& days.current is None ==> content.separator
            &&& pos != 0 && days.current is Some && days.previous == days.current
                ==> !content.separator
        },
{
}

/// A reply shows its header once there is something to quote: the name and the
/// text that the message holds for it.
pub proof fn reply_header_is_shown(h: HistoryView, pos: int, days: Days)
    requires
        0 <= pos < h.store.len(),
    ensures
        row_plan(h, pos, days) matches RowPlanView::Shown { content } ==> {
            &&& content.reply is Some <==> h.row(pos).reply_to_id != 0
                && h.row(pos).reply_snippet.len() > 0
            &&& content.reply matches Some((sender, text)) ==> sender == h.row(pos).reply_sender
                && text == h.row(pos).reply_snippet
        },
{
}

/// Whether row `i` stands below a row of the same sender, sent within five
/// minutes of it.
pub open spec fn follows_its_sender(h: HistoryView, i: int) -> bool {
    &&& i > 0
    &&& h.row(i - 1).is_outgoing == h.row(i).is_outgoing
    &&& h.row(i - 1).sender_id == h.row(i).sender_id
    &&& -300 <= h.row(i).date - h.row(i - 1).date <= 300
}

/// The name above an incoming message is that of its sender. It is left out
/// where the row above is the sender's too, and awaited where it is not known.
pub proof fn sender_is_named(h: HistoryView, pos: int, days: Days)
    requires
        0 <= pos < h.store.len(),
        !h.row(pos).is_outgoing,
    ensures
        row_plan(h, pos, days) matches RowPlanView::Shown { content } ==> {
            &&& follows_its_sender(h, pos) ==> content.sender is Hidden
            &&& !follows_its_sender(h, pos) && h.row(pos).sender_name.len() > 0 ==> content.sender
                == (SenderSlotView::Shown { name: h.row(pos).sender_name })
            &&& !follows_its_sender(h, pos) && h.row(pos).sender_name.len() == 0
                ==> content.sender is Waiting
        },
{
}

/// The avatar beside an incoming message is its sender's: the photo and the
/// name are those that the message holds. Only a row that its sender's next row
/// follows leaves it out, and keeps its space.
pub proof fn sender_is_pictured(h: HistoryView, pos: int, days: Days)
    requires
        0 <= pos < h.store.len(),
        !h.row(pos).is_outgoing,
    ensures
        row_plan(h, pos, days) matches RowPlanView::Shown { content } ==> {
            &&& !(content.avatar is Collapsed)
            &&& content.avatar matches AvatarSlotView::Reserved { text } ==> text == h.row(
                pos,
            ).sender_name
            &&& content.avatar matches AvatarSlotView::Shown { text, file_id } ==> text == h.row(
                pos,
            ).sender_name && file_id == h.row(pos).avatar_file_id
            &&& pos + 1 == h.store.len() ==> content.avatar is Shown
            &&& h.row(pos).media_album_id == 0 && pos + 1 < h.store.len() ==> (
            content.avatar is Reserved <==> follows_its_sender(h, pos + 1))
        },
{
    let album = h.row(pos).media_album_id;
    if pos + 1 == h.store.len() && album != 0 {
        reveal_with_fuel(run_end, 2);
        assert(run_end(h, pos + 1, album) == pos + 1);
        assert(run_end(h, pos, album) == pos + 1);
    }
}

/// Whether the rows `from .. to` are one run of an album: all of them belong to
/// it, and the next does not.
pub open spec fn is_run(h: HistoryView, from: int, to: int) -> bool {
    &&& 0 <= from < to <= h.store.len()
    &&& h.row(from).media_album_id != 0
    &&& forall|i: int|
        from <= i < to ==> (#[trigger] h.row(i)).media_album_id == h.row(from).media_album_id
    &&& to < h.store.len() ==> h.row(to).media_album_id != h.row(from).media_album_id
}

proof fn lemma_is_run(h: HistoryView, from: int, i: int, to: int)
    requires
        is_run(h, from, to),
        from <= i <= to,
    ensures
        run_end(h, i, h.row(from).media_album_id) == to,
    decreases to - i,
{
    if i < to {
        assert(h.row(i).media_album_id == h.row(from).media_album_id);
        lemma_is_run(h, from, i + 1, to);
    }
}

/// How many of the rows `from .. to` are photos.
pub open spec fn photos_among(h: HistoryView, from: int, to: int) -> nat
    decreases to - from,
{
    if to <= from {
        0
    } else {
        photos_among(h, from, to - 1) + if h.row(to - 1).kind == kind::PHOTO {
            1nat
        } else {
            0
        }
    }
}

proof fn lemma_photos_among(h: HistoryView, from: int, to: int, k: int)
    requires
        from <= k < to,
    ensures
        photos(h, from, to).len() == photos_among(h, from, to),
        h.row(k).kind == kind::PHOTO ==> {
            &&& photos_among(h, from, k) < photos(h, from, to).len()
            &&& photos(h, from, to)[photos_among(h, from, k) as int] == h.row(k).photo_file_id
        },
    decreases to - from,
{
    if k < to - 1 {
        lemma_photos_among(h, from, to - 1, k);
    } else if from < to - 1 {
        lemma_photos_among(h, from, to - 1, from);
    } else {
        assert(photos(h, from, from).len() == 0);
    }
}

/// The grid of an album holds the photos of its run, each once and in order,
/// and nothing else.
pub proof fn album_shows_its_photos(h: HistoryView, pos: int, to: int, days: Days, k: int)
    requires
        is_run(h, pos, to),
        pos == 0 || h.row(pos - 1).media_album_id != h.row(pos).media_album_id,
        pos <= k < to,
    ensures
        row_plan(h, pos, days) matches RowPlanView::Shown { content } && content.media is Album
            && content.media->cells.len() == photos_among(h, pos, to) && (h.row(k).kind
            == kind::PHOTO ==> content.media->cells[photos_among(h, pos, k) as int] == h.row(
            k,
        ).photo_file_id),
{
    lemma_is_run(h, pos, pos, to);
    lemma_photos_among(h, pos, to, k);
}

/// A grid has up to three columns, and two for four photos. Its cells share a
/// width of 320 with gaps of 2.
pub proof fn album_is_laid_out(h: HistoryView, pos: int, days: Days)
    requires
        0 <= pos < h.store.len(),
    ensures
        row_plan(h, pos, days) matches RowPlanView::Shown { content } ==> (content.media matches
            MediaView::Album { cells, columns, cell } ==> {
            &&& cells.len() <= 1 ==> columns == 1
            &&& cells.len() == 2 || cells.len() == 4 ==> columns == 2
            &&& cells.len() == 3 || cells.len() > 4 ==> columns == 3
            &&& columns == 1 ==> cell == 320
            &&& columns == 2 ==> cell == 159
            &&& columns == 3 ==> cell == 105
        }),
{
    assert(cell_size(1) == 320);
    assert(cell_size(2) == 159);
    assert(cell_size(3) == 105);
}

/// A photo that is no part of an album is shown with its size, and a message
/// that is neither shows no picture.
pub proof fn photo_is_shown(h: HistoryView, pos: int, days: Days)
    requires
        0 <= pos < h.store.len(),
        h.row(pos).media_album_id == 0,
    ensures
        row_plan(h, pos, days) matches RowPlanView::Shown { content } ==> {
            &&& h.row(pos).kind == kind::PHOTO ==> content.media == (MediaView::Photo {
                file_id: h.row(pos).photo_file_id,
                width: h.row(pos).photo_width,
                height: h.row(pos).photo_height,
            })
            &&& h.row(pos).kind != kind::PHOTO ==> content.media is Nothing
        },
{
}

/// A voice note is offered with its file and its length, and nothing else is.
/// Its seek bar is as long as the note, and never empty.
pub proof fn voice_note_is_offered(h: HistoryView, pos: int, days: Days)
    requires
        0 <= pos < h.store.len(),
    ensures
        row_plan(h, pos, days) matches RowPlanView::Shown { content } ==> {
            &&& h.row(pos).kind != kind::VOICE ==> content.voice is None
            &&& h.row(pos).kind == kind::VOICE && h.row(pos).voice_duration > 0 ==> content.voice
                == Some(
                VoiceNote {
                    file_id: h.row(pos).voice_file_id,
                    duration: h.row(pos).voice_duration,
                    range: h.row(pos).voice_duration,
                },
            )
            &&& h.row(pos).kind == kind::VOICE && h.row(pos).voice_duration <= 0 ==> content.voice
                == Some(VoiceNote { file_id: h.row(pos).voice_file_id, duration: 0, range: 1 })
        },
{
}

/// The body is what the message says, as markup: its caption where it is a
/// photo, nothing where it is a voice note, and its text otherwise. Only a text
/// is followed as it changes. An empty body is not shown.
pub proof fn body_is_shown(h: HistoryView, pos: int, days: Days)
    requires
        0 <= pos < h.store.len(),
    ensures
        row_plan(h, pos, days) matches RowPlanView::Shown { content } ==> {
            let m = h.row(pos);
            &&& m.kind == kind::VOICE ==> content.body is None && !content.live_body
            &&& m.media_album_id != 0 ==> !content.live_body
            &&& m.kind == kind::PHOTO ==> !content.live_body
            &&& m.media_album_id == 0 && m.kind == kind::PHOTO && m.media_caption.len() > 0
                ==> content.body == Some(linked(m.media_caption))
            &&& m.media_album_id == 0 && m.kind == kind::PHOTO && m.media_caption.len() == 0
                ==> content.body is None
            &&& m.media_album_id == 0 && m.kind != kind::PHOTO && m.kind != kind::VOICE ==> {
                &&& content.live_body
                &&& m.content_text.len() > 0 ==> content.body == Some(linked(m.content_text))
                &&& m.content_text.len() == 0 ==> content.body is None
            }
        },
{
}

proof fn lemma_first_caption(h: HistoryView, from: int, to: int, k: int)
    requires
        from <= k <= to,
        forall|i: int| from <= i < k ==> (#[trigger] h.row(i)).media_caption.len() == 0,
        k < to ==> h.row(k).media_caption.len() > 0,
    ensures
        k < to ==> first_caption(h, from, to) == h.row(k).media_caption,
        k == to ==> first_caption(h, from, to).len() == 0,
    decreases k - from,
{
    if from < k {
        assert(h.row(from).media_caption.len() == 0);
        lemma_first_caption(h, from + 1, to, k);
    }
}

/// The caption of an album is the first of its run, wherever in the run it
/// stands; an album without a caption has no body.
pub proof fn album_caption_is_shown(h: HistoryView, pos: int, to: int, days: Days, k: int)
    requires
        is_run(h, pos, to),
        pos == 0 || h.row(pos - 1).media_album_id != h.row(pos).media_album_id,
        h.row(pos).kind != kind::VOICE,
        pos <= k <= to,
        forall|i: int| pos <= i < k ==> (#[trigger] h.row(i)).media_caption.len() == 0,
        k < to ==> h.row(k).media_caption.len() > 0,
    ensures
        row_plan(h, pos, days) matches RowPlanView::Shown { content } && (k < to ==> content.body
            == Some(linked(h.row(k).media_caption))) && (k == to ==> content.body is None),
{
    lemma_is_run(h, pos, pos, to);
    lemma_first_caption(h, pos, to, k);
}

/// A row has one chip for each reaction of its message, in order. A chip says
/// the emoji and, behind a space, how often it was chosen, and is marked exactly
/// where we chose it.
pub proof fn reactions_are_shown(h: HistoryView, pos: int, days: Days, k: int)
    requires
        0 <= pos < h.store.len(),
        0 <= k < h.row(pos).reactions.len(),
    ensures
        row_plan(h, pos, days) matches RowPlanView::Shown { content } ==> {
            let reaction = h.row(pos).reactions[k];
            let n = reaction.emoji.len() as int;
            &&& content.chips.len() == h.row(pos).reactions.len()
            &&& content.chips[k].emoji == reaction.emoji
            &&& content.chips[k].is_chosen == reaction.is_chosen
            &&& content.chips[k].label.len() > n
            &&& content.chips[k].label.take(n) == reaction.emoji
            &&& content.chips[k].label[n] == ' '
            &&& parse_int(content.chips[k].label.skip(n + 1), i32::MIN as int, i32::MAX as int)
                == Some(reaction.count as int)
        },
{
    let reaction = h.row(pos).reactions[k];
    let n = reaction.emoji.len() as int;
    reveal_strlit(" ");
    numeral_round_trip(reaction.count as int, i32::MIN as int, i32::MAX as int);
    let count = signed_decimal(reaction.count as int);
    let label = reaction.emoji + " "@ + count;
    assert(label.take(n) =~= reaction.emoji);
    assert(label.skip(n + 1) =~= count);
}

/// The rows of an album share one avatar with what follows the album: it is left
/// to the next row where that is the sender's too, within five minutes.
pub proof fn album_leaves_its_avatar(h: HistoryView, pos: int, to: int, days: Days)
    requires
        is_run(h, pos, to),
        !h.row(pos).is_outgoing,
    ensures
        row_plan(h, pos, days) matches RowPlanView::Shown { content } ==> {
            &&& to == h.store.len() ==> content.avatar is Shown
            &&& to < h.store.len() ==> (content.avatar is Reserved <==> !h.row(to).is_outgoing
                && h.row(to).sender_id == h.row(pos).sender_id && -300 <= h.row(to).date - h.row(
                pos,
            ).date <= 300)
        },
{
    lemma_is_run(h, pos, pos, to);
}

/// An outgoing message needs neither name nor avatar, and leaves no space for
/// one.
pub proof fn own_messages_need_no_name(h: HistoryView, pos: int, days: Days)
    requires
        0 <= pos < h.store.len(),
        h.row(pos).is_outgoing,
    ensures
        row_plan(h, pos, days) matches RowPlanView::Shown { content } ==> content.sender is Hidden
            && content.avatar is Collapsed,
{
}

/// What the user waits for is downloaded first: a photo that was opened, then
/// voice notes and the photos of chats, then avatars, then photos in rows.
pub proof fn downloads_are_ranked()
    ensures
        VIEWER_PRIORITY == 20,
        VOICE_PRIORITY == 16,
        CHAT_PHOTO_PRIORITY == 16,
        AVATAR_PRIORITY == 12,
        PHOTO_PRIORITY == 8,
{
}

} // verus!
