//! What a message row takes over from the message that the server reports.

use crate::models::kind;
use crate::models::measure::{duration_text, size_text};
use crate::models::message_object::{area, best_size, chips, fits, shown_size_is_the_best, text_of,
    MessageView};
use crate::models::send_status;
use crate::tdlib::types::{ContentView, MessageReplyTo, MessageSender, MessageValue, PhotoSize,
    ReactionView};
use crate::text::{contains_text, occurs_at};
use vstd::prelude::*;

verus! {

/// How many of the first `n` reactions are plain emoji.
pub open spec fn emoji_among(reactions: Seq<ReactionView>, n: int) -> nat
    decreases n,
{
    if n <= 0 {
        0
    } else {
        emoji_among(reactions, n - 1) + if reactions[n - 1].emoji is Some {
            1nat
        } else {
            0
        }
    }
}

proof fn lemma_emoji_among(a: Seq<ReactionView>, b: Seq<ReactionView>, n: int)
    requires
        n <= a.len(),
        n <= b.len(),
        forall|i: int| 0 <= i < n ==> a[i] == b[i],
    ensures
        emoji_among(a, n) == emoji_among(b, n),
    decreases n,
{
    if n > 0 {
        lemma_emoji_among(a, b, n - 1);
    }
}

/// The chips are exactly the emoji reactions, in order, each with its count and
/// with whether we chose it. Nothing else has a chip.
pub proof fn chips_are_the_emoji_reactions(reactions: Seq<ReactionView>)
    ensures
        chips(reactions).len() == emoji_among(reactions, reactions.len() as int),
        forall|k: int|
            0 <= k < reactions.len() && (#[trigger] reactions[k]).emoji is Some ==> {
                let at = emoji_among(reactions, k);
                &&& at < chips(reactions).len()
                &&& chips(reactions)[at as int].emoji == reactions[k].emoji->0
                &&& chips(reactions)[at as int].count == reactions[k].total_count
                &&& chips(reactions)[at as int].is_chosen == reactions[k].is_chosen
            },
    decreases reactions.len(),
{
    if reactions.len() > 0 {
        let before = reactions.drop_last();
        let n = before.len() as int;
        chips_are_the_emoji_reactions(before);
        lemma_emoji_among(before, reactions, n);
        assert forall|k: int|
            0 <= k < reactions.len() && (#[trigger] reactions[k]).emoji is Some implies {
            let at = emoji_among(reactions, k);
            &&& at < chips(reactions).len()
            &&& chips(reactions)[at as int].emoji == reactions[k].emoji->0
            &&& chips(reactions)[at as int].count == reactions[k].total_count
            &&& chips(reactions)[at as int].is_chosen == reactions[k].is_chosen
        } by {
            lemma_emoji_among(before, reactions, k);
            if k < n {
                assert(before[k] == reactions[k]);
            }
        }
    }
}

/// What a chip says is what some reaction says: no chip is made up.
pub proof fn chips_come_from_reactions(reactions: Seq<ReactionView>, c: int)
    requires
        0 <= c < chips(reactions).len(),
    ensures
        exists|k: int|
            0 <= k < reactions.len() && (#[trigger] reactions[k]).emoji == Some(
                chips(reactions)[c].emoji,
            ) && reactions[k].total_count == chips(reactions)[c].count && reactions[k].is_chosen
                == chips(reactions)[c].is_chosen,
    decreases reactions.len(),
{
    let before = reactions.drop_last();
    if c < chips(before).len() {
        chips_come_from_reactions(before, c);
        let k = choose|k: int|
            0 <= k < before.len() && (#[trigger] before[k]).emoji == Some(chips(before)[c].emoji)
                && before[k].total_count == chips(before)[c].count && before[k].is_chosen == chips(
                before,
            )[c].is_chosen;
        assert(chips(reactions)[c] == chips(before)[c]);
        assert(reactions[k] == before[k]);
    } else {
        assert(reactions[reactions.len() - 1] == reactions.last());
    }
}

/// Whether what a row says of a message is what `msg` reports, apart from the
/// delivery state.
pub open spec fn reports(m: MessageView, msg: MessageValue) -> bool {
    &&& m.id == msg.id
    &&& msg.sender_id matches MessageSender::User(u) ==> m.sender_id == u
    &&& msg.sender_id matches MessageSender::Chat(c) ==> m.sender_id == c
    &&& m.is_outgoing == msg.is_outgoing
    &&& m.date == msg.date
    &&& m.media_album_id == msg.media_album_id
    &&& msg.reply_to is None ==> m.reply_to_id == 0
    &&& msg.reply_to matches Some(MessageReplyTo::Story) ==> m.reply_to_id == 0
    &&& msg.reply_to matches Some(MessageReplyTo::Message { chat_id, message_id }) ==> {
        &&& chat_id == msg.chat_id ==> m.reply_to_id == message_id
        &&& chat_id != msg.chat_id ==> m.reply_to_id == 0
    }
    &&& m.reactions == chips(msg.reactions)
    &&& shows(m, msg.content)
}

/// Whether `best` is the size of a photo to show: the largest that fits, or
/// the largest where none fits.
pub open spec fn is_best(sizes: Seq<PhotoSize>, best: PhotoSize) -> bool {
    &&& sizes.contains(best)
    &&& forall|i: int|
        0 <= i < sizes.len() && (#[trigger] sizes[i]).width <= 1280 && sizes[i].height <= 1280 ==> {
            &&& best.width <= 1280 && best.height <= 1280
            &&& sizes[i].width * sizes[i].height <= best.width * best.height
        }
    &&& best.width > 1280 || best.height > 1280 ==> forall|i: int|
        0 <= i < sizes.len() ==> (#[trigger] sizes[i]).width * sizes[i].height <= best.width
            * best.height
}

/// Whether a row carries no picture.
pub open spec fn no_photo(m: MessageView) -> bool {
    m.photo_file_id == 0 && m.photo_width == 0 && m.photo_height == 0
}

/// Whether a row carries no document.
pub open spec fn no_document(m: MessageView) -> bool {
    m.doc_file_id == 0 && m.doc_name.len() == 0 && m.doc_size == 0
}

/// Whether a row carries no voice note.
pub open spec fn no_voice(m: MessageView) -> bool {
    m.voice_file_id == 0 && m.voice_duration == 0
}

/// Whether the content of a row is `content`, and of no other kind.
pub open spec fn shows(m: MessageView, content: ContentView) -> bool {
    match content {
        ContentView::MessageText { text } => {
            &&& m.kind == kind::TEXT
            &&& m.content_text == text
            &&& m.media_caption.len() == 0
            &&& no_photo(m) && no_document(m) && no_voice(m)
        },
        ContentView::MessagePhoto { sizes, caption } => {
            &&& sizes.len() > 0 ==> {
                &&& m.kind == kind::PHOTO
                &&& m.media_caption == caption
                &&& exists|best: PhotoSize| #[trigger]
                    is_best(sizes, best) && m.photo_file_id == best.file_id && m.photo_width
                        == best.width && m.photo_height == best.height
            }
            &&& sizes.len() == 0 ==> m.kind == kind::OTHER && no_photo(m) && m.media_caption.len()
                == 0
            &&& caption.len() > 0 ==> m.content_text == caption
            &&& caption.len() == 0 ==> m.content_text.len() > 0
            &&& no_document(m) && no_voice(m)
        },
        ContentView::MessageDocument { file_id, file_name, size, caption } => {
            &&& m.kind == kind::DOCUMENT
            &&& m.doc_file_id == file_id
            &&& m.doc_name == file_name
            &&& m.doc_size == size
            &&& m.media_caption == caption
            &&& m.content_text.len() > file_name.len()
            &&& no_photo(m) && no_voice(m)
        },
        ContentView::MessageVoiceNote { file_id, duration } => {
            &&& m.kind == kind::VOICE
            &&& m.voice_file_id == file_id
            &&& m.voice_duration == duration
            &&& m.content_text.len() > 0
            &&& m.media_caption.len() == 0
            &&& no_photo(m) && no_document(m)
        },
        _ => {
            &&& content is MessageSticker <==> m.kind == kind::STICKER
            &&& content is MessageVideo || content is MessageVideoNote <==> m.kind == kind::VIDEO
            &&& m.kind == kind::STICKER || m.kind == kind::VIDEO || m.kind == kind::OTHER
            &&& m.content_text.len() > 0
            &&& m.media_caption.len() == 0
            &&& no_photo(m) && no_document(m) && no_voice(m)
        },
    }
}

/// New content of a message is what its row shows from then on.
pub proof fn content_is_shown(m: MessageView, content: ContentView)
    ensures
        shows(m.with_content(content), content),
        m.with_content(content).id == m.id,
{
    reveal_strlit("📷 Photo");
    reveal_strlit("🎬 Video");
    reveal_strlit("🎬 Video message");
    reveal_strlit("🎤 Voice message (");
    reveal_strlit("🎵 Audio");
    reveal_strlit("📎 ");
    reveal_strlit("Document");
    reveal_strlit(" (");
    reveal_strlit(")");
    reveal_strlit("Sticker");
    reveal_strlit("GIF");
    reveal_strlit("Emoji");
    reveal_strlit("📍 Location");
    reveal_strlit("📍 Venue");
    reveal_strlit("👤 Contact");
    reveal_strlit("📊 Poll");
    reveal_strlit("📞 Call");
    reveal_strlit("Unsupported message");
    match content {
        ContentView::MessagePhoto { sizes, .. } => {
            shown_size_is_the_best(sizes);
            if sizes.len() > 0 {
                let best = best_size(sizes)->0;
                assert forall|i: int|
                    0 <= i < sizes.len() && (#[trigger] sizes[i]).width <= 1280 && sizes[i].height
                        <= 1280 implies best.width <= 1280 && best.height <= 1280
                    && sizes[i].width * sizes[i].height <= best.width * best.height by {
                    assert(fits(sizes[i]));
                    assert(area(sizes[i]) <= area(best));
                }
                if !fits(best) {
                    assert forall|i: int| 0 <= i < sizes.len() implies (#[trigger] sizes[i]).width
                        * sizes[i].height <= best.width * best.height by {
                        assert(area(sizes[i]) <= area(best));
                    }
                }
                assert(is_best(sizes, best));
            }
        },
        _ => {},
    }
}

/// The text of a media message names what it is, so that no two kinds read
/// alike.
pub proof fn placeholders_differ(a: ContentView, b: ContentView)
    requires
        text_of(a) == text_of(b),
        !(a is MessageText || a is MessagePhoto || a is MessageVoiceNote || a is MessageDocument),
        !(b is MessageText || b is MessagePhoto || b is MessageVoiceNote || b is MessageDocument),
    ensures
        a == b,
{
    reveal_strlit("🎬 Video");
    reveal_strlit("🎬 Video message");
    reveal_strlit("🎵 Audio");
    reveal_strlit("Sticker");
    reveal_strlit("GIF");
    reveal_strlit("Emoji");
    reveal_strlit("📍 Location");
    reveal_strlit("📍 Venue");
    reveal_strlit("👤 Contact");
    reveal_strlit("📊 Poll");
    reveal_strlit("📞 Call");
    reveal_strlit("Unsupported message");
    let s = text_of(a);
    let t = text_of(b);
    assert(s.len() == t.len());
    assert(s.len() > 2 ==> s[2] == t[2]);
    assert(s[0] == t[0]);
}

/// A row made from a message says what the message reports. It is pending, with
/// a clock, while the message is on its way or failed, and sent otherwise; names,
/// avatars and reply texts are looked up later.
pub proof fn new_row_reports_its_message(msg: MessageValue)
    ensures
        ({
            let m = MessageView::from_message(msg);
            &&& reports(m, msg)
            &&& m.is_pending == (msg.sending_state is Some)
            &&& m.send_status == send_status::PENDING <==> msg.sending_state is Some
            &&& m.send_status == send_status::SENT <==> msg.sending_state is None
            &&& m.sender_name.len() == 0
            &&& m.avatar_file_id == 0
            &&& m.reply_sender.len() == 0
            &&& m.reply_snippet.len() == 0
        }),
{
    let blank = MessageView::from_message(msg);
    content_is_shown(blank, msg.content);
    assert(blank.with_content(msg.content) == blank);
}

/// A row that is refreshed from a newer report says what that reports, and
/// keeps what was looked up for it.
pub proof fn refreshed_row_reports_its_message(before: MessageView, msg: MessageValue)
    ensures
        ({
            let m = before.updated(msg);
            &&& reports(m, msg)
            &&& m.is_pending == (msg.sending_state is Some)
            &&& m.send_status == send_status::PENDING <==> msg.sending_state is Some
            &&& m.send_status == send_status::SENT <==> msg.sending_state is None
            &&& m.sender_name == before.sender_name
            &&& m.avatar_file_id == before.avatar_file_id
            &&& m.reply_sender == before.reply_sender
            &&& m.reply_snippet == before.reply_snippet
        }),
{
    let m = before.updated(msg);
    content_is_shown(m, msg.content);
    assert(m.with_content(msg.content) == m);
}

/// The text of a document names it and says its size, and that of a voice note
/// says how long it is.
pub proof fn texts_describe_the_media(
    file_id: i32,
    file_name: Seq<char>,
    size: i64,
    caption: Seq<char>,
    duration: i32,
)
    ensures
        ({
            let document = text_of(
                ContentView::MessageDocument { file_id, file_name, size, caption },
            );
            let voice = text_of(ContentView::MessageVoiceNote { file_id, duration });
            &&& contains_text(document, file_name)
            &&& file_name.len() == 0 ==> contains_text(document, "Document"@)
            &&& contains_text(document, size_text(size as int))
            &&& contains_text(voice, duration_text(duration as int))
        }),
{
    let document = text_of(ContentView::MessageDocument { file_id, file_name, size, caption });
    let voice = text_of(ContentView::MessageVoiceNote { file_id, duration });
    let name = if file_name.len() == 0 {
        "Document"@
    } else {
        file_name
    };
    let at = "📎 "@.len() as int;
    let bytes = size_text(size as int);
    assert(document.subrange(at, at + name.len()) =~= name);
    assert(occurs_at(document, name, at));
    if file_name.len() == 0 {
        assert(document.subrange(0, 0) =~= file_name);
        assert(occurs_at(document, file_name, 0));
    }
    let behind = at + name.len() + " ("@.len();
    assert(document.subrange(behind, behind + bytes.len()) =~= bytes);
    assert(occurs_at(document, bytes, behind));
    let long = duration_text(duration as int);
    let start = "🎤 Voice message ("@.len() as int;
    assert(voice.subrange(start, start + long.len()) =~= long);
    assert(occurs_at(voice, long, start));
}

} // verus!
