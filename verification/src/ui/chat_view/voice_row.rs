//! [`VoiceRow`]: the controls of a voice note in a row that is recycled.

use crate::audio::{PlayerView, VoiceEvent, VoicePlayer};
use vstd::prelude::*;

verus! {

/// The priority of the download of a voice note.
pub const VOICE_PRIORITY: i32 = 16;

/// Nanoseconds in a second.
pub const SECOND: u64 = 1_000_000_000;

/// The controls of a voice note.
#[derive(Clone, Copy, Debug, PartialEq, Eq, Structural)]
pub struct VoiceRow {
    /// The message the row shows.
    pub message_id: i64,
    /// The playback this row started, if any.
    pub token: Option<u64>,
    /// True while the user drags the thumb of the seek bar.
    pub seeking: bool,
}

/// What a click on the button does.
#[derive(Clone, Copy, Debug, PartialEq, Eq, Structural)]
pub enum Click {
    /// Pause or go on.
    Toggle { token: u64 },
    /// Play the file that is on disk.
    Start,
    /// Download the file, then play it.
    Download,
}

/// What an event changes in the controls.
#[derive(Clone, Copy, Debug, PartialEq, Eq, Structural)]
pub enum Change {
    Nothing,
    /// The seek bar ends at this many seconds.
    Range { secs: i32 },
    /// Move the thumb and show the time at this position.
    Position { ns: u64 },
    /// Show the pause icon if `playing`, else the play icon.
    Icon { playing: bool },
    /// Show the play icon and move the thumb to the start.
    Reset,
}

/// The low 32 bits of `n` as a signed number.
pub open spec fn low_i32(n: int) -> int {
    (n + 0x8000_0000) % 0x1_0000_0000 - 0x8000_0000
}

/// The end of the seek bar for a duration; never 0.
pub open spec fn range_secs(ns: u64) -> int {
    let secs = low_i32(ns as int / SECOND as int);
    if secs < 1 {
        1
    } else {
        secs
    }
}

/// Whether a file that was downloaded for `wanted` is to be played in a row that
/// shows `shown` now.
pub open spec fn still_wanted(wanted: i64, shown: Option<i64>) -> bool {
    shown == Some(wanted)
}

impl VoiceRow {
    /// The row once it shows another message, and the playback that is to be
    /// stopped.
    pub open spec fn rebound(self, message_id: i64) -> (VoiceRow, Option<u64>) {
        (VoiceRow { message_id, token: None, seeking: self.seeking }, self.token)
    }

    /// The playback to seek in when the value of the seek bar changed.
    pub open spec fn dragged(self, player: PlayerView) -> Option<u64> {
        if self.seeking {
            self.owned(player)
        } else {
            None
        }
    }

    /// The row once the user let go of the seek bar, and the playback to seek in.
    pub open spec fn let_go(self, player: PlayerView) -> (VoiceRow, Option<u64>) {
        (VoiceRow { seeking: false, ..self }, self.owned(player))
    }

    /// A click, with `owns` telling whether the token still owns the pipeline
    /// and `cached` whether the file is on disk.
    pub open spec fn clicked(self, owns: bool, cached: bool) -> (VoiceRow, Click) {
        if self.token is Some && owns {
            (self, Click::Toggle { token: self.token->0 })
        } else {
            (
                VoiceRow { token: None, ..self },
                if cached {
                    Click::Start
                } else {
                    Click::Download
                },
            )
        }
    }

    /// An event of the playback this row started.
    pub open spec fn notified(self, event: VoiceEvent) -> (VoiceRow, Change) {
        match event {
            VoiceEvent::Duration(ns) => (self, Change::Range { secs: range_secs(ns) as i32 }),
            VoiceEvent::Position(ns) => (
                self,
                if self.seeking {
                    Change::Nothing
                } else {
                    Change::Position { ns }
                },
            ),
            VoiceEvent::Playing(playing) => (self, Change::Icon { playing }),
            VoiceEvent::Ended => (VoiceRow { token: None, ..self }, Change::Reset),
        }
    }

    /// The playback to seek in: the one this row started, if it still owns the
    /// pipeline.
    pub open spec fn owned(self, player: PlayerView) -> Option<u64> {
        if self.token is Some && player.owned_by(self.token->0) {
            self.token
        } else {
            None
        }
    }

    /// The controls of a row that shows `message_id` now.
    pub fn new(message_id: i64) -> (r: VoiceRow)
        ensures
            r == (VoiceRow { message_id, token: None, seeking: false }),
    {
        VoiceRow { message_id, token: None, seeking: false }
    }

    /// The row shows another message now. Returns the playback that is to be
    /// stopped, if one was started from it. A drag goes on.
    pub fn rebind(&mut self, message_id: i64) -> (stale: Option<u64>)
        ensures
            (*final(self), stale) == old(self).rebound(message_id),
    {
        let stale: Option<u64> = self.token;
        self.token = None;
        self.message_id = message_id;
        stale
    }

    /// The button was clicked. A playback of this row that is still alive is
    /// paused or resumed; otherwise a fresh one is started.
    pub fn click(&mut self, player: &VoicePlayer, cached: bool) -> (r: Click)
        ensures
            ({
                let owns = old(self).token is Some && player@.owned_by(
                    old(self).token->0,
                );
                (*final(self), r) == old(self).clicked(owns, cached)
            }),
    {
        match self.token {
            Some(token) => {
                if player.is_owner(token) {
                    return Click::Toggle { token };
                }
            },
            None => {},
        }
        self.token = None;
        if cached {
            Click::Start
        } else {
            Click::Download
        }
    }

    /// Whether a file that was downloaded for `wanted` is to be played: only
    /// if the row still shows that message. `shown` is what it shows now.
    pub fn downloaded(wanted: i64, shown: Option<i64>) -> (r: bool)
        ensures
            r == still_wanted(wanted, shown),
    {
        match shown {
            Some(id) => id == wanted,
            None => false,
        }
    }

    /// A playback was started from this row.
    pub fn started(&mut self, token: u64)
        ensures
            *final(self) == (VoiceRow { token: Some(token), ..*old(self) }),
    {
        self.token = Some(token);
    }

    /// The playback of this row reported something.
    pub fn notify(&mut self, event: VoiceEvent) -> (r: Change)
        ensures
            (*final(self), r) == old(self).notified(event),
    {
        match event {
            VoiceEvent::Duration(ns) => {
                let n: i64 = (ns / SECOND) as i64;
                let low: i64 = (n + 0x8000_0000) % 0x1_0000_0000 - 0x8000_0000;
                let secs: i32 = if low < 1 {
                    1
                } else {
                    low as i32
                };
                Change::Range { secs }
            },
            VoiceEvent::Position(ns) => if self.seeking {
                Change::Nothing
            } else {
                Change::Position { ns }
            },
            VoiceEvent::Playing(playing) => Change::Icon { playing },
            VoiceEvent::Ended => {
                self.token = None;
                Change::Reset
            },
        }
    }

    /// The user presses on the seek bar.
    pub fn press(&mut self)
        ensures
            *final(self) == (VoiceRow { seeking: true, ..*old(self) }),
    {
        self.seeking = true;
    }

    /// The value of the seek bar changed. Returns the playback to seek in:
    /// only a drag of the user seeks, not the progress of the note itself.
    pub fn drag(&self, player: &VoicePlayer) -> (r: Option<u64>)
        ensures
            r == self.dragged(player@),
    {
        if self.seeking {
            self.owner(player)
        } else {
            None
        }
    }

    /// The user lets go of the seek bar. Returns the playback to seek in.
    pub fn release(&mut self, player: &VoicePlayer) -> (r: Option<u64>)
        ensures
            (*final(self), r) == old(self).let_go(player@),
    {
        let r: Option<u64> = self.owner(player);
        self.seeking = false;
        r
    }

    fn owner(&self, player: &VoicePlayer) -> (r: Option<u64>)
        ensures
            r == self.owned(player@),
    {
        match self.token {
            Some(token) => if player.is_owner(token) {
                Some(token)
            } else {
                None
            },
            None => None,
        }
    }
}

/// The icon of the play button.
pub open spec fn icon_of(playing: bool) -> Seq<char> {
    if playing {
        "media-playback-pause-symbolic"@
    } else {
        "media-playback-start-symbolic"@
    }
}

/// The icon of the play button.
pub fn play_icon(playing: bool) -> (r: String)
    ensures
        r@ == icon_of(playing),
{
    if playing {
        "media-playback-pause-symbolic".to_owned()
    } else {
        "media-playback-start-symbolic".to_owned()
    }
}

// --- Laws --------------------------------------------------------------------

/// After a note ended, or was evicted by another, the next click on its row
/// starts afresh and never toggles the playback of another row.
pub proof fn click_after_end_starts_afresh(row: VoiceRow, owns: bool, cached: bool)
    ensures
        !(row.notified(VoiceEvent::Ended).0.clicked(owns, cached).1 is Toggle),
{
}

/// A click on a row that owns the pipeline toggles its own playback. Any other
/// click starts the note, from disk where it is there, and forgets what the row
/// had started.
pub proof fn click_starts_or_toggles(row: VoiceRow, token: u64, owns: bool, cached: bool)
    ensures
        row.token == Some(token) && owns ==> row.clicked(owns, cached) == (
            row,
            Click::Toggle { token },
        ),
        !owns || row.token is None ==> {
            &&& row.clicked(owns, cached).0.token is None
            &&& row.clicked(owns, cached).0.message_id == row.message_id
            &&& row.clicked(owns, cached).0.seeking == row.seeking
            &&& cached ==> row.clicked(owns, cached).1 == Click::Start
            &&& !cached ==> row.clicked(owns, cached).1 == Click::Download
        },
{
}

/// The controls follow the playback: the thumb its position, unless the user
/// drags it, the icon whether it plays, and the bar its length in seconds, which
/// is one at least. At the end the row starts over.
pub proof fn controls_follow_the_playback(row: VoiceRow, ns: u64, playing: bool)
    ensures
        !row.seeking ==> row.notified(VoiceEvent::Position(ns)) == (row, Change::Position { ns }),
        row.seeking ==> row.notified(VoiceEvent::Position(ns)) == (row, Change::Nothing),
        row.notified(VoiceEvent::Playing(playing)) == (row, Change::Icon { playing }),
        row.notified(VoiceEvent::Ended).1 == Change::Reset,
        row.notified(VoiceEvent::Ended).0 == (VoiceRow { token: None, ..row }),
        row.notified(VoiceEvent::Duration(ns)).0 == row,
        1_000_000_000 <= ns < 0x8000_0000 * 1_000_000_000 ==> (row.notified(
            VoiceEvent::Duration(ns),
        ).1 matches Change::Range { secs } && secs * 1_000_000_000 <= ns < (secs + 1)
            * 1_000_000_000),
        ns < 1_000_000_000 ==> row.notified(VoiceEvent::Duration(ns)).1 == (Change::Range {
            secs: 1,
        }),
{
    let whole = ns as int / SECOND as int;
    if ns < 0x8000_0000 * 1_000_000_000 {
        assert(0 <= whole < 0x8000_0000);
        assert(low_i32(whole) == whole);
    }
}

/// A row seeks only in the playback that it started, and only while that owns
/// the pipeline.
pub proof fn rows_seek_in_their_own(row: VoiceRow, player: PlayerView, token: u64)
    ensures
        row.owned(player) == Some(token) <==> row.token == Some(token) && token != 0
            && player.owner == token,
{
}

/// A row that is given to another message lets go of what it had started, so that
/// it can be stopped, and never plays or seeks in it again.
pub proof fn recycled_row_starts_afresh(
    row: VoiceRow,
    message_id: i64,
    player: PlayerView,
    cached: bool,
)
    ensures
        ({
            let (after, stale) = row.rebound(message_id);
            &&& stale == row.token
            &&& after.message_id == message_id
            &&& after.seeking == row.seeking
            &&& after.owned(player) is None
            &&& after.dragged(player) is None
            &&& !(after.clicked(true, cached).1 is Toggle)
        }),
{
}

/// Only a drag of the user seeks, not the progress of the note itself; letting go
/// ends the drag and seeks once more.
pub proof fn only_drags_seek(row: VoiceRow, player: PlayerView)
    ensures
        !row.seeking ==> row.dragged(player) is None,
        row.seeking ==> row.dragged(player) == row.owned(player),
        row.let_go(player).1 == row.owned(player),
        !row.let_go(player).0.seeking,
        row.let_go(player).0.token == row.token,
        row.let_go(player).0.message_id == row.message_id,
        row.let_go(player).0.dragged(player) is None,
{
}

/// A file that arrives late is played only where its message is still shown.
pub proof fn late_files_are_not_played(wanted: i64, other: i64)
    ensures
        still_wanted(wanted, Some(wanted)),
        other != wanted ==> !still_wanted(wanted, Some(other)),
        !still_wanted(wanted, None),
{
}

/// The button offers what a click on it would do: to pause what plays, and to
/// play what does not.
pub proof fn button_offers_the_other()
    ensures
        icon_of(true) == "media-playback-pause-symbolic"@,
        icon_of(false) == "media-playback-start-symbolic"@,
        icon_of(true) != icon_of(false),
{
    reveal_strlit("media-playback-pause-symbolic");
    reveal_strlit("media-playback-start-symbolic");
    assert(icon_of(true)[15] != icon_of(false)[15]);
}

} // verus!
