//! [`VoicePlayer`]: at most one voice note plays at a time.
//!
//! The pipeline that makes the sound is outside. A bubble takes ownership with
//! [`VoicePlayer::start`] and gets a token. Whoever holds a token that is not
//! the owner's any more, such as a recycled row, can change nothing.

use vstd::prelude::*;

verus! {

/// What a voice bubble is told while its note plays.
#[derive(Clone, Copy, Debug, PartialEq, Eq, Structural)]
pub enum VoiceEvent {
    /// The duration became known (nanoseconds).
    Duration(u64),
    /// The position advanced (nanoseconds).
    Position(u64),
    /// Playing (true) or paused (false).
    Playing(bool),
    /// The note reached its end, or another note took its place.
    Ended,
}

/// What the pipeline reports.
#[derive(Clone, Copy, Debug, PartialEq, Eq, Structural)]
pub enum PlayMessage {
    DurationChanged(Option<u64>),
    PositionUpdated(Option<u64>),
    StateChanged { playing: bool },
    EndOfStream,
    Error,
    /// Any report that nobody needs.
    Other,
}

/// What is to be done, in order.
#[derive(Debug)]
pub enum Command {
    /// Tell the bubble that holds `token`.
    Notify { token: u64, event: VoiceEvent },
    /// Forget the bubble that holds `token`.
    Release { token: u64 },
    SetUri { uri: String },
    ClearUri,
    Play,
    Pause,
    Stop,
    /// Go to this position (nanoseconds).
    Seek { ns: u64 },
}

/// The mathematical value of a [`Command`].
pub enum CommandView {
    Notify { token: u64, event: VoiceEvent },
    Release { token: u64 },
    SetUri { uri: Seq<char> },
    ClearUri,
    Play,
    Pause,
    Stop,
    Seek { ns: u64 },
}

impl View for Command {
    type V = CommandView;

    open spec fn view(&self) -> CommandView {
        match *self {
            Command::Notify { token, event } => CommandView::Notify { token, event },
            Command::Release { token } => CommandView::Release { token },
            Command::SetUri { uri } => CommandView::SetUri { uri: uri@ },
            Command::ClearUri => CommandView::ClearUri,
            Command::Play => CommandView::Play,
            Command::Pause => CommandView::Pause,
            Command::Stop => CommandView::Stop,
            Command::Seek { ns } => CommandView::Seek { ns },
        }
    }
}

/// The values of a list of commands.
pub open spec fn command_views(v: Seq<Command>) -> Seq<CommandView> {
    Seq::new(v.len(), |i: int| v[i]@)
}

/// The state of the player.
pub struct PlayerView {
    /// The token of the bubble that owns the pipeline, 0 for none.
    pub owner: u64,
    /// The last token that was given out.
    pub last_token: u64,
    /// Whether the pipeline last said that it plays.
    pub playing: bool,
}

/// The player after a step, with what the step asks for.
pub struct PlayerStep {
    pub player: PlayerView,
    pub commands: Seq<CommandView>,
}

impl PlayerView {
    /// No note plays, and no token was given out.
    pub open spec fn idle() -> PlayerView {
        PlayerView { owner: 0, last_token: 0, playing: false }
    }

    /// Whether `token` owns the pipeline. Nobody holds the token 0.
    pub open spec fn owned_by(self, token: u64) -> bool {
        token != 0 && self.owner == token
    }

    /// The owner, if there is one, is told of an event.
    pub open spec fn told(self, event: VoiceEvent) -> Seq<CommandView> {
        if self.owner != 0 {
            seq![CommandView::Notify { token: self.owner, event }]
        } else {
            Seq::empty()
        }
    }

    /// The owner, if there is one, is forgotten.
    pub open spec fn released(self) -> Seq<CommandView> {
        if self.owner != 0 {
            seq![CommandView::Release { token: self.owner }]
        } else {
            Seq::empty()
        }
    }

    pub open spec fn unchanged(self) -> PlayerStep {
        PlayerStep { player: self, commands: Seq::empty() }
    }

    /// A new note is played. The note before it has ended.
    pub open spec fn started(self, uri: Seq<char>) -> PlayerStep {
        let token = (self.last_token + 1) as u64;
        PlayerStep {
            player: PlayerView { owner: token, last_token: token, playing: false },
            commands: self.told(VoiceEvent::Ended) + self.released() + seq![
                CommandView::SetUri { uri },
                CommandView::Play,
            ],
        }
    }

    /// The holder of `token` pauses or goes on.
    pub open spec fn toggled(self, token: u64) -> PlayerStep {
        PlayerStep {
            player: self,
            commands: if !self.owned_by(token) {
                Seq::empty()
            } else if self.playing {
                seq![CommandView::Pause]
            } else {
                seq![CommandView::Play]
            },
        }
    }

    /// The holder of `token` goes to a position.
    pub open spec fn sought(self, token: u64, ns: u64) -> PlayerStep {
        PlayerStep {
            player: self,
            commands: if self.owned_by(token) {
                seq![CommandView::Seek { ns }]
            } else {
                Seq::empty()
            },
        }
    }

    /// Whatever plays is stopped. Nobody is told.
    pub open spec fn stopped(self) -> PlayerStep {
        PlayerStep {
            player: PlayerView { owner: 0, playing: false, ..self },
            commands: seq![CommandView::Stop, CommandView::ClearUri] + self.released(),
        }
    }

    /// The holder of `token` goes away.
    pub open spec fn left(self, token: u64) -> PlayerStep {
        if self.owned_by(token) {
            self.stopped()
        } else {
            self.unchanged()
        }
    }

    /// The note is over. The owner is told so, and forgotten after that.
    pub open spec fn ended(self) -> PlayerStep {
        PlayerStep {
            player: PlayerView { owner: 0, playing: false, ..self },
            commands: seq![CommandView::Stop] + self.told(VoiceEvent::Ended) + self.released(),
        }
    }

    /// The pipeline reported something.
    pub open spec fn reported(self, message: PlayMessage) -> PlayerStep {
        match message {
            PlayMessage::DurationChanged(ns) => PlayerStep {
                player: self,
                commands: self.told(VoiceEvent::Duration(or_zero(ns))),
            },
            PlayMessage::PositionUpdated(ns) => PlayerStep {
                player: self,
                commands: self.told(VoiceEvent::Position(or_zero(ns))),
            },
            PlayMessage::StateChanged { playing } => PlayerStep {
                player: PlayerView { playing, ..self },
                commands: self.told(VoiceEvent::Playing(playing)),
            },
            PlayMessage::EndOfStream | PlayMessage::Error => self.ended(),
            PlayMessage::Other => self.unchanged(),
        }
    }
}

/// An unknown time counts as 0.
pub open spec fn or_zero(ns: Option<u64>) -> u64 {
    match ns {
        Some(n) => n,
        None => 0,
    }
}

/// The shared voice-note player.
#[derive(Debug)]
pub struct VoicePlayer {
    owner: u64,
    last_token: u64,
    playing: bool,
}

impl View for VoicePlayer {
    type V = PlayerView;

    closed spec fn view(&self) -> PlayerView {
        PlayerView { owner: self.owner, last_token: self.last_token, playing: self.playing }
    }
}

fn issue(out: &mut Vec<Command>, command: Command)
    ensures
        command_views(final(out)@) == command_views(old(out)@).push(command@),
{
    out.push(command);
    assert(command_views(out@) =~= command_views(old(out)@).push(command@));
}

impl Default for VoicePlayer {
    fn default() -> (r: VoicePlayer)
        ensures
            r@ == PlayerView::idle(),
    {
        VoicePlayer::new()
    }
}

impl VoicePlayer {
    /// A player that plays nothing.
    pub fn new() -> (r: VoicePlayer)
        ensures
            r@ == PlayerView::idle(),
    {
        VoicePlayer { owner: 0, last_token: 0, playing: false }
    }

    /// Tells the owner, if there is one.
    fn dispatch(&self, event: VoiceEvent, out: &mut Vec<Command>)
        ensures
            command_views(final(out)@) == command_views(old(out)@) + self@.told(event),
    {
        let ghost start = command_views(out@);
        if self.owner != 0 {
            issue(out, Command::Notify { token: self.owner, event });
        }
        assert(command_views(out@) =~= start + self@.told(event));
    }

    /// Forgets the owner.
    fn clear_owner(&mut self, out: &mut Vec<Command>)
        ensures
            final(self)@ == (PlayerView { owner: 0, ..old(self)@ }),
            command_views(final(out)@) == command_views(old(out)@) + old(self)@.released(),
    {
        let ghost start = command_views(out@);
        if self.owner != 0 {
            issue(out, Command::Release { token: self.owner });
        }
        assert(command_views(out@) =~= start + old(self)@.released());
        self.owner = 0;
    }

    /// Takes ownership of the pipeline to play `uri`. Returns the token of
    /// this playback. A previous owner is told that it ended.
    pub fn start(&mut self, uri: &str, out: &mut Vec<Command>) -> (token: u64)
        requires
            old(self)@.last_token < u64::MAX,
        ensures
            token == old(self)@.last_token + 1,
            final(self)@ == old(self)@.started(uri@).player,
            command_views(final(out)@) == command_views(old(out)@) + old(self)@.started(
                uri@,
            ).commands,
    {
        let ghost begin = command_views(out@);
        self.dispatch(VoiceEvent::Ended, out);
        self.clear_owner(out);
        let token: u64 = self.last_token + 1;
        self.last_token = token;
        self.owner = token;
        self.playing = false;
        issue(out, Command::SetUri { uri: uri.to_owned() });
        issue(out, Command::Play);
        assert(command_views(out@) =~= begin + old(self)@.started(uri@).commands);
        token
    }

    /// Pauses or goes on, if `token` still owns the pipeline.
    pub fn toggle(&self, token: u64, out: &mut Vec<Command>)
        ensures
            self@.toggled(token).player == self@,
            command_views(final(out)@) == command_views(old(out)@) + self@.toggled(token).commands,
    {
        let ghost begin = command_views(out@);
        if self.is_owner(token) {
            if self.playing {
                issue(out, Command::Pause);
            } else {
                issue(out, Command::Play);
            }
        }
        assert(command_views(out@) =~= begin + self@.toggled(token).commands);
    }

    /// Goes to `ns`, if `token` still owns the pipeline.
    pub fn seek(&self, token: u64, ns: u64, out: &mut Vec<Command>)
        ensures
            self@.sought(token, ns).player == self@,
            command_views(final(out)@) == command_views(old(out)@) + self@.sought(
                token,
                ns,
            ).commands,
    {
        let ghost begin = command_views(out@);
        if self.is_owner(token) {
            issue(out, Command::Seek { ns });
        }
        assert(command_views(out@) =~= begin + self@.sought(token, ns).commands);
    }

    /// Stops the playback of `token`, if it still owns the pipeline. Nobody is
    /// told: the bubble is going away.
    pub fn stop_if_owner(&mut self, token: u64, out: &mut Vec<Command>)
        ensures
            final(self)@ == old(self)@.left(token).player,
            command_views(final(out)@) == command_views(old(out)@) + old(self)@.left(
                token,
            ).commands,
    {
        let ghost begin = command_views(out@);
        if self.is_owner(token) {
            self.stop(out);
        }
        assert(command_views(out@) =~= begin + old(self)@.left(token).commands);
    }

    /// Stops whatever plays.
    pub fn stop(&mut self, out: &mut Vec<Command>)
        ensures
            final(self)@ == old(self)@.stopped().player,
            command_views(final(out)@) == command_views(old(out)@) + old(self)@.stopped().commands,
    {
        let ghost begin = command_views(out@);
        issue(out, Command::Stop);
        issue(out, Command::ClearUri);
        self.playing = false;
        self.clear_owner(out);
        assert(command_views(out@) =~= begin + old(self)@.stopped().commands);
    }

    /// Whether `token` owns the pipeline.
    pub fn is_owner(&self, token: u64) -> (r: bool)
        ensures
            r == (token != 0 && self@.owner == token),
    {
        token != 0 && self.owner == token
    }

    /// The pipeline reported something.
    pub fn handle_message(&mut self, message: PlayMessage, out: &mut Vec<Command>)
        ensures
            final(self)@ == old(self)@.reported(message).player,
            command_views(final(out)@) == command_views(old(out)@) + old(self)@.reported(
                message,
            ).commands,
    {
        let ghost begin = command_views(out@);
        match message {
            PlayMessage::DurationChanged(ns) => {
                let ns: u64 = match ns {
                    Some(n) => n,
                    None => 0,
                };
                self.dispatch(VoiceEvent::Duration(ns), out);
            },
            PlayMessage::PositionUpdated(ns) => {
                let ns: u64 = match ns {
                    Some(n) => n,
                    None => 0,
                };
                self.dispatch(VoiceEvent::Position(ns), out);
            },
            PlayMessage::StateChanged { playing } => {
                self.playing = playing;
                self.dispatch(VoiceEvent::Playing(playing), out);
            },
            PlayMessage::EndOfStream | PlayMessage::Error => {
                issue(out, Command::Stop);
                self.playing = false;
                self.dispatch(VoiceEvent::Ended, out);
                self.clear_owner(out);
            },
            PlayMessage::Other => {},
        }
        assert(command_views(out@) =~= begin + old(self)@.reported(message).commands);
    }
}

// --- Laws --------------------------------------------------------------------

/// A token that does not own the pipeline changes nothing and asks for nothing.
pub proof fn stale_token_does_nothing(p: PlayerView, token: u64, ns: u64)
    requires
        !p.owned_by(token),
    ensures
        p.toggled(token) == p.unchanged(),
        p.sought(token, ns) == p.unchanged(),
        p.left(token) == p.unchanged(),
{
}

/// While nothing plays, no token owns the pipeline.
pub proof fn idle_player_has_no_owner(p: PlayerView, token: u64)
    requires
        p.owner == 0,
    ensures
        !p.owned_by(token),
{
}

/// A new playback takes the place of the one before: its token is new, it owns
/// the pipeline, and the owner before is told that its note ended, before the
/// new note is played.
pub proof fn start_evicts(p: PlayerView, uri: Seq<char>)
    requires
        p.last_token < u64::MAX,
        p.owner <= p.last_token,
    ensures
        p.started(uri).player.owner > p.owner,
        p.started(uri).player.owner == p.started(uri).player.last_token,
        p.owner != 0 ==> p.started(uri).commands =~= seq![
            CommandView::Notify { token: p.owner, event: VoiceEvent::Ended },
            CommandView::Release { token: p.owner },
            CommandView::SetUri { uri },
            CommandView::Play,
        ],
        p.owner == 0 ==> p.started(uri).commands =~= seq![
            CommandView::SetUri { uri },
            CommandView::Play,
        ],
{
}

/// The owner is always a token that was given out, through every step.
pub proof fn owner_was_given_out(p: PlayerView, uri: Seq<char>, token: u64, message: PlayMessage)
    requires
        p.owner <= p.last_token,
        p.last_token < u64::MAX,
    ensures
        p.started(uri).player.owner <= p.started(uri).player.last_token,
        p.left(token).player.owner <= p.left(token).player.last_token,
        p.stopped().player.owner <= p.stopped().player.last_token,
        p.reported(message).player.owner <= p.reported(message).player.last_token,
{
}

/// Tokens only grow: no step gives a token out twice.
pub proof fn tokens_grow(p: PlayerView, uri: Seq<char>, token: u64, message: PlayMessage)
    requires
        p.last_token < u64::MAX,
    ensures
        p.started(uri).player.last_token == p.last_token + 1,
        p.left(token).player.last_token == p.last_token,
        p.stopped().player.last_token == p.last_token,
        p.reported(message).player.last_token == p.last_token,
{
}

/// Once a note is over or stopped nobody is told anything more, until another
/// one is started.
pub proof fn silence_after_the_end(p: PlayerView, last: PlayMessage, next: PlayMessage)
    requires
        last == PlayMessage::EndOfStream || last == PlayMessage::Error,
    ensures
        p.reported(last).player.owner == 0,
        p.stopped().player.owner == 0,
        forall|i: int|
            0 <= i < p.reported(last).player.reported(next).commands.len() ==> !((
            #[trigger] p.reported(last).player.reported(next).commands[i]) is Notify),
        forall|i: int|
            0 <= i < p.stopped().player.reported(next).commands.len() ==> !((
            #[trigger] p.stopped().player.reported(next).commands[i]) is Notify),
{
}

/// The owner's toggle pauses a note that plays and goes on with one that does
/// not, and its seek reaches the pipeline as it was asked. Neither changes who
/// owns the pipeline.
pub proof fn owner_controls_the_pipeline(p: PlayerView, ns: u64)
    requires
        p.owner != 0,
    ensures
        p.playing ==> p.toggled(p.owner).commands == seq![CommandView::Pause],
        !p.playing ==> p.toggled(p.owner).commands == seq![CommandView::Play],
        p.toggled(p.owner).player == p,
        p.sought(p.owner, ns).commands == seq![CommandView::Seek { ns }],
        p.sought(p.owner, ns).player == p,
{
}

/// Stopping stops the pipeline, lets go of the file and forgets the owner, who
/// is told nothing. The owner that goes away does just that.
pub proof fn stopping_lets_go(p: PlayerView)
    ensures
        p.stopped().player.owner == 0,
        !p.stopped().player.playing,
        p.owner == 0 ==> p.stopped().commands == seq![CommandView::Stop, CommandView::ClearUri],
        p.owner != 0 ==> p.stopped().commands == seq![
            CommandView::Stop,
            CommandView::ClearUri,
            CommandView::Release { token: p.owner },
        ],
        p.owner != 0 ==> p.left(p.owner) == p.stopped(),
{
    if p.owner == 0 {
        assert(p.stopped().commands =~= seq![CommandView::Stop, CommandView::ClearUri]);
    } else {
        assert(p.stopped().commands =~= seq![
            CommandView::Stop,
            CommandView::ClearUri,
            CommandView::Release { token: p.owner },
        ]);
    }
}

/// What the pipeline reports reaches the owner as it was reported, an unknown
/// time as 0. Whether it plays is kept, and nothing else changes.
pub proof fn reports_reach_the_owner(p: PlayerView, ns: u64, playing: bool)
    requires
        p.owner != 0,
    ensures
        p.reported(PlayMessage::DurationChanged(Some(ns))).commands == seq![
            CommandView::Notify { token: p.owner, event: VoiceEvent::Duration(ns) },
        ],
        p.reported(PlayMessage::DurationChanged(None)).commands == seq![
            CommandView::Notify { token: p.owner, event: VoiceEvent::Duration(0) },
        ],
        p.reported(PlayMessage::PositionUpdated(Some(ns))).commands == seq![
            CommandView::Notify { token: p.owner, event: VoiceEvent::Position(ns) },
        ],
        p.reported(PlayMessage::PositionUpdated(None)).commands == seq![
            CommandView::Notify { token: p.owner, event: VoiceEvent::Position(0) },
        ],
        p.reported(PlayMessage::StateChanged { playing }).commands == seq![
            CommandView::Notify { token: p.owner, event: VoiceEvent::Playing(playing) },
        ],
        p.reported(PlayMessage::StateChanged { playing }).player == (PlayerView { playing, ..p }),
        p.reported(PlayMessage::DurationChanged(Some(ns))).player == p,
        p.reported(PlayMessage::PositionUpdated(Some(ns))).player == p,
        p.reported(PlayMessage::Other).player == p,
        p.reported(PlayMessage::Other).commands.len() == 0,
{
}

/// At its end, or on an error, a note is stopped, its owner is told and then
/// forgotten.
pub proof fn end_is_told(p: PlayerView, last: PlayMessage)
    requires
        last == PlayMessage::EndOfStream || last == PlayMessage::Error,
    ensures
        !p.reported(last).player.playing,
        p.owner == 0 ==> p.reported(last).commands == seq![CommandView::Stop],
        p.owner != 0 ==> p.reported(last).commands == seq![
            CommandView::Stop,
            CommandView::Notify { token: p.owner, event: VoiceEvent::Ended },
            CommandView::Release { token: p.owner },
        ],
{
    if p.owner == 0 {
        assert(p.reported(last).commands =~= seq![CommandView::Stop]);
    } else {
        assert(p.reported(last).commands =~= seq![
            CommandView::Stop,
            CommandView::Notify { token: p.owner, event: VoiceEvent::Ended },
            CommandView::Release { token: p.owner },
        ]);
    }
}

/// A note that was just started does not play before the pipeline says so.
pub proof fn started_note_awaits_the_pipeline(p: PlayerView, uri: Seq<char>, playing: bool)
    requires
        p.last_token < u64::MAX,
    ensures
        !p.started(uri).player.playing,
        p.started(uri).player.reported(PlayMessage::StateChanged { playing }).player.playing
            == playing,
{
}

} // verus!
