//! Audio playback, as one state that commands and observations move on.
//!
//! The audio device, the decoder and the network live outside. [`Engine`] holds
//! what playback is doing and decides what is to be done next: a command comes
//! in and a [`Step`] goes out, the step is carried out, and what became of it
//! is handed back. Between commands the engine is told whether the output has
//! run dry and how far it has played, and from that it tells a finished track
//! from a stream that died.
//!
//! All times are in nanoseconds.

use std::collections::VecDeque;

use vstd::prelude::*;

pub mod backend;
pub mod chunked;

use crate::resolver::AudioFormat;
use crate::text;
use chunked::{LinkView, StreamFault, StreamLink};

verus! {

broadcast use vstd::string::group_string_axioms;

/// How short of the end a drained source is still a finished track. What the
/// container states and what the decoder yields never agree to the sample.
pub const END_GRACE: u64 = 3_000_000_000;

/// Rebuilds allowed in a row before a track is given up on.
pub const MAX_REBUILDS: u8 = 3;

/// Playback from a rebuilt stream that counts as recovered.
pub const PROGRESS: u64 = 5_000_000_000;

/// How long the player waits for a command before it looks at the output
/// again, in milliseconds.
pub const TICK_MS: u64 = 250;

/// The loudest volume, in percent.
pub const MAX_VOLUME: u16 = 200;

/// Instructions to the player.
#[derive(Debug, Clone)]
pub enum Command<S = String> {
    /// A different track is being loaded: stop, and say so. Sent the moment
    /// something is chosen, which is seconds before the stream is there.
    Load { title: S },
    /// Stream and play a resolved URL, replacing whatever is playing.
    Play { url: S, format: AudioFormat, title: S, id: S },
    /// Carry on the current track from `from`, against a newly resolved URL.
    Resume { url: S, format: AudioFormat, from: u64 },
    /// A verified stream of the track that is already playing, to be used when
    /// the running one is refused.
    ArmReplacement { id: S, url: S, format: AudioFormat },
    /// A requested URL could not be produced, so the track cannot go on.
    ResumeFailed { why: S },
    TogglePause,
    Stop,
    /// Play on from this point of the track.
    Seek(u64),
    /// In percent.
    SetVolume(u16),
    Shutdown,
}

impl View for Command {
    type V = Command<Seq<char>>;

    open spec fn view(&self) -> Command<Seq<char>> {
        match self {
            Command::Load { title } => Command::Load { title: title@ },
            Command::Play { url, format, title, id } => Command::Play {
                url: url@,
                format: *format,
                title: title@,
                id: id@,
            },
            Command::Resume { url, format, from } => Command::Resume {
                url: url@,
                format: *format,
                from: *from,
            },
            Command::ArmReplacement { id, url, format } => Command::ArmReplacement {
                id: id@,
                url: url@,
                format: *format,
            },
            Command::ResumeFailed { why } => Command::ResumeFailed { why: why@ },
            Command::TogglePause => Command::TogglePause,
            Command::Stop => Command::Stop,
            Command::Seek(to) => Command::Seek(*to),
            Command::SetVolume(percent) => Command::SetVolume(*percent),
            Command::Shutdown => Command::Shutdown,
        }
    }
}

/// Something the player needs from the program around it.
#[derive(Debug, Clone)]
pub enum PlayerEvent {
    /// The stream is no longer served, and a fresh URL is needed to carry on
    /// from `from`.
    NeedsUrl { id: String, from: u64 },
}

#[derive(Debug, Clone, Copy, PartialEq, Eq, Structural)]
pub enum PlayState {
    Idle,
    /// Connecting and filling the buffer, before the first sample.
    Buffering,
    Playing,
    Paused,
}

impl Default for PlayState {
    fn default() -> (r: Self)
        ensures
            r == PlayState::Idle,
    {
        PlayState::Idle
    }
}

/// What is shown of the player.
#[derive(Debug, Clone)]
pub struct Snapshot {
    pub state: PlayState,
    pub title: String,
    pub position: u64,
    /// In percent.
    pub volume: u16,
    /// The last playback error. Cleared by the next play.
    pub error: Option<String>,
}

/// What a [`Snapshot`] holds.
pub struct SnapshotView {
    pub state: PlayState,
    pub title: Seq<char>,
    pub position: u64,
    pub volume: u16,
    pub error: Option<Seq<char>>,
}

impl View for Snapshot {
    type V = SnapshotView;

    open spec fn view(&self) -> SnapshotView {
        SnapshotView {
            state: self.state,
            title: self.title@,
            position: self.position,
            volume: self.volume,
            error: text::opt_view(self.error),
        }
    }
}

/// The track that is playing, and what is needed to rebuild its stream.
#[derive(Debug, Clone)]
pub struct Track {
    pub url: String,
    /// The representation behind `url`.
    pub format: AudioFormat,
    /// The video this is, so that a dead stream can be resolved again.
    pub id: String,
    /// What the running download has to say.
    pub link: StreamLink,
    /// Length according to the container. A livestream states none.
    pub total: Option<u64>,
    /// The track time at which the current source begins.
    pub offset: u64,
    /// The last position published, and where a rebuild picks up.
    pub position: u64,
    /// Where a seek was aimed, until the stream has played on past it.
    pub seeking_to: Option<u64>,
    /// Rebuilds spent since the stream last made progress.
    pub rebuilds: u8,
    /// A stream of another representation, held until the running one is
    /// refused.
    pub replacement: Option<(String, AudioFormat)>,
}

/// What a [`Track`] holds.
pub struct TrackView {
    pub url: Seq<char>,
    pub format: AudioFormat,
    pub id: Seq<char>,
    pub link: LinkView,
    pub total: Option<u64>,
    pub offset: u64,
    pub position: u64,
    pub seeking_to: Option<u64>,
    pub rebuilds: u8,
    pub replacement: Option<(Seq<char>, AudioFormat)>,
}

impl View for Track {
    type V = TrackView;

    open spec fn view(&self) -> TrackView {
        TrackView {
            url: self.url@,
            format: self.format,
            id: self.id@,
            link: self.link@,
            total: self.total,
            offset: self.offset,
            position: self.position,
            seeking_to: self.seeking_to,
            rebuilds: self.rebuilds,
            replacement: match self.replacement {
                Some((url, format)) => Some((url@, format)),
                None => None,
            },
        }
    }
}

/// Why the output ran dry.
#[derive(Debug, Clone, Copy)]
pub enum Ending {
    /// The track ran out, which is the ordinary case.
    Finished,
    /// The stream died this far in. Worth another attempt.
    Stalled(u64),
    /// The stream died and the rebuilds are spent.
    GaveUp { at: u64, total: Option<u64>, fault: Option<StreamFault> },
}

/// Whether byte offsets in two streams name the same bytes: only where both
/// are known to be the same representation.
pub open spec fn same_stream(current: AudioFormat, fresh: AudioFormat) -> bool {
    current.itag is Some && current == fresh
}

/// Whether a byte offset in one stream means the same in the other. Unknown
/// representations are never taken to be the same.
pub fn same_representation(current: AudioFormat, fresh: AudioFormat) -> (r: bool)
    ensures
        r == same_stream(current, fresh),
{
    current.itag.is_some() && current == fresh
}

/// Whether an answer to a refusal has come too late: the track plays again and
/// nothing waits for a URL any more.
pub fn resume_is_stale(state: PlayState, downloader_waiting: bool) -> (r: bool)
    ensures
        r == (state == PlayState::Playing && !downloader_waiting),
{
    state == PlayState::Playing && !downloader_waiting
}

/// The sum of two times, or the largest time where it would be larger.
pub open spec fn time_sum(a: u64, b: u64) -> u64 {
    if a + b > u64::MAX {
        u64::MAX
    } else {
        (a + b) as u64
    }
}

impl TrackView {
    /// Whether the track has played to within [`END_GRACE`] of its end.
    pub open spec fn at_end(self) -> bool {
        self.total is Some && self.position + END_GRACE >= self.total->0
    }

    /// Where a rebuild picks up: where a seek was aimed while one is
    /// outstanding, and otherwise where the track got to.
    pub open spec fn pick_up(self) -> u64 {
        match self.seeking_to {
            Some(target) => target,
            None => self.position,
        }
    }

    /// Whether a drained output means that the track has ended. Never while a
    /// seek is outstanding; then by the stated length, and where there is none,
    /// by the download having nothing to complain of.
    pub open spec fn finished(self) -> bool {
        self.seeking_to is None && match self.total {
            Some(total) => self.position + END_GRACE >= total,
            None => self.link.fault is None,
        }
    }

    pub open spec fn ending(self) -> Ending {
        if self.finished() {
            Ending::Finished
        } else if self.rebuilds >= MAX_REBUILDS {
            Ending::GaveUp { at: self.pick_up(), total: self.total, fault: self.link.fault }
        } else {
            Ending::Stalled(self.pick_up())
        }
    }

    /// A seek to `target` is outstanding, unless it goes to the end, where
    /// there is nothing left to reach.
    pub open spec fn aimed(self, target: u64) -> TrackView {
        TrackView {
            seeking_to: if self.total is Some && target + END_GRACE >= self.total->0 {
                None
            } else {
                Some(target)
            },
            ..self
        }
    }

    /// The stream has played to `position`. A seek is believed once the stream
    /// has played on past it.
    pub open spec fn played(self, position: u64) -> TrackView {
        TrackView {
            position,
            seeking_to: if self.seeking_to is Some && position > self.seeking_to->0 {
                None
            } else {
                self.seeking_to
            },
            ..self
        }
    }

    /// The rebuilds come back once this stream has played for [`PROGRESS`].
    pub open spec fn progressed(self) -> TrackView {
        TrackView {
            rebuilds: if self.position >= self.offset + PROGRESS {
                0
            } else {
                self.rebuilds
            },
            ..self
        }
    }

    /// A fresh stream is to be wound forward to `from`.
    pub open spec fn moved_to(self, from: u64) -> TrackView {
        TrackView { offset: from, position: from, seeking_to: None, ..self }
    }

    /// A verified stream of this track. Spliced in where its bytes are the same
    /// bytes, and otherwise held until it is needed.
    pub open spec fn armed(self, url: Seq<char>, format: AudioFormat) -> TrackView {
        if same_stream(self.format, format) {
            match chunked::url_of(url) {
                Some(parsed) => TrackView { url, link: self.link.with_url(parsed), ..self },
                None => TrackView { link: self.link.refused(), ..self },
            }
        } else {
            TrackView { replacement: Some((url, format)), ..self }
        }
    }
}

impl Track {
    /// Takes a verified stream of this track, to answer the refusal to come.
    pub fn arm_replacement(&mut self, url: String, format: AudioFormat)
        ensures
            final(self)@ == old(self)@.armed(url@, format),
    {
        if same_representation(self.format, format) {
            if self.link.supply_url(url.as_str()) {
                self.url = url;
            }
        } else {
            self.replacement = Some((url, format));
        }
    }

    /// Returns the rebuilds once the current stream has played for
    /// [`PROGRESS`], counted from where this stream started.
    pub fn note_progress(&mut self)
        ensures
            final(self)@ == old(self)@.progressed(),
    {
        if self.position >= self.offset && self.position - self.offset >= PROGRESS {
            self.rebuilds = 0;
        }
    }

    /// Records a seek to `target` as outstanding, unless it goes to the end.
    pub fn aim_at(&mut self, target: u64)
        ensures
            final(self)@ == old(self)@.aimed(target),
    {
        self.seeking_to = match self.total {
            Some(total) => {
                if target >= total || total - target <= END_GRACE {
                    None
                } else {
                    Some(target)
                }
            },
            None => Some(target),
        };
    }

    /// Records where the stream has played to, and with it whether a seek has
    /// been reached.
    pub fn played_to(&mut self, position: u64)
        ensures
            final(self)@ == old(self)@.played(position),
    {
        self.position = position;
        if let Some(target) = self.seeking_to {
            if position > target {
                self.seeking_to = None;
            }
        }
    }

    /// Why the output ran dry while this track was playing.
    pub fn ending(&self) -> (r: Ending)
        ensures
            r == self@.ending(),
    {
        let from: u64 = match self.seeking_to {
            Some(target) => target,
            None => self.position,
        };
        let fault = self.link.fault();
        if self.seeking_to.is_none() {
            match self.total {
                Some(total) => {
                    if self.position >= total || total - self.position <= END_GRACE {
                        return Ending::Finished;
                    }
                },
                None => {
                    if fault.is_none() {
                        return Ending::Finished;
                    }
                },
            }
        }
        if self.rebuilds >= MAX_REBUILDS {
            Ending::GaveUp { at: from, total: self.total, fault }
        } else {
            Ending::Stalled(from)
        }
    }

    /// Puts the track at `from`, where a fresh stream will begin.
    fn move_to(&mut self, from: u64)
        ensures
            final(self)@ == old(self)@.moved_to(from),
    {
        self.offset = from;
        self.position = from;
        self.seeking_to = None;
    }
}

/// A seek that is outstanding is never a finished track, however near the end
/// it was aimed: the drain is the seek having failed.
pub proof fn outstanding_seek_is_no_ending(track: TrackView)
    requires
        track.seeking_to is Some,
    ensures
        !(track.ending() is Finished),
        track.ending() matches Ending::Stalled(from) ==> Some(from) == track.seeking_to,
        track.ending() matches Ending::GaveUp { at, .. } ==> Some(at) == track.seeking_to,
{
}

/// A track that played to its end is finished whatever the download recorded.
pub proof fn fault_at_the_end_is_finished(track: TrackView)
    requires
        track.seeking_to is None,
        track.at_end(),
    ensures
        track.ending() is Finished,
{
}

/// A stream of no stated length that was refused has not ended.
pub proof fn refused_livestream_is_no_ending(track: TrackView)
    requires
        track.total is None,
        track.link.fault is Some,
    ensures
        !(track.ending() is Finished),
{
}

/// A seek to the end is not held outstanding, so that the drain after it ends
/// the track.
pub proof fn seek_past_the_end_finishes(track: TrackView, target: u64)
    requires
        track.total is Some,
        track.at_end(),
        target + END_GRACE >= track.total->0,
    ensures
        track.aimed(target).seeking_to is None,
        track.aimed(target).ending() is Finished,
{
}

/// A seek is believed only once the stream has played on past it.
pub proof fn seek_is_believed_past_its_target(track: TrackView, target: u64, position: u64)
    requires
        track.seeking_to == Some(target),
    ensures
        track.played(position).seeking_to is None == (position > target),
{
}

/// `M:SS` for a time in nanoseconds.
pub open spec fn clock_of(d: u64) -> Seq<char> {
    let secs = (d / 1_000_000_000) as nat;
    text::decimal_of(secs / 60) + ":"@ + text::two_digits_of(secs % 60)
}

/// Names a position of a track as minutes and seconds.
pub fn clock(d: u64) -> (r: String)
    ensures
        r@ == clock_of(d),
{
    let secs: u64 = d / 1_000_000_000;
    let mut r = text::decimal(secs / 60);
    r.append(":");
    r.append(text::two_digits(secs % 60).as_str());
    r
}

/// Where playback stopped, and why when the reason was recorded.
pub open spec fn stopped_text(at: u64, total: Option<u64>, fault: Option<StreamFault>) -> Seq<
    char,
> {
    let place = "stream stopped at "@ + clock_of(at) + match total {
        Some(total) => " of "@ + clock_of(total),
        None => Seq::empty(),
    };
    match fault {
        Some(fault) => place + " ("@ + fault.text_of() + ")"@,
        None => place,
    }
}

/// Names where playback stopped, and why when the reason was recorded.
pub fn stopped_message(at: u64, total: Option<u64>, fault: Option<StreamFault>) -> (r: String)
    ensures
        r@ == stopped_text(at, total, fault),
{
    let mut r = String::new();
    r.append("stream stopped at ");
    r.append(clock(at).as_str());
    if let Some(total) = total {
        r.append(" of ");
        r.append(clock(total).as_str());
    }
    proof {
        assert(r@ =~= stopped_text(at, total, None));
    }
    if let Some(fault) = fault {
        r.append(" (");
        r.append(fault.to_text().as_str());
        r.append(")");
    }
    r
}

/// What is said of a stream that could not be opened again at `from`.
pub open spec fn reopen_failed_text(from: u64, why: Seq<char>) -> Seq<char> {
    "stream stopped at "@ + clock_of(from) + ": "@ + why
}

fn reopen_failed(from: u64, why: &str) -> (r: String)
    ensures
        r@ == reopen_failed_text(from, why@),
{
    let mut r = String::new();
    r.append("stream stopped at ");
    r.append(clock(from).as_str());
    r.append(": ");
    r.append(why);
    proof {
        assert(r@ =~= reopen_failed_text(from, why@));
    }
    r
}

/// Whether a command replaces what is playing.
pub open spec fn supersedes(cmd: Command) -> bool {
    cmd is Load || cmd is Play || cmd is Stop || cmd is Shutdown
}

/// Queues the commands that arrived while a stream was being opened, and
/// reports whether any of them makes that stream not worth starting. The
/// others are kept for the track once it starts.
pub fn drain(arrived: Vec<Command>, queued: &mut VecDeque<Command>) -> (r: bool)
    ensures
        final(queued)@ == old(queued)@ + arrived@,
        r == exists|i: int| 0 <= i < arrived@.len() && supersedes(#[trigger] arrived@[i]),
{
    let ghost all = arrived@;
    let mut superseded = false;
    for cmd in it: arrived
        invariant
            it.seq() == all,
            queued@ == old(queued)@ + all.take(it.index()),
            superseded == exists|i: int| 0 <= i < it.index() && supersedes(#[trigger] all[i]),
    {
        let ends = matches!(
            cmd,
            Command::Load { .. } | Command::Play { .. } | Command::Stop | Command::Shutdown
        );
        proof {
            assert(all.take(it.index() + 1) =~= all.take(it.index()).push(all[it.index()]));
            if ends {
                assert(supersedes(all[it.index()]));
            }
        }
        superseded = superseded || ends;
        queued.push_back(cmd);
    }
    proof {
        assert(all.take(all.len() as int) =~= all);
    }
    superseded
}

/// What has to be done outside after a command.
#[derive(Debug, Clone)]
pub enum Step {
    /// Nothing. Look at the output next.
    Settle,
    /// Nothing, and the output is not looked at before the next command.
    Skip,
    /// Stop the output.
    Halt,
    /// Tell the running download that no URL is coming, and stop the output.
    Abandon,
    /// Open this URL from its beginning for a new track, and report the outcome
    /// to [`Engine::opened`].
    Open { url: String, format: AudioFormat, id: String },
    /// Open this URL and wind it forward to `from`, and report the outcome to
    /// [`Engine::resumed`].
    Resume { url: String, from: u64 },
    /// Open this URL and wind it forward to `from`, and report the outcome to
    /// [`Engine::rebuilt`].
    Rebuild { url: String, from: u64 },
    /// Move the output forward to `within`, counted from where its source
    /// begins. Where it cannot be moved, ask [`Engine::seek_refused`] with the
    /// same `target`.
    Forward { within: u64, target: u64 },
    Pause,
    Unpause,
    /// Set the volume, in percent.
    Volume(u16),
    /// Leave the loop.
    Quit,
}

/// What is to be done about the URL of a running download.
#[derive(Debug, Clone)]
pub enum UrlStep {
    Nothing,
    /// Open this URL from its beginning while the old source plays on. Where
    /// that works, tell the old download that no URL is coming and report to
    /// [`Engine::replaced`].
    Replace { url: String, format: AudioFormat },
    /// Ask for a fresh URL, and report to [`Engine::asked`] whether anyone was
    /// there to be asked.
    Ask { id: String, from: u64 },
}

/// What is to be done after the output has been looked at.
#[derive(Debug, Clone)]
pub enum EndStep {
    Nothing,
    /// Ask for a fresh URL to carry on from `from`. Where nobody is there to be
    /// asked, report to [`Engine::unanswered`].
    Ask { id: String, from: u64 },
}

/// A stream that has been opened: its length, where the container states one,
/// and the link to its download.
#[derive(Debug, Clone)]
pub struct Opened {
    pub total: Option<u64>,
    pub link: StreamLink,
}

/// The state of the player.
#[derive(Debug, Clone)]
pub struct Engine {
    pub state: PlayState,
    pub track: Option<Track>,
    /// Whether a fresh URL has been asked for and the download still waits.
    pub asked_for_url: bool,
    pub snapshot: Snapshot,
}

/// What an [`Engine`] holds.
pub struct EngineView {
    pub state: PlayState,
    pub track: Option<TrackView>,
    pub asked_for_url: bool,
    pub snapshot: SnapshotView,
}

impl View for Engine {
    type V = EngineView;

    open spec fn view(&self) -> EngineView {
        EngineView {
            state: self.state,
            track: match self.track {
                Some(track) => Some(track@),
                None => None,
            },
            asked_for_url: self.asked_for_url,
            snapshot: self.snapshot@,
        }
    }
}

impl EngineView {
    /// A player that has just been started.
    pub open spec fn fresh() -> EngineView {
        EngineView {
            state: PlayState::Idle,
            track: None,
            asked_for_url: false,
            snapshot: SnapshotView {
                state: PlayState::Idle,
                title: Seq::empty(),
                position: 0,
                volume: 100,
                error: None,
            },
        }
    }

    /// Shows `state`, and is in it.
    pub open spec fn in_state(self, state: PlayState) -> EngineView {
        EngineView { state, snapshot: SnapshotView { state, ..self.snapshot }, ..self }
    }

    /// Plays nothing any more, and says why.
    pub open spec fn failed(self, why: Seq<char>) -> EngineView {
        EngineView {
            state: PlayState::Idle,
            track: None,
            snapshot: SnapshotView {
                state: PlayState::Idle,
                error: Some(why),
                ..self.snapshot
            },
            ..self
        }
    }

    /// Shows a track of this title that is being loaded.
    pub open spec fn announced(self, title: Seq<char>) -> EngineView {
        EngineView {
            snapshot: SnapshotView {
                state: PlayState::Buffering,
                title,
                position: 0,
                error: None,
                ..self.snapshot
            },
            ..self
        }
    }

    /// Shows that the track is being buffered at `from`.
    pub open spec fn rewinding(self, from: u64) -> EngineView {
        EngineView {
            track: Some(self.track->0.moved_to(from)),
            snapshot: SnapshotView {
                state: PlayState::Buffering,
                position: from,
                ..self.snapshot
            },
            ..self
        }
    }

    /// Whether the download of the current track waits for a URL.
    pub open spec fn waiting(self) -> bool {
        self.track is Some && self.track->0.link.wanted is Some
    }

    /// Whether a resume is dropped, because there is no track to resume or
    /// because the track plays again.
    pub open spec fn resume_dropped(self) -> bool {
        self.track is None || (self.state == PlayState::Playing && !self.waiting())
    }

    /// Whether a resumed URL can be handed straight to the waiting download.
    pub open spec fn resume_spliced(self, url: Seq<char>, format: AudioFormat) -> bool {
        self.waiting() && same_stream(self.track->0.format, format) && chunked::url_of(
            url,
        ) is Some
    }

    /// The state after a resume.
    pub open spec fn after_resume(self, url: Seq<char>, format: AudioFormat) -> EngineView {
        let cur = self.track->0;
        if self.resume_dropped() {
            self
        } else if self.resume_spliced(url, format) {
            EngineView {
                track: Some(
                    TrackView {
                        url,
                        link: cur.link.with_url(chunked::url_of(url)->0),
                        ..cur
                    },
                ),
                ..self
            }
        } else {
            EngineView {
                track: Some(
                    TrackView { url, link: cur.link.refused(), format, replacement: None, ..cur },
                ),
                ..self
            }
        }
    }

    /// Whether a seek can be tried on the running source: only forwards, and
    /// only to where the source reaches.
    pub open spec fn seeks_in_place(self, target: u64) -> bool {
        target >= self.track->0.offset && target >= self.track->0.position
    }

    /// The state after the output has been looked at, before anything is done
    /// about the URL.
    pub open spec fn looked(self, drained: bool, clock: u64) -> EngineView {
        match self.track {
            Some(cur) => {
                let moved = if drained {
                    cur
                } else {
                    cur.played(time_sum(cur.offset, clock))
                };
                let now = moved.progressed();
                EngineView {
                    track: Some(now),
                    snapshot: SnapshotView { position: now.position, ..self.snapshot },
                    ..self
                }
            },
            None => self,
        }
    }

    /// The state once a question that has been answered or dropped is forgotten.
    pub open spec fn question_settled(self) -> EngineView {
        if self.waiting() {
            self
        } else {
            EngineView { asked_for_url: false, ..self }
        }
    }
}

impl Engine {
    /// A player that plays nothing, at full volume.
    pub fn new() -> (r: Self)
        ensures
            r@ == EngineView::fresh(),
    {
        Engine {
            state: PlayState::Idle,
            track: None,
            asked_for_url: false,
            snapshot: Snapshot {
                state: PlayState::Idle,
                title: String::new(),
                position: 0,
                volume: 100,
                error: None,
            },
        }
    }

    fn set_state(&mut self, state: PlayState)
        ensures
            final(self)@ == old(self)@.in_state(state),
    {
        self.state = state;
        self.snapshot.state = state;
    }

    /// Gives up on whatever was playing, and says why.
    pub fn fail(&mut self, why: String)
        ensures
            final(self)@ == old(self)@.failed(why@),
    {
        self.track = None;
        self.state = PlayState::Idle;
        self.snapshot.state = PlayState::Idle;
        self.snapshot.error = Some(why);
    }

    fn announce(&mut self, title: String)
        ensures
            final(self)@ == old(self)@.announced(title@),
    {
        self.snapshot.state = PlayState::Buffering;
        self.snapshot.title = title;
        self.snapshot.position = 0;
        self.snapshot.error = None;
    }

    /// Takes a command. `paused` is whether the output is paused.
    pub fn command(&mut self, cmd: Command, paused: bool) -> (r: Step)
        ensures
            match cmd {
                Command::Load { title } => r is Halt && final(self)@ == (EngineView {
                    state: PlayState::Buffering,
                    track: None,
                    ..old(self)@.announced(title@)
                }),
                Command::Play { url, format, title, id } => r == (Step::Open { url, format, id })
                    && final(self)@ == old(self)@.announced(title@),
                Command::Resume { url, format, from } => {
                    &&& final(self)@ == old(self)@.after_resume(url@, format)
                    &&& if old(self)@.resume_dropped() || old(self)@.resume_spliced(url@, format) {
                        r is Skip
                    } else {
                        r matches Step::Resume { url: u, from: f } && u@ == url@ && f == from
                    }
                },
                Command::ArmReplacement { id, url, format } => {
                    if old(self)@.track is Some && old(self)@.track->0.id == id@ {
                        r is Settle && final(self)@ == (EngineView {
                            track: Some(old(self)@.track->0.armed(url@, format)),
                            ..old(self)@
                        })
                    } else {
                        r is Skip && final(self)@ == old(self)@
                    }
                },
                Command::ResumeFailed { why } => r is Abandon && final(self)@ == old(self)@.failed(why@),
                Command::TogglePause => if paused {
                    r is Unpause && final(self)@ == old(self)@.in_state(PlayState::Playing)
                } else {
                    r is Pause && final(self)@ == old(self)@.in_state(PlayState::Paused)
                },
                Command::Stop => r is Halt && final(self)@ == (EngineView {
                    state: PlayState::Idle,
                    track: None,
                    snapshot: SnapshotView {
                        state: PlayState::Idle,
                        position: 0,
                        title: Seq::empty(),
                        ..old(self)@.snapshot
                    },
                    ..old(self)@
                }),
                Command::Seek(target) => match old(self)@.track {
                    None => r is Settle && final(self)@ == old(self)@,
                    Some(cur) => if old(self)@.seeks_in_place(target) {
                        r == (Step::Forward { within: (target - cur.offset) as u64, target })
                            && final(self)@ == (EngineView {
                            track: Some(cur.aimed(target)),
                            ..old(self)@
                        })
                    } else {
                        &&& r matches Step::Rebuild { url, from }
                        &&& url@ == cur.url
                        &&& from == target
                        &&& final(self)@ == old(self)@.rewinding(target)
                    },
                },
                Command::SetVolume(v) => {
                    let volume = if v > MAX_VOLUME {
                        MAX_VOLUME
                    } else {
                        v
                    };
                    r == Step::Volume(volume) && final(self)@ == (EngineView {
                        snapshot: SnapshotView { volume, ..old(self)@.snapshot },
                        ..old(self)@
                    })
                },
                Command::Shutdown => r is Quit && final(self)@ == old(self)@,
            },
    {
        match cmd {
            Command::Load { title } => {
                self.track = None;
                self.state = PlayState::Buffering;
                self.announce(title);
                Step::Halt
            },
            Command::Play { url, format, title, id } => {
                self.announce(title);
                Step::Open { url, format, id }
            },
            Command::Resume { url, format, from } => self.resume(url, format, from),
            Command::ArmReplacement { id, url, format } => {
                match self.track.take() {
                    Some(mut cur) => {
                        let mine = cur.id == id;
                        if mine {
                            cur.arm_replacement(url, format);
                        }
                        self.track = Some(cur);
                        if mine {
                            Step::Settle
                        } else {
                            Step::Skip
                        }
                    },
                    None => Step::Skip,
                }
            },
            Command::ResumeFailed { why } => {
                self.fail(why);
                Step::Abandon
            },
            Command::TogglePause => {
                if paused {
                    self.set_state(PlayState::Playing);
                    Step::Unpause
                } else {
                    self.set_state(PlayState::Paused);
                    Step::Pause
                }
            },
            Command::Stop => {
                self.track = None;
                self.state = PlayState::Idle;
                self.snapshot.state = PlayState::Idle;
                self.snapshot.position = 0;
                self.snapshot.title = String::new();
                Step::Halt
            },
            Command::Seek(target) => self.seek(target),
            Command::SetVolume(v) => {
                let volume: u16 = if v > MAX_VOLUME {
                    MAX_VOLUME
                } else {
                    v
                };
                self.snapshot.volume = volume;
                Step::Volume(volume)
            },
            Command::Shutdown => Step::Quit,
        }
    }

    fn resume(&mut self, url: String, format: AudioFormat, from: u64) -> (r: Step)
        ensures
            final(self)@ == old(self)@.after_resume(url@, format),
            if old(self)@.resume_dropped() || old(self)@.resume_spliced(url@, format) {
                r is Skip
            } else {
                r matches Step::Resume { url: u, from: f } && u@ == url@ && f == from
            },
    {
        match self.track.take() {
            None => Step::Skip,
            Some(mut cur) => {
                let waiting = cur.link.wants_url().is_some();
                if resume_is_stale(self.state, waiting) {
                    self.track = Some(cur);
                    return Step::Skip;
                }
                cur.url = url;
                if same_representation(cur.format, format) && waiting && cur.link.supply_url(
                    cur.url.as_str(),
                ) {
                    self.track = Some(cur);
                    return Step::Skip;
                }
                cur.link.decline();
                cur.format = format;
                cur.replacement = None;
                let again = cur.url.clone();
                self.track = Some(cur);
                Step::Resume { url: again, from }
            },
        }
    }

    fn seek(&mut self, target: u64) -> (r: Step)
        ensures
            match old(self)@.track {
                None => r is Settle && final(self)@ == old(self)@,
                Some(cur) => if old(self)@.seeks_in_place(target) {
                    r == (Step::Forward { within: (target - cur.offset) as u64, target }) && final(self)@ == (EngineView { track: Some(cur.aimed(target)), ..old(self)@ })
                } else {
                    &&& r matches Step::Rebuild { url, from }
                    &&& url@ == cur.url
                    &&& from == target
                    &&& final(self)@ == old(self)@.rewinding(target)
                },
            },
    {
        match self.track.take() {
            None => Step::Settle,
            Some(mut cur) => {
                let offset: u64 = cur.offset;
                let backwards = target < cur.position;
                cur.aim_at(target);
                self.track = Some(cur);
                if target >= offset && !backwards {
                    Step::Forward { within: target - offset, target }
                } else {
                    self.rewind(target)
                }
            },
        }
    }

    /// Buffers the current track again at `from`.
    fn rewind(&mut self, from: u64) -> (r: Step)
        requires
            old(self)@.track is Some,
        ensures
            final(self)@ == old(self)@.rewinding(from),
            r matches Step::Rebuild { url, from: f } && url@ == old(self)@.track->0.url && f == from,
    {
        let mut cur = self.track.take().unwrap();
        cur.move_to(from);
        let url = cur.url.clone();
        self.track = Some(cur);
        self.snapshot.state = PlayState::Buffering;
        self.snapshot.position = from;
        Step::Rebuild { url, from }
    }

    /// The output could not be moved to `target`: only a fresh stream can.
    pub fn seek_refused(&mut self, target: u64) -> (r: Step)
        ensures
            match old(self)@.track {
                None => r is Settle && final(self)@ == old(self)@,
                Some(cur) => {
                    &&& r matches Step::Rebuild { url, from }
                    &&& url@ == cur.url
                    &&& from == target
                    &&& final(self)@ == old(self)@.rewinding(target)
                },
            },
    {
        if self.track.is_some() {
            self.rewind(target)
        } else {
            Step::Settle
        }
    }

    /// A stream for a new track has been opened, or not. `superseded` is
    /// whether something else was chosen in the meantime: then the stream is
    /// dropped unheard. `Settle` means that the stream is to be played now.
    pub fn opened(
        &mut self,
        url: String,
        format: AudioFormat,
        id: String,
        outcome: Result<Opened, String>,
        superseded: bool,
    ) -> (r: Step)
        ensures
            match outcome {
                Err(why) => r is Halt && final(self)@ == old(self)@.failed(why@),
                Ok(stream) => if superseded {
                    r is Skip && final(self)@ == old(self)@
                } else {
                    r is Settle && final(self)@ == (EngineView {
                        track: Some(
                            TrackView {
                                url: url@,
                                format,
                                id: id@,
                                link: stream.link@,
                                total: stream.total,
                                offset: 0,
                                position: 0,
                                seeking_to: None,
                                rebuilds: 0,
                                replacement: None,
                            },
                        ),
                        ..old(self)@
                    }).in_state(PlayState::Playing)
                },
            },
    {
        match outcome {
            Err(why) => {
                self.fail(why);
                Step::Halt
            },
            Ok(stream) => {
                if superseded {
                    return Step::Skip;
                }
                self.track = Some(
                    Track {
                        url,
                        format,
                        id,
                        link: stream.link,
                        total: stream.total,
                        offset: 0,
                        position: 0,
                        seeking_to: None,
                        rebuilds: 0,
                        replacement: None,
                    },
                );
                self.set_state(PlayState::Playing);
                Step::Settle
            },
        }
    }

    /// A stream to carry the track on from `from` has been opened and started,
    /// or not. A fresh stream begins at `from`, reports its own faults and states
    /// its own length, which may be that of another representation.
    pub fn resumed(&mut self, outcome: Result<Opened, String>, from: u64) -> (r: Step)
        ensures
            match outcome {
                Err(why) => r is Halt && final(self)@ == old(self)@.failed(
                    reopen_failed_text(from, why@),
                ),
                Ok(stream) => r is Settle && final(self)@ == (EngineView {
                    track: match old(self)@.track {
                        Some(cur) => Some(
                            TrackView {
                                link: stream.link@,
                                offset: from,
                                total: if stream.total is Some {
                                    stream.total
                                } else {
                                    cur.total
                                },
                                ..cur
                            },
                        ),
                        None => None,
                    },
                    ..old(self)@
                }).in_state(PlayState::Playing),
            },
    {
        match outcome {
            Err(why) => {
                self.fail(reopen_failed(from, why.as_str()));
                Step::Halt
            },
            Ok(stream) => {
                if let Some(mut cur) = self.track.take() {
                    cur.link = stream.link;
                    cur.offset = from;
                    if stream.total.is_some() {
                        cur.total = stream.total;
                    }
                    self.track = Some(cur);
                }
                self.set_state(PlayState::Playing);
                Step::Settle
            },
        }
    }

    /// The stream of the current track has been opened again at `from` and
    /// started, or not. It is the same stream, so its length stands; the faults
    /// of the old download are forgotten with it.
    pub fn rebuilt(&mut self, outcome: Result<Opened, String>, from: u64) -> (r: Step)
        ensures
            match outcome {
                Err(why) => r is Halt && final(self)@ == old(self)@.failed(
                    reopen_failed_text(from, why@),
                ),
                Ok(stream) => r is Settle && final(self)@ == (EngineView {
                    track: match old(self)@.track {
                        Some(cur) => Some(TrackView { link: stream.link@, ..cur }),
                        None => None,
                    },
                    ..old(self)@
                }).in_state(PlayState::Playing),
            },
    {
        match outcome {
            Err(why) => {
                self.fail(reopen_failed(from, why.as_str()));
                Step::Halt
            },
            Ok(stream) => {
                if let Some(mut cur) = self.track.take() {
                    cur.link = stream.link;
                    self.track = Some(cur);
                }
                self.set_state(PlayState::Playing);
                Step::Settle
            },
        }
    }

    /// Looks at the output: whether it has run dry, and how far its source has
    /// played. Says what is to be done about the URL of a download that was
    /// refused: a stream that is held for it replaces it, and otherwise a fresh
    /// URL is asked for, once.
    pub fn settle(&mut self, drained: bool, clock: u64) -> (r: UrlStep)
        ensures
            ({
                let now = old(self)@.looked(drained, clock);
                if now.waiting() && now.track->0.replacement is Some {
                    &&& r matches UrlStep::Replace { url, format }
                    &&& Some((url@, format)) == now.track->0.replacement
                    &&& final(self)@ == (EngineView {
                        track: Some(TrackView { replacement: None, ..now.track->0 }),
                        ..now
                    })
                } else if now.waiting() && !now.asked_for_url {
                    &&& r matches UrlStep::Ask { id, from }
                    &&& id@ == now.track->0.id
                    &&& from == now.track->0.position
                    &&& final(self)@ == now
                } else {
                    r is Nothing && final(self)@ == now
                }
            }),
    {
        match self.track.take() {
            None => UrlStep::Nothing,
            Some(mut cur) => {
                if !drained {
                    let at: u64 = cur.offset.saturating_add(clock);
                    cur.played_to(at);
                }
                cur.note_progress();
                self.snapshot.position = cur.position;
                let mut step = UrlStep::Nothing;
                if cur.link.wants_url().is_some() {
                    match cur.replacement.take() {
                        Some((url, format)) => {
                            step = UrlStep::Replace { url, format };
                        },
                        None => {
                            if !self.asked_for_url {
                                step = UrlStep::Ask { id: cur.id.clone(), from: cur.position };
                            }
                        },
                    }
                }
                self.track = Some(cur);
                step
            },
        }
    }

    /// A stream of another representation has been opened while the old source
    /// played on to `clock`. The track goes on there. Says where that is; the
    /// stream is to be wound forward to it, and paused again if it was paused.
    pub fn replaced(
        &mut self,
        url: String,
        format: AudioFormat,
        stream: Opened,
        clock: u64,
    ) -> (r: Option<u64>)
        ensures
            ({
                let restored = if old(self)@.state == PlayState::Paused {
                    PlayState::Paused
                } else {
                    PlayState::Playing
                };
                match old(self)@.track {
                    None => r is None && final(self)@ == old(self)@.in_state(restored),
                    Some(cur) => {
                        let from = time_sum(cur.offset, clock);
                        r == Some(from) && final(self)@ == (EngineView {
                            track: Some(
                                TrackView {
                                    url: url@,
                                    format,
                                    link: stream.link@,
                                    total: if stream.total is Some {
                                        stream.total
                                    } else {
                                        cur.total
                                    },
                                    ..cur.moved_to(from)
                                },
                            ),
                            ..old(self)@
                        }).in_state(restored)
                    },
                }
            }),
    {
        let restored = if self.state == PlayState::Paused {
            PlayState::Paused
        } else {
            PlayState::Playing
        };
        let mut at: Option<u64> = None;
        if let Some(mut cur) = self.track.take() {
            let from: u64 = cur.offset.saturating_add(clock);
            cur.url = url;
            cur.format = format;
            cur.link = stream.link;
            if stream.total.is_some() {
                cur.total = stream.total;
            }
            cur.move_to(from);
            self.track = Some(cur);
            at = Some(from);
        }
        self.set_state(restored);
        at
    }

    /// A fresh URL has been asked for. Where nobody was there to be asked, the
    /// download need not wait for an answer.
    pub fn asked(&mut self, sent: bool)
        ensures
            final(self)@ == (EngineView {
                asked_for_url: sent,
                track: match old(self)@.track {
                    Some(cur) => if sent {
                        Some(cur)
                    } else {
                        Some(TrackView { link: cur.link.refused(), ..cur })
                    },
                    None => None,
                },
                ..old(self)@
            }),
    {
        self.asked_for_url = sent;
        if !sent {
            if let Some(mut cur) = self.track.take() {
                cur.link.decline();
                self.track = Some(cur);
            }
        }
    }

    /// Closes a look at the output. Where it ran dry while a track was playing,
    /// the track has ended, or it is carried on against a fresh URL, or it is
    /// given up on.
    pub fn conclude(&mut self, drained: bool) -> (r: EndStep)
        ensures
            ({
                let now = old(self)@.question_settled();
                if !drained || now.state != PlayState::Playing {
                    r is Nothing && final(self)@ == now
                } else {
                    match now.track {
                        None => r is Nothing && final(self)@ == now.in_state(PlayState::Idle),
                        Some(cur) => match cur.ending() {
                            Ending::Finished => r is Nothing && final(self)@ == (EngineView {
                                track: None,
                                ..now
                            }).in_state(PlayState::Idle),
                            Ending::Stalled(at) => {
                                &&& r matches EndStep::Ask { id, from }
                                &&& id@ == cur.id
                                &&& from == at
                                &&& final(self)@ == (EngineView {
                                    state: PlayState::Buffering,
                                    track: Some(
                                        TrackView {
                                            rebuilds: (cur.rebuilds + 1) as u8,
                                            ..cur.moved_to(at)
                                        },
                                    ),
                                    snapshot: SnapshotView {
                                        state: PlayState::Buffering,
                                        position: at,
                                        ..now.snapshot
                                    },
                                    ..now
                                })
                            },
                            Ending::GaveUp { at, total, fault } => r is Nothing && final(self)@
                                == now.failed(stopped_text(at, total, fault)),
                        },
                    }
                }
            }),
    {
        let waiting = match &self.track {
            Some(cur) => cur.link.wants_url().is_some(),
            None => false,
        };
        if !waiting {
            self.asked_for_url = false;
        }
        if !drained || self.state != PlayState::Playing {
            return EndStep::Nothing;
        }
        match self.track.take() {
            None => {
                self.set_state(PlayState::Idle);
                EndStep::Nothing
            },
            Some(mut cur) => match cur.ending() {
                Ending::Finished => {
                    self.set_state(PlayState::Idle);
                    EndStep::Nothing
                },
                Ending::Stalled(from) => {
                    cur.rebuilds = cur.rebuilds + 1;
                    cur.move_to(from);
                    let id = cur.id.clone();
                    self.track = Some(cur);
                    self.state = PlayState::Buffering;
                    self.snapshot.state = PlayState::Buffering;
                    self.snapshot.position = from;
                    EndStep::Ask { id, from }
                },
                Ending::GaveUp { at, total, fault } => {
                    self.fail(stopped_message(at, total, fault));
                    EndStep::Nothing
                },
            },
        }
    }

    /// Nobody was there to be asked for a fresh URL, so none is coming.
    pub fn unanswered(&mut self, from: u64)
        ensures
            final(self)@ == old(self)@.failed("stream stopped at "@ + clock_of(from)),
    {
        let mut why = String::new();
        why.append("stream stopped at ");
        why.append(clock(from).as_str());
        proof {
            assert(why@ =~= "stream stopped at "@ + clock_of(from));
        }
        self.fail(why);
    }
}

/// A track whose stream has died `n` times in a row, each time before it played
/// anything.
pub open spec fn stalled(track: TrackView, n: nat) -> TrackView
    decreases n,
{
    if n == 0 {
        track
    } else {
        let before = stalled(track, (n - 1) as nat).progressed();
        TrackView { rebuilds: (before.rebuilds + 1) as u8, ..before.moved_to(before.pick_up()) }
    }
}

proof fn lemma_stalled(track: TrackView, n: nat)
    requires
        n <= MAX_REBUILDS,
        track.rebuilds == 0,
        track.position < track.offset + PROGRESS,
    ensures
        ({
            let after = stalled(track, n);
            &&& after.rebuilds == n
            &&& after.pick_up() == track.pick_up()
            &&& after.position < after.offset + PROGRESS
            &&& after.total == track.total
            &&& after.link == track.link
            &&& n > 0 ==> after.seeking_to is None && after.position == track.pick_up()
        }),
    decreases n,
{
    if n > 0 {
        lemma_stalled(track, (n - 1) as nat);
    }
}

/// A stream that dies without playing anything is rebuilt [`MAX_REBUILDS`] times,
/// always at the same place, and then given up on.
pub proof fn rebuilds_run_out(track: TrackView, n: nat)
    requires
        n <= MAX_REBUILDS,
        track.rebuilds == 0,
        track.position < track.offset + PROGRESS,
        match track.total {
            Some(total) => track.pick_up() + END_GRACE < total,
            None => track.link.fault is Some,
        },
    ensures
        stalled(track, n).ending() == if n < MAX_REBUILDS {
            Ending::Stalled(track.pick_up())
        } else {
            Ending::GaveUp { at: track.pick_up(), total: track.total, fault: track.link.fault }
        },
{
    lemma_stalled(track, n);
}

/// Going on at another place is no progress: the rebuilds come back only once the
/// fresh stream has itself played for [`PROGRESS`].
pub proof fn rebuilding_is_no_progress(track: TrackView, from: u64, position: u64)
    ensures
        track.moved_to(from).progressed().rebuilds == track.rebuilds,
        track.moved_to(from).played(position).progressed().rebuilds == if position >= from
            + PROGRESS {
            0
        } else {
            track.rebuilds
        },
{
}

/// A resume that comes after the download has recovered, or after the track was
/// stopped, changes nothing.
pub proof fn late_resumes_are_ignored(engine: EngineView, url: Seq<char>, format: AudioFormat)
    requires
        engine.track is None || (engine.state == PlayState::Playing && !engine.waiting()),
    ensures
        engine.resume_dropped(),
        engine.after_resume(url, format) == engine,
{
}

/// A stream whose bytes are not known to be the same is never spliced into a
/// download that is under way.
pub proof fn other_bytes_are_not_spliced(track: TrackView, url: Seq<char>, format: AudioFormat)
    requires
        track.format.itag is None || format.itag is None || track.format != format,
    ensures
        track.armed(url, format).url == track.url,
        track.armed(url, format).link == track.link,
        track.armed(url, format).replacement == Some((url, format)),
{
}

/// While the output plays, the position that is shown is where the stream began
/// plus how far it has played; once it has run dry the position stays.
pub proof fn position_follows_the_output(engine: EngineView, clock: u64)
    requires
        engine.track is Some,
        engine.track->0.offset + clock <= u64::MAX,
    ensures
        ({
            let playing = engine.looked(false, clock);
            let dry = engine.looked(true, clock);
            &&& playing.track is Some
            &&& playing.track->0.position == engine.track->0.offset + clock
            &&& playing.snapshot.position == engine.track->0.offset + clock
            &&& dry.track is Some
            &&& dry.track->0.position == engine.track->0.position
            &&& dry.snapshot.position == engine.track->0.position
            &&& playing.track->0.url == engine.track->0.url
            &&& playing.state == engine.state
            &&& playing.snapshot.title == engine.snapshot.title
            &&& playing.snapshot.volume == engine.snapshot.volume
        }),
{
}

/// A track that is being loaded is shown at once: its title, at its start, with no
/// error left of the one before. The volume stays.
pub proof fn loading_track_is_shown(engine: EngineView, title: Seq<char>)
    ensures
        ({
            let shown = engine.announced(title).snapshot;
            &&& shown.title == title
            &&& shown.state == PlayState::Buffering
            &&& shown.position == 0
            &&& shown.error is None
            &&& shown.volume == engine.snapshot.volume
        }),
{
}

/// A failure stops playback and is shown, word for word. The volume stays.
pub proof fn failure_is_shown(engine: EngineView, why: Seq<char>)
    ensures
        ({
            let after = engine.failed(why);
            &&& after.track is None
            &&& after.state == PlayState::Idle
            &&& after.snapshot.state == PlayState::Idle
            &&& after.snapshot.error == Some(why)
            &&& after.snapshot.volume == engine.snapshot.volume
        }),
{
}

/// The state that is shown is the state that the player is in.
pub proof fn state_is_shown(engine: EngineView, state: PlayState)
    ensures
        engine.in_state(state).state == state,
        engine.in_state(state).snapshot.state == state,
        engine.in_state(state).track == engine.track,
        engine.in_state(state).snapshot.position == engine.snapshot.position,
{
}

/// Going back to a place of the track begins the stream anew there: the position
/// is that place at once, and the track is the same one.
pub proof fn rewinding_begins_at_the_place(engine: EngineView, from: u64)
    requires
        engine.track is Some,
    ensures
        ({
            let after = engine.rewinding(from);
            &&& after.track is Some
            &&& after.track->0.offset == from
            &&& after.track->0.position == from
            &&& after.track->0.seeking_to is None
            &&& after.track->0.url == engine.track->0.url
            &&& after.track->0.id == engine.track->0.id
            &&& after.track->0.total == engine.track->0.total
            &&& after.track->0.rebuilds == engine.track->0.rebuilds
            &&& after.snapshot.position == from
            &&& after.snapshot.state == PlayState::Buffering
        }),
{
}

/// A seek forwards is tried on the running stream, and one backwards never is.
pub proof fn only_forward_seeks_stay_in_the_stream(engine: EngineView, target: u64)
    requires
        engine.track is Some,
        engine.track->0.offset <= engine.track->0.position,
    ensures
        engine.seeks_in_place(target) <==> target >= engine.track->0.position,
{
}

/// A fresh URL of the same bytes goes straight to the download that waits for it,
/// and the download goes on where it was.
pub proof fn fresh_url_reaches_the_download(
    engine: EngineView,
    url: Seq<char>,
    format: AudioFormat,
)
    requires
        engine.track is Some,
        engine.track->0.link.wanted is Some,
        engine.track->0.format == format,
        format.itag is Some,
        chunked::url_of(url) is Some,
    ensures
        ({
            let after = engine.after_resume(url, format);
            let cur = engine.track->0;
            &&& engine.resume_spliced(url, format)
            &&& after.track is Some
            &&& after.track->0.url == url
            &&& after.track->0.link.supplied == chunked::url_of(url)
            &&& after.track->0.link.wanted == cur.link.wanted
            &&& !after.track->0.link.declined
            &&& after.track->0.position == cur.position
            &&& after.track->0.offset == cur.offset
            &&& after.state == engine.state
        }),
{
}

/// A fresh URL of other bytes is not handed to the download, which is told that
/// none is coming; the track carries the new URL and its representation.
pub proof fn other_bytes_start_another_stream(
    engine: EngineView,
    url: Seq<char>,
    format: AudioFormat,
)
    requires
        engine.track is Some,
        engine.state != PlayState::Playing || engine.track->0.link.wanted is Some,
        engine.track->0.format != format || format.itag is None,
    ensures
        ({
            let after = engine.after_resume(url, format);
            &&& !engine.resume_dropped()
            &&& !engine.resume_spliced(url, format)
            &&& after.track is Some
            &&& after.track->0.url == url
            &&& after.track->0.format == format
            &&& after.track->0.link.declined
            &&& after.track->0.link.supplied == engine.track->0.link.supplied
            &&& after.track->0.replacement is None
            &&& after.track->0.id == engine.track->0.id
        }),
{
}

/// A stream of the same bytes that is armed is ready for the refusal to come, and
/// one of other bytes is kept aside.
pub proof fn armed_stream_is_ready(track: TrackView, url: Seq<char>, format: AudioFormat)
    requires
        chunked::url_of(url) is Some,
    ensures
        track.format == format && format.itag is Some ==> track.armed(url, format).link.supplied
            == chunked::url_of(url) && track.armed(url, format).url == url,
        !(track.format == format && format.itag is Some) ==> track.armed(url, format).replacement
            == Some((url, format)),
{
}

/// A track is over only within three seconds of its end, and a stream that stops
/// sooner goes on from where it stopped, or from where a seek was aimed.
pub proof fn track_is_over_only_at_its_end(track: TrackView)
    requires
        track.total is Some,
        track.rebuilds < 3,
    ensures
        track.seeking_to is None && track.position + 3_000_000_000 >= track.total->0 <==> track.ending()
            is Finished,
        track.seeking_to is None && track.position + 3_000_000_000 < track.total->0
            ==> track.ending() == Ending::Stalled(track.position),
        track.seeking_to is Some ==> track.ending() == Ending::Stalled(track.seeking_to->0),
{
}

/// A question about a URL is over once the download no longer waits, and stands as
/// long as it does.
pub proof fn question_stands_while_the_download_waits(engine: EngineView)
    ensures
        engine.track is Some && engine.track->0.link.wanted is Some ==> engine.question_settled()
            == engine,
        engine.track is None || engine.track->0.link.wanted is None
            ==> !engine.question_settled().asked_for_url,
        engine.question_settled().track == engine.track,
        engine.question_settled().state == engine.state,
{
}

/// The player starts idle, with nothing playing, at full volume.
pub proof fn player_starts_idle()
    ensures
        EngineView::fresh().state == PlayState::Idle,
        EngineView::fresh().snapshot.state == PlayState::Idle,
        EngineView::fresh().track is None,
        EngineView::fresh().snapshot.volume == 100,
        EngineView::fresh().snapshot.error is None,
{
}

/// A time is named in minutes and seconds: the minutes in decimal, the seconds in
/// two digits below sixty.
pub proof fn times_are_named_in_minutes(minutes: u64, seconds: u64, rest: u64)
    requires
        seconds < 60,
        rest < 1_000_000_000,
        (minutes * 60 + seconds) * 1_000_000_000 + rest <= u64::MAX,
    ensures
        clock_of(((minutes * 60 + seconds) * 1_000_000_000 + rest) as u64) == text::decimal_of(
            minutes as nat,
        ) + ":"@ + text::two_digits_of(seconds as nat),
{
    let secs = minutes * 60 + seconds;
    let d = (secs * 1_000_000_000 + rest) as u64;
    assert(d / 1_000_000_000 == secs);
    assert((secs as nat) / 60 == minutes as nat);
    assert((secs as nat) % 60 == seconds as nat);
}

/// A track that was given up on is told with where it stopped, of how much where
/// that is known, and why where that was noted.
pub proof fn stopping_place_is_told(at: u64, total: u64, fault: StreamFault, why: Seq<char>)
    ensures
        stopped_text(at, None, None) == "stream stopped at "@ + clock_of(at),
        stopped_text(at, Some(total), None) == "stream stopped at "@ + clock_of(at) + (" of "@
            + clock_of(total)),
        stopped_text(at, Some(total), Some(fault)) == stopped_text(at, Some(total), None) + " ("@
            + fault.text_of() + ")"@,
        stopped_text(at, None, Some(fault)) == stopped_text(at, None, None) + " ("@
            + fault.text_of() + ")"@,
        reopen_failed_text(at, why) == stopped_text(at, None, None) + ": "@ + why,
{
    assert(stopped_text(at, None, None) =~= "stream stopped at "@ + clock_of(at));
}

/// What replaces the track makes a stream that is being opened for it useless: a
/// track that is loaded or played, a stop, and the end of the player. Nothing else
/// does.
pub proof fn only_replacements_supersede(cmd: Command)
    ensures
        supersedes(cmd) <==> cmd is Load || cmd is Play || cmd is Stop || cmd is Shutdown,
        cmd is Seek || cmd is SetVolume || cmd is TogglePause || cmd is Resume || cmd
            is ArmReplacement || cmd is ResumeFailed ==> !supersedes(cmd),
{
}

/// Two streams hold the same bytes only where both are known to be of one
/// representation.
pub proof fn same_bytes_are_known_to_be(current: AudioFormat, fresh: AudioFormat)
    ensures
        same_stream(current, fresh) <==> current.itag is Some && fresh.itag is Some
            && current.itag->0 == fresh.itag->0,
{
}

} // verus!
