//! The hunt for a stream that plays to its end.
//!
//! The player API is asked first, one player after the other. A URL that it
//! gives is probed near its end, and only one that serves its complete file is
//! taken. Then come the runs of yt-dlp, each with a slice of the budget, so that
//! one which stalls cannot starve the others. Each step says what to do next;
//! what came of it moves the hunt on.

use vstd::prelude::*;

use super::player_api;
use super::player_api::PlayerClient;
use super::url;
use super::url::Probe;
use super::yt_dlp;
use super::yt_dlp::Attempt;
use super::{ResolveError, ResolvedStream};
use crate::text;

verus! {

broadcast use vstd::string::group_string_axioms;

/// How long the runs of yt-dlp may take together, in nanoseconds.
pub const FALLBACK_BUDGET: u64 = 30_000_000_000;

/// How long one run may take.
pub const ATTEMPT_TIMEOUT: u64 = 10_000_000_000;

/// How long to wait before looking at a run again.
pub const PROCESS_POLL: u64 = 50_000_000;

/// Where a hunt is.
#[derive(Debug)]
pub enum Stage<S = String> {
    /// Player number `at` has been asked.
    Asking { at: usize },
    /// The stream of a player is being probed.
    Checking { found: ResolvedStream<S> },
    /// Run number `at` is under way. The runs began at `started`, and `first`
    /// is what the first of them that failed said.
    Running { at: usize, started: u64, first: Option<S> },
    /// The stream of a run is being probed.
    Probing { run: usize, since: u64, error: Option<S>, stream: ResolvedStream<S> },
    Over,
}

/// One hunt.
#[derive(Debug)]
pub struct Hunt<S = String> {
    pub video_id: S,
    /// Whether only the player API may be used.
    pub fast: bool,
    /// Whether there is a session.
    pub signed: bool,
    pub stage: Stage<S>,
}

/// What to do next.
#[derive(Debug)]
pub enum Step<S = String> {
    /// Ask the player API, with the session where the player carries it.
    Ask(PlayerClient),
    /// Probe a URL.
    Probe { url: S, probe: Probe },
    /// Run yt-dlp, for so long at most.
    Run { attempt: Attempt, timeout: u64 },
    /// A stream that plays to its end.
    Found(ResolvedStream<S>),
    Failed(ResolveError<S>),
    /// Nothing was found on the fast path, and that was all there was to try.
    GaveUp,
}

impl Stage {
    pub open spec fn view(&self) -> Stage<Seq<char>> {
        match self {
            Stage::Asking { at } => Stage::Asking { at: *at },
            Stage::Checking { found } => Stage::Checking { found: found@ },
            Stage::Running { at, started, first } => Stage::Running {
                at: *at,
                started: *started,
                first: text::opt_view(*first),
            },
            Stage::Probing { run, since, error, stream } => Stage::Probing {
                run: *run,
                since: *since,
                error: text::opt_view(*error),
                stream: stream@,
            },
            Stage::Over => Stage::Over,
        }
    }
}

impl Hunt {
    pub open spec fn view(&self) -> Hunt<Seq<char>> {
        Hunt {
            video_id: self.video_id@,
            fast: self.fast,
            signed: self.signed,
            stage: self.stage.view(),
        }
    }
}

impl Step {
    pub open spec fn view(&self) -> Step<Seq<char>> {
        match self {
            Step::Ask(client) => Step::Ask(*client),
            Step::Probe { url, probe } => Step::Probe { url: url@, probe: *probe },
            Step::Run { attempt, timeout } => Step::Run { attempt: *attempt, timeout: *timeout },
            Step::Found(stream) => Step::Found(stream@),
            Step::Failed(error) => Step::Failed(error.view()),
            Step::GaveUp => Step::GaveUp,
        }
    }
}

/// How long the runs have taken.
pub open spec fn elapsed_of(started: u64, now: u64) -> u64 {
    if now < started {
        0
    } else {
        (now - started) as u64
    }
}

/// How long the next run may take.
pub open spec fn slice_of(elapsed: u64) -> u64 {
    if elapsed >= FALLBACK_BUDGET {
        0
    } else if FALLBACK_BUDGET - elapsed < ATTEMPT_TIMEOUT {
        (FALLBACK_BUDGET - elapsed) as u64
    } else {
        ATTEMPT_TIMEOUT
    }
}

/// The error of a hunt whose runs found nothing: that the budget is spent, or
/// what the first failure said, or, where no run failed, that every URL was cut
/// short.
pub open spec fn verdict(
    video_id: Seq<char>,
    started: u64,
    first: Option<Seq<char>>,
    now: u64,
) -> ResolveError<Seq<char>> {
    if elapsed_of(started, now) >= FALLBACK_BUDGET {
        ResolveError::said("stream resolution timed out after 30 seconds"@)
    } else {
        match first {
            Some(message) => if text::occurs(message, yt_dlp::RESTRICTED@) {
                ResolveError::said(super::restricted_of(video_id))
            } else {
                ResolveError::said(message)
            },
            None => ResolveError::cut_short(video_id),
        }
    }
}

impl Hunt<Seq<char>> {
    /// A hunt that has not begun.
    pub open spec fn fresh(video_id: Seq<char>, fast: bool, signed: bool) -> Hunt<Seq<char>> {
        Hunt { video_id, fast, signed, stage: Stage::Asking { at: 0 } }
    }

    /// The hunt at another stage.
    pub open spec fn to(self, stage: Stage<Seq<char>>) -> Hunt<Seq<char>> {
        Hunt { stage, ..self }
    }

    /// Goes on with player number `at`, or with the runs where there is none.
    pub open spec fn asks(self, at: int, now: u64) -> (Hunt<Seq<char>>, Step<Seq<char>>) {
        let order = player_api::order_of(self.signed);
        if at < order.len() {
            (self.to(Stage::Asking { at: at as usize }), Step::Ask(order[at]))
        } else {
            self.falls_back(now)
        }
    }

    /// Goes on with the runs, where those are allowed.
    pub open spec fn falls_back(self, now: u64) -> (Hunt<Seq<char>>, Step<Seq<char>>) {
        if self.fast {
            (self.to(Stage::Over), Step::GaveUp)
        } else {
            self.runs(0, now, None, now)
        }
    }

    /// Goes on with run number `at`, or ends where there is none or no time is
    /// left.
    pub open spec fn runs(
        self,
        at: int,
        started: u64,
        first: Option<Seq<char>>,
        now: u64,
    ) -> (Hunt<Seq<char>>, Step<Seq<char>>) {
        let attempts = yt_dlp::attempts_of(self.signed);
        let slice = slice_of(elapsed_of(started, now));
        if at < attempts.len() && slice > 0 {
            (
                self.to(Stage::Running { at: at as usize, started, first }),
                Step::Run { attempt: attempts[at], timeout: slice },
            )
        } else {
            (
                self.to(Stage::Over),
                Step::Failed(verdict(self.video_id, started, first, now)),
            )
        }
    }

    /// Takes what a player or a run came to.
    pub open spec fn hears(
        self,
        outcome: Result<ResolvedStream<Seq<char>>, Seq<char>>,
        now: u64,
    ) -> (Hunt<Seq<char>>, Step<Seq<char>>) {
        match (self.stage, outcome) {
            (Stage::Asking { .. }, Ok(found)) => (
                self.to(Stage::Checking { found }),
                Step::Probe { url: found.url, probe: url::probe_of(found.url) },
            ),
            (Stage::Asking { at }, Err(_)) => self.asks(at + 1, now),
            (Stage::Running { at, started, first }, Ok(stream)) => (
                self.to(Stage::Probing { run: at, since: started, error: first, stream }),
                Step::Probe { url: stream.url, probe: url::probe_of(stream.url) },
            ),
            (Stage::Running { at, started, first }, Err(why)) => self.runs(
                at + 1,
                started,
                match first {
                    Some(earlier) => Some(earlier),
                    None => Some(why),
                },
                now,
            ),
            _ => (self.to(Stage::Over), Step::GaveUp),
        }
    }

    /// Takes whether the probed URL serves its complete file.
    pub open spec fn learns(self, whole: bool, now: u64) -> (Hunt<Seq<char>>, Step<Seq<char>>) {
        match self.stage {
            Stage::Checking { found } => if whole {
                (self.to(Stage::Over), Step::Found(found))
            } else {
                self.falls_back(now)
            },
            Stage::Probing { run, since, error, stream } => if whole {
                (self.to(Stage::Over), Step::Found(stream))
            } else {
                self.runs(run + 1, since, error, now)
            },
            _ => (self.to(Stage::Over), Step::GaveUp),
        }
    }

    /// How many more things a hunt can do at most.
    pub open spec fn rank(self) -> int {
        match self.stage {
            Stage::Asking { at } => 11 + 2 * (player_api::order_of(self.signed).len() - at),
            Stage::Checking { .. } => 11,
            Stage::Running { at, .. } => 2 + 2 * (yt_dlp::attempts_of(self.signed).len() - at),
            Stage::Probing { run, .. } => 1 + 2 * (yt_dlp::attempts_of(self.signed).len() - run),
            Stage::Over => 0,
        }
    }

    /// Whether the number of what is under way is one of those there are.
    pub open spec fn wf(self) -> bool {
        match self.stage {
            Stage::Asking { at } => at < player_api::order_of(self.signed).len(),
            Stage::Running { at, .. } => at < yt_dlp::attempts_of(self.signed).len(),
            Stage::Probing { run, .. } => run < yt_dlp::attempts_of(self.signed).len(),
            _ => true,
        }
    }
}

impl Hunt {
    /// Begins a hunt, and returns its first step.
    pub fn begin(video_id: &str, fast: bool, signed: bool) -> (r: (Self, Step))
        ensures
            r.0.view() == Hunt::fresh(video_id@, fast, signed),
            r.1.view() == Step::<Seq<char>>::Ask(player_api::order_of(signed)[0]),
            r.0.view().wf(),
    {
        let hunt = Hunt {
            video_id: video_id.to_owned(),
            fast,
            signed,
            stage: Stage::Asking { at: 0 },
        };
        let client = if signed {
            PlayerClient::WebRemix
        } else {
            PlayerClient::Ios
        };
        (hunt, Step::Ask(client))
    }

    fn ask(&mut self, at: usize, now: u64) -> (r: Step)
        ensures
            (final(self).view(), r.view()) == old(self).view().asks(at as int, now),
            final(self).view().wf(),
    {
        match player_api::client(self.signed, at) {
            Some(client) => {
                self.stage = Stage::Asking { at };
                Step::Ask(client)
            },
            None => self.fall_back(now),
        }
    }

    fn fall_back(&mut self, now: u64) -> (r: Step)
        ensures
            (final(self).view(), r.view()) == old(self).view().falls_back(now),
            final(self).view().wf(),
    {
        if self.fast {
            self.stage = Stage::Over;
            Step::GaveUp
        } else {
            self.run(0, now, None, now)
        }
    }

    fn run(&mut self, at: usize, started: u64, first: Option<String>, now: u64) -> (r: Step)
        ensures
            (final(self).view(), r.view()) == old(self).view().runs(
                at as int,
                started,
                text::opt_view(first),
                now,
            ),
            final(self).view().wf(),
    {
        let elapsed: u64 = now.saturating_sub(started);
        let left: u64 = FALLBACK_BUDGET.saturating_sub(elapsed);
        let timeout: u64 = if left < ATTEMPT_TIMEOUT {
            left
        } else {
            ATTEMPT_TIMEOUT
        };
        if timeout > 0 {
            if let Some(attempt) = yt_dlp::attempt(self.signed, at) {
                self.stage = Stage::Running { at, started, first };
                return Step::Run { attempt, timeout };
            }
        }
        self.stage = Stage::Over;
        if elapsed >= FALLBACK_BUDGET {
            return Step::Failed(
                ResolveError::from_message(
                    "stream resolution timed out after 30 seconds".to_owned(),
                ),
            );
        }
        match first {
            Some(message) => {
                if text::str_contains(message.as_str(), yt_dlp::RESTRICTED) {
                    let help = super::restricted_mode(self.video_id.as_str());
                    Step::Failed(ResolveError::from_message(help))
                } else {
                    Step::Failed(ResolveError::from_message(message))
                }
            },
            None => Step::Failed(ResolveError::capped(self.video_id.as_str())),
        }
    }

    /// Takes what the player or the run that was under way came to, and says
    /// what to do next.
    pub fn heard(&mut self, outcome: Result<ResolvedStream, String>, now: u64) -> (r: Step)
        requires
            old(self).view().wf(),
        ensures
            (final(self).view(), r.view()) == old(self).view().hears(
                super::result_view(outcome),
                now,
            ),
            final(self).view().wf(),
    {
        let mut stage = Stage::Over;
        std::mem::swap(&mut self.stage, &mut stage);
        match stage {
            Stage::Asking { at } => match outcome {
                Ok(found) => {
                    let probe = url::probe(found.url.as_str());
                    let address = found.url.clone();
                    self.stage = Stage::Checking { found };
                    Step::Probe { url: address, probe }
                },
                Err(_) => self.ask(at + 1, now),
            },
            Stage::Running { at, started, first } => match outcome {
                Ok(stream) => {
                    let probe = url::probe(stream.url.as_str());
                    let address = stream.url.clone();
                    self.stage = Stage::Probing { run: at, since: started, error: first, stream };
                    Step::Probe { url: address, probe }
                },
                Err(why) => {
                    let kept = match first {
                        Some(earlier) => Some(earlier),
                        None => Some(why),
                    };
                    self.run(at + 1, started, kept, now)
                },
            },
            _ => Step::GaveUp,
        }
    }

    /// Takes whether the probed URL serves its complete file, and says what to
    /// do next.
    pub fn probed(&mut self, whole: bool, now: u64) -> (r: Step)
        requires
            old(self).view().wf(),
        ensures
            (final(self).view(), r.view()) == old(self).view().learns(whole, now),
            final(self).view().wf(),
            whole && old(self).view().stage is Checking ==> r.view() == Step::Found(
                old(self).view().stage->found,
            ),
            whole && old(self).view().stage is Probing ==> r.view() == Step::Found(
                old(self).view().stage->stream,
            ),
    {
        let mut stage = Stage::Over;
        std::mem::swap(&mut self.stage, &mut stage);
        match stage {
            Stage::Checking { found } => {
                if whole {
                    Step::Found(found)
                } else {
                    self.fall_back(now)
                }
            },
            Stage::Probing { run, since, error, stream } => {
                if whole {
                    Step::Found(stream)
                } else {
                    self.run(run + 1, since, error, now)
                }
            },
            _ => Step::GaveUp,
        }
    }
}

/// Whatever comes of a step, there is less left to do: every hunt ends.
pub proof fn every_hunt_ends(
    hunt: Hunt<Seq<char>>,
    outcome: Result<ResolvedStream<Seq<char>>, Seq<char>>,
    whole: bool,
    now: u64,
)
    requires
        hunt.wf(),
        !(hunt.stage is Over),
    ensures
        0 <= hunt.hears(outcome, now).0.rank() < hunt.rank(),
        0 <= hunt.learns(whole, now).0.rank() < hunt.rank(),
{
}

/// No stream is taken that was not probed to its end.
pub proof fn only_whole_files_are_taken(
    hunt: Hunt<Seq<char>>,
    outcome: Result<ResolvedStream<Seq<char>>, Seq<char>>,
    whole: bool,
    now: u64,
)
    ensures
        !(hunt.hears(outcome, now).1 is Found),
        hunt.learns(whole, now).1 is Found ==> whole,
        hunt.learns(whole, now).1 is Found ==> hunt.stage is Checking || hunt.stage is Probing,
{
}

/// The fast path never runs yt-dlp.
pub proof fn fast_hunts_run_nothing(
    hunt: Hunt<Seq<char>>,
    outcome: Result<ResolvedStream<Seq<char>>, Seq<char>>,
    whole: bool,
    now: u64,
)
    requires
        hunt.fast,
        hunt.stage is Asking || hunt.stage is Checking,
    ensures
        ({
            let (next, step) = hunt.hears(outcome, now);
            !(step is Run) && (next.stage is Asking || next.stage is Checking || next.stage is Over)
        }),
        ({
            let (next, step) = hunt.learns(whole, now);
            !(step is Run) && next.stage is Over
        }),
{
}

/// Each run has its own limit, and none may go on past the budget.
pub proof fn runs_stay_inside_the_budget(
    hunt: Hunt<Seq<char>>,
    at: int,
    started: u64,
    first: Option<Seq<char>>,
    now: u64,
)
    requires
        started <= now,
    ensures
        hunt.runs(at, started, first, now).1 matches Step::Run { timeout, .. } ==> 0 < timeout
            <= ATTEMPT_TIMEOUT && now + timeout <= started + FALLBACK_BUDGET,
{
}

/// Once the budget is spent nothing more is run, and the error says so.
pub proof fn spent_budget_ends_the_hunt(
    hunt: Hunt<Seq<char>>,
    at: int,
    started: u64,
    first: Option<Seq<char>>,
    now: u64,
)
    requires
        now >= started + FALLBACK_BUDGET,
    ensures
        hunt.runs(at, started, first, now) == (
            hunt.to(Stage::Over),
            Step::Failed(
                ResolveError::said("stream resolution timed out after 30 seconds"@),
            ),
        ),
{
}

/// A stream whose probe shows its complete file is what the hunt ends with: that
/// very stream, whether a player or a run gave it.
pub proof fn whole_stream_ends_the_hunt(
    hunt: Hunt<Seq<char>>,
    stream: ResolvedStream<Seq<char>>,
    now: u64,
)
    ensures
        hunt.stage == (Stage::Checking { found: stream }) ==> {
            let (next, step) = hunt.learns(true, now);
            &&& step == Step::Found(stream)
            &&& next.stage == Stage::<Seq<char>>::Over
        },
        hunt.stage is Probing && hunt.stage->stream == stream ==> {
            let (next, step) = hunt.learns(true, now);
            &&& step == Step::Found(stream)
            &&& next.stage == Stage::<Seq<char>>::Over
        },
{
}

/// Every stream that is given is probed, at its own URL and in the way that this
/// URL asks for, and is held meanwhile: if the probe goes well it is taken.
pub proof fn given_stream_is_probed(
    hunt: Hunt<Seq<char>>,
    stream: ResolvedStream<Seq<char>>,
    now: u64,
    then: u64,
)
    requires
        hunt.stage is Asking || hunt.stage is Running,
    ensures
        ({
            let (next, step) = hunt.hears(Ok(stream), now);
            &&& step matches Step::Probe { url, probe } && url == stream.url && match url::number_in(
                stream.url,
                "clen"@,
            ) {
                Some(size) => !probe.unknown_length && (size > 0 ==> probe.at == size - 1),
                None => probe.unknown_length && probe.at == 1024 * 1024,
            }
            &&& next.learns(true, then).1 == Step::Found(stream)
        }),
{
}

/// The players come in their order, each after the one before it gave nothing:
/// the one with the session first, where there is one, then the one of a phone,
/// then the one of a headset.
pub proof fn players_are_asked_in_turn(hunt: Hunt<Seq<char>>, why: Seq<char>, now: u64)
    requires
        hunt.stage is Asking,
    ensures
        hunt.signed && hunt.stage->Asking_at == 0 ==> hunt.hears(Err(why), now).1 == Step::<
            Seq<char>,
        >::Ask(PlayerClient::Ios),
        hunt.signed && hunt.stage->Asking_at == 1 ==> hunt.hears(Err(why), now).1 == Step::<
            Seq<char>,
        >::Ask(PlayerClient::AndroidVr),
        !hunt.signed && hunt.stage->Asking_at == 0 ==> hunt.hears(Err(why), now).1 == Step::<
            Seq<char>,
        >::Ask(PlayerClient::AndroidVr),
        hunt.hears(Err(why), now).1 is Ask ==> hunt.hears(Err(why), now).0.stage == (Stage::<
            Seq<char>,
        >::Asking { at: (hunt.stage->Asking_at + 1) as usize }),
        hunt.stage->Asking_at >= (if hunt.signed {
            2int
        } else {
            1
        }) ==> !(hunt.hears(Err(why), now).1 is Ask),
        hunt.hears(Err(why), now).0.video_id == hunt.video_id,
        hunt.hears(Err(why), now).0.signed == hunt.signed,
        hunt.hears(Err(why), now).0.fast == hunt.fast,
{
}

/// Where the players are at an end, or what they gave is cut short, the first
/// run follows with its whole ten seconds, on the clock from then on. On the fast
/// path that is the end.
pub proof fn runs_follow_the_players(hunt: Hunt<Seq<char>>, why: Seq<char>, now: u64)
    requires
        hunt.wf(),
    ensures
        ({
            let first = Attempt { signed: hunt.signed, music: true };
            let ran = |r: (Hunt<Seq<char>>, Step<Seq<char>>)|
                if hunt.fast {
                    r.1 is GaveUp && r.0.stage is Over
                } else {
                    &&& r.1 == (Step::<Seq<char>>::Run { attempt: first, timeout: 10_000_000_000 })
                    &&& r.0.stage == (Stage::<Seq<char>>::Running {
                        at: 0,
                        started: now,
                        first: None,
                    })
                };
            &&& hunt.stage is Checking ==> ran(hunt.learns(false, now))
            &&& hunt.stage is Asking && hunt.stage->Asking_at == (if hunt.signed {
                2int
            } else {
                1
            }) ==> ran(hunt.hears(Err(why), now))
        }),
{
}

/// A run that failed, or whose stream is cut short, is followed by the next one
/// while there is time, on the same clock. Of the failures the first is
/// remembered; a stream that is cut short is none.
pub proof fn runs_follow_each_other(
    hunt: Hunt<Seq<char>>,
    at: usize,
    started: u64,
    first: Option<Seq<char>>,
    stream: ResolvedStream<Seq<char>>,
    why: Seq<char>,
    now: u64,
)
    requires
        at + 1 < (if hunt.signed {
            4int
        } else {
            2
        }),
        started <= now < started + 30_000_000_000,
    ensures
        ({
            let running = hunt.to(Stage::Running { at, started, first });
            let (next, step) = running.hears(Err(why), now);
            &&& next.stage == (Stage::Running {
                at: (at + 1) as usize,
                started,
                first: if first is Some {
                    first
                } else {
                    Some(why)
                },
            })
            &&& step matches Step::Run { attempt, timeout } && attempt == yt_dlp::attempts_of(
                hunt.signed,
            )[at + 1] && timeout == if started + 30_000_000_000 - now < 10_000_000_000 {
                started + 30_000_000_000 - now
            } else {
                10_000_000_000
            }
        }),
        ({
            let probing = hunt.to(Stage::Probing { run: at, since: started, error: first, stream });
            let (next, step) = probing.learns(false, now);
            &&& next.stage == (Stage::Running { at: (at + 1) as usize, started, first })
            &&& step is Run
        }),
{
}

/// After the last run the hunt ends with what the first failure said, word for
/// word; with what Restricted Mode is where it spoke of that; and, where nothing
/// failed, with the news that every URL is cut short.
pub proof fn hunts_end_with_the_first_failure(
    hunt: Hunt<Seq<char>>,
    started: u64,
    first: Option<Seq<char>>,
    stream: ResolvedStream<Seq<char>>,
    why: Seq<char>,
    now: u64,
)
    requires
        started <= now < started + 30_000_000_000,
    ensures
        ({
            let last = if hunt.signed {
                3usize
            } else {
                1usize
            };
            let failed = hunt.to(Stage::Running { at: last, started, first }).hears(Err(why), now);
            let cut = hunt.to(
                Stage::Probing { run: last, since: started, error: first, stream },
            ).learns(false, now);
            let said = if first is Some {
                first->0
            } else {
                why
            };
            &&& failed.0.stage is Over && failed.1 is Failed
            &&& cut.0.stage is Over && cut.1 is Failed
            &&& !text::occurs(said, "This video is restricted"@) ==> failed.1->Failed_0.message
                == said
            &&& text::occurs(said, "This video is restricted"@) ==> failed.1->Failed_0.message
                == hunt.video_id + super::RESTRICTED_HELP@
            &&& first is None ==> cut.1->Failed_0.kind == super::ResolveErrorKind::Capped
            &&& first is Some ==> cut.1 == failed.1
        }),
{
}

/// With a session each address is tried with it first and then without, the one
/// of YouTube Music before the other.
pub proof fn runs_come_in_their_order(i: int)
    ensures
        yt_dlp::attempts_of(true).len() == 4,
        yt_dlp::attempts_of(false).len() == 2,
        0 <= i < 4 ==> yt_dlp::attempts_of(true)[i].music == (i < 2)
            && yt_dlp::attempts_of(true)[i].signed == (i % 2 == 0),
        0 <= i < 2 ==> yt_dlp::attempts_of(false)[i].music == (i == 0)
            && !yt_dlp::attempts_of(false)[i].signed,
{
}

} // verus!
