//! Playing tracks, and taking what the source worker answers.

use vstd::prelude::*;
use vstd::view::View as _;

use super::{
    App, AppView, PicturesView, Resuming, Screen, SessionView, View, MAX_AUTO_SKIPS, NO_WORKER,
};
use crate::now_playing;
use crate::now_playing::{NowPlaying, NowView, Panel, Tab, MAX_TOPUP_FAILURES, QUEUE_LOW};
use crate::player::{Command, PlayState};
use crate::resolver::{ResolvedStream, StreamUrl};
use crate::source::{PageView, QueuePage, Request, Track, Watch, WatchView};
use crate::text;

verus! {

broadcast use vstd::string::group_string_axioms;

/// The page of a track that is being started. The tab on screen is kept. The
/// queue is kept where the track is in it, with everything the queue knows
/// about paging itself, and is then trimmed behind the track.
pub open spec fn page_for(old: Option<NowView>, track: Track<Seq<char>>) -> NowView {
    let page = NowView {
        tab: match old {
            Some(now) => now.tab,
            None => Tab::UpNext,
        },
        ..NowView::of_track(track)
    };
    match old {
        Some(now) => match now_playing::position_of(now.queue, track.id) {
            Some(index) => (NowView {
                queue_title: now.queue_title,
                queue: now.queue,
                playing: Some(index),
                cursor: page.cursor.update(0, index),
                queue_epoch: now.queue_epoch,
                continuation: now.continuation,
                topping_up: now.topping_up,
                topup_failures: now.topup_failures,
                dropped: now.dropped,
                ..page
            }).trimmed(),
            None => page,
        },
        None => page,
    }
}

fn page(old: Option<NowPlaying>, track: &Track) -> (r: NowPlaying)
    ensures
        r@ == page_for(super::now_view(old), track@),
{
    let mut page = NowPlaying::new(track);
    if let Some(now) = old {
        page.tab = now.tab;
        if let Some(index) = now_playing::position(&now.queue, track.id.as_str()) {
            page.queue_title = now.queue_title;
            page.queue = now.queue;
            page.playing = Some(index);
            page.cursor[0] = index;
            page.queue_epoch = now.queue_epoch;
            page.continuation = now.continuation;
            page.topping_up = now.topping_up;
            page.topup_failures = now.topup_failures;
            page.dropped = now.dropped;
            proof {
                assert(page@ =~= (NowView {
                    tab: old->0@.tab,
                    queue_title: old->0@.queue_title,
                    queue: old->0@.queue,
                    playing: Some(index),
                    cursor: NowView::of_track(track@).cursor.update(0, index),
                    queue_epoch: old->0@.queue_epoch,
                    continuation: old->0@.continuation,
                    topping_up: old->0@.topping_up,
                    topup_failures: old->0@.topup_failures,
                    dropped: old->0@.dropped,
                    ..NowView::of_track(track@)
                }));
            }
            page.trim();
        }
    }
    page
}

/// What the open tab of a page asks for, where it asks for anything: each panel
/// is asked for the first time it is looked at, and the lyrics only once it is
/// known whether the track has a page of them.
pub open spec fn tab_request(now: NowView) -> Option<Request<Seq<char>>> {
    match now.tab {
        Tab::UpNext => None,
        Tab::Lyrics => if now.lyrics is Idle && now.watched {
            Some(
                Request::Lyrics {
                    video_id: now.video_id,
                    page_id: now.lyrics_id,
                    asked: now.query_of(),
                },
            )
        } else {
            None
        },
        Tab::Related => if now.related is Idle && now.related_id is Some {
            Some(Request::Related { video_id: now.video_id, browse_id: now.related_id->0 })
        } else {
            None
        },
        Tab::Comments => if now.comments is Idle {
            Some(Request::Comments { video_id: now.video_id })
        } else {
            None
        },
    }
}

/// The page with the panel behind its open tab loading.
pub open spec fn tab_loading(now: NowView) -> NowView {
    match now.tab {
        Tab::UpNext => now,
        Tab::Lyrics => NowView { lyrics: Panel::Loading, ..now },
        Tab::Related => NowView { related: Panel::Loading, ..now },
        Tab::Comments => NowView { comments: Panel::Loading, ..now },
    }
}

/// Whether a queue wants one more page: something in it plays, it has run low,
/// and it is neither asking already nor has it given up.
pub open spec fn wants_page(now: NowView) -> bool {
    &&& now.playing is Some
    &&& now.remaining_of() < QUEUE_LOW
    &&& !now.topping_up
    &&& now.topup_failures < MAX_TOPUP_FAILURES
}

/// The number after `n`, and zero after the largest.
pub open spec fn stepped(n: usize) -> usize {
    if n == usize::MAX {
        0
    } else {
        (n + 1) as usize
    }
}

/// The page once the watch answer has been taken. `askable` is whether the
/// lyrics service can be asked about the track.
pub open spec fn watched_page(
    now: NowView,
    answer: Result<WatchView, Seq<char>>,
    askable: bool,
    epoch: u64,
) -> NowView {
    match answer {
        Err(why) => NowView {
            watched: true,
            playing: None,
            related: Panel::Empty(why),
            lyrics: if askable {
                now.lyrics
            } else {
                Panel::Empty(why)
            },
            ..now
        },
        Ok(watch) => {
            let told = NowView {
                watched: true,
                lyrics_id: watch.lyrics_id,
                related_id: watch.related_id,
                lyrics: if watch.lyrics_id is None && !askable {
                    Panel::Empty("no lyrics are published for this track"@)
                } else {
                    now.lyrics
                },
                related: if watch.related_id is None {
                    Panel::Empty("nothing related came back for this track"@)
                } else {
                    now.related
                },
                ..now
            };
            let queued = match now_playing::position_of(now.queue, now.video_id) {
                Some(index) => NowView { playing: Some(index), ..told },
                None => {
                    let playing = now_playing::position_of(watch.queue, now.video_id);
                    NowView {
                        playing,
                        queue_title: watch.queue_title,
                        queue: watch.queue,
                        queue_epoch: epoch,
                        continuation: watch.continuation,
                        topping_up: false,
                        topup_failures: 0,
                        dropped: Seq::empty(),
                        cursor: told.cursor.update(
                            0,
                            match playing {
                                Some(index) => index,
                                None => 0,
                            },
                        ),
                        ..told
                    }
                },
            };
            NowView {
                duration: if queued.duration is None && queued.playing is Some
                    && queued.playing->0 < queued.queue.len() {
                    queued.queue[queued.playing->0 as int].duration
                } else {
                    queued.duration
                },
                ..queued
            }
        },
    }
}

/// What a watch answer says.
pub open spec fn watch_view(watch: Result<Watch, String>) -> Result<WatchView, Seq<char>> {
    match watch {
        Ok(watch) => Ok(watch@),
        Err(why) => Err(why@),
    }
}

/// What a page of the queue says.
pub open spec fn page_view(page: Result<QueuePage, String>) -> Result<PageView, Seq<char>> {
    match page {
        Ok(page) => Ok(page@),
        Err(why) => Err(why@),
    }
}

/// What a resolved stream says.
pub open spec fn stream_view(stream: Result<StreamUrl, String>) -> Result<
    ResolvedStream<Seq<char>>,
    Seq<char>,
> {
    match stream {
        Ok(stream) => Ok(stream@),
        Err(why) => Err(why@),
    }
}

impl AppView {
    /// Whether there is a page and it belongs to this track.
    pub open spec fn shows(self, video_id: Seq<char>) -> bool {
        self.session.now is Some && self.session.now->0.video_id == video_id
    }

    /// With nothing being listened to.
    pub open spec fn unheard(self) -> AppView {
        AppView { session: SessionView { listening: None, ..self.session }, ..self }
    }

    /// Hands the finished play to the worker. Nothing is handed over twice, and
    /// nothing that never produced sound.
    #[verifier::opaque]
    pub open spec fn heard_out(self) -> AppView {
        match self.session.listening {
            None => self,
            Some((track, heard)) => if heard == 0 {
                self.unheard()
            } else {
                self.unheard().sends(Request::ReportPlay { track, listened: heard })
            },
        }
    }

    /// Fetches the panel behind the open tab, if it has not been asked for.
    #[verifier::opaque]
    pub open spec fn asks_tab(self) -> AppView {
        if self.session.now is Some && tab_request(self.session.now->0) is Some {
            let loading = self.paged(Some(tab_loading(self.session.now->0)));
            if self.source.open {
                loading.sends(tab_request(self.session.now->0)->0)
            } else {
                loading.says(NO_WORKER@)
            }
        } else {
            self
        }
    }

    /// Asks for the next page of the queue, if one is wanted: by the token that
    /// the queue holds, and otherwise for a new station.
    #[verifier::opaque]
    pub open spec fn tops_up(self) -> AppView {
        if self.session.now is Some && wants_page(self.session.now->0) {
            let now = self.session.now->0;
            let flagged = self.paged(Some(NowView { topping_up: self.source.open, ..now }));
            match now.continuation {
                Some(token) => flagged.sends(Request::MoreQueue { epoch: now.queue_epoch, token }),
                None => (AppView {
                    session: SessionView {
                        seed_rotation: stepped(self.session.seed_rotation),
                        ..flagged.session
                    },
                    ..flagged
                }).sends(
                    Request::SeedQueue {
                        epoch: now.queue_epoch,
                        rotation: self.session.seed_rotation,
                    },
                ),
            }
        } else {
            self
        }
    }

    /// Asks for the cover of a track, and drops the one on screen.
    pub open spec fn asks_cover(self, id: Seq<char>) -> AppView {
        (AppView {
            pictures: PicturesView { cover: None, cover_id: Some(id), ..self.pictures },
            ..self
        }).sends(Request::Cover { id })
    }

    /// With the player page on screen, and the list it was reached from
    /// remembered.
    pub open spec fn on_page(self) -> AppView {
        AppView {
            screen: Screen {
                view: View::Playing,
                back_to: if self.screen.view != View::Playing {
                    self.screen.view
                } else {
                    self.screen.back_to
                },
                ..self.screen
            },
            ..self
        }
    }

    /// Has a track loading, with the page around it replaced to match.
    #[verifier::opaque]
    pub open spec fn loads(self, track: Track<Seq<char>>, auto: bool) -> AppView {
        let over = self.heard_out();
        (AppView {
            session: SessionView {
                listening: Some((track, 0)),
                auto,
                resuming: None,
                pending: Some(track.id),
                now: Some(page_for(over.session.now, track)),
                ..over.session
            },
            ..over
        }).on_page().says(
            (if over.session.ready == Some(track.id) {
                "starting "@
            } else {
                "resolving "@
            }) + track.label_of() + " ..."@,
        ).orders(Command::Load { title: track.label_of() })
    }

    /// With no track waited for.
    pub open spec fn unloaded(self) -> AppView {
        AppView { session: SessionView { pending: None, ..self.session }, ..self }
    }

    /// Plays a track: it is loaded, and its stream is asked for first, then its
    /// cover, the page around it, and what the page wants.
    #[verifier::opaque]
    pub open spec fn plays(self, track: Track<Seq<char>>, auto: bool) -> AppView {
        let loaded = self.loads(track, auto);
        if loaded.source.open {
            loaded.sends(
                Request::Resolve { id: track.id, title: track.label_of(), bypass_cache: false },
            ).asks_cover(track.id).sends(Request::Watch { video_id: track.id }).asks_tab().tops_up()
        } else {
            loaded.unloaded().orders(Command::Stop).says(NO_WORKER@)
        }
    }

    /// Moves through the queue and plays what it lands on. At the end of the
    /// queue it says whether more is on its way.
    #[verifier::opaque]
    pub open spec fn advances(self, delta: int, auto: bool) -> AppView {
        if self.session.now is Some && self.session.now->0.playing is Some {
            let now = self.session.now->0;
            let index = now.playing->0 + delta;
            if index < 0 {
                self
            } else if index < now.queue.len() {
                self.plays(now.queue[index], auto)
            } else if delta > 0 {
                self.says(
                    if now.topping_up {
                        "waiting for more of the queue ..."@
                    } else {
                        "end of the queue"@
                    },
                )
            } else {
                self
            }
        } else {
            self
        }
    }

    /// With a recovery in flight, or with none.
    pub open spec fn recovering(self, resuming: Option<Resuming<Seq<char>>>) -> AppView {
        AppView { session: SessionView { resuming, ..self.session }, ..self }
    }

    /// Asks for a fresh URL for a track whose stream died. What is cached is
    /// the URL that failed, so the cache is passed by.
    #[verifier::opaque]
    pub open spec fn resumes(self, id: Seq<char>, from: u64) -> AppView {
        match self.session.listening {
            None => self.orders(Command::ResumeFailed { why: "playback stopped"@ }),
            Some((track, _)) => {
                let said = self.says("reconnecting "@ + track.label_of() + " ..."@);
                if self.source.open {
                    said.sends(
                        Request::Resolve { id, title: track.label_of(), bypass_cache: true },
                    ).recovering(Some(Resuming { id, from }))
                } else {
                    said.orders(Command::ResumeFailed { why: NO_WORKER@ })
                }
            },
        }
    }

    /// With the queue playing itself or not, and so many tracks skipped.
    pub open spec fn skipping(self, auto: bool, skips: u8) -> AppView {
        AppView { session: SessionView { auto, skips, ..self.session }, ..self }
    }

    /// Takes the stream that carries on the track that is being recovered.
    #[verifier::opaque]
    pub open spec fn recovers(
        self,
        title: Seq<char>,
        stream: Result<ResolvedStream<Seq<char>>, Seq<char>>,
    ) -> AppView {
        let done = self.recovering(None);
        match stream {
            Ok(s) => done.says("playing "@ + title).orders(
                Command::Resume {
                    url: s.url,
                    format: s.format,
                    from: self.session.resuming->0.from,
                },
            ),
            Err(why) => done.orders(Command::ResumeFailed { why: text::first_line_of(why) }),
        }
    }

    /// Steps over a track that the queue could not play.
    #[verifier::opaque]
    pub open spec fn steps_over(self, why: Seq<char>) -> AppView {
        let on = self.skipping(self.session.auto, (self.session.skips + 1) as u8).says(
            "skipping a track that would not play ("@ + text::first_line_of(why) + ")"@,
        ).advances(1, true);
        if on.session.pending is None {
            on.orders(Command::Stop)
        } else {
            on
        }
    }

    /// Takes a resolved stream: it carries on the track that is being
    /// recovered, or starts the track that is waited for, and is otherwise
    /// dropped.
    #[verifier::opaque]
    pub open spec fn resolves(
        self,
        id: Seq<char>,
        title: Seq<char>,
        stream: Result<ResolvedStream<Seq<char>>, Seq<char>>,
    ) -> AppView {
        if self.session.resuming is Some && self.session.resuming->0.id == id {
            self.recovers(title, stream)
        } else if self.session.pending != Some(id) {
            self
        } else {
            match stream {
                Ok(s) => self.unloaded().skipping(false, 0).says("playing "@ + title).orders(
                    Command::Play { url: s.url, format: s.format, title, id },
                ),
                Err(why) => if self.session.auto && self.session.skips < MAX_AUTO_SKIPS {
                    self.unloaded().steps_over(why)
                } else {
                    self.unloaded().skipping(false, self.session.skips).orders(
                        Command::Stop,
                    ).reports(why)
                },
            }
        }
    }

    /// Resolves the next track of the queue ahead of time.
    pub open spec fn warms_next(self) -> AppView {
        if self.session.now is Some && self.session.now->0.next_of() is Some {
            self.sends(Request::Prefetch { id: self.session.now->0.next_of()->0.id })
        } else {
            self
        }
    }

    /// The epoch of the next queue.
    pub open spec fn next_epoch(self) -> u64 {
        if self.session.queue_epoch == u64::MAX {
            0
        } else {
            (self.session.queue_epoch + 1) as u64
        }
    }

    /// With another epoch handed out.
    pub open spec fn minted(self) -> AppView {
        AppView {
            session: SessionView { queue_epoch: self.next_epoch(), ..self.session },
            ..self
        }
    }

    /// Takes the watch answer for a track, if that track is still on the page.
    #[verifier::opaque]
    pub open spec fn watches(
        self,
        video_id: Seq<char>,
        answer: Result<WatchView, Seq<char>>,
        askable: bool,
    ) -> AppView {
        if self.shows(video_id) {
            let told = self.minted().paged(
                Some(watched_page(self.session.now->0, answer, askable, self.next_epoch())),
            );
            if answer is Ok {
                told.warms_next().tops_up()
            } else {
                told
            }
        } else {
            self.minted()
        }
    }

    /// Takes a page of the queue, if the queue that asked for it is still the
    /// one playing. A queue that had run dry starts again.
    #[verifier::opaque]
    pub open spec fn takes_page(self, epoch: u64, page: Result<PageView, Seq<char>>) -> AppView {
        if self.session.now is Some && self.session.now->0.queue_epoch == epoch {
            let now = NowView { topping_up: false, ..self.session.now->0 };
            match page {
                Err(_) => self.paged(
                    Some(
                        NowView {
                            topup_failures: now_playing::one_more(now.topup_failures),
                            ..now
                        },
                    ),
                ),
                Ok(page) => {
                    let taken = self.paged(Some(now.with_page(page)));
                    if now.with_page(page).queue.len() == now.queue.len() {
                        taken
                    } else if self.session.pending is None && self.seen.state == PlayState::Idle {
                        taken.warms_next().advances(1, true)
                    } else {
                        taken.warms_next()
                    }
                },
            }
        } else {
            self
        }
    }
}

impl App {
    /// Puts a page on the screen, or takes it off.
    pub(super) fn set_page(&mut self, now: Option<NowPlaying>)
        ensures
            final(self).view() == old(self).view().paged(super::now_view(now)),
    {
        self.session.now = now;
    }

    /// Takes the page off the screen, to be put back.
    pub(super) fn take_page_off(&mut self) -> (r: Option<NowPlaying>)
        ensures
            super::now_view(r) == old(self).view().session.now,
            final(self).view() == old(self).view().paged(None),
    {
        self.session.now.take()
    }

    /// Takes what is being listened to.
    fn take_listening(&mut self) -> (r: Option<(Track, u64)>)
        ensures
            super::listening_view(r) == old(self).view().session.listening,
            final(self).view() == old(self).view().unheard(),
    {
        self.session.listening.take()
    }

    /// Hands the finished play to the worker. Several paths end a play and all
    /// of them may call this: only the first does anything.
    pub(super) fn finish_listening(&mut self)
        ensures
            final(self).view() == old(self).view().heard_out(),
    {
        reveal(AppView::heard_out);
        let listening = self.take_listening();
        if let Some((track, heard)) = listening {
            if heard != 0 {
                let _ = self.send(Request::ReportPlay { track, listened: heard });
            }
        }
    }

    /// Hands out the play in progress, for the way out. It is to be written
    /// down at once, since the worker may be gone before it gets to it.
    pub fn flush_listening(&mut self) -> (r: Option<(Track, u64)>)
        ensures
            final(self).view() == old(self).view().unheard(),
            ({
                let listening = old(self).view().session.listening;
                super::listening_view(r) == if listening is Some && (listening->0).1 != 0 {
                    listening
                } else {
                    None
                }
            }),
    {
        match self.take_listening() {
            None => None,
            Some((track, heard)) => {
                if heard != 0 {
                    Some((track, heard))
                } else {
                    None
                }
            },
        }
    }

    /// Fetches the panel behind the open tab, if it has not been asked for.
    pub(super) fn request_tab(&mut self)
        ensures
            final(self).view() == old(self).view().asks_tab(),
    {
        reveal(AppView::asks_tab);
        match self.take_page_off() {
            None => {},
            Some(mut now) => {
                let request = open_tab(&mut now);
                self.set_page(Some(now));
                if let Some(request) = request {
                    if !self.send(request) {
                        self.say(NO_WORKER);
                    }
                }
            },
        }
    }

    /// Steps the seed of the next station, and returns the one before.
    fn step_seed(&mut self) -> (r: usize)
        ensures
            r == old(self).view().session.seed_rotation,
            final(self).view() == (AppView {
                session: SessionView {
                    seed_rotation: stepped(old(self).view().session.seed_rotation),
                    ..old(self).view().session
                },
                ..old(self).view()
            }),
    {
        let rotation: usize = self.session.seed_rotation;
        self.session.seed_rotation = self.session.seed_rotation.wrapping_add(1);
        rotation
    }

    /// Asks for the next page of the queue, if one is wanted.
    pub(super) fn top_up_queue(&mut self)
        ensures
            final(self).view() == old(self).view().tops_up(),
    {
        reveal(AppView::tops_up);
        match self.take_page_off() {
            None => {},
            Some(mut now) => {
                if now.playing.is_none() || now.remaining() >= QUEUE_LOW || now.topping_up
                    || now.topup_failures >= MAX_TOPUP_FAILURES {
                    self.set_page(Some(now));
                    return;
                }
                let epoch: u64 = now.queue_epoch;
                let token = text::clone_opt(&now.continuation);
                now.topping_up = self.source.open;
                self.set_page(Some(now));
                match token {
                    Some(token) => {
                        let _ = self.send(Request::MoreQueue { epoch, token });
                    },
                    None => {
                        let rotation: usize = self.step_seed();
                        let _ = self.send(Request::SeedQueue { epoch, rotation });
                    },
                }
            },
        }
    }

    /// Asks for the cover of a track, and drops the one on screen.
    fn request_cover(&mut self, id: String)
        ensures
            final(self).view() == old(self).view().asks_cover(id@),
    {
        self.pictures.cover = None;
        self.pictures.cover_id = Some(id.clone());
        let _ = self.source.send(Request::Cover { id });
    }

    /// Has a track loading, with the page around it replaced to match.
    #[verifier::spinoff_prover]
    fn load(&mut self, track: &Track, auto: bool)
        ensures
            final(self).view() == old(self).view().loads(track@, auto),
    {
        reveal(AppView::loads);
        self.finish_listening();
        let label = track.label();
        let status = if text::opt_same(&self.session.ready, track.id.as_str()) {
            text::join3("starting ", label.as_str(), " ...")
        } else {
            text::join3("resolving ", label.as_str(), " ...")
        };
        let ghost over = self.view();
        let old = self.session.now.take();
        let next = page(old, track);
        self.session.now = Some(next);
        self.session.listening = Some((track.clone(), 0));
        self.session.auto = auto;
        self.session.resuming = None;
        self.session.pending = Some(track.id.clone());
        assert(self.view() == (AppView {
            session: SessionView {
                listening: Some((track@, 0)),
                auto,
                resuming: None,
                pending: Some(track@.id),
                now: Some(page_for(over.session.now, track@)),
                ..over.session
            },
            ..over
        }));
        self.go_to_page();
        self.say_text(status);
        self.order(Command::Load { title: label });
    }

    /// Puts the player page on screen.
    fn go_to_page(&mut self)
        ensures
            final(self).view() == old(self).view().on_page(),
    {
        if self.screen.view != View::Playing {
            self.screen.back_to = self.screen.view;
        }
        self.screen.view = View::Playing;
    }

    /// Stops waiting for a track.
    fn unload(&mut self)
        ensures
            final(self).view() == old(self).view().unloaded(),
    {
        self.session.pending = None;
    }

    /// Plays a track and opens the player page on it. Every play goes through
    /// here. `auto` marks a play that the queue started.
    #[verifier::spinoff_prover]
    pub(super) fn play_track(&mut self, track: Track, auto: bool)
        ensures
            final(self).view() == old(self).view().plays(track@, auto),
    {
        reveal(AppView::plays);
        self.load(&track, auto);
        let request = Request::Resolve {
            id: track.id.clone(),
            title: track.label(),
            bypass_cache: false,
        };
        if !self.send(request) {
            self.unload();
            self.order(Command::Stop);
            self.say(NO_WORKER);
            return;
        }
        self.request_cover(track.id.clone());
        let _ = self.send(Request::Watch { video_id: track.id });
        self.request_tab();
        self.top_up_queue();
    }

    /// Moves `delta` tracks through the queue and plays what it lands on.
    #[verifier::spinoff_prover]
    pub(super) fn advance(&mut self, delta: isize, auto: bool)
        ensures
            final(self).view() == old(self).view().advances(delta as int, auto),
    {
        reveal(AppView::advances);
        let landing = match &self.session.now {
            Some(now) => land(now, delta),
            None => Landing::Nowhere,
        };
        match landing {
            Landing::On(track) => {
                self.play_track(track, auto);
            },
            Landing::Past { more } => {
                if more {
                    self.say("waiting for more of the queue ...");
                } else {
                    self.say("end of the queue");
                }
            },
            Landing::Nowhere => {},
        }
    }

    /// Notes a recovery in flight, or that there is none.
    fn set_recovery(&mut self, resuming: Option<Resuming>)
        ensures
            final(self).view() == old(self).view().recovering(super::resuming_view(resuming)),
    {
        self.session.resuming = resuming;
    }

    /// Resolves a fresh URL for a track whose stream died.
    pub(super) fn resume_track(&mut self, id: String, from: u64)
        ensures
            final(self).view() == old(self).view().resumes(id@, from),
    {
        reveal(AppView::resumes);
        let label: Option<String> = match &self.session.listening {
            None => None,
            Some((track, _)) => Some(track.label()),
        };
        match label {
            None => {
                self.order(Command::ResumeFailed { why: "playback stopped".to_owned() });
            },
            Some(title) => {
                self.say_text(text::join3("reconnecting ", title.as_str(), " ..."));
                let request = Request::Resolve { id: id.clone(), title, bypass_cache: true };
                if self.send(request) {
                    self.set_recovery(Some(Resuming { id, from }));
                } else {
                    self.order(Command::ResumeFailed { why: NO_WORKER.to_owned() });
                }
            },
        }
    }

    fn set_skipping(&mut self, auto: bool, skips: u8)
        ensures
            final(self).view() == old(self).view().skipping(auto, skips),
    {
        self.session.auto = auto;
        self.session.skips = skips;
    }

    /// Takes the stream that carries on the track that is being recovered.
    fn recover(&mut self, title: String, stream: Result<StreamUrl, String>)
        requires
            old(self).view().session.resuming is Some,
        ensures
            final(self).view() == old(self).view().recovers(title@, stream_view(stream)),
    {
        reveal(AppView::recovers);
        let from: u64 = match &self.session.resuming {
            Some(r) => r.from,
            None => 0,
        };
        self.set_recovery(None);
        match stream {
            Ok(stream) => {
                self.say_text(text::join2("playing ", title.as_str()));
                self.order(Command::Resume { url: stream.url, format: stream.format, from });
            },
            Err(why) => {
                self.order(Command::ResumeFailed { why: text::first_line(why.as_str()) });
            },
        }
    }

    /// Steps over a track that the queue could not play.
    #[verifier::spinoff_prover]
    fn step_over(&mut self, why: String)
        requires
            old(self).view().session.skips < MAX_AUTO_SKIPS,
        ensures
            final(self).view() == old(self).view().steps_over(why@),
    {
        reveal(AppView::steps_over);
        let auto = self.session.auto;
        let skips: u8 = self.session.skips + 1;
        self.set_skipping(auto, skips);
        let first = text::first_line(why.as_str());
        self.say_text(
            text::join3("skipping a track that would not play (", first.as_str(), ")"),
        );
        self.advance(1, true);
        if self.session.pending.is_none() {
            self.order(Command::Stop);
        }
    }

    /// Starts a track, or reports why it will not start, but only when it is
    /// still the track that is waited for.
    #[verifier::spinoff_prover]
    pub(super) fn apply_resolved(
        &mut self,
        id: String,
        title: String,
        stream: Result<StreamUrl, String>,
    )
        ensures
            final(self).view() == old(self).view().resolves(id@, title@, stream_view(stream)),
    {
        reveal(AppView::resolves);
        let recovering = match &self.session.resuming {
            Some(r) => text::same(r.id.as_str(), id.as_str()),
            None => false,
        };
        if recovering {
            self.recover(title, stream);
            return;
        }
        if !text::opt_same(&self.session.pending, id.as_str()) {
            return;
        }
        let auto = self.session.auto;
        let skips: u8 = self.session.skips;
        self.unload();
        match stream {
            Ok(stream) => {
                self.set_skipping(false, 0);
                self.say_text(text::join2("playing ", title.as_str()));
                self.order(Command::Play { url: stream.url, format: stream.format, title, id });
            },
            Err(why) => {
                if auto && skips < MAX_AUTO_SKIPS {
                    self.step_over(why);
                } else {
                    self.set_skipping(false, skips);
                    self.order(Command::Stop);
                    self.report(why);
                }
            },
        }
    }

    /// Resolves the next track of the queue ahead of time.
    fn warm_next(&mut self)
        ensures
            final(self).view() == old(self).view().warms_next(),
    {
        let next: Option<String> = match &self.session.now {
            Some(now) => match now.next_in_queue() {
                Some(track) => Some(track.id.clone()),
                None => None,
            },
            None => None,
        };
        if let Some(id) = next {
            let _ = self.send(Request::Prefetch { id });
        }
    }

    /// Hands out the epoch of the next queue.
    fn mint_epoch(&mut self) -> (r: u64)
        ensures
            r == old(self).view().next_epoch(),
            final(self).view() == old(self).view().minted(),
    {
        self.session.queue_epoch = self.session.queue_epoch.wrapping_add(1);
        self.session.queue_epoch
    }

    /// Takes the queue and the ids of the panels from a watch answer. The queue
    /// is replaced only where it does not hold what is playing.
    #[verifier::spinoff_prover]
    pub(super) fn apply_watch(
        &mut self,
        video_id: String,
        watch: Result<Watch, String>,
        askable: bool,
    )
        ensures
            final(self).view() == old(self).view().watches(video_id@, watch_view(watch), askable),
    {
        reveal(AppView::watches);
        let epoch: u64 = self.mint_epoch();
        match self.take_page_off() {
            None => {},
            Some(mut now) => {
                if !text::same(now.video_id.as_str(), video_id.as_str()) {
                    self.set_page(Some(now));
                    return;
                }
                let ok = watch.is_ok();
                watch_page(&mut now, watch, askable, epoch);
                self.set_page(Some(now));
                if ok {
                    self.warm_next();
                    self.top_up_queue();
                }
            },
        }
    }

    /// Takes a page of tracks onto the end of the queue it was asked for.
    #[verifier::spinoff_prover]
    pub(super) fn apply_more_queue(&mut self, epoch: u64, page: Result<QueuePage, String>)
        ensures
            final(self).view() == old(self).view().takes_page(epoch, page_view(page)),
    {
        reveal(AppView::takes_page);
        match self.take_page_off() {
            None => {},
            Some(mut now) => {
                if now.queue_epoch != epoch {
                    self.set_page(Some(now));
                    return;
                }
                now.topping_up = false;
                match page {
                    Err(_) => {
                        now.topup_failures = now.topup_failures.saturating_add(1);
                        self.set_page(Some(now));
                    },
                    Ok(page) => {
                        let added = now.take_page(page);
                        self.set_page(Some(now));
                        if added == 0 {
                            return;
                        }
                        let dry = self.session.pending.is_none() && self.seen.state
                            == PlayState::Idle;
                        self.warm_next();
                        if dry {
                            self.advance(1, true);
                        }
                    },
                }
            },
        }
    }
}

/// Where a move through the queue leads.
enum Landing {
    On(Track),
    /// Past the end of the queue, with or without more on its way.
    Past { more: bool },
    Nowhere,
}

/// Finds where a move through the queue leads.
fn land(now: &NowPlaying, delta: isize) -> (r: Landing)
    ensures
        ({
            let index = now@.playing->0 + delta;
            if now@.playing is None || index < 0 {
                r is Nowhere
            } else if index < now@.queue.len() {
                r matches Landing::On(track) && track@ == now@.queue[index]
            } else if delta > 0 {
                r == (Landing::Past { more: now@.topping_up })
            } else {
                r is Nowhere
            }
        }),
{
    let len: usize = now.queue.len();
    let current: usize = match now.playing {
        Some(at) => at,
        None => {
            return Landing::Nowhere;
        },
    };
    if delta < 0 {
        let back: usize = ((-(delta + 1)) as usize) + 1;
        if current < back {
            return Landing::Nowhere;
        }
        let i: usize = current - back;
        if i < len {
            return Landing::On(now.queue[i].clone());
        }
        return Landing::Nowhere;
    }
    match current.checked_add(delta as usize) {
        Some(i) => {
            if i < len {
                return Landing::On(now.queue[i].clone());
            }
        },
        None => {},
    }
    if delta > 0 {
        Landing::Past { more: now.topping_up }
    } else {
        Landing::Nowhere
    }
}

/// Opens the panel behind the open tab, and returns what it asks for.
fn open_tab(now: &mut NowPlaying) -> (r: Option<Request>)
    ensures
        match r {
            Some(request) => tab_request(old(now)@) == Some(request@) && final(now)@
                == tab_loading(old(now)@),
            None => tab_request(old(now)@) is None && final(now)@ == old(now)@,
        },
{
    match now.tab {
        Tab::UpNext => None,
        Tab::Lyrics => {
            if now.lyrics.is_idle() && now.watched {
                let request = Request::Lyrics {
                    video_id: now.video_id.clone(),
                    page_id: text::clone_opt(&now.lyrics_id),
                    asked: now.lyrics_query(),
                };
                now.lyrics = Panel::Loading;
                Some(request)
            } else {
                None
            }
        },
        Tab::Related => {
            if now.related.is_idle() {
                match text::clone_opt(&now.related_id) {
                    Some(browse_id) => {
                        now.related = Panel::Loading;
                        Some(Request::Related { video_id: now.video_id.clone(), browse_id })
                    },
                    None => None,
                }
            } else {
                None
            }
        },
        Tab::Comments => {
            if now.comments.is_idle() {
                now.comments = Panel::Loading;
                Some(Request::Comments { video_id: now.video_id.clone() })
            } else {
                None
            }
        },
    }
}

/// Takes a watch answer onto the page of its track.
fn watch_page(now: &mut NowPlaying, watch: Result<Watch, String>, askable: bool, epoch: u64)
    ensures
        final(now)@ == watched_page(old(now)@, watch_view(watch), askable, epoch),
{
    let ghost before = now@;
    now.watched = true;
    match watch {
        Err(why) => {
            now.playing = None;
            if !askable {
                now.lyrics = Panel::Empty(why.clone());
            }
            now.related = Panel::Empty(why);
        },
        Ok(watch) => {
            take_watch(now, watch, askable, epoch);
        },
    }
}

/// Takes the queue and the ids of the panels onto the page.
fn take_watch(now: &mut NowPlaying, watch: Watch, askable: bool, epoch: u64)
    requires
        old(now).watched,
    ensures
        final(now)@ == watched_page(old(now)@, Ok(watch@), askable, epoch),
{
    let ghost before = now@;
    let ghost told = watch@;
    now.lyrics_id = watch.lyrics_id;
    now.related_id = watch.related_id;
    if now.lyrics_id.is_none() && !askable {
        now.lyrics = Panel::Empty("no lyrics are published for this track".to_owned());
    }
    if now.related_id.is_none() {
        now.related = Panel::Empty("nothing related came back for this track".to_owned());
    }
    match now_playing::position(&now.queue, now.video_id.as_str()) {
        Some(index) => {
            now.playing = Some(index);
        },
        None => {
            now.playing = now_playing::position(&watch.queue, now.video_id.as_str());
            now.queue_title = watch.queue_title;
            now.queue = watch.queue;
            now.queue_epoch = epoch;
            now.continuation = watch.continuation;
            now.topping_up = false;
            now.topup_failures = 0;
            now.dropped.clear();
            now.cursor[0] = match now.playing {
                Some(index) => index,
                None => 0,
            };
            proof {
                assert(now@.dropped =~= Seq::empty());
                assert(now@.cursor =~= before.cursor.update(
                    0,
                    match now@.playing {
                        Some(index) => index,
                        None => 0,
                    },
                ));
            }
        },
    }
    if now.duration.is_none() {
        if let Some(index) = now.playing {
            if index < now.queue.len() {
                now.duration = now.queue[index].duration;
            }
        }
    }
    proof {
        assert(now@ =~= watched_page(before, Ok(told), askable, epoch));
    }
}

} // verus!
