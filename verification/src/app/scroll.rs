//! What happens once per frame: the views are fitted to the window, and time
//! passes.

use vstd::prelude::*;
use vstd::view::View as _;

use super::act;
use super::{
    App, AppView, HomeView, ImagePlan, LibraryView, ListView, PicturesView, Screen, SessionView,
    View, PREFETCH_IDLE,
};
use crate::art;
use crate::cover::Cover;
use crate::discord;
use crate::discord::{Activity, Clock};
use crate::now_playing::Tab;
use crate::player::{PlayState, PlayerEvent};
use crate::source;
use crate::source::{Request, Response, Target, UNKNOWN_ARTIST};
use crate::text;

verus! {

broadcast use vstd::string::group_string_axioms;

/// The first row to show, of `n`, so that the selected one is among the
/// `height` rows that fit, and no gap is left at the end.
pub open spec fn scrolled_to(selected: usize, offset: usize, height: usize, n: nat) -> usize {
    if height == 0 || n == 0 {
        0
    } else {
        let seen = if selected < offset {
            selected
        } else if selected >= offset + height {
            (selected + 1 - height) as usize
        } else {
            offset
        };
        if n <= height {
            0
        } else if seen > n - height {
            (n - height) as usize
        } else {
            seen
        }
    }
}

fn scroll_to(selected: usize, offset: usize, height: usize, n: usize) -> (r: usize)
    ensures
        r == scrolled_to(selected, offset, height, n as nat),
{
    if height == 0 || n == 0 {
        return 0;
    }
    let seen: usize = if selected < offset {
        selected
    } else if selected - offset >= height {
        selected - height + 1
    } else {
        offset
    };
    let most: usize = n.saturating_sub(height);
    if seen > most {
        most
    } else {
        seen
    }
}

/// The selected row is on screen, and the rows fill the screen as far as there
/// are any.
pub proof fn selection_is_on_screen(selected: usize, offset: usize, height: usize, n: nat)
    requires
        0 < height,
        selected < n <= usize::MAX,
    ensures
        ({
            let first = scrolled_to(selected, offset, height, n);
            &&& first <= selected < first + height
            &&& first == 0 || first + height <= n
        }),
{
}

/// Fitting a list that fits already moves nothing.
pub proof fn fitting_again_moves_nothing(selected: usize, offset: usize, height: usize, n: nat)
    requires
        selected < n <= usize::MAX,
    ensures
        ({
            let first = scrolled_to(selected, offset, height, n);
            scrolled_to(selected, first, height, n) == first
        }),
{
}

/// The smaller of two.
pub open spec fn at_most(a: usize, b: usize) -> usize {
    if a < b {
        a
    } else {
        b
    }
}

/// A row of numbers cut or filled up with zeros to a length.
pub open spec fn resized(v: Seq<usize>, n: nat) -> Seq<usize> {
    Seq::new(n, |i: int| if i < v.len() { v[i] } else { 0usize })
}

/// The landing page with its cursor on a card that is there.
pub open spec fn fitted_home(home: HomeView) -> HomeView {
    let n = home.shelves.len();
    let shelf = at_most(home.shelf, act::last_of(n));
    let scroll = resized(home.scroll, n);
    if n == 0 {
        HomeView { shelf, scroll, top: 0, ..home }
    } else {
        HomeView {
            shelf,
            scroll,
            card: at_most(home.card, act::last_of(home.shelves[shelf as int].cards.len())),
            ..home
        }
    }
}

/// Once fitted, the landing page has a card under its cursor wherever the shelf
/// has any, and a scroll position for each shelf.
pub proof fn fitted_cursor_is_on_a_card(home: HomeView)
    requires
        home.shelves.len() <= usize::MAX,
        forall|i: int|
            0 <= i < home.shelves.len() ==> (#[trigger] home.shelves[i]).cards.len() <= usize::MAX,
    ensures
        fitted_home(home).scroll.len() == home.shelves.len(),
        home.shelves.len() > 0 ==> fitted_home(home).shelf < home.shelves.len(),
        ({
            let f = fitted_home(home);
            home.shelves.len() > 0 && home.shelves[f.shelf as int].cards.len() > 0 ==> f.card
                < home.shelves[f.shelf as int].cards.len()
        }),
{
}

/// Unix milliseconds at which a track that is now at `position` started.
pub open spec fn started_ms(now_ms: u64, position: u64) -> u64 {
    if now_ms < position / 1_000_000 {
        0
    } else {
        (now_ms - position / 1_000_000) as u64
    }
}

/// A sum, or the largest number.
pub open spec fn sum_of(a: u64, b: u64) -> u64 {
    if a + b > u64::MAX {
        u64::MAX
    } else {
        (a + b) as u64
    }
}

impl AppView {
    /// With the track list fitted to a window.
    pub open spec fn fits_tracks(self, height: usize) -> AppView {
        AppView {
            list: ListView {
                offset: scrolled_to(
                    self.list.selected,
                    self.list.offset,
                    height,
                    self.list.results.len(),
                ),
                ..self.list
            },
            ..self
        }
    }

    /// With the library fitted to a window.
    pub open spec fn fits_playlists(self, height: usize) -> AppView {
        AppView {
            library: LibraryView {
                offset: scrolled_to(
                    self.library.selected,
                    self.library.offset,
                    height,
                    self.library.playlists.len(),
                ),
                ..self.library
            },
            ..self
        }
    }

    /// With the open panel fitted to a window. A list stops at its last row; a
    /// text stops one screenful short of its end.
    pub open spec fn fits_page(self, viewport: usize, total: usize, selects: bool) -> AppView {
        match self.session.now {
            Some(now) => {
                let last = if selects {
                    act::last_of(total as nat)
                } else {
                    act::up_to(total, viewport)
                };
                self.paged(Some(now.at_cursor(at_most(now.cursor[now.tab.place()], last))))
            },
            None => self,
        }
    }

    /// With the open panel where it scrolled itself to.
    pub open spec fn follows_page(self, offset: usize) -> AppView {
        match self.session.now {
            Some(now) => self.paged(Some(now.at_cursor(offset))),
            None => self,
        }
    }

    /// With the selected card of the landing page among those that fit.
    pub open spec fn fits_cards(self, cards: usize) -> AppView {
        if self.home.shelves.len() == 0 || cards == 0 {
            self
        } else {
            let shelf = self.home.shelf as int;
            let offset = self.home.scroll[shelf];
            let seen = if self.home.card < offset {
                self.home.card
            } else if self.home.card >= offset + cards {
                (self.home.card + 1 - cards) as usize
            } else {
                offset
            };
            let n = self.home.shelves[shelf].cards.len();
            let most = if n < cards {
                0
            } else {
                (n - cards) as usize
            };
            self.at_home(
                HomeView { scroll: self.home.scroll.update(shelf, at_most(seen, most)), ..self.home },
            )
        }
    }

    /// Asks for the artwork of the cards on screen that are not held yet.
    pub open spec fn wants_art(self, cards: Seq<(Seq<char>, Seq<char>)>) -> AppView
        decreases cards.len(),
    {
        if cards.len() == 0 {
            self
        } else {
            let before = self.wants_art(cards.drop_last());
            let (key, url) = cards.last();
            let wanted = AppView {
                pictures: PicturesView {
                    art: art::wanted(before.pictures.art, key),
                    ..before.pictures
                },
                ..before
            };
            if art::has_key(before.pictures.art, key) {
                wanted
            } else {
                wanted.sends(Request::Art { key, url })
            }
        }
    }

    /// Fetches the panel of an open tab that could not be fetched before.
    pub open spec fn ticks_page(self) -> AppView {
        if self.session.now is Some && (self.session.now->0.tab == Tab::Lyrics
            || self.session.now->0.tab == Tab::Related) {
            self.asks_tab()
        } else {
            self
        }
    }

    /// Whether a track has just ended: it played, and now nothing does, with
    /// no error to explain it.
    pub open spec fn has_ended(self) -> bool {
        &&& self.session.last_state == PlayState::Playing
        &&& self.seen.state == PlayState::Idle
        &&& self.seen.error is None
    }

    /// With the state of the player noted, and how much of the track has been
    /// heard.
    pub open spec fn notes_playback(self) -> AppView {
        AppView {
            session: SessionView {
                last_state: self.seen.state,
                listening: match self.session.listening {
                    Some((track, heard)) => if self.seen.state != PlayState::Idle
                        && self.seen.position > heard {
                        Some((track, self.seen.position))
                    } else {
                        Some((track, heard))
                    },
                    None => None,
                },
                ..self.session
            },
            ..self
        }
    }

    /// Moves the queue on when a track has ended, but not over a track that is
    /// on its way.
    pub open spec fn ticks_playback(self) -> AppView {
        if self.has_ended() {
            let over = self.notes_playback().heard_out();
            if over.session.pending is None {
                over.advances(1, true)
            } else {
                over
            }
        } else {
            self.notes_playback()
        }
    }

    /// What the Discord card should say at a time. There is none while nothing
    /// plays, and no clock while the bar could not move.
    pub open spec fn activity_at(self, now_ms: u64) -> Option<Activity<Seq<char>>> {
        if self.session.now is Some && self.seen.state != PlayState::Idle {
            let now = self.session.now->0;
            let start = started_ms(now_ms, self.seen.position);
            Some(
                Activity {
                    video_id: now.video_id,
                    title: now.title,
                    artist: if now.artist == UNKNOWN_ARTIST@ {
                        Seq::empty()
                    } else {
                        now.artist
                    },
                    album: now.album,
                    paused: self.seen.state == PlayState::Paused,
                    clock: if self.seen.state == PlayState::Paused || self.seen.state
                        == PlayState::Buffering {
                        None
                    } else {
                        Some(
                            Clock {
                                start_ms: start,
                                end_ms: match now.duration {
                                    Some(d) => Some(sum_of(start, d / 1_000_000)),
                                    None => None,
                                },
                            },
                        )
                    },
                },
            )
        } else {
            None
        }
    }

    /// Offers Discord the card of a time.
    pub open spec fn presents(self, now_ms: u64) -> AppView {
        AppView { presence: self.presence.published(self.activity_at(now_ms)), ..self }
    }

    /// The video that Enter would play.
    pub open spec fn selected_video(self) -> Option<Seq<char>> {
        match self.screen.view {
            View::Tracks => if self.list.selected < self.list.results.len() {
                Some(self.list.results[self.list.selected as int].id)
            } else {
                None
            },
            View::Home => match self.card_of() {
                Some(card) => match card.target {
                    Target::Play { video_id } => Some(video_id),
                    Target::Open { .. } => None,
                },
                None => None,
            },
            View::Playing => match self.session.now {
                Some(now) => {
                    let at = now.cursor[now.tab.place()];
                    if now.tab == Tab::UpNext && at < now.queue.len() {
                        Some(now.queue[at as int].id)
                    } else {
                        match now.next_of() {
                            Some(track) => Some(track.id),
                            None => None,
                        }
                    }
                },
                None => None,
            },
            View::Playlists => None,
        }
    }

    /// Whether the selection has sat still for long enough to be resolved ahead
    /// of time, with nothing else going on.
    pub open spec fn is_settled(self) -> bool {
        &&& !self.waits()
        &&& self.session.prefetching is None
        &&& self.screen.overlay is Closed
        &&& self.screen.selection_settled is Some
        &&& self.clock >= self.screen.selection_settled->0 + PREFETCH_IDLE
    }

    /// Resolves the selected track ahead of time, once it has settled. It is
    /// dealt with once, whatever comes of it.
    pub open spec fn ticks_prefetch(self) -> AppView {
        if self.is_settled() {
            let dealt = AppView {
                screen: Screen { selection_settled: None, ..self.screen },
                ..self
            };
            match self.selected_video() {
                Some(id) => if self.session.ready == Some(id) || !self.source.open {
                    dealt
                } else {
                    (AppView {
                        session: SessionView { prefetching: Some(id), ..dealt.session },
                        ..dealt
                    }).sends(Request::Prefetch { id })
                },
                None => dealt,
            }
        } else {
            self
        }
    }

    /// Whether the planned cover is not on screen yet.
    pub open spec fn paints(self) -> bool {
        &&& self.pictures.image is Some
        &&& self.pictures.painted != self.pictures.image
        &&& self.pictures.cover is Some
    }
}

fn smaller(a: usize, b: usize) -> (r: usize)
    ensures
        r == at_most(a, b),
{
    if a < b {
        a
    } else {
        b
    }
}

/// What a list of keys and addresses says.
pub open spec fn pairs_view(cards: Seq<(String, String)>) -> Seq<(Seq<char>, Seq<char>)> {
    Seq::new(cards.len(), |i: int| (cards[i].0@, cards[i].1@))
}

impl App {
    /// Keeps the selected track on screen, in a window so many rows tall.
    pub fn clamp_scroll(&mut self, height: usize)
        ensures
            final(self).view() == old(self).view().fits_tracks(height),
    {
        let n: usize = self.list.results.len();
        self.list.offset = scroll_to(self.list.selected, self.list.offset, height, n);
    }

    /// [`App::clamp_scroll`] for the playlists, which scroll separately.
    pub fn clamp_playlist_scroll(&mut self, height: usize)
        ensures
            final(self).view() == old(self).view().fits_playlists(height),
    {
        let n: usize = self.library.playlists.len();
        self.library.offset = scroll_to(self.library.selected, self.library.offset, height, n);
    }

    /// Clamps the cursor of the open panel, which is `total` long and of which
    /// `viewport` fits.
    pub fn clamp_page(&mut self, viewport: usize, total: usize, selects: bool)
        ensures
            final(self).view() == old(self).view().fits_page(viewport, total, selects),
    {
        if let Some(mut now) = self.take_page_off() {
            let last: usize = if selects {
                total.saturating_sub(1)
            } else {
                total.saturating_sub(viewport)
            };
            let to: usize = smaller(now.cursor(), last);
            now.set_cursor(to);
            self.set_page(Some(now));
        }
    }

    /// Puts the cursor of the open panel where the panel scrolled itself to.
    pub fn follow_page(&mut self, offset: usize)
        ensures
            final(self).view() == old(self).view().follows_page(offset),
    {
        if let Some(mut now) = self.take_page_off() {
            now.set_cursor(offset);
            self.set_page(Some(now));
        }
    }

    /// Keeps the cursor of the landing page on a card after the page has been
    /// replaced.
    pub fn clamp_home_selection(&mut self)
        ensures
            final(self).view() == old(self).view().at_home(fitted_home(old(self).view().home)),
    {
        let n: usize = self.home.shelves.len();
        let ghost before = self.home.scroll@;
        let mut scroll: Vec<usize> = Vec::new();
        while scroll.len() < n
            invariant
                scroll@.len() <= n,
                before == self.home.scroll@,
                scroll@ =~= resized(before, scroll@.len()),
            decreases n - scroll.len(),
        {
            let i: usize = scroll.len();
            if i < self.home.scroll.len() {
                scroll.push(self.home.scroll[i]);
            } else {
                scroll.push(0);
            }
        }
        self.home.scroll = scroll;
        self.home.shelf = smaller(self.home.shelf, n.saturating_sub(1));
        if n == 0 {
            self.home.top = 0;
            return;
        }
        let len: usize = self.home.shelves[self.home.shelf].cards.len();
        self.home.card = smaller(self.home.card, len.saturating_sub(1));
    }

    /// Keeps the selected card on screen, on a shelf of which so many cards
    /// fit. The cursor is on a shelf that is there.
    pub fn clamp_home_cards(&mut self, cards: usize)
        requires
            old(self).view().home.shelves.len() > 0 && cards > 0 ==> {
                &&& old(self).view().home.shelf < old(self).view().home.shelves.len()
                &&& old(self).view().home.shelf < old(self).view().home.scroll.len()
            },
        ensures
            final(self).view() == old(self).view().fits_cards(cards),
    {
        if self.home.shelves.len() == 0 || cards == 0 {
            return;
        }
        let shelf: usize = self.home.shelf;
        let len: usize = self.home.shelves[shelf].cards.len();
        let offset: usize = self.home.scroll[shelf];
        let seen: usize = if self.home.card < offset {
            self.home.card
        } else if self.home.card - offset >= cards {
            self.home.card - cards + 1
        } else {
            offset
        };
        self.home.scroll[shelf] = smaller(seen, len.saturating_sub(cards));
    }

    /// Asks for the artwork of the cards that have just been drawn.
    pub fn want_art(&mut self, cards: Vec<(String, String)>)
        ensures
            final(self).view() == old(self).view().wants_art(pairs_view(cards@)),
    {
        let ghost all = pairs_view(cards@);
        let ghost before = self.view();
        proof {
            assert(all.take(0) =~= Seq::empty());
        }
        for pair in it: cards
            invariant
                it.seq() == cards@,
                all == pairs_view(cards@),
                self.view() == before.wants_art(all.take(it.index())),
        {
            proof {
                let next = all.take(it.index() + 1);
                assert(next.drop_last() =~= all.take(it.index()));
                assert(next.last() == (pair.0@, pair.1@));
            }
            let (key, url) = pair;
            if self.pictures.art.want(key.as_str()) {
                let _ = self.send(Request::Art { key, url });
            }
        }
        proof {
            assert(all.take(all.len() as int) =~= all);
        }
    }

    /// Picks up a tab whose fetch could not be started when it was opened.
    pub fn tick_page(&mut self)
        ensures
            final(self).view() == old(self).view().ticks_page(),
    {
        let waiting = match &self.session.now {
            Some(now) => matches!(now.tab, Tab::Lyrics | Tab::Related),
            None => false,
        };
        if waiting {
            self.request_tab();
        }
    }

    fn note_playback(&mut self)
        ensures
            final(self).view() == old(self).view().notes_playback(),
    {
        self.session.last_state = self.seen.state;
        if self.seen.state != PlayState::Idle {
            if let Some((track, heard)) = self.session.listening.take() {
                let most: u64 = if self.seen.position > heard {
                    self.seen.position
                } else {
                    heard
                };
                self.session.listening = Some((track, most));
            }
        }
    }

    /// Moves the queue on when a track has ended.
    pub fn tick_playback(&mut self)
        ensures
            final(self).view() == old(self).view().ticks_playback(),
    {
        let ended = self.session.last_state == PlayState::Playing && self.seen.state
            == PlayState::Idle && self.seen.error.is_none();
        self.note_playback();
        if ended {
            self.finish_listening();
            if self.session.pending.is_none() {
                self.advance(1, true);
            }
        }
    }

    /// What the Discord card should say at a time.
    pub fn activity(&self, now_ms: u64) -> (r: Option<Activity>)
        ensures
            discord::card_view(r) == self.view().activity_at(now_ms),
    {
        match &self.session.now {
            None => None,
            Some(now) => {
                if self.seen.state == PlayState::Idle {
                    return None;
                }
                let paused = self.seen.state == PlayState::Paused;
                let clock = if paused || self.seen.state == PlayState::Buffering {
                    None
                } else {
                    let start_ms: u64 = now_ms.saturating_sub(self.seen.position / 1_000_000);
                    let end_ms = match now.duration {
                        Some(d) => Some(start_ms.saturating_add(d / 1_000_000)),
                        None => None,
                    };
                    Some(Clock { start_ms, end_ms })
                };
                let artist = if text::same(now.artist.as_str(), UNKNOWN_ARTIST) {
                    String::new()
                } else {
                    now.artist.clone()
                };
                proof {
                    if now.artist@ == UNKNOWN_ARTIST@ {
                        assert(artist@ =~= Seq::empty());
                    }
                }
                Some(
                    Activity {
                        video_id: now.video_id.clone(),
                        title: now.title.clone(),
                        artist,
                        album: text::clone_opt(&now.album),
                        paused,
                        clock,
                    },
                )
            },
        }
    }

    /// Offers Discord the card of a time.
    pub fn present_at(&mut self, now_ms: u64)
        ensures
            final(self).view() == old(self).view().presents(now_ms),
    {
        let activity = self.activity(now_ms);
        self.presence.publish(activity);
    }

    /// Offers Discord the card that should be showing now.
    pub fn tick_presence(&mut self)
        ensures
            exists|now_ms: u64| final(self).view() == #[trigger] old(self).view().presents(now_ms),
    {
        let now_ms: u64 = discord::now_ms();
        self.present_at(now_ms);
    }

    /// The video that Enter would play, if it would play any.
    fn selected_id(&self) -> (r: Option<String>)
        ensures
            text::opt_view(r) == self.view().selected_video(),
    {
        match self.screen.view {
            View::Tracks => {
                if self.list.selected < self.list.results.len() {
                    Some(self.list.results[self.list.selected].id.clone())
                } else {
                    None
                }
            },
            View::Home => match self.home_card() {
                Some(card) => match &card.target {
                    Target::Play { video_id } => Some(video_id.clone()),
                    Target::Open { .. } => None,
                },
                None => None,
            },
            View::Playing => match &self.session.now {
                Some(now) => {
                    let at: usize = now.cursor();
                    if now.tab == Tab::UpNext && at < now.queue.len() {
                        Some(now.queue[at].id.clone())
                    } else {
                        match now.next_in_queue() {
                            Some(track) => Some(track.id.clone()),
                            None => None,
                        }
                    }
                },
                None => None,
            },
            View::Playlists => None,
        }
    }

    /// Resolves the selected track ahead of time once the selection has sat
    /// still.
    pub fn tick_prefetch(&mut self)
        ensures
            final(self).view() == old(self).view().ticks_prefetch(),
    {
        if self.awaiting() || self.session.prefetching.is_some() || self.screen.overlay.is_open() {
            return;
        }
        let settled: u64 = match self.screen.selection_settled {
            Some(at) => at,
            None => {
                return;
            },
        };
        if self.clock < settled || self.clock - settled < PREFETCH_IDLE {
            return;
        }
        let selected = self.selected_id();
        self.screen.selection_settled = None;
        if let Some(id) = selected {
            if text::opt_same(&self.session.ready, id.as_str()) {
                return;
            }
            if self.send(Request::Prefetch { id: id.clone() }) {
                self.session.prefetching = Some(id);
            }
        }
    }

    /// The cover to paint as pixels, if what is planned is not on screen yet.
    pub fn image_to_paint(&self) -> (r: Option<(&Cover, ImagePlan)>)
        ensures
            match r {
                Some((cover, plan)) => {
                    &&& self.view().paints()
                    &&& self.view().pictures.cover == Some(*cover)
                    &&& self.view().pictures.image == Some(plan)
                },
                None => !self.view().paints(),
            },
    {
        match self.pictures.image {
            None => None,
            Some(plan) => {
                if let Some(painted) = self.pictures.painted {
                    if painted == plan {
                        return None;
                    }
                }
                match &self.pictures.cover {
                    Some(cover) => Some((cover, plan)),
                    None => None,
                }
            },
        }
    }

    /// Notes that what is planned is on screen.
    pub fn mark_painted(&mut self)
        ensures
            final(self).view() == (AppView {
                pictures: PicturesView {
                    painted: old(self).view().pictures.image,
                    ..old(self).view().pictures
                },
                ..old(self).view()
            }),
    {
        self.pictures.painted = self.pictures.image;
    }

    /// Whether pixels are on screen that no longer belong there.
    pub fn image_needs_clearing(&self) -> (r: bool)
        ensures
            r == (self.view().pictures.painted is Some && self.view().pictures.painted
                != self.view().pictures.image),
    {
        match self.pictures.painted {
            None => false,
            Some(painted) => match self.pictures.image {
                Some(plan) => painted != plan,
                None => true,
            },
        }
    }

    /// Forgets what is on screen, so that the next frame paints it again.
    pub fn invalidate_image(&mut self)
        ensures
            final(self).view() == (AppView {
                pictures: PicturesView { painted: None, ..old(self).view().pictures },
                ..old(self).view()
            }),
    {
        self.pictures.painted = None;
    }

    /// Takes what the source worker answered since the last frame, and then
    /// answers what the player asked for.
    pub fn poll_source(&mut self, responses: Vec<Response>, events: Vec<PlayerEvent>)
        ensures
            final(self).view() == old(self).view().applies_all(responses@).answers_all(events@),
    {
        let ghost before = self.view();
        proof {
            assert(responses@.take(0) =~= Seq::empty());
            assert(events@.take(0) =~= Seq::empty());
        }
        for response in it: responses
            invariant
                it.seq() == responses@,
                self.view() == before.applies_all(responses@.take(it.index())),
        {
            proof {
                let next = responses@.take(it.index() + 1);
                assert(next.drop_last() =~= responses@.take(it.index()));
                assert(next.last() == response);
            }
            self.apply(response);
        }
        proof {
            assert(responses@.take(responses@.len() as int) =~= responses@);
        }
        let ghost applied = self.view();
        for event in it: events
            invariant
                it.seq() == events@,
                self.view() == applied.answers_all(events@.take(it.index())),
        {
            proof {
                let next = events@.take(it.index() + 1);
                assert(next.drop_last() =~= events@.take(it.index()));
                assert(next.last() == event);
            }
            match event {
                PlayerEvent::NeedsUrl { id, from } => self.resume_track(id, from),
            }
        }
        proof {
            assert(events@.take(events@.len() as int) =~= events@);
        }
    }
}

/// The selected card of the landing page is among those that fit, and no gap is
/// left at the end of its shelf. No other shelf is moved.
pub proof fn selected_card_is_on_screen(app: AppView, cards: usize, other: int)
    requires
        cards > 0,
        app.home.shelf < app.home.shelves.len(),
        app.home.scroll.len() == app.home.shelves.len(),
        app.home.card < app.home.shelves[app.home.shelf as int].cards.len() <= usize::MAX,
        0 <= other < app.home.shelves.len(),
        other != app.home.shelf,
    ensures
        ({
            let after = app.fits_cards(cards).home;
            let first = after.scroll[app.home.shelf as int];
            let n = app.home.shelves[app.home.shelf as int].cards.len();
            &&& first <= app.home.card < first + cards
            &&& first == 0 || first + cards <= n
            &&& after.scroll[other] == app.home.scroll[other]
            &&& after.card == app.home.card
            &&& after.shelf == app.home.shelf
        }),
{
}

/// The cursor of a panel stays where it is as long as the panel reaches so far: a
/// list to its last row, a text to where its end is on screen.
pub proof fn panel_cursor_stays_inside(
    app: AppView,
    viewport: usize,
    total: usize,
    selects: bool,
)
    requires
        app.session.now is Some,
        app.session.now->0.cursor.len() == 4,
        total > 0,
    ensures
        ({
            let before = app.session.now->0;
            let after = app.fits_page(viewport, total, selects).session.now->0;
            let at = before.cursor[before.tab.place()];
            let now = after.cursor[before.tab.place()];
            &&& selects && at < total ==> now == at
            &&& selects && at >= total ==> now == total - 1
            &&& !selects && at + viewport <= total ==> now == at
            &&& !selects && at + viewport > total && total >= viewport ==> now == total - viewport
            &&& !selects && total < viewport ==> now == 0
            &&& after.tab == before.tab
            &&& after.queue == before.queue
        }),
{
}

/// A panel that scrolled itself is followed there.
pub proof fn panels_are_followed(app: AppView, offset: usize)
    requires
        app.session.now is Some,
        app.session.now->0.cursor.len() == 4,
    ensures
        app.follows_page(offset).session.now->0.cursor[app.session.now->0.tab.place()] == offset,
        app.follows_page(offset).session.now->0.follow_lyrics
            == app.session.now->0.follow_lyrics,
{
}

/// A cover is painted once where it is planned, and again when the plan changes;
/// without a cover or a plan nothing is.
pub proof fn covers_are_painted_once(app: AppView)
    ensures
        app.pictures.image is Some && app.pictures.painted is None && app.pictures.cover is Some
            ==> app.paints(),
        app.pictures.painted == app.pictures.image ==> !app.paints(),
        app.pictures.cover is None ==> !app.paints(),
{
}

/// What is resolved ahead of time is what Enter would play: the card of the
/// landing page, the row of the queue; and elsewhere on the player page what comes
/// next.
pub proof fn selection_is_what_would_play(app: AppView, at: int)
    ensures
        app.screen.view == View::Home && app.home.shelf < app.home.shelves.len() && app.home.card
            < app.home.shelves[app.home.shelf as int].cards.len() ==> {
            let card = app.home.shelves[app.home.shelf as int].cards[app.home.card as int];
            match card.target {
                Target::Play { video_id } => app.selected_video() == Some(video_id),
                Target::Open { .. } => app.selected_video() is None,
            }
        },
        app.screen.view == View::Playing && app.session.now is Some && app.session.now->0.tab
            == Tab::UpNext && app.session.now->0.cursor[0] < app.session.now->0.queue.len()
            ==> app.selected_video() == Some(
            app.session.now->0.queue[app.session.now->0.cursor[0] as int].id,
        ),
        app.screen.view == View::Playing && app.session.now is Some && app.session.now->0.tab
            != Tab::UpNext && app.session.now->0.playing == Some(at as usize) && 0 <= at && at + 1
            < app.session.now->0.queue.len() <= usize::MAX ==> app.selected_video() == Some(
            app.session.now->0.queue[at + 1].id,
        ),
        app.screen.view == View::Playlists ==> app.selected_video() is None,
{
}

/// Fitting the track list keeps the selected row on screen and fills the screen,
/// and so does fitting the library. Nothing else moves.
pub proof fn lists_are_fitted(app: AppView, height: usize)
    requires
        height > 0,
    ensures
        app.list.selected < app.list.results.len() <= usize::MAX ==> {
            let after = app.fits_tracks(height);
            let first = after.list.offset;
            &&& first <= app.list.selected < first + height
            &&& first == 0 || first + height <= app.list.results.len()
            &&& after == (AppView { list: ListView { offset: first, ..app.list }, ..app })
        },
        app.library.selected < app.library.playlists.len() <= usize::MAX ==> {
            let after = app.fits_playlists(height);
            let first = after.library.offset;
            &&& first <= app.library.selected < first + height
            &&& first == 0 || first + height <= app.library.playlists.len()
            &&& after == (AppView {
                library: LibraryView { offset: first, ..app.library },
                ..app
            })
        },
{
}

/// A cursor that points at a card stays on it when the landing page is fitted, and
/// one beyond the end comes back to the last.
pub proof fn fitting_keeps_the_card(home: HomeView)
    requires
        0 < home.shelves.len() <= usize::MAX,
        forall|i: int|
            0 <= i < home.shelves.len() ==> 0 < (#[trigger] home.shelves[i]).cards.len()
                <= usize::MAX,
    ensures
        ({
            let after = fitted_home(home);
            &&& home.shelf < home.shelves.len() ==> after.shelf == home.shelf
            &&& home.shelf >= home.shelves.len() ==> after.shelf == home.shelves.len() - 1
            &&& home.card < home.shelves[after.shelf as int].cards.len() ==> after.card == home.card
            &&& home.card >= home.shelves[after.shelf as int].cards.len() ==> after.card
                == home.shelves[after.shelf as int].cards.len() - 1
            &&& after.shelves == home.shelves
            &&& forall|i: int|
                0 <= i < home.shelves.len() && i < home.scroll.len() ==> (
                #[trigger] after.scroll[i]) == home.scroll[i]
        }),
{
}

} // verus!
