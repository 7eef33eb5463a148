//! Taking what the source worker answers.

use vstd::prelude::*;
use vstd::view::View as _;

use super::shelves;
use super::{
    App, AppView, HomeView, LibraryView, ListView, Mode, Overlay, PicturesView, Screen,
    SessionView, SignIn, View,
};
use crate::art;
use crate::cover::Cover;
use crate::now_playing;
use crate::now_playing::{NowView, Panel};
use crate::player::PlayerEvent;
use crate::source;
use crate::source::{Card, Comments, Lyrics, Playlist, Request, Response, Shelf, ShelfView, Track};
use crate::text;

verus! {

broadcast use vstd::string::group_string_axioms;

/// Whether a response is something the user is not waiting for.
pub open spec fn unasked(response: Response) -> bool {
    ||| response is Cover
    ||| response is Art
    ||| response is Prefetched
    ||| response is Resolved
    ||| response is Watch
    ||| response is MoreQueue
    ||| response is Lyrics
    ||| response is Related
    ||| response is Comments
}

/// A count in front of a noun.
pub open spec fn counted(n: nat, noun: Seq<char>) -> Seq<char> {
    text::decimal_of(n) + noun
}

/// The number of things, as a text.
fn count(n: usize, noun: &str) -> (r: String)
    ensures
        r@ == counted(n as nat, noun@),
{
    let mut r = text::decimal(n as u64);
    r.append(noun);
    r
}

/// The tracks that do not stand in a given row of a playlist.
pub open spec fn without_row(tracks: Seq<Track<Seq<char>>>, row: Seq<char>) -> Seq<
    Track<Seq<char>>,
>
    decreases tracks.len(),
{
    if tracks.len() == 0 {
        tracks
    } else {
        let rest = without_row(tracks.drop_last(), row);
        if tracks.last().playlist_item_id == Some(row) {
            rest
        } else {
            rest.push(tracks.last())
        }
    }
}

fn drop_row(tracks: Vec<Track>, row: &str) -> (r: Vec<Track>)
    ensures
        source::views(r@) == without_row(source::views(tracks@), row@),
{
    let ghost all = source::views(tracks@);
    let mut kept: Vec<Track> = Vec::new();
    proof {
        assert(source::views(kept@) =~= without_row(all.take(0), row@));
    }
    for track in it: tracks
        invariant
            it.seq() == tracks@,
            all == source::views(tracks@),
            source::views(kept@) == without_row(all.take(it.index()), row@),
    {
        let ghost before = kept@;
        proof {
            let next = all.take(it.index() + 1);
            assert(next.drop_last() =~= all.take(it.index()));
            assert(next.last() == track@);
        }
        if !text::opt_same(&track.playlist_item_id, row) {
            kept.push(track);
            proof {
                assert(source::views(kept@) =~= source::views(before).push(track@));
            }
        }
    }
    proof {
        assert(all.take(all.len() as int) =~= all);
    }
    kept
}

/// Where the first card filed under a key stands.
pub open spec fn card_place(cards: Seq<Card<Seq<char>>>, key: Seq<char>) -> Option<usize>
    decreases cards.len(),
{
    if cards.len() == 0 {
        None
    } else {
        match card_place(cards.drop_last(), key) {
            Some(at) => Some(at),
            None => if cards.last().key == key {
                Some((cards.len() - 1) as usize)
            } else {
                None
            },
        }
    }
}

/// The first shelf of a title that has a card filed under a key, and where that
/// card stands in it.
pub open spec fn card_found(
    shelves: Seq<ShelfView>,
    title: Seq<char>,
    key: Seq<char>,
) -> Option<(usize, usize)>
    decreases shelves.len(),
{
    if shelves.len() == 0 {
        None
    } else {
        match card_found(shelves.drop_last(), title, key) {
            Some(at) => Some(at),
            None => if shelves.last().title == title {
                match card_place(shelves.last().cards, key) {
                    Some(card) => Some(((shelves.len() - 1) as usize, card)),
                    None => None,
                }
            } else {
                None
            },
        }
    }
}

fn place_card(cards: &Vec<Card>, key: &str) -> (r: Option<usize>)
    ensures
        r == card_place(source::views(cards@), key@),
{
    let ghost all = source::views(cards@);
    let mut i: usize = 0;
    while i < cards.len()
        invariant
            i <= cards@.len(),
            all == source::views(cards@),
            card_place(all.take(i as int), key@) is None,
        decreases cards.len() - i,
    {
        proof {
            let next = all.take(i + 1);
            assert(next.drop_last() =~= all.take(i as int));
            assert(next.last() == cards@[i as int]@);
        }
        if text::same(cards[i].art_key(), key) {
            proof {
                lemma_card_place_stays(all, key@, i + 1);
            }
            return Some(i);
        }
        i += 1;
    }
    proof {
        assert(all.take(all.len() as int) =~= all);
    }
    None
}

proof fn lemma_card_place_stays(cards: Seq<Card<Seq<char>>>, key: Seq<char>, n: int)
    requires
        0 <= n <= cards.len(),
        card_place(cards.take(n), key) is Some,
    ensures
        card_place(cards, key) == card_place(cards.take(n), key),
    decreases cards.len() - n,
{
    if n < cards.len() {
        let next = cards.take(n + 1);
        assert(next.drop_last() =~= cards.take(n));
        lemma_card_place_stays(cards, key, n + 1);
    } else {
        assert(cards.take(n) =~= cards);
    }
}

fn find_card(shelves: &Vec<Shelf>, title: &str, key: &str) -> (r: Option<(usize, usize)>)
    ensures
        r == card_found(source::views(shelves@), title@, key@),
{
    let ghost all = source::views(shelves@);
    let mut i: usize = 0;
    while i < shelves.len()
        invariant
            i <= shelves@.len(),
            all == source::views(shelves@),
            card_found(all.take(i as int), title@, key@) is None,
        decreases shelves.len() - i,
    {
        proof {
            let next = all.take(i + 1);
            assert(next.drop_last() =~= all.take(i as int));
            assert(next.last() == shelves@[i as int]@);
        }
        if text::same(shelves[i].title.as_str(), title) {
            if let Some(card) = place_card(&shelves[i].cards, key) {
                proof {
                    lemma_card_found_stays(all, title@, key@, i + 1);
                }
                return Some((i, card));
            }
        }
        i += 1;
    }
    proof {
        assert(all.take(all.len() as int) =~= all);
    }
    None
}

proof fn lemma_card_found_stays(
    shelves: Seq<ShelfView>,
    title: Seq<char>,
    key: Seq<char>,
    n: int,
)
    requires
        0 <= n <= shelves.len(),
        card_found(shelves.take(n), title, key) is Some,
    ensures
        card_found(shelves, title, key) == card_found(shelves.take(n), title, key),
    decreases shelves.len() - n,
{
    if n < shelves.len() {
        let next = shelves.take(n + 1);
        assert(next.drop_last() =~= shelves.take(n));
        lemma_card_found_stays(shelves, title, key, n + 1);
    } else {
        assert(shelves.take(n) =~= shelves);
    }
}

/// So many zeros.
pub open spec fn zeros_of(n: nat) -> Seq<usize> {
    Seq::new(n, |i: int| 0usize)
}

fn zeros(n: usize) -> (r: Vec<usize>)
    ensures
        r@ == zeros_of(n as nat),
{
    let mut r: Vec<usize> = Vec::new();
    while r.len() < n
        invariant
            r@.len() <= n,
            r@ =~= zeros_of(r@.len()),
        decreases n - r.len(),
    {
        r.push(0);
    }
    r
}

/// The title and the key under the cursor, where the cursor has been moved.
pub open spec fn focus_of(home: HomeView) -> Option<(Seq<char>, Seq<char>)> {
    if (home.shelf > 0 || home.card > 0) && home.shelf < home.shelves.len() && home.card
        < home.shelves[home.shelf as int].cards.len() {
        Some(
            (
                home.shelves[home.shelf as int].title,
                home.shelves[home.shelf as int].cards[home.card as int].key,
            ),
        )
    } else {
        None
    }
}

/// The landing page with other shelves put in front of those that it holds, and
/// the whole put in order.
pub open spec fn merged_page(home: HomeView, personal: Seq<ShelfView>) -> Seq<ShelfView> {
    shelves::ordered(personal + home.shelves, home.order)
}

/// The landing page once other shelves have joined it. A cursor that had been
/// moved stays on its card.
pub open spec fn merged_home(home: HomeView, personal: Seq<ShelfView>) -> HomeView {
    let page = merged_page(home, personal);
    let found = match focus_of(home) {
        Some((title, key)) => card_found(page, title, key),
        None => None,
    };
    let fresh = HomeView {
        pending: false,
        shelves: page,
        scroll: zeros_of(page.len()),
        shelf: 0,
        card: 0,
        top: 0,
        ..home
    };
    match found {
        Some((shelf, card)) => HomeView {
            shelf,
            card,
            top: if home.top < shelf {
                home.top
            } else {
                shelf
            },
            ..fresh
        },
        None => fresh,
    }
}

/// What a fetched panel shows.
pub open spec fn fetched<T>(got: Result<T, String>) -> Panel<T, Seq<char>> {
    match got {
        Ok(value) => Panel::Ready(value),
        Err(why) => Panel::Empty(why@),
    }
}

/// What the fetched Related panel shows.
pub open spec fn fetched_related(got: Result<Vec<Shelf>, String>) -> Panel<
    Seq<ShelfView>,
    Seq<char>,
> {
    match got {
        Ok(shelves) => Panel::Ready(source::views(shelves@)),
        Err(why) => Panel::Empty(why@),
    }
}

/// A time later by so many seconds, or the latest time there is.
pub open spec fn seconds_later(at: u64, secs: u64) -> u64 {
    if at + secs * 1_000_000_000 > u64::MAX {
        u64::MAX
    } else {
        (at + secs * 1_000_000_000) as u64
    }
}

fn add_seconds(at: u64, secs: u64) -> (r: u64)
    ensures
        r == seconds_later(at, secs),
{
    let sum: u128 = at as u128 + secs as u128 * 1_000_000_000;
    if sum > u64::MAX as u128 {
        u64::MAX
    } else {
        sum as u64
    }
}

impl AppView {
    /// Shows a list of tracks from its top.
    pub open spec fn lists(
        self,
        results: Seq<Track<Seq<char>>>,
        open_playlist: Option<(Seq<char>, Seq<char>)>,
        browsing: Option<Seq<char>>,
    ) -> AppView {
        (AppView {
            list: ListView {
                results,
                selected: 0,
                offset: 0,
                open_playlist,
                browsing,
                ..self.list
            },
            ..self
        }).viewing(View::Tracks).settling()
    }

    /// With the keyboard moved to the list, where there is anything in it.
    pub open spec fn focused(self) -> AppView {
        if self.list.results.len() > 0 {
            self.in_mode(Mode::Browse)
        } else {
            self
        }
    }

    /// With a session, or without one.
    pub open spec fn signed(self, signed_in: bool) -> AppView {
        AppView { screen: Screen { signed_in, ..self.screen }, ..self }
    }

    /// With another landing page.
    pub open spec fn at_home(self, home: HomeView) -> AppView {
        AppView { home, ..self }
    }

    /// With the page around the playing track changed, where it is still the
    /// page of this track.
    #[verifier::opaque]
    pub open spec fn lyrics_shown(self, id: Seq<char>, lyrics: Panel<Lyrics, Seq<char>>) -> AppView {
        if self.shows(id) {
            self.paged(Some(NowView { lyrics, ..self.session.now->0 }))
        } else {
            self
        }
    }

    #[verifier::opaque]
    pub open spec fn comments_shown(
        self,
        id: Seq<char>,
        comments: Panel<Comments, Seq<char>>,
    ) -> AppView {
        if self.shows(id) {
            self.paged(Some(NowView { comments, ..self.session.now->0 }))
        } else {
            self
        }
    }

    #[verifier::opaque]
    pub open spec fn related_shown(
        self,
        id: Seq<char>,
        related: Panel<Seq<ShelfView>, Seq<char>>,
    ) -> AppView {
        if self.shows(id) {
            self.paged(Some(NowView { related, ..self.session.now->0 }))
        } else {
            self
        }
    }

    /// Takes the outcome of resolving a track ahead of time. It says something
    /// of that track only.
    #[verifier::opaque]
    pub open spec fn prefetched(self, id: Seq<char>, ready: bool) -> AppView {
        AppView {
            session: SessionView {
                prefetching: if self.session.prefetching == Some(id) {
                    None
                } else {
                    self.session.prefetching
                },
                ready: if ready {
                    Some(id)
                } else if self.session.ready == Some(id) {
                    None
                } else {
                    self.session.ready
                },
                ..self.session
            },
            ..self
        }
    }

    /// Takes the playlists. A picker that waits for them stays up.
    #[verifier::opaque]
    pub open spec fn takes_playlists(self, playlists: Seq<Playlist<Seq<char>>>) -> AppView {
        let held = (AppView {
            library: LibraryView { playlists, selected: 0, offset: 0 },
            ..self
        }).signed(true);
        if self.screen.overlay is AddTo {
            held.says("choose a playlist"@)
        } else if playlists.len() == 0 {
            held.says("no playlists"@)
        } else {
            held.viewing(View::Playlists).in_mode(Mode::Browse).says(
                counted(playlists.len(), " playlists"@),
            )
        }
    }

    /// Is signed out: the playlists go, and with them the one on screen.
    #[verifier::opaque]
    pub open spec fn signs_out(self) -> AppView {
        (AppView {
            library: LibraryView { playlists: Seq::empty(), selected: 0, offset: 0 },
            list: if self.list.open_playlist is Some {
                ListView {
                    open_playlist: None,
                    results: Seq::empty(),
                    selected: 0,
                    offset: 0,
                    ..self.list
                }
            } else {
                self.list
            },
            ..self
        }).signed(false).viewing(View::Tracks).says(
            "signed out (the grant is still listed at myaccount.google.com/permissions)"@,
        )
    }

    /// Takes a row out of the list.
    #[verifier::opaque]
    pub open spec fn removes(self, row: Seq<char>, title: Seq<char>) -> AppView {
        let results = without_row(self.list.results, row);
        let last = if results.len() == 0 {
            0
        } else {
            (results.len() - 1) as usize
        };
        (AppView {
            list: ListView {
                results,
                selected: if self.list.selected < last {
                    self.list.selected
                } else {
                    last
                },
                ..self.list
            },
            ..self
        }).says("removed "@ + title)
    }

    /// Takes the results of a search.
    #[verifier::opaque]
    pub open spec fn takes_results(self, tracks: Seq<Track<Seq<char>>>) -> AppView {
        self.says(
            if tracks.len() == 0 {
                "no results"@
            } else {
                counted(tracks.len(), " results"@)
            },
        ).lists(tracks, None, None).focused()
    }

    /// Takes what was opened from the landing page.
    #[verifier::opaque]
    pub open spec fn takes_browsed(
        self,
        title: Seq<char>,
        tracks: Seq<Track<Seq<char>>>,
    ) -> AppView {
        self.says(counted(tracks.len(), " tracks in "@) + title).lists(
            tracks,
            None,
            Some(title),
        ).in_mode(Mode::Browse)
    }

    /// Takes the tracks of a playlist.
    #[verifier::opaque]
    pub open spec fn takes_tracks(
        self,
        id: Seq<char>,
        title: Seq<char>,
        tracks: Seq<Track<Seq<char>>>,
    ) -> AppView {
        self.says(
            if tracks.len() == 0 {
                title + " is empty"@
            } else {
                counted(tracks.len(), " tracks in "@) + title
            },
        ).lists(tracks, Some((id, title)), None).focused()
    }

    /// Takes a fresh landing page.
    #[verifier::opaque]
    pub open spec fn takes_home(self, shelves: Seq<ShelfView>) -> AppView {
        self.says(
            if shelves.len() == 0 {
                "nothing came back from YouTube Music"@
            } else {
                "Enter to play, / to search, L for your library"@
            },
        ).at_home(
            HomeView {
                pending: false,
                shelves: shelves::ordered(shelves, self.home.order),
                scroll: zeros_of(shelves.len()),
                shelf: 0,
                card: 0,
                top: 0,
                ..self.home
            },
        ).settling()
    }

    /// Takes the personal shelves into the landing page, and says how many
    /// shelves there are then. None of them change nothing.
    #[verifier::opaque]
    pub open spec fn takes_personal(self, personal: Seq<ShelfView>) -> AppView {
        if personal.len() == 0 {
            self.at_home(HomeView { pending: false, ..self.home })
        } else {
            self.at_home(merged_home(self.home, personal)).says(
                counted(personal.len() + self.home.shelves.len(), " shelves"@),
            )
        }
    }

    /// Takes a failure.
    #[verifier::opaque]
    pub open spec fn fails(self, msg: Seq<char>) -> AppView {
        self.at_home(HomeView { pending: false, ..self.home }).reports(msg)
    }

    /// Takes a session that was read from a browser.
    #[verifier::opaque]
    pub open spec fn takes_session(self, browser: Seq<char>) -> AppView {
        self.says("read your YouTube session from "@ + browser).asks_home()
    }

    /// Says whether a track is liked now.
    #[verifier::opaque]
    pub open spec fn likes(self, title: Seq<char>, liked: bool) -> AppView {
        self.says(
            (if liked {
                "liked "@
            } else {
                "unliked "@
            }) + title,
        )
    }

    /// Takes a response that the user was waiting for.
    #[verifier::opaque]
    pub open spec fn takes_list(self, response: Response) -> AppView {
        match response {
            Response::Results(tracks) => self.takes_results(source::views(tracks@)),
            Response::Browsed { title, tracks } => self.takes_browsed(
                title@,
                source::views(tracks@),
            ),
            Response::PlaylistTracks { id, title, tracks } => self.takes_tracks(
                id@,
                title@,
                source::views(tracks@),
            ),
            Response::Removed { playlist_item_id, title } => self.removes(
                playlist_item_id@,
                title@,
            ),
            Response::Home(shelves) => self.takes_home(source::views(shelves@)),
            Response::PersonalShelves(personal) => self.takes_personal(
                source::views(personal@),
            ),
            Response::CookiesImported(browser) => self.takes_session(browser@),
            Response::Liked { title, liked } => self.likes(title@, liked),
            Response::Done(msg) => self.says(msg@),
            Response::Failed(msg) => self.fails(msg@),
            _ => self,
        }
    }

    /// Takes the code that the user has to type in.
    #[verifier::opaque]
    pub open spec fn takes_code(
        self,
        user_code: Seq<char>,
        url: Seq<char>,
        expires_in: u64,
    ) -> AppView {
        self.says("waiting for you to approve the sign-in ..."@).overlaid(
            Overlay::SignIn(
                SignIn::Waiting {
                    user_code,
                    url,
                    deadline: seconds_later(self.clock, expires_in),
                },
            ),
        )
    }

    /// Is signed in, and asks for the playlists.
    #[verifier::opaque]
    pub open spec fn is_signed_in(self) -> AppView {
        self.signed(true).overlaid(Overlay::Closed).says("signed in"@).asks(Request::Playlists)
    }

    /// Hears that the sign-in came to nothing.
    #[verifier::opaque]
    pub open spec fn is_refused(self, msg: Seq<char>) -> AppView {
        if msg.contains('\n') {
            self.signed(false).reports(msg)
        } else {
            self.signed(false).says(msg).overlaid(
                Overlay::SignIn(SignIn::Failed { reason: msg }),
            )
        }
    }

    /// Takes a response about signing in, or one that needed it.
    #[verifier::opaque]
    pub open spec fn takes_account(self, response: Response) -> AppView {
        match response {
            Response::DeviceCode { user_code, url, expires_in } => self.takes_code(
                user_code@,
                url@,
                expires_in,
            ),
            Response::SignedIn => self.is_signed_in(),
            Response::SignedOut => self.signs_out(),
            Response::NeedsSignIn => self.signed(false).signs_in(),
            Response::SignInFailed(msg) => self.is_refused(msg@),
            Response::Playlists(playlists) => self.takes_playlists(source::views(playlists@)),
            _ => self,
        }
    }

    /// Files the picture of a card.
    #[verifier::opaque]
    pub open spec fn files(self, key: Seq<char>, art: Option<Cover>) -> AppView {
        AppView {
            pictures: PicturesView {
                art: art::stored(self.pictures.art, key, art),
                ..self.pictures
            },
            ..self
        }
    }

    /// Takes the cover of the playing track; a cover of another is dropped.
    #[verifier::opaque]
    pub open spec fn covered(self, id: Seq<char>, art: Option<Cover>) -> AppView {
        if self.pictures.cover_id == Some(id) {
            AppView { pictures: PicturesView { cover: art, ..self.pictures }, ..self }
        } else {
            self
        }
    }

    /// Takes a response around what is playing or on screen.
    #[verifier::opaque]
    pub open spec fn takes_unasked(self, response: Response) -> AppView {
        match response {
            Response::Resolved { id, title, stream } => self.resolves(
                id@,
                title@,
                super::play::stream_view(stream),
            ),
            Response::Watch { video_id, watch, askable } => self.watches(
                video_id@,
                super::play::watch_view(watch),
                askable,
            ),
            Response::MoreQueue { epoch, page } => self.takes_page(
                epoch,
                super::play::page_view(page),
            ),
            Response::Lyrics { video_id, lyrics } => self.lyrics_shown(
                video_id@,
                fetched(lyrics),
            ),
            Response::Related { video_id, related } => self.related_shown(
                video_id@,
                fetched_related(related),
            ),
            Response::Comments { video_id, comments } => self.comments_shown(
                video_id@,
                fetched(comments),
            ),
            Response::Prefetched { id, ready } => self.prefetched(id@, ready),
            Response::Art { key, art } => self.files(key@, art),
            Response::Cover { id, art } => self.covered(id@, art),
            _ => self,
        }
    }

    /// Whether a response is about signing in, or needed it.
    pub open spec fn about_account(response: Response) -> bool {
        ||| response is DeviceCode
        ||| response is SignedIn
        ||| response is SignedOut
        ||| response is NeedsSignIn
        ||| response is SignInFailed
        ||| response is Playlists
    }

    /// Takes a response. Only one that the user was waiting for ends the wait.
    pub open spec fn applies(self, response: Response) -> AppView {
        if unasked(response) {
            self.takes_unasked(response)
        } else if AppView::about_account(response) {
            self.occupied(false).takes_account(response)
        } else {
            self.occupied(false).takes_list(response)
        }
    }

    /// Takes a run of responses, one after the other.
    pub open spec fn applies_all(self, responses: Seq<Response>) -> AppView
        decreases responses.len(),
    {
        if responses.len() == 0 {
            self
        } else {
            self.applies_all(responses.drop_last()).applies(responses.last())
        }
    }

    /// Answers a run of events of the player, one after the other.
    pub open spec fn answers_all(self, events: Seq<PlayerEvent>) -> AppView
        decreases events.len(),
    {
        if events.len() == 0 {
            self
        } else {
            let before = self.answers_all(events.drop_last());
            match events.last() {
                PlayerEvent::NeedsUrl { id, from } => before.resumes(id@, from),
            }
        }
    }
}

impl App {
    fn list(
        &mut self,
        results: Vec<Track>,
        open_playlist: Option<(String, String)>,
        browsing: Option<String>,
    )
        ensures
            final(self).view() == old(self).view().lists(
                source::views(results@),
                super::pair_view(open_playlist),
                text::opt_view(browsing),
            ),
    {
        self.list.results = results;
        self.list.selected = 0;
        self.list.offset = 0;
        self.list.open_playlist = open_playlist;
        self.list.browsing = browsing;
        self.show(View::Tracks);
        self.settle();
    }

    fn focus(&mut self)
        ensures
            final(self).view() == old(self).view().focused(),
    {
        if self.list.results.len() > 0 {
            self.enter(Mode::Browse);
        }
    }

    fn sign(&mut self, signed_in: bool)
        ensures
            final(self).view() == old(self).view().signed(signed_in),
    {
        self.screen.signed_in = signed_in;
    }

    fn set_busy(&mut self, busy: bool)
        ensures
            final(self).view() == old(self).view().occupied(busy),
    {
        self.screen.busy = busy;
    }

    /// Takes a fresh landing page.
    fn take_home(&mut self, shelves: Vec<Shelf>)
        ensures
            final(self).view() == old(self).view().at_home(
                HomeView {
                    pending: false,
                    shelves: source::views(shelves@),
                    scroll: zeros_of(shelves@.len()),
                    shelf: 0,
                    card: 0,
                    top: 0,
                    ..old(self).view().home
                },
            ),
    {
        self.home.pending = false;
        self.home.scroll = zeros(shelves.len());
        self.home.shelves = shelves;
        self.home.shelf = 0;
        self.home.card = 0;
        self.home.top = 0;
    }

    /// The title and the key under the cursor, where the cursor has been moved.
    fn focus_on_home(&self) -> (r: Option<(String, String)>)
        ensures
            super::pair_view(r) == focus_of(self.view().home),
    {
        if self.home.shelf > 0 || self.home.card > 0 {
            if self.home.shelf < self.home.shelves.len() {
                let shelf = &self.home.shelves[self.home.shelf];
                if self.home.card < shelf.cards.len() {
                    let card = &shelf.cards[self.home.card];
                    return Some((shelf.title.clone(), card.key.clone()));
                }
            }
        }
        None
    }

    /// Puts the personal shelves into the landing page.
    fn merge_home(&mut self, personal: Vec<Shelf>)
        ensures
            final(self).view() == old(self).view().at_home(
                merged_home(old(self).view().home, source::views(personal@)),
            ),
    {
        let focused = self.focus_on_home();
        let top: usize = self.home.top;
        let ghost first = source::views(personal@);
        let ghost held = source::views(self.home.shelves@);
        let mut feed: Vec<Shelf> = Vec::new();
        std::mem::swap(&mut feed, &mut self.home.shelves);
        let mut whole = personal;
        whole.append(&mut feed);
        proof {
            assert(source::views(whole@) =~= first + held);
        }
        let page = shelves::order_shelves(whole, &self.home.order);
        let found = match focused {
            Some((title, key)) => find_card(&page, title.as_str(), key.as_str()),
            None => None,
        };
        self.take_home(page);
        if let Some((shelf, card)) = found {
            self.home.shelf = shelf;
            self.home.card = card;
            self.home.top = if top < shelf {
                top
            } else {
                shelf
            };
        }
    }

    fn home_settled(&mut self)
        ensures
            final(self).view() == old(self).view().at_home(
                HomeView { pending: false, ..old(self).view().home },
            ),
    {
        self.home.pending = false;
    }

    fn remove_row(&mut self, row: String, title: String)
        ensures
            final(self).view() == old(self).view().removes(row@, title@),
    {
        reveal(AppView::removes);
        let mut held: Vec<Track> = Vec::new();
        std::mem::swap(&mut held, &mut self.list.results);
        let kept = drop_row(held, row.as_str());
        let last: usize = kept.len().saturating_sub(1);
        self.list.results = kept;
        if self.list.selected > last {
            self.list.selected = last;
        }
        self.say_text(text::join2("removed ", title.as_str()));
    }

    fn take_results(&mut self, tracks: Vec<Track>)
        ensures
            final(self).view() == old(self).view().takes_results(source::views(tracks@)),
    {
        reveal(AppView::takes_results);
        if tracks.len() == 0 {
            self.say("no results");
        } else {
            self.say_text(count(tracks.len(), " results"));
        }
        self.list(tracks, None, None);
        self.focus();
    }

    fn take_browsed(&mut self, title: String, tracks: Vec<Track>)
        ensures
            final(self).view() == old(self).view().takes_browsed(title@, source::views(tracks@)),
    {
        reveal(AppView::takes_browsed);
        let head = count(tracks.len(), " tracks in ");
        self.say_text(text::join2(head.as_str(), title.as_str()));
        self.list(tracks, None, Some(title));
        self.enter(Mode::Browse);
    }

    fn take_tracks(&mut self, id: String, title: String, tracks: Vec<Track>)
        ensures
            final(self).view() == old(self).view().takes_tracks(
                id@,
                title@,
                source::views(tracks@),
            ),
    {
        reveal(AppView::takes_tracks);
        if tracks.len() == 0 {
            self.say_text(text::join2(title.as_str(), " is empty"));
        } else {
            let head = count(tracks.len(), " tracks in ");
            self.say_text(text::join2(head.as_str(), title.as_str()));
        }
        self.list(tracks, Some((id, title)), None);
        self.focus();
    }

    fn take_page_home(&mut self, shelves: Vec<Shelf>)
        ensures
            final(self).view() == old(self).view().takes_home(source::views(shelves@)),
    {
        reveal(AppView::takes_home);
        if shelves.len() == 0 {
            self.say("nothing came back from YouTube Music");
        } else {
            self.say("Enter to play, / to search, L for your library");
        }
        proof {
            shelves::ordering_keeps_the_shelves(
                source::views(shelves@),
                source::views(self.home.order@),
            );
        }
        let page = shelves::order_shelves(shelves, &self.home.order);
        self.take_home(page);
        self.settle();
    }

    fn take_personal(&mut self, personal: Vec<Shelf>)
        ensures
            final(self).view() == old(self).view().takes_personal(source::views(personal@)),
    {
        reveal(AppView::takes_personal);
        if personal.len() == 0 {
            self.home_settled();
        } else {
            proof {
                shelves::ordering_keeps_the_shelves(
                    source::views(personal@) + self.view().home.shelves,
                    self.view().home.order,
                );
            }
            self.merge_home(personal);
            self.say_text(count(self.home.shelves.len(), " shelves"));
        }
    }

    fn take_session(&mut self, browser: String)
        ensures
            final(self).view() == old(self).view().takes_session(browser@),
    {
        reveal(AppView::takes_session);
        self.say_text(text::join2("read your YouTube session from ", browser.as_str()));
        self.request_home();
    }

    fn take_like(&mut self, title: String, liked: bool)
        ensures
            final(self).view() == old(self).view().likes(title@, liked),
    {
        reveal(AppView::likes);
        if liked {
            self.say_text(text::join2("liked ", title.as_str()));
        } else {
            self.say_text(text::join2("unliked ", title.as_str()));
        }
    }

    fn take_failure(&mut self, msg: String)
        ensures
            final(self).view() == old(self).view().fails(msg@),
    {
        reveal(AppView::fails);
        self.home_settled();
        self.report(msg);
    }

    /// Takes a response that the user was waiting for.
    fn take_list(&mut self, response: Response)
        requires
            !unasked(response),
            !AppView::about_account(response),
        ensures
            final(self).view() == old(self).view().takes_list(response),
    {
        reveal(AppView::takes_list);
        match response {
            Response::Results(tracks) => self.take_results(tracks),
            Response::Browsed { title, tracks } => self.take_browsed(title, tracks),
            Response::PlaylistTracks { id, title, tracks } => self.take_tracks(id, title, tracks),
            Response::Removed { playlist_item_id, title } => self.remove_row(
                playlist_item_id,
                title,
            ),
            Response::Home(shelves) => self.take_page_home(shelves),
            Response::PersonalShelves(personal) => self.take_personal(personal),
            Response::CookiesImported(browser) => self.take_session(browser),
            Response::Liked { title, liked } => self.take_like(title, liked),
            Response::Done(msg) => self.say_text(msg),
            Response::Failed(msg) => self.take_failure(msg),
            _ => {},
        }
    }

    fn take_playlists(&mut self, playlists: Vec<Playlist>)
        ensures
            final(self).view() == old(self).view().takes_playlists(source::views(playlists@)),
    {
        reveal(AppView::takes_playlists);
        let n: usize = playlists.len();
        self.library.playlists = playlists;
        self.library.selected = 0;
        self.library.offset = 0;
        self.sign(true);
        if matches!(self.screen.overlay, Overlay::AddTo { .. }) {
            self.say("choose a playlist");
        } else if n == 0 {
            self.say("no playlists");
        } else {
            self.show(View::Playlists);
            self.enter(Mode::Browse);
            self.say_text(count(n, " playlists"));
        }
    }

    fn take_sign_out(&mut self)
        ensures
            final(self).view() == old(self).view().signs_out(),
    {
        reveal(AppView::signs_out);
        self.library.playlists = Vec::new();
        self.library.selected = 0;
        self.library.offset = 0;
        if self.list.open_playlist.is_some() {
            self.list.open_playlist = None;
            self.list.results = Vec::new();
            self.list.selected = 0;
            self.list.offset = 0;
        }
        proof {
            assert(source::views(self.library.playlists@) =~= Seq::empty());
            if old(self).list.open_playlist is Some {
                assert(source::views(self.list.results@) =~= Seq::empty());
            }
        }
        self.sign(false);
        self.show(View::Tracks);
        self.say("signed out (the grant is still listed at myaccount.google.com/permissions)");
    }

    fn take_code(&mut self, user_code: String, url: String, expires_in: u64)
        ensures
            final(self).view() == old(self).view().takes_code(user_code@, url@, expires_in),
    {
        reveal(AppView::takes_code);
        self.say("waiting for you to approve the sign-in ...");
        let deadline: u64 = add_seconds(self.clock, expires_in);
        self.overlay(Overlay::SignIn(SignIn::Waiting { user_code, url, deadline }));
    }

    fn take_sign_in(&mut self)
        ensures
            final(self).view() == old(self).view().is_signed_in(),
    {
        reveal(AppView::is_signed_in);
        self.sign(true);
        self.overlay(Overlay::Closed);
        self.say("signed in");
        self.request_playlists();
    }

    fn take_refusal(&mut self, msg: String)
        ensures
            final(self).view() == old(self).view().is_refused(msg@),
    {
        reveal(AppView::is_refused);
        self.sign(false);
        if text::has_char(msg.as_str(), '\n') {
            self.report(msg);
        } else {
            self.say(msg.as_str());
            self.overlay(Overlay::SignIn(SignIn::Failed { reason: msg }));
        }
    }

    /// Takes a response about signing in, or one that needed it.
    fn take_account(&mut self, response: Response)
        requires
            AppView::about_account(response),
        ensures
            final(self).view() == old(self).view().takes_account(response),
    {
        reveal(AppView::takes_account);
        match response {
            Response::DeviceCode { user_code, url, expires_in } => self.take_code(
                user_code,
                url,
                expires_in,
            ),
            Response::SignedIn => self.take_sign_in(),
            Response::SignedOut => self.take_sign_out(),
            Response::NeedsSignIn => {
                self.sign(false);
                self.begin_sign_in();
            },
            Response::SignInFailed(msg) => self.take_refusal(msg),
            Response::Playlists(playlists) => self.take_playlists(playlists),
            _ => {},
        }
    }

    fn show_lyrics(&mut self, video_id: String, lyrics: Result<Lyrics, String>)
        ensures
            final(self).view() == old(self).view().lyrics_shown(video_id@, fetched(lyrics)),
    {
        reveal(AppView::lyrics_shown);
        if let Some(mut now) = self.take_page_off() {
            if text::same(now.video_id.as_str(), video_id.as_str()) {
                now.lyrics = now_playing::panel(lyrics);
            }
            self.set_page(Some(now));
        }
    }

    fn show_comments(&mut self, video_id: String, comments: Result<Comments, String>)
        ensures
            final(self).view() == old(self).view().comments_shown(video_id@, fetched(comments)),
    {
        reveal(AppView::comments_shown);
        if let Some(mut now) = self.take_page_off() {
            if text::same(now.video_id.as_str(), video_id.as_str()) {
                now.comments = now_playing::panel(comments);
            }
            self.set_page(Some(now));
        }
    }

    fn show_related(&mut self, video_id: String, related: Result<Vec<Shelf>, String>)
        ensures
            final(self).view() == old(self).view().related_shown(
                video_id@,
                fetched_related(related),
            ),
    {
        reveal(AppView::related_shown);
        if let Some(mut now) = self.take_page_off() {
            if text::same(now.video_id.as_str(), video_id.as_str()) {
                now.related = now_playing::panel(related);
            }
            self.set_page(Some(now));
        }
    }

    fn note_prefetch(&mut self, id: String, ready: bool)
        ensures
            final(self).view() == old(self).view().prefetched(id@, ready),
    {
        reveal(AppView::prefetched);
        if text::opt_same(&self.session.prefetching, id.as_str()) {
            self.session.prefetching = None;
        }
        if ready {
            self.session.ready = Some(id);
        } else if text::opt_same(&self.session.ready, id.as_str()) {
            self.session.ready = None;
        }
    }

    fn take_cover(&mut self, id: String, art: Option<Cover>)
        ensures
            final(self).view() == old(self).view().covered(id@, art),
    {
        reveal(AppView::covered);
        if text::opt_same(&self.pictures.cover_id, id.as_str()) {
            self.pictures.cover = art;
        }
    }

    fn take_art(&mut self, key: String, art: Option<Cover>)
        ensures
            final(self).view() == old(self).view().files(key@, art),
    {
        reveal(AppView::files);
        self.pictures.art.store(key, art);
    }

    /// Takes a response around what is playing or on screen.
    fn take_unasked(&mut self, response: Response)
        requires
            unasked(response),
        ensures
            final(self).view() == old(self).view().takes_unasked(response),
    {
        reveal(AppView::takes_unasked);
        match response {
            Response::Resolved { id, title, stream } => self.apply_resolved(id, title, stream),
            Response::Watch { video_id, watch, askable } => self.apply_watch(
                video_id,
                watch,
                askable,
            ),
            Response::MoreQueue { epoch, page } => self.apply_more_queue(epoch, page),
            Response::Lyrics { video_id, lyrics } => self.show_lyrics(video_id, lyrics),
            Response::Related { video_id, related } => self.show_related(video_id, related),
            Response::Comments { video_id, comments } => self.show_comments(video_id, comments),
            Response::Prefetched { id, ready } => self.note_prefetch(id, ready),
            Response::Art { key, art } => self.take_art(key, art),
            Response::Cover { id, art } => self.take_cover(id, art),
            _ => {},
        }
    }

    /// Takes a response of the source worker.
    pub fn apply(&mut self, response: Response)
        ensures
            final(self).view() == old(self).view().applies(response),
    {
        let free = matches!(
            response,
            Response::Cover { .. } | Response::Art { .. } | Response::Prefetched { .. }
                | Response::Resolved { .. } | Response::Watch { .. } | Response::MoreQueue { .. }
                | Response::Lyrics { .. } | Response::Related { .. } | Response::Comments { .. }
        );
        if free {
            self.take_unasked(response);
            return;
        }
        self.set_busy(false);
        let account = matches!(
            response,
            Response::DeviceCode { .. } | Response::SignedIn | Response::SignedOut
                | Response::NeedsSignIn | Response::SignInFailed(_) | Response::Playlists(_)
        );
        if account {
            self.take_account(response);
        } else {
            self.take_list(response);
        }
    }
}

} // verus!
