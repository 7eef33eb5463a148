//! Application state and input handling.
//!
//! Nothing here draws and nothing here waits. Searches and URL resolution go to
//! the source worker as requests, playback goes to the player as commands, and
//! both come back later as responses and as a snapshot. So [`App`] is a state:
//! a key, a response or the passing of time moves it on, and what is to be done
//! outside collects in its outboxes.
//!
//! Times are in nanoseconds of a clock that only goes forward.

use vstd::prelude::*;
use vstd::view::View as _;

pub mod act;
pub mod controls;
pub mod input;
pub mod laws;
pub mod menu;
pub mod mouse;
pub mod outcomes;
pub mod play;
pub mod respond;
pub mod scroll;
pub mod shelves;

use self::menu::Menu;
use self::mouse::Region;
use crate::art::{ArtCache, Entry};
use crate::config::{CoverStyle, IconTheme, Settings};
use crate::cover::Cover;
use crate::discord::{Presence, PresenceView};
use crate::graphics::Graphics;
use crate::now_playing::{NowPlaying, NowView};
use crate::player::{Command, PlayState, Snapshot, SnapshotView};
use crate::source;
use crate::source::{Card, Outbox, OutboxView, Playlist, Request, Shelf, ShelfView, Track};
use crate::text;

verus! {

broadcast use vstd::string::group_string_axioms;

/// How many results a search asks for: one page of the service.
pub const SEARCH_LIMIT: usize = 20;

/// How long the selection must sit still before it is resolved ahead of time.
pub const PREFETCH_IDLE: u64 = 400_000_000;

/// One step of the volume, in percent.
pub const VOLUME_STEP: u16 = 5;

/// Tracks the queue may skip past in a row before it gives up.
pub const MAX_AUTO_SKIPS: u8 = 3;

/// What is said when the source worker is gone.
pub const NO_WORKER: &'static str = "source worker is not running";

/// How much of the window the cover is allowed.
#[derive(Debug, Clone, Copy, PartialEq, Eq, Structural)]
pub enum CoverSize {
    /// A pane beside the results.
    Side,
    /// The whole main area.
    Full,
}

impl Default for CoverSize {
    fn default() -> (r: Self)
        ensures
            r == CoverSize::Side,
    {
        CoverSize::Side
    }
}

impl CoverSize {
    /// The other size.
    pub open spec fn other(self) -> CoverSize {
        match self {
            CoverSize::Side => CoverSize::Full,
            CoverSize::Full => CoverSize::Side,
        }
    }

    pub fn toggled(self) -> (r: Self)
        ensures
            r == self.other(),
    {
        match self {
            CoverSize::Side => CoverSize::Full,
            CoverSize::Full => CoverSize::Side,
        }
    }
}

/// How a landing-page card is drawn.
#[derive(Debug, Clone, Copy, PartialEq, Eq, PartialOrd, Ord, Structural)]
pub enum CardShape {
    /// Title and subtitle only.
    Text,
    /// A small square sleeve to the left of the text.
    Tile,
    /// The sleeve across the top of the card, with the text beneath it.
    Poster,
    /// A poster with half again the sleeve.
    Gallery,
}

impl CardShape {
    /// Largest first, which is the order in which they are tried.
    pub const ALL: [CardShape; 4] = [
        CardShape::Gallery,
        CardShape::Poster,
        CardShape::Tile,
        CardShape::Text,
    ];
}

/// Where and how large the cover should be painted.
#[derive(Debug, Clone, Copy, PartialEq, Eq, Structural)]
pub struct ImagePlan {
    /// Top-left cell of the image.
    pub col: u16,
    pub row: u16,
    /// Size in pixels, a whole number of cells.
    pub width: u16,
    pub height: u16,
}

/// Which pane owns keyboard input.
#[derive(Debug, Clone, Copy, PartialEq, Eq, Structural)]
pub enum Mode {
    /// Navigating. Single-key commands are active.
    Browse,
    /// Typing a query.
    Editing,
}

/// Which list the main pane is showing.
#[derive(Debug, Clone, Copy, PartialEq, Eq, Structural)]
pub enum View {
    /// The landing page: shelves of cards.
    Home,
    /// Tracks: search results, or the contents of an opened list.
    Tracks,
    /// The signed-in user's playlists.
    Playlists,
    /// The player page.
    Playing,
}

/// How far along the sign-in is.
#[derive(Debug)]
pub enum SignIn<S = String> {
    /// Asked, but there is no code yet.
    Connecting { started: u64 },
    /// The code is on screen.
    Waiting { user_code: S, url: S, deadline: u64 },
    /// It failed, and this is why.
    Failed { reason: S },
}

/// A modal that owns keyboard input for as long as it is up.
#[derive(Debug)]
pub enum Overlay<S = String> {
    Closed,
    /// The sign-in panel. Dismissing it does not cancel the sign-in.
    SignIn(SignIn<S>),
    /// Choosing which playlist to add a track to.
    AddTo { video_id: S, title: S, selected: usize },
    /// A message too long for the status bar.
    Message { body: S },
    /// A menu, and the row that its cursor is on.
    Menu { menu: Menu, selected: usize },
    /// The settings panel, and the row that its cursor is on.
    Settings { selected: usize },
}

impl SignIn {
    pub open spec fn view(&self) -> SignIn<Seq<char>> {
        match self {
            SignIn::Connecting { started } => SignIn::Connecting { started: *started },
            SignIn::Waiting { user_code, url, deadline } => SignIn::Waiting {
                user_code: user_code@,
                url: url@,
                deadline: *deadline,
            },
            SignIn::Failed { reason } => SignIn::Failed { reason: reason@ },
        }
    }
}

impl Overlay {
    pub open spec fn view(&self) -> Overlay<Seq<char>> {
        match self {
            Overlay::Closed => Overlay::Closed,
            Overlay::SignIn(phase) => Overlay::SignIn(phase.view()),
            Overlay::AddTo { video_id, title, selected } => Overlay::AddTo {
                video_id: video_id@,
                title: title@,
                selected: *selected,
            },
            Overlay::Message { body } => Overlay::Message { body: body@ },
            Overlay::Menu { menu, selected } => Overlay::Menu { menu: *menu, selected: *selected },
            Overlay::Settings { selected } => Overlay::Settings { selected: *selected },
        }
    }

    /// Whether a modal is up.
    pub fn is_open(&self) -> (r: bool)
        ensures
            r == !(self is Closed),
    {
        !matches!(self, Overlay::Closed)
    }
}

/// A track being recovered mid-play, and where playback has to pick up.
#[derive(Debug)]
pub struct Resuming<S = String> {
    pub id: S,
    pub from: u64,
}

/// What is on screen, apart from the lists themselves.
#[derive(Debug)]
pub struct Screen<S = String> {
    pub mode: Mode,
    pub view: View,
    /// The view to return to from the player page.
    pub back_to: View,
    /// The line in the status bar.
    pub status: S,
    pub overlay: Overlay<S>,
    pub cover_size: CoverSize,
    /// When the selection last moved, until it has been dealt with.
    pub selection_settled: Option<u64>,
    /// True between a request and its response.
    pub busy: bool,
    pub signed_in: bool,
    pub should_quit: bool,
    /// Set to let go of the terminal.
    pub wants_background: bool,
    /// Set to take the terminal back.
    pub wants_foreground: bool,
}

/// The list of tracks, and the query that it may have come from.
#[derive(Debug)]
pub struct TrackList {
    pub query: String,
    /// The video that the query names, where it is a link to one.
    pub link: Option<String>,
    pub results: Vec<Track>,
    /// Index into `results`. Means nothing while `results` is empty.
    pub selected: usize,
    /// First visible row.
    pub offset: usize,
    /// Title of what was opened from the landing page.
    pub browsing: Option<String>,
    /// Id and title of the playlist that `results` came from.
    pub open_playlist: Option<(String, String)>,
}

/// What a [`TrackList`] holds.
pub struct ListView {
    pub query: Seq<char>,
    pub link: Option<Seq<char>>,
    pub results: Seq<Track<Seq<char>>>,
    pub selected: usize,
    pub offset: usize,
    pub browsing: Option<Seq<char>>,
    pub open_playlist: Option<(Seq<char>, Seq<char>)>,
}

/// The landing page: shelves of cards, and a cursor in them.
#[derive(Debug)]
pub struct HomePage {
    pub shelves: Vec<Shelf>,
    /// The shelf and the card that the cursor is on.
    pub shelf: usize,
    pub card: usize,
    /// First visible shelf.
    pub top: usize,
    /// First visible card of each shelf.
    pub scroll: Vec<usize>,
    /// True between asking for the page and hearing back.
    pub pending: bool,
    /// Steps the seeds of the page.
    pub rotation: usize,
    /// Whether a session import has been asked for.
    pub imported: bool,
    /// The titles of the shelves that have a place of their own, in order.
    pub order: Vec<String>,
}

/// What a [`HomePage`] holds.
pub struct HomeView {
    pub shelves: Seq<ShelfView>,
    pub shelf: usize,
    pub card: usize,
    pub top: usize,
    pub scroll: Seq<usize>,
    pub pending: bool,
    pub rotation: usize,
    pub imported: bool,
    pub order: Seq<Seq<char>>,
}

/// The playlists of the signed-in user.
#[derive(Debug)]
pub struct Library {
    pub playlists: Vec<Playlist>,
    pub selected: usize,
    pub offset: usize,
}

/// What a [`Library`] holds.
pub struct LibraryView {
    pub playlists: Seq<Playlist<Seq<char>>>,
    pub selected: usize,
    pub offset: usize,
}

/// The pictures that are held, and where they are painted.
#[derive(Debug)]
pub struct Pictures {
    /// The picture of the track being played.
    pub cover: Option<Cover>,
    /// The track that the picture belongs to.
    pub cover_id: Option<String>,
    /// What the terminal can draw.
    pub graphics: Graphics,
    /// Where the cover should be painted as pixels.
    pub image: Option<ImagePlan>,
    /// Where pixels are on screen.
    pub painted: Option<ImagePlan>,
    pub art: ArtCache,
}

/// What [`Pictures`] hold.
pub struct PicturesView {
    pub cover: Option<Cover>,
    pub cover_id: Option<Seq<char>>,
    pub graphics: Graphics,
    pub image: Option<ImagePlan>,
    pub painted: Option<ImagePlan>,
    pub art: Seq<Entry>,
}

/// What is being played, loaded and listened to.
#[derive(Debug)]
pub struct Session {
    /// What is playing and the page around it.
    pub now: Option<NowPlaying>,
    /// The track that the user is waiting to hear.
    pub pending: Option<String>,
    /// A track whose stream died, waiting on a fresh URL.
    pub resuming: Option<Resuming>,
    /// The track being listened to, and the furthest into it playback has got.
    pub listening: Option<(Track, u64)>,
    /// Whether the queue is playing itself.
    pub auto: bool,
    /// Tracks in a row that the queue has skipped past.
    pub skips: u8,
    /// The last queue epoch handed out.
    pub queue_epoch: u64,
    /// Steps the seed that a new station is built from.
    pub seed_rotation: usize,
    /// The state of the player as of the last frame.
    pub last_state: PlayState,
    /// The id being resolved ahead of time.
    pub prefetching: Option<String>,
    /// An id known to play at once.
    pub ready: Option<String>,
}

/// What a [`Session`] holds.
pub struct SessionView {
    pub now: Option<NowView>,
    pub pending: Option<Seq<char>>,
    pub resuming: Option<Resuming<Seq<char>>>,
    pub listening: Option<(Track<Seq<char>>, u64)>,
    pub auto: bool,
    pub skips: u8,
    pub queue_epoch: u64,
    pub seed_rotation: usize,
    pub last_state: PlayState,
    pub prefetching: Option<Seq<char>>,
    pub ready: Option<Seq<char>>,
}

/// The state of the program.
#[derive(Debug)]
pub struct App {
    pub screen: Screen,
    pub list: TrackList,
    pub home: HomePage,
    pub library: Library,
    pub pictures: Pictures,
    pub session: Session,
    /// The card on the user's Discord profile.
    pub presence: Presence,
    /// Where the presence switch is to be remembered as standing.
    pub presence_setting: Option<bool>,
    pub settings: Settings,
    /// The preferences that are to be remembered.
    pub settings_changed: Option<Settings>,
    /// Where things are on screen.
    pub layout: Vec<Region>,
    /// The player, as it was last seen.
    pub seen: Snapshot,
    /// The time, as it was last told.
    pub clock: u64,
    /// Commands on their way to the player.
    pub commands: Vec<Command>,
    /// Requests on their way to the source worker.
    pub source: Outbox,
}

/// What an [`App`] holds.
pub struct AppView {
    pub screen: Screen<Seq<char>>,
    pub list: ListView,
    pub home: HomeView,
    pub library: LibraryView,
    pub pictures: PicturesView,
    pub session: SessionView,
    pub presence: PresenceView,
    pub presence_setting: Option<bool>,
    pub settings: Settings,
    pub settings_changed: Option<Settings>,
    pub layout: Seq<Region>,
    pub seen: SnapshotView,
    pub clock: u64,
    pub commands: Seq<Command<Seq<char>>>,
    pub source: OutboxView,
}

/// What an optional page holds.
pub open spec fn now_view(now: Option<NowPlaying>) -> Option<NowView> {
    match now {
        Some(now) => Some(now@),
        None => None,
    }
}

/// What a pair of strings says.
pub open spec fn pair_view(pair: Option<(String, String)>) -> Option<(Seq<char>, Seq<char>)> {
    match pair {
        Some((a, b)) => Some((a@, b@)),
        None => None,
    }
}

/// What is being listened to.
pub open spec fn listening_view(listening: Option<(Track, u64)>) -> Option<
    (Track<Seq<char>>, u64),
> {
    match listening {
        Some((track, heard)) => Some((track@, heard)),
        None => None,
    }
}

/// What is being recovered.
pub open spec fn resuming_view(resuming: Option<Resuming>) -> Option<Resuming<Seq<char>>> {
    match resuming {
        Some(r) => Some(Resuming { id: r.id@, from: r.from }),
        None => None,
    }
}

impl Screen {
    pub open spec fn view(&self) -> Screen<Seq<char>> {
        Screen {
            mode: self.mode,
            view: self.view,
            back_to: self.back_to,
            status: self.status@,
            overlay: self.overlay.view(),
            cover_size: self.cover_size,
            selection_settled: self.selection_settled,
            busy: self.busy,
            signed_in: self.signed_in,
            should_quit: self.should_quit,
            wants_background: self.wants_background,
            wants_foreground: self.wants_foreground,
        }
    }
}

impl TrackList {
    pub open spec fn view(&self) -> ListView {
        ListView {
            query: self.query@,
            link: text::opt_view(self.link),
            results: source::views(self.results@),
            selected: self.selected,
            offset: self.offset,
            browsing: text::opt_view(self.browsing),
            open_playlist: pair_view(self.open_playlist),
        }
    }
}

impl HomePage {
    pub open spec fn view(&self) -> HomeView {
        HomeView {
            shelves: source::views(self.shelves@),
            shelf: self.shelf,
            card: self.card,
            top: self.top,
            scroll: self.scroll@,
            pending: self.pending,
            rotation: self.rotation,
            imported: self.imported,
            order: source::views(self.order@),
        }
    }
}

impl Library {
    pub open spec fn view(&self) -> LibraryView {
        LibraryView {
            playlists: source::views(self.playlists@),
            selected: self.selected,
            offset: self.offset,
        }
    }
}

impl Pictures {
    pub open spec fn view(&self) -> PicturesView {
        PicturesView {
            cover: self.cover,
            cover_id: text::opt_view(self.cover_id),
            graphics: self.graphics,
            image: self.image,
            painted: self.painted,
            art: self.art@,
        }
    }
}

impl Session {
    pub open spec fn view(&self) -> SessionView {
        SessionView {
            now: now_view(self.now),
            pending: text::opt_view(self.pending),
            resuming: resuming_view(self.resuming),
            listening: listening_view(self.listening),
            auto: self.auto,
            skips: self.skips,
            queue_epoch: self.queue_epoch,
            seed_rotation: self.seed_rotation,
            last_state: self.last_state,
            prefetching: text::opt_view(self.prefetching),
            ready: text::opt_view(self.ready),
        }
    }
}

impl App {
    pub open spec fn view(&self) -> AppView {
        AppView {
            screen: self.screen.view(),
            list: self.list.view(),
            home: self.home.view(),
            library: self.library.view(),
            pictures: self.pictures.view(),
            session: self.session.view(),
            presence: self.presence@,
            presence_setting: self.presence_setting,
            settings: self.settings,
            settings_changed: self.settings_changed,
            layout: self.layout@,
            seen: self.seen@,
            clock: self.clock,
            commands: source::views(self.commands@),
            source: self.source@,
        }
    }
}

impl AppView {
    /// Says something in the status bar.
    pub open spec fn says(self, status: Seq<char>) -> AppView {
        AppView { screen: Screen { status, ..self.screen }, ..self }
    }

    /// With a modal up, or with none.
    pub open spec fn overlaid(self, overlay: Overlay<Seq<char>>) -> AppView {
        AppView { screen: Screen { overlay, ..self.screen }, ..self }
    }

    /// Showing a view.
    pub open spec fn viewing(self, view: View) -> AppView {
        AppView { screen: Screen { view, ..self.screen }, ..self }
    }

    /// With the keyboard in a mode.
    pub open spec fn in_mode(self, mode: Mode) -> AppView {
        AppView { screen: Screen { mode, ..self.screen }, ..self }
    }

    /// With or without a request that the user waits for.
    pub open spec fn occupied(self, busy: bool) -> AppView {
        AppView { screen: Screen { busy, ..self.screen }, ..self }
    }

    /// With the selection having moved just now.
    pub open spec fn settling(self) -> AppView {
        AppView { screen: Screen { selection_settled: Some(self.clock), ..self.screen }, ..self }
    }

    /// With another player page, or with none.
    pub open spec fn paged(self, now: Option<NowView>) -> AppView {
        AppView { session: SessionView { now, ..self.session }, ..self }
    }

    /// Sends a request, if the worker is there.
    pub open spec fn sends(self, request: Request<Seq<char>>) -> AppView {
        AppView { source: self.source.sent(request), ..self }
    }

    /// Sends the player a command.
    pub open spec fn orders(self, command: Command<Seq<char>>) -> AppView {
        AppView { commands: self.commands.push(command), ..self }
    }

    /// Sends a request that the user waits for, or says that the worker is
    /// gone.
    pub open spec fn asks(self, request: Request<Seq<char>>) -> AppView {
        if self.source.open {
            self.occupied(true).sends(request)
        } else {
            self.occupied(false).says(NO_WORKER@)
        }
    }

    /// Asks for the landing page, then for the personal shelves, then once for
    /// a session to build them from.
    pub open spec fn asks_home(self) -> AppView {
        if self.source.open {
            let asked = (AppView {
                home: HomeView { pending: true, imported: true, ..self.home },
                ..self
            }).sends(Request::Home).sends(
                Request::PersonalShelves { rotation: self.home.rotation },
            );
            if self.home.imported {
                asked
            } else {
                asked.sends(Request::ImportCookies { force: false })
            }
        } else {
            (AppView { home: HomeView { pending: false, ..self.home }, ..self }).says(NO_WORKER@)
        }
    }

    /// Shows a failure where it will be read: in the status bar, or in an
    /// overlay where it runs to more than a line.
    pub open spec fn reports(self, msg: Seq<char>) -> AppView {
        if msg.contains('\n') {
            self.says("press Esc to dismiss"@).overlaid(Overlay::Message { body: msg })
        } else {
            self.says(msg)
        }
    }

    /// Starts signing in, with the panel up from the first moment.
    pub open spec fn signs_in(self) -> AppView {
        if self.source.open {
            self.says("signing in with Google ..."@).overlaid(
                Overlay::SignIn(SignIn::Connecting { started: self.clock }),
            ).sends(Request::SignIn)
        } else {
            self.says(NO_WORKER@).overlaid(
                Overlay::SignIn(SignIn::Failed { reason: NO_WORKER@ }),
            )
        }
    }

    /// The program as it starts, before it asks for anything.
    pub open spec fn fresh(
        graphics: Graphics,
        signed_in: bool,
        presence: PresenceView,
        seen: SnapshotView,
        clock: u64,
        open: bool,
    ) -> AppView {
        AppView {
            screen: Screen {
                mode: Mode::Browse,
                view: View::Home,
                back_to: View::Home,
                status: "loading the home feed ..."@,
                overlay: Overlay::Closed,
                cover_size: CoverSize::Side,
                selection_settled: None,
                busy: false,
                signed_in,
                should_quit: false,
                wants_background: false,
                wants_foreground: false,
            },
            list: ListView {
                query: Seq::empty(),
                link: None,
                results: Seq::empty(),
                selected: 0,
                offset: 0,
                browsing: None,
                open_playlist: None,
            },
            home: HomeView {
                shelves: Seq::empty(),
                shelf: 0,
                card: 0,
                top: 0,
                scroll: Seq::empty(),
                pending: false,
                rotation: 0,
                imported: false,
                order: Seq::empty(),
            },
            library: LibraryView { playlists: Seq::empty(), selected: 0, offset: 0 },
            pictures: PicturesView {
                cover: None,
                cover_id: None,
                graphics,
                image: None,
                painted: None,
                art: Seq::empty(),
            },
            session: SessionView {
                now: None,
                pending: None,
                resuming: None,
                listening: None,
                auto: false,
                skips: 0,
                queue_epoch: 0,
                seed_rotation: 0,
                last_state: PlayState::Idle,
                prefetching: None,
                ready: None,
            },
            presence,
            presence_setting: None,
            settings: Settings::unchosen(),
            settings_changed: None,
            layout: Seq::empty(),
            seen,
            clock,
            commands: Seq::empty(),
            source: OutboxView { open, requests: Seq::empty() },
        }
    }

    /// The card under the cursor on the landing page.
    pub open spec fn card_of(self) -> Option<Card<Seq<char>>> {
        if self.home.shelf < self.home.shelves.len() && self.home.card
            < self.home.shelves[self.home.shelf as int].cards.len() {
            Some(self.home.shelves[self.home.shelf as int].cards[self.home.card as int])
        } else {
            None
        }
    }

    /// What the list pane is called.
    pub open spec fn title_of(self) -> Seq<char> {
        match self.screen.view {
            View::Home => " home "@,
            View::Playlists => " library "@,
            View::Playing => " now playing "@,
            View::Tracks => match (self.list.open_playlist, self.list.browsing) {
                (Some((_, title)), _) => " "@ + title + " "@,
                (None, Some(title)) => " "@ + title + " "@,
                (None, None) => " results "@,
            },
        }
    }

    /// Whether the user is waiting on something.
    pub open spec fn waits(self) -> bool {
        self.screen.busy || self.session.pending is Some
    }
}

impl App {
    /// The program as it starts. The landing page is asked for before the first
    /// frame. `open` is whether the source worker is there.
    pub fn new(
        graphics: Graphics,
        signed_in: bool,
        presence: Presence,
        seen: Snapshot,
        clock: u64,
        open: bool,
    ) -> (r: Self)
        ensures
            r.view() == AppView::fresh(
                graphics,
                signed_in,
                presence@,
                seen@,
                clock,
                open,
            ).asks_home(),
    {
        let mut app = App {
            screen: Screen {
                mode: Mode::Browse,
                view: View::Home,
                back_to: View::Home,
                status: "loading the home feed ...".to_owned(),
                overlay: Overlay::Closed,
                cover_size: CoverSize::Side,
                selection_settled: None,
                busy: false,
                signed_in,
                should_quit: false,
                wants_background: false,
                wants_foreground: false,
            },
            list: TrackList {
                query: String::new(),
                link: None,
                results: Vec::new(),
                selected: 0,
                offset: 0,
                browsing: None,
                open_playlist: None,
            },
            home: HomePage {
                shelves: Vec::new(),
                shelf: 0,
                card: 0,
                top: 0,
                scroll: Vec::new(),
                pending: false,
                rotation: 0,
                imported: false,
                order: Vec::new(),
            },
            library: Library { playlists: Vec::new(), selected: 0, offset: 0 },
            pictures: Pictures {
                cover: None,
                cover_id: None,
                graphics,
                image: None,
                painted: None,
                art: ArtCache::default(),
            },
            session: Session {
                now: None,
                pending: None,
                resuming: None,
                listening: None,
                auto: false,
                skips: 0,
                queue_epoch: 0,
                seed_rotation: 0,
                last_state: PlayState::Idle,
                prefetching: None,
                ready: None,
            },
            presence,
            presence_setting: None,
            settings: Settings::default(),
            settings_changed: None,
            layout: Vec::new(),
            seen,
            clock,
            commands: Vec::new(),
            source: Outbox { open, requests: Vec::new() },
        };
        proof {
            let v = app.view();
            assert(v.list.results =~= Seq::empty());
            assert(v.home.shelves =~= Seq::empty());
            assert(v.home.scroll =~= Seq::empty());
            assert(v.home.order =~= Seq::empty());
            assert(v.library.playlists =~= Seq::empty());
            assert(v.layout =~= Seq::empty());
            assert(v.commands =~= Seq::empty());
            assert(v.source.requests =~= Seq::empty());
        }
        app.request_home();
        app
    }

    /// Tells the program the time and what the player is doing.
    pub fn observe(&mut self, clock: u64, seen: Snapshot)
        ensures
            final(self).view() == (AppView { clock, seen: seen@, ..old(self).view() }),
    {
        self.clock = clock;
        self.seen = seen;
    }

    /// Tells the program which video the query names, where it is a link.
    pub fn observe_link(&mut self, link: Option<String>)
        ensures
            final(self).view() == (AppView {
                list: ListView { link: text::opt_view(link), ..old(self).view().list },
                ..old(self).view()
            }),
    {
        self.list.link = link;
    }

    /// Tells the program which shelves of the landing page have a place of
    /// their own: their titles, in order.
    pub fn observe_order(&mut self, order: Vec<String>)
        ensures
            final(self).view() == (AppView {
                home: HomeView { order: source::views(order@), ..old(self).view().home },
                ..old(self).view()
            }),
    {
        self.home.order = order;
    }

    /// Tells the program what the user has chosen in the settings.
    pub fn observe_settings(&mut self, settings: Settings)
        ensures
            final(self).view() == (AppView { settings, ..old(self).view() }),
    {
        self.settings = settings;
    }

    /// Tells the program where things are on screen, in the order in which they
    /// were drawn.
    pub fn observe_layout(&mut self, layout: Vec<Region>)
        ensures
            final(self).view() == (AppView { layout: layout@, ..old(self).view() }),
    {
        self.layout = layout;
    }

    /// The artwork of the icons.
    pub fn icon_theme(&self) -> (r: IconTheme)
        ensures
            r == self.view().settings.icon_theme,
    {
        self.settings.icon_theme
    }

    /// How the large cover is to be drawn.
    pub fn cover_style(&self) -> (r: CoverStyle)
        ensures
            r == self.view().settings.cover_style,
    {
        self.settings.cover_style
    }

    /// What the terminal is drawn on with, by the settings.
    pub fn graphics(&self) -> (r: Graphics)
        ensures
            r == self.view().pictures.graphics.chosen_by(self.view().settings.image_renderer),
    {
        self.pictures.graphics.with_renderer(self.settings.image_renderer)
    }

    /// What the list pane is showing, for its frame title.
    pub fn list_title(&self) -> (r: String)
        ensures
            r@ == self.view().title_of(),
    {
        match self.screen.view {
            View::Home => " home ".to_owned(),
            View::Playlists => " library ".to_owned(),
            View::Playing => " now playing ".to_owned(),
            View::Tracks => {
                match &self.list.open_playlist {
                    Some((_, title)) => text::join3(" ", title.as_str(), " "),
                    None => match &self.list.browsing {
                        Some(title) => text::join3(" ", title.as_str(), " "),
                        None => " results ".to_owned(),
                    },
                }
            },
        }
    }

    /// The card under the cursor on the landing page.
    pub fn home_card(&self) -> (r: Option<&Card>)
        ensures
            match r {
                Some(card) => self.view().card_of() == Some(card@),
                None => self.view().card_of() is None,
            },
    {
        if self.home.shelf < self.home.shelves.len() {
            let shelf = &self.home.shelves[self.home.shelf];
            if self.home.card < shelf.cards.len() {
                return Some(&shelf.cards[self.home.card]);
            }
        }
        None
    }

    /// The player, as it was last seen.
    pub fn snapshot(&self) -> (r: &Snapshot)
        ensures
            r@ == self.view().seen,
    {
        &self.seen
    }

    /// Whether the user is waiting on something: a request in flight, or a
    /// track being loaded.
    pub fn awaiting(&self) -> (r: bool)
        ensures
            r == self.view().waits(),
    {
        self.screen.busy || self.session.pending.is_some()
    }

    /// Says something in the status bar.
    fn say(&mut self, status: &str)
        ensures
            final(self).view() == old(self).view().says(status@),
    {
        self.screen.status = status.to_owned();
    }

    /// Says something in the status bar.
    fn say_text(&mut self, status: String)
        ensures
            final(self).view() == old(self).view().says(status@),
    {
        self.screen.status = status;
    }

    fn overlay(&mut self, overlay: Overlay)
        ensures
            final(self).view() == old(self).view().overlaid(overlay.view()),
    {
        self.screen.overlay = overlay;
    }

    fn show(&mut self, view: View)
        ensures
            final(self).view() == old(self).view().viewing(view),
    {
        self.screen.view = view;
    }

    fn enter(&mut self, mode: Mode)
        ensures
            final(self).view() == old(self).view().in_mode(mode),
    {
        self.screen.mode = mode;
    }

    fn settle(&mut self)
        ensures
            final(self).view() == old(self).view().settling(),
    {
        self.screen.selection_settled = Some(self.clock);
    }

    /// Sends a request, and reports whether the worker was there.
    fn send(&mut self, request: Request) -> (r: bool)
        ensures
            r == old(self).view().source.open,
            final(self).view() == old(self).view().sends(request@),
    {
        self.source.send(request)
    }

    /// Sends the player a command.
    fn order(&mut self, command: Command)
        ensures
            final(self).view() == old(self).view().orders(command@),
    {
        self.commands.push(command);
        proof {
            assert(source::views(self.commands@) =~= source::views(old(self).commands@).push(
                command@,
            ));
        }
    }

    /// Sends a request that the user waits for, or says that the worker is
    /// gone.
    fn ask(&mut self, request: Request)
        ensures
            final(self).view() == old(self).view().asks(request@),
    {
        if self.source.send(request) {
            self.screen.busy = true;
        } else {
            self.screen.busy = false;
            self.say(NO_WORKER);
        }
    }

    /// Asks for the landing page.
    fn request_home(&mut self)
        ensures
            final(self).view() == old(self).view().asks_home(),
    {
        self.home.pending = self.source.send(Request::Home);
        if !self.home.pending {
            self.say(NO_WORKER);
            return;
        }
        let rotation: usize = self.home.rotation;
        let _ = self.source.send(Request::PersonalShelves { rotation });
        if !self.home.imported {
            self.home.imported = true;
            let _ = self.source.send(Request::ImportCookies { force: false });
        }
    }

    /// Asks for the list of playlists.
    fn request_playlists(&mut self)
        ensures
            final(self).view() == old(self).view().asks(Request::Playlists),
    {
        self.ask(Request::Playlists);
    }

    /// Shows a failure where it will be read.
    fn report(&mut self, msg: String)
        ensures
            final(self).view() == old(self).view().reports(msg@),
    {
        if text::has_char(msg.as_str(), '\n') {
            self.say("press Esc to dismiss");
            self.overlay(Overlay::Message { body: msg });
        } else {
            self.say_text(msg);
        }
    }

    /// Starts signing in and puts the panel up to say so.
    fn begin_sign_in(&mut self)
        ensures
            final(self).view() == old(self).view().signs_in(),
    {
        self.say("signing in with Google ...");
        self.overlay(Overlay::SignIn(SignIn::Connecting { started: self.clock }));
        if !self.send(Request::SignIn) {
            self.say(NO_WORKER);
            self.overlay(Overlay::SignIn(SignIn::Failed { reason: NO_WORKER.to_owned() }));
        }
    }
}

} // verus!
