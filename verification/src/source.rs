//! What the music service is asked for and what it answers.
//!
//! The types that hold text are written over the type of that text: `Track`
//! holds strings, and `Track<Seq<char>>`, its view, holds what those strings
//! say.

use vstd::prelude::*;

use crate::cover::Cover;
use crate::resolver::StreamUrl;
use crate::text;

verus! {

broadcast use vstd::string::group_string_axioms;

/// The artist of a track whose source could not name one.
pub const UNKNOWN_ARTIST: &'static str = "unknown";

/// What each item of a sequence says.
pub open spec fn views<T: View>(s: Seq<T>) -> Seq<T::V> {
    Seq::new(s.len(), |i: int| s[i]@)
}

/// A track as a list shows it.
#[derive(Debug)]
pub struct Track<S = String> {
    pub id: S,
    pub title: S,
    pub uploader: S,
    /// In nanoseconds.
    pub duration: Option<u64>,
    pub album: Option<S>,
    /// The row of the playlist this track was listed from, where it was.
    pub playlist_item_id: Option<S>,
}

impl View for Track {
    type V = Track<Seq<char>>;

    open spec fn view(&self) -> Track<Seq<char>> {
        Track {
            id: self.id@,
            title: self.title@,
            uploader: self.uploader@,
            duration: self.duration,
            album: text::opt_view(self.album),
            playlist_item_id: text::opt_view(self.playlist_item_id),
        }
    }
}

impl Clone for Track {
    fn clone(&self) -> (r: Self)
        ensures
            r@ == self@,
    {
        Track {
            id: self.id.clone(),
            title: self.title.clone(),
            uploader: self.uploader.clone(),
            duration: self.duration,
            album: text::clone_opt(&self.album),
            playlist_item_id: text::clone_opt(&self.playlist_item_id),
        }
    }
}

/// A title with its artist behind it, unless the artist is not known.
pub open spec fn label_of(title: Seq<char>, artist: Seq<char>) -> Seq<char> {
    if artist.len() == 0 || artist == UNKNOWN_ARTIST@ {
        title
    } else {
        title + " — "@ + artist
    }
}

/// Writes a title with its artist behind it, unless the artist is not known.
pub fn label(title: &str, artist: &str) -> (r: String)
    ensures
        r@ == label_of(title@, artist@),
{
    if artist.is_empty() || text::same(artist, UNKNOWN_ARTIST) {
        title.to_owned()
    } else {
        let mut r = title.to_owned();
        r.append(" — ");
        r.append(artist);
        r
    }
}

impl Track<Seq<char>> {
    /// The line that names this track.
    pub open spec fn label_of(self) -> Seq<char> {
        label_of(self.title, self.uploader)
    }
}

impl Track {
    /// The line that names this track: its title, and its artist where one is
    /// known.
    pub fn label(&self) -> (r: String)
        ensures
            r@ == self@.label_of(),
    {
        label(self.title.as_str(), self.uploader.as_str())
    }
}

/// What a card stands for.
#[derive(Debug)]
pub enum Target<S = String> {
    /// A song.
    Play { video_id: S },
    /// An album, a playlist or an artist, to be opened as a list.
    Open { browse_id: S },
}

impl View for Target {
    type V = Target<Seq<char>>;

    open spec fn view(&self) -> Target<Seq<char>> {
        match self {
            Target::Play { video_id } => Target::Play { video_id: video_id@ },
            Target::Open { browse_id } => Target::Open { browse_id: browse_id@ },
        }
    }
}

impl Clone for Target {
    fn clone(&self) -> (r: Self)
        ensures
            r@ == self@,
    {
        match self {
            Target::Play { video_id } => Target::Play { video_id: video_id.clone() },
            Target::Open { browse_id } => Target::Open { browse_id: browse_id.clone() },
        }
    }
}

/// One card of a shelf.
#[derive(Debug)]
pub struct Card<S = String> {
    pub title: S,
    pub target: Target<S>,
    /// The track that the card plays, where it plays one.
    pub playable: Option<Track<S>>,
    /// What the card's picture is filed under.
    pub key: S,
}

impl View for Card {
    type V = Card<Seq<char>>;

    open spec fn view(&self) -> Card<Seq<char>> {
        Card {
            title: self.title@,
            target: self.target@,
            playable: match self.playable {
                Some(track) => Some(track@),
                None => None,
            },
            key: self.key@,
        }
    }
}

impl Card {
    /// The track that the card plays, where it plays one.
    pub fn track(&self) -> (r: Option<Track>)
        ensures
            match r {
                Some(track) => self@.playable == Some(track@),
                None => self@.playable is None,
            },
    {
        match &self.playable {
            Some(track) => Some(track.clone()),
            None => None,
        }
    }

    /// What the card's picture is filed under.
    pub fn art_key(&self) -> (r: &str)
        ensures
            r@ == self@.key,
    {
        self.key.as_str()
    }
}

/// A titled row of cards.
#[derive(Debug)]
pub struct Shelf {
    pub title: String,
    pub cards: Vec<Card>,
}

/// What a [`Shelf`] holds.
pub struct ShelfView {
    pub title: Seq<char>,
    pub cards: Seq<Card<Seq<char>>>,
}

impl View for Shelf {
    type V = ShelfView;

    open spec fn view(&self) -> ShelfView {
        ShelfView { title: self.title@, cards: views(self.cards@) }
    }
}

/// A playlist of the signed-in user.
#[derive(Debug)]
pub struct Playlist<S = String> {
    pub id: S,
    pub title: S,
}

impl View for Playlist {
    type V = Playlist<Seq<char>>;

    open spec fn view(&self) -> Playlist<Seq<char>> {
        Playlist { id: self.id@, title: self.title@ }
    }
}

/// The words of a song, each line with the time at which it is sung where the
/// lyrics are timed.
#[derive(Debug, Clone)]
pub struct Lyrics {
    pub lines: Vec<(Option<u64>, String)>,
}

/// What listeners wrote about a song.
#[derive(Debug, Clone)]
pub struct Comments {
    pub rows: Vec<String>,
}

/// What the lyrics service is asked about.
#[derive(Debug)]
pub struct Query<S = String> {
    pub artist: S,
    pub title: S,
    pub album: Option<S>,
    pub duration: Option<u64>,
}

impl View for Query {
    type V = Query<Seq<char>>;

    open spec fn view(&self) -> Query<Seq<char>> {
        Query {
            artist: self.artist@,
            title: self.title@,
            album: text::opt_view(self.album),
            duration: self.duration,
        }
    }
}

/// What is known around a track that plays.
#[derive(Debug)]
pub struct Watch {
    pub lyrics_id: Option<String>,
    pub related_id: Option<String>,
    pub queue: Vec<Track>,
    pub queue_title: String,
    /// What to redeem for the next page of the queue.
    pub continuation: Option<String>,
}

/// One more page of a queue.
#[derive(Debug)]
pub struct QueuePage {
    pub tracks: Vec<Track>,
    pub continuation: Option<String>,
    /// The name of the queue, where this page starts a new station.
    pub title: Option<String>,
}

/// What a [`Watch`] holds.
pub struct WatchView {
    pub lyrics_id: Option<Seq<char>>,
    pub related_id: Option<Seq<char>>,
    pub queue: Seq<Track<Seq<char>>>,
    pub queue_title: Seq<char>,
    pub continuation: Option<Seq<char>>,
}

impl View for Watch {
    type V = WatchView;

    open spec fn view(&self) -> WatchView {
        WatchView {
            lyrics_id: text::opt_view(self.lyrics_id),
            related_id: text::opt_view(self.related_id),
            queue: views(self.queue@),
            queue_title: self.queue_title@,
            continuation: text::opt_view(self.continuation),
        }
    }
}

/// What a [`QueuePage`] holds.
pub struct PageView {
    pub tracks: Seq<Track<Seq<char>>>,
    pub continuation: Option<Seq<char>>,
    pub title: Option<Seq<char>>,
}

impl View for QueuePage {
    type V = PageView;

    open spec fn view(&self) -> PageView {
        PageView {
            tracks: views(self.tracks@),
            continuation: text::opt_view(self.continuation),
            title: text::opt_view(self.title),
        }
    }
}

/// Something the source worker is asked to do.
#[derive(Debug)]
pub enum Request<S = String> {
    Search { query: S, limit: usize },
    Home,
    PersonalShelves { rotation: usize },
    ImportCookies { force: bool },
    Art { key: S, url: S },
    Cover { id: S },
    Resolve { id: S, title: S, bypass_cache: bool },
    Prefetch { id: S },
    Watch { video_id: S },
    MoreQueue { epoch: u64, token: S },
    SeedQueue { epoch: u64, rotation: usize },
    Lyrics { video_id: S, page_id: Option<S>, asked: Query<S> },
    Related { video_id: S, browse_id: S },
    Comments { video_id: S },
    ReportPlay { track: Track<S>, listened: u64 },
    OpenBrowse { browse_id: S, title: S },
    SignIn,
    SignOut,
    Playlists,
    OpenPlaylist { id: S, title: S },
    AddToPlaylist { playlist_id: S, playlist_title: S, video_id: S },
    RemoveFromPlaylist { playlist_item_id: S, title: S },
    ToggleLike { video_id: S, title: S },
}

impl View for Request {
    type V = Request<Seq<char>>;

    open spec fn view(&self) -> Request<Seq<char>> {
        match self {
            Request::Search { query, limit } => Request::Search { query: query@, limit: *limit },
            Request::Home => Request::Home,
            Request::PersonalShelves { rotation } => Request::PersonalShelves {
                rotation: *rotation,
            },
            Request::ImportCookies { force } => Request::ImportCookies { force: *force },
            Request::Art { key, url } => Request::Art { key: key@, url: url@ },
            Request::Cover { id } => Request::Cover { id: id@ },
            Request::Resolve { id, title, bypass_cache } => Request::Resolve {
                id: id@,
                title: title@,
                bypass_cache: *bypass_cache,
            },
            Request::Prefetch { id } => Request::Prefetch { id: id@ },
            Request::Watch { video_id } => Request::Watch { video_id: video_id@ },
            Request::MoreQueue { epoch, token } => Request::MoreQueue {
                epoch: *epoch,
                token: token@,
            },
            Request::SeedQueue { epoch, rotation } => Request::SeedQueue {
                epoch: *epoch,
                rotation: *rotation,
            },
            Request::Lyrics { video_id, page_id, asked } => Request::Lyrics {
                video_id: video_id@,
                page_id: text::opt_view(*page_id),
                asked: asked@,
            },
            Request::Related { video_id, browse_id } => Request::Related {
                video_id: video_id@,
                browse_id: browse_id@,
            },
            Request::Comments { video_id } => Request::Comments { video_id: video_id@ },
            Request::ReportPlay { track, listened } => Request::ReportPlay {
                track: track@,
                listened: *listened,
            },
            Request::OpenBrowse { browse_id, title } => Request::OpenBrowse {
                browse_id: browse_id@,
                title: title@,
            },
            Request::SignIn => Request::SignIn,
            Request::SignOut => Request::SignOut,
            Request::Playlists => Request::Playlists,
            Request::OpenPlaylist { id, title } => Request::OpenPlaylist { id: id@, title: title@ },
            Request::AddToPlaylist { playlist_id, playlist_title, video_id } =>
                Request::AddToPlaylist {
                playlist_id: playlist_id@,
                playlist_title: playlist_title@,
                video_id: video_id@,
            },
            Request::RemoveFromPlaylist { playlist_item_id, title } => Request::RemoveFromPlaylist {
                playlist_item_id: playlist_item_id@,
                title: title@,
            },
            Request::ToggleLike { video_id, title } => Request::ToggleLike {
                video_id: video_id@,
                title: title@,
            },
        }
    }
}

/// Something the source worker has done.
#[derive(Debug)]
pub enum Response {
    Results(Vec<Track>),
    Home(Vec<Shelf>),
    /// Shelves for the user alone, which go in front of the landing page.
    PersonalShelves(Vec<Shelf>),
    /// A session was read from this browser.
    CookiesImported(String),
    Browsed { title: String, tracks: Vec<Track> },
    Resolved { id: String, title: String, stream: Result<StreamUrl, String> },
    /// `askable` is whether the track is named well enough for the lyrics
    /// service to be asked about it.
    Watch { video_id: String, watch: Result<Watch, String>, askable: bool },
    MoreQueue { epoch: u64, page: Result<QueuePage, String> },
    Lyrics { video_id: String, lyrics: Result<Lyrics, String> },
    Related { video_id: String, related: Result<Vec<Shelf>, String> },
    Comments { video_id: String, comments: Result<Comments, String> },
    Prefetched { id: String, ready: bool },
    Art { key: String, art: Option<Cover> },
    Cover { id: String, art: Option<Cover> },
    DeviceCode { user_code: String, url: String, expires_in: u64 },
    SignedIn,
    SignedOut,
    NeedsSignIn,
    SignInFailed(String),
    Playlists(Vec<Playlist>),
    PlaylistTracks { id: String, title: String, tracks: Vec<Track> },
    Removed { playlist_item_id: String, title: String },
    Liked { title: String, liked: bool },
    Done(String),
    Failed(String),
}

/// The requests on their way to the source worker.
#[derive(Debug)]
pub struct Outbox {
    /// Whether the worker is there to take them.
    pub open: bool,
    pub requests: Vec<Request>,
}

/// What an [`Outbox`] holds.
pub struct OutboxView {
    pub open: bool,
    pub requests: Seq<Request<Seq<char>>>,
}

impl View for Outbox {
    type V = OutboxView;

    open spec fn view(&self) -> OutboxView {
        OutboxView { open: self.open, requests: views(self.requests@) }
    }
}

impl OutboxView {
    /// The outbox after a request: it is taken only while the worker is there.
    pub open spec fn sent(self, request: Request<Seq<char>>) -> OutboxView {
        if self.open {
            OutboxView { requests: self.requests.push(request), ..self }
        } else {
            self
        }
    }
}

impl Outbox {
    /// Hands a request to the worker, and reports whether it was there.
    pub fn send(&mut self, request: Request) -> (r: bool)
        ensures
            r == old(self)@.open,
            final(self)@ == old(self)@.sent(request@),
    {
        if self.open {
            self.requests.push(request);
            proof {
                assert(views(self.requests@) =~= views(old(self).requests@).push(request@));
            }
            true
        } else {
            false
        }
    }
}

/// A track is named by its title, with the artist behind it where one is known.
pub proof fn tracks_are_named_by_title_and_artist(track: Track<Seq<char>>)
    ensures
        track.uploader.len() == 0 ==> track.label_of() == track.title,
        track.uploader == "unknown"@ ==> track.label_of() == track.title,
        track.uploader.len() > 0 && track.uploader != "unknown"@ ==> track.label_of()
            == track.title + " — "@ + track.uploader,
{
}

/// While the worker is there every request reaches it, in order and once; without
/// it none is kept.
pub proof fn requests_reach_the_worker(outbox: OutboxView, request: Request<Seq<char>>)
    ensures
        outbox.open ==> outbox.sent(request).requests == outbox.requests.push(request),
        !outbox.open ==> outbox.sent(request).requests == outbox.requests,
        outbox.sent(request).open == outbox.open,
{
}

} // verus!
