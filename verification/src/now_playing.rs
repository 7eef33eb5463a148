//! What is playing, and everything the player page shows around it.
//!
//! The queue has no end: a radio is paged for as long as it is listened to. So
//! what is held is a window around the track that plays, and the tracks that
//! fell out of it are remembered for a while, so that the radio cannot offer
//! them back.

use std::collections::VecDeque;

use vstd::prelude::*;

use crate::source;

use crate::source::{Card, Comments, Lyrics, PageView, Query, QueuePage, Shelf, ShelfView, Track};
use crate::text;

verus! {

broadcast use vstd::string::group_string_axioms;

/// Tracks kept behind the one playing when the queue is trimmed.
pub const QUEUE_BEHIND: usize = 20;

/// Tracks kept ahead of the one playing: room for a complete page of sixty on
/// top of the low-water mark, since the tail of a page that did not fit could
/// never be asked for again.
pub const QUEUE_AHEAD: usize = 65;

/// Tracks remaining ahead at which the next page is asked for.
pub const QUEUE_LOW: usize = 5;

/// Ids remembered after they leave the window.
pub const QUEUE_MEMORY: usize = 200;

/// Failed top-ups in a row before the queue stops asking.
pub const MAX_TOPUP_FAILURES: u8 = 3;

/// Which panel of the player page is showing.
#[derive(Debug, Clone, Copy, PartialEq, Eq, Structural)]
pub enum Tab {
    UpNext,
    Lyrics,
    Related,
    Comments,
}

impl Tab {
    /// In the order in which they are drawn and walked.
    pub const ALL: [Tab; 4] = [Tab::UpNext, Tab::Lyrics, Tab::Related, Tab::Comments];

    /// Where this tab stands in [`Tab::ALL`].
    pub open spec fn place(self) -> int {
        match self {
            Tab::UpNext => 0,
            Tab::Lyrics => 1,
            Tab::Related => 2,
            Tab::Comments => 3,
        }
    }

    /// The tab at a place of the ring.
    pub open spec fn at_place(i: int) -> Tab {
        if i == 0 {
            Tab::UpNext
        } else if i == 1 {
            Tab::Lyrics
        } else if i == 2 {
            Tab::Related
        } else {
            Tab::Comments
        }
    }

    /// The heading of the tab.
    pub open spec fn label_of(self) -> Seq<char> {
        match self {
            Tab::UpNext => "UP NEXT"@,
            Tab::Lyrics => "LYRICS"@,
            Tab::Related => "RELATED"@,
            Tab::Comments => "COMMENTS"@,
        }
    }

    pub fn label(self) -> (r: &'static str)
        ensures
            r@ == self.label_of(),
    {
        match self {
            Tab::UpNext => "UP NEXT",
            Tab::Lyrics => "LYRICS",
            Tab::Related => "RELATED",
            Tab::Comments => "COMMENTS",
        }
    }

    /// Where this tab stands in [`Tab::ALL`], and where its cursor stands in
    /// [`NowPlaying::cursor`].
    pub fn index(self) -> (r: usize)
        ensures
            r == self.place(),
            r < 4,
    {
        match self {
            Tab::UpNext => 0,
            Tab::Lyrics => 1,
            Tab::Related => 2,
            Tab::Comments => 3,
        }
    }

    /// The tab at a place, if there is one.
    pub fn from_index(i: usize) -> (r: Option<Tab>)
        ensures
            r == if i < 4 {
                Some(Tab::at_place(i as int))
            } else {
                None
            },
    {
        match i {
            0 => Some(Tab::UpNext),
            1 => Some(Tab::Lyrics),
            2 => Some(Tab::Related),
            3 => Some(Tab::Comments),
            _ => None,
        }
    }

    /// The tab `delta` places further on. The tabs are a ring, so this wraps in
    /// both directions.
    pub open spec fn shifted_of(self, delta: int) -> Tab {
        Tab::at_place((self.place() + delta) % 4)
    }

    /// Moves along the ring of tabs.
    pub fn shifted(self, delta: isize) -> (r: Self)
        ensures
            r == self.shifted_of(delta as int),
    {
        let rest: usize = if delta >= 0 {
            (delta as usize) % 4
        } else {
            let back: usize = (((-(delta + 1)) as usize) % 4) + 1;
            4 - back
        };
        let at: usize = (self.index() + rest) % 4;
        match at {
            0 => Tab::UpNext,
            1 => Tab::Lyrics,
            2 => Tab::Related,
            _ => Tab::Comments,
        }
    }
}

/// Walking the tabs forwards and then as far backwards leads back, and four
/// steps lead all the way round.
pub proof fn tabs_are_a_ring(tab: Tab, delta: int)
    ensures
        tab.shifted_of(delta).shifted_of(-delta) == tab,
        tab.shifted_of(4) == tab,
        tab.shifted_of(1) != tab,
{
    assert(0 <= tab.place() < 4);
    let there = (tab.place() + delta) % 4;
    assert(0 <= there < 4);
    assert(tab.shifted_of(delta).place() == there);
    assert((there - delta) % 4 == tab.place()) by {
        let q = (tab.place() + delta) / 4;
        assert(tab.place() + delta == 4 * q + there);
        assert((there - delta) == tab.place() - 4 * q);
        assert((tab.place() - 4 * q) % 4 == tab.place() % 4);
    }
}

/// A panel that is fetched the first time it is looked at.
#[derive(Debug)]
pub enum Panel<T, S = String> {
    /// Never opened, so never fetched.
    Idle,
    Loading,
    Ready(T),
    /// Nothing to show, and why.
    Empty(S),
}

impl<T> Panel<T, String> {
    /// Whether this panel has not been asked for yet.
    pub fn is_idle(&self) -> (r: bool)
        ensures
            r == self is Idle,
    {
        matches!(self, Panel::Idle)
    }
}

/// What a panel says, with its content as it is.
pub open spec fn panel_view<T>(p: Panel<T, String>) -> Panel<T, Seq<char>> {
    match p {
        Panel::Idle => Panel::Idle,
        Panel::Loading => Panel::Loading,
        Panel::Ready(t) => Panel::Ready(t),
        Panel::Empty(why) => Panel::Empty(why@),
    }
}

/// What the Related panel says.
pub open spec fn related_view(p: Panel<Vec<Shelf>, String>) -> Panel<Seq<ShelfView>, Seq<char>> {
    match p {
        Panel::Idle => Panel::Idle,
        Panel::Loading => Panel::Loading,
        Panel::Ready(t) => Panel::Ready(source::views(t@)),
        Panel::Empty(why) => Panel::Empty(why@),
    }
}

/// Turns a fetch into what the panel shows. A failure is almost always a fact
/// about the track, so it belongs in the panel.
pub fn panel<T>(fetched: Result<T, String>) -> (r: Panel<T, String>)
    ensures
        r == match fetched {
            Ok(value) => Panel::<T, String>::Ready(value),
            Err(why) => Panel::Empty(why),
        },
{
    match fetched {
        Ok(value) => Panel::Ready(value),
        Err(why) => Panel::Empty(why),
    }
}

/// One row of the flattened Related tab.
pub enum RelatedRow<'a> {
    Heading(&'a str),
    Card(&'a Card),
}

/// What a [`RelatedRow`] shows.
pub enum RowView {
    Heading(Seq<char>),
    Card(Card<Seq<char>>),
}

impl<'a> View for RelatedRow<'a> {
    type V = RowView;

    open spec fn view(&self) -> RowView {
        match self {
            RelatedRow::Heading(title) => RowView::Heading(title@),
            RelatedRow::Card(card) => RowView::Card(card@),
        }
    }
}

/// The rows of one shelf: its heading, then its cards.
pub open spec fn shelf_rows(shelf: ShelfView) -> Seq<RowView> {
    seq![RowView::Heading(shelf.title)] + Seq::new(
        shelf.cards.len(),
        |i: int| RowView::Card(shelf.cards[i]),
    )
}

/// The rows of all shelves, one after the other.
pub open spec fn shelves_rows(shelves: Seq<ShelfView>) -> Seq<RowView>
    decreases shelves.len(),
{
    if shelves.len() == 0 {
        Seq::empty()
    } else {
        shelves_rows(shelves.drop_last()) + shelf_rows(shelves.last())
    }
}

/// What is playing, and everything the player page shows around it. Starting a
/// track replaces it in one move, since every panel belongs to one track.
#[derive(Debug)]
pub struct NowPlaying {
    pub video_id: String,
    pub title: String,
    pub artist: String,
    pub album: Option<String>,
    /// The length of the track, in nanoseconds.
    pub duration: Option<u64>,
    /// What the queue is called. Empty until the queue arrives.
    pub queue_title: String,
    /// A window onto the queue.
    pub queue: Vec<Track>,
    /// Identifies the queue itself, as opposed to the track inside it.
    pub queue_epoch: u64,
    /// What to redeem for the next page of the queue.
    pub continuation: Option<String>,
    /// Set while a page is in flight.
    pub topping_up: bool,
    /// Failed top-ups in a row.
    pub topup_failures: u8,
    /// Ids that have left the window, oldest first.
    pub dropped: VecDeque<String>,
    /// Where in `queue` the playing track is.
    pub playing: Option<usize>,
    pub tab: Tab,
    /// One cursor for each tab.
    pub cursor: [usize; 4],
    /// Whether the lyrics panel keeps the line being sung on screen.
    pub follow_lyrics: bool,
    pub lyrics: Panel<Lyrics>,
    pub comments: Panel<Comments>,
    pub related: Panel<Vec<Shelf>>,
    pub lyrics_id: Option<String>,
    pub related_id: Option<String>,
    /// Whether the answer that carries the ids above has come back.
    pub watched: bool,
}

/// What a [`NowPlaying`] holds.
#[verifier::ext_equal]
pub struct NowView {
    pub video_id: Seq<char>,
    pub title: Seq<char>,
    pub artist: Seq<char>,
    pub album: Option<Seq<char>>,
    pub duration: Option<u64>,
    pub queue_title: Seq<char>,
    pub queue: Seq<Track<Seq<char>>>,
    pub queue_epoch: u64,
    pub continuation: Option<Seq<char>>,
    pub topping_up: bool,
    pub topup_failures: u8,
    pub dropped: Seq<Seq<char>>,
    pub playing: Option<usize>,
    pub tab: Tab,
    pub cursor: Seq<usize>,
    pub follow_lyrics: bool,
    pub lyrics: Panel<Lyrics, Seq<char>>,
    pub comments: Panel<Comments, Seq<char>>,
    pub related: Panel<Seq<ShelfView>, Seq<char>>,
    pub lyrics_id: Option<Seq<char>>,
    pub related_id: Option<Seq<char>>,
    pub watched: bool,
}

impl View for NowPlaying {
    type V = NowView;

    open spec fn view(&self) -> NowView {
        NowView {
            video_id: self.video_id@,
            title: self.title@,
            artist: self.artist@,
            album: text::opt_view(self.album),
            duration: self.duration,
            queue_title: self.queue_title@,
            queue: source::views(self.queue@),
            queue_epoch: self.queue_epoch,
            continuation: text::opt_view(self.continuation),
            topping_up: self.topping_up,
            topup_failures: self.topup_failures,
            dropped: source::views(self.dropped@),
            playing: self.playing,
            tab: self.tab,
            cursor: self.cursor@,
            follow_lyrics: self.follow_lyrics,
            lyrics: panel_view(self.lyrics),
            comments: panel_view(self.comments),
            related: related_view(self.related),
            lyrics_id: text::opt_view(self.lyrics_id),
            related_id: text::opt_view(self.related_id),
            watched: self.watched,
        }
    }
}

/// Whether a track of this id is among the given ones.
pub open spec fn holds(queue: Seq<Track<Seq<char>>>, id: Seq<char>) -> bool {
    exists|i: int| 0 <= i < queue.len() && (#[trigger] queue[i]).id == id
}

/// Where the first track of this id stands.
pub open spec fn position_of(queue: Seq<Track<Seq<char>>>, id: Seq<char>) -> Option<usize>
    decreases queue.len(),
{
    if queue.len() == 0 {
        None
    } else if queue[0].id == id {
        Some(0)
    } else {
        match position_of(queue.drop_first(), id) {
            Some(i) => Some((i + 1) as usize),
            None => None,
        }
    }
}

proof fn lemma_position(queue: Seq<Track<Seq<char>>>, id: Seq<char>, at: int)
    requires
        0 <= at <= queue.len() <= usize::MAX,
        forall|i: int| 0 <= i < at ==> (#[trigger] queue[i]).id != id,
        at < queue.len() ==> queue[at].id == id,
    ensures
        position_of(queue, id) == if at < queue.len() {
            Some(at as usize)
        } else {
            None
        },
    decreases queue.len(),
{
    if queue.len() > 0 && at > 0 {
        let rest = queue.drop_first();
        assert forall|i: int| 0 <= i < at - 1 implies (#[trigger] rest[i]).id != id by {
            assert(rest[i] == queue[i + 1]);
        }
        lemma_position(rest, id, at - 1);
    }
}

/// A found position is inside the queue and names a track of that id.
pub proof fn position_is_found(queue: Seq<Track<Seq<char>>>, id: Seq<char>)
    requires
        queue.len() <= usize::MAX,
    ensures
        match position_of(queue, id) {
            Some(i) => i < queue.len() && queue[i as int].id == id && forall|j: int|
                0 <= j < i ==> (#[trigger] queue[j]).id != id,
            None => !holds(queue, id),
        },
    decreases queue.len(),
{
    if queue.len() > 0 && queue[0].id != id {
        let rest = queue.drop_first();
        position_is_found(rest, id);
        match position_of(rest, id) {
            Some(k) => {
                assert(queue[k + 1] == rest[k as int]);
                assert forall|j: int| 0 <= j < k + 1 implies (#[trigger] queue[j]).id != id by {
                    if j > 0 {
                        assert(queue[j] == rest[j - 1]);
                    }
                }
            },
            None => {
                if holds(queue, id) {
                    let j = choose|j: int| 0 <= j < queue.len() && (#[trigger] queue[j]).id == id;
                    assert(rest[j - 1].id == id);
                }
            },
        }
    }
}

/// Finds the first track of an id.
pub fn position(queue: &Vec<Track>, id: &str) -> (r: Option<usize>)
    ensures
        r == position_of(source::views(queue@), id@),
        r is Some ==> r->0 < queue@.len(),
{
    let ghost v = source::views(queue@);
    let mut i: usize = 0;
    let n: usize = queue.len();
    while i < n
        invariant
            i <= n == queue@.len(),
            v == source::views(queue@),
            forall|j: int| 0 <= j < i ==> (#[trigger] v[j]).id != id@,
        decreases n - i,
    {
        if text::same(queue[i].id.as_str(), id) {
            proof {
                assert(v[i as int].id == id@);
                lemma_position(v, id@, i as int);
            }
            return Some(i);
        }
        i += 1;
    }
    proof {
        lemma_position(v, id@, n as int);
    }
    None
}

/// The memory after one more id left the window: the oldest goes where it is
/// full.
pub open spec fn remember(dropped: Seq<Seq<char>>, id: Seq<char>) -> Seq<Seq<char>> {
    if dropped.len() >= QUEUE_MEMORY {
        dropped.skip(1).push(id)
    } else {
        dropped.push(id)
    }
}

/// The memory after a run of tracks left the window, front first.
pub open spec fn remember_all(dropped: Seq<Seq<char>>, tracks: Seq<Track<Seq<char>>>) -> Seq<
    Seq<char>,
>
    decreases tracks.len(),
{
    if tracks.len() == 0 {
        dropped
    } else {
        remember(remember_all(dropped, tracks.drop_last()), tracks.last().id)
    }
}

/// The queue after a page: what is neither held nor remembered is appended in
/// order, until the queue is `ceiling` long.
pub open spec fn absorbed(
    queue: Seq<Track<Seq<char>>>,
    dropped: Seq<Seq<char>>,
    ceiling: int,
    tracks: Seq<Track<Seq<char>>>,
) -> Seq<Track<Seq<char>>>
    decreases tracks.len(),
{
    if tracks.len() == 0 {
        queue
    } else {
        let so_far = absorbed(queue, dropped, ceiling, tracks.drop_last());
        let track = tracks.last();
        if so_far.len() >= ceiling || holds(so_far, track.id) || dropped.contains(track.id) {
            so_far
        } else {
            so_far.push(track)
        }
    }
}

/// A count of failures, one up. It stops at the largest number.
pub open spec fn one_more(n: u8) -> u8 {
    if n == u8::MAX {
        n
    } else {
        (n + 1) as u8
    }
}

impl NowView {
    /// The track that plays is in the queue, there is a cursor for each tab,
    /// and the memory is bounded.
    pub open spec fn wf(self) -> bool {
        &&& self.playing is Some ==> self.playing->0 < self.queue.len()
        &&& self.cursor.len() == 4
        &&& self.dropped.len() <= QUEUE_MEMORY
        &&& self.queue.len() <= usize::MAX
    }

    /// The window is no wider than it may be.
    pub open spec fn bounded(self) -> bool {
        self.playing is Some && self.playing->0 <= QUEUE_BEHIND && self.queue.len()
            <= self.playing->0 + 1 + QUEUE_AHEAD
    }

    /// No track is in the queue twice.
    pub open spec fn no_repeats(self) -> bool {
        forall|i: int, j: int|
            0 <= i < j < self.queue.len() ==> (#[trigger] self.queue[i]).id != (
            #[trigger] self.queue[j]).id
    }

    /// The page of a track that has just been started.
    pub open spec fn of_track(track: Track<Seq<char>>) -> NowView {
        NowView {
            video_id: track.id,
            title: track.title,
            artist: track.uploader,
            album: track.album,
            duration: track.duration,
            queue_title: Seq::empty(),
            queue: Seq::empty(),
            queue_epoch: 0,
            continuation: None,
            topping_up: false,
            topup_failures: 0,
            dropped: Seq::empty(),
            playing: None,
            tab: Tab::UpNext,
            cursor: seq![0usize, 0usize, 0usize, 0usize],
            follow_lyrics: true,
            lyrics: Panel::Idle,
            comments: Panel::Idle,
            related: Panel::Idle,
            lyrics_id: None,
            related_id: None,
            watched: false,
        }
    }

    /// One line under the title. An album is named only behind an artist.
    pub open spec fn byline_of(self) -> Seq<char> {
        if self.album is Some && self.artist.len() > 0 {
            self.artist + " • "@ + self.album->0
        } else {
            self.artist
        }
    }

    /// What the lyrics service is asked about this track.
    pub open spec fn query_of(self) -> Query<Seq<char>> {
        Query {
            artist: self.artist,
            title: self.title,
            album: self.album,
            duration: self.duration,
        }
    }

    /// The page with the open tab's cursor at `to`.
    pub open spec fn at_cursor(self, to: usize) -> NowView {
        NowView { cursor: self.cursor.update(self.tab.place(), to), ..self }
    }

    /// The page after a scroll: the cursor moves, not above the first line, and
    /// the lyrics no longer follow the singer.
    pub open spec fn scrolled(self, delta: int) -> NowView {
        let to = self.cursor[self.tab.place()] + delta;
        let clamped = if to < 0 {
            0
        } else if to > usize::MAX {
            usize::MAX
        } else {
            to as usize
        };
        NowView { follow_lyrics: false, ..self.at_cursor(clamped) }
    }

    /// The page after a jump to a line.
    pub open spec fn jumped(self, to: usize) -> NowView {
        NowView { follow_lyrics: false, ..self.at_cursor(to) }
    }

    /// The page with a tab open. Landing on the lyrics follows the singer.
    pub open spec fn opened(self, tab: Tab) -> NowView {
        NowView { tab, follow_lyrics: self.follow_lyrics || tab == Tab::Lyrics, ..self }
    }

    /// The track that the queue would play next.
    pub open spec fn next_of(self) -> Option<Track<Seq<char>>> {
        if self.playing is Some && self.playing->0 + 1 < self.queue.len() {
            Some(self.queue[self.playing->0 + 1])
        } else {
            None
        }
    }

    /// How many tracks are left ahead of the one playing. None where nothing in
    /// this queue is playing.
    pub open spec fn remaining_of(self) -> nat {
        if self.playing is Some && self.playing->0 + 1 < self.queue.len() {
            (self.queue.len() - self.playing->0 - 1) as nat
        } else {
            0
        }
    }

    /// How long the queue may grow.
    pub open spec fn ceiling(self) -> int {
        match self.playing {
            Some(at) => at + 1 + QUEUE_AHEAD,
            None => QUEUE_AHEAD as int,
        }
    }

    /// The page once what fell out of the window behind the playing track is
    /// gone. Both indices move with the tracks.
    pub open spec fn trimmed(self) -> NowView {
        if self.playing is Some && self.playing->0 >= QUEUE_BEHIND {
            let excess = self.playing->0 - QUEUE_BEHIND;
            let place = Tab::UpNext.place();
            NowView {
                queue: self.queue.skip(excess),
                dropped: remember_all(self.dropped, self.queue.take(excess)),
                playing: Some(QUEUE_BEHIND),
                cursor: self.cursor.update(
                    place,
                    if self.cursor[place] < excess {
                        0
                    } else {
                        (self.cursor[place] - excess) as usize
                    },
                ),
                ..self
            }
        } else {
            self
        }
    }

    /// The page with a run of tracks appended to its queue.
    pub open spec fn with_tracks(self, tracks: Seq<Track<Seq<char>>>) -> NowView {
        NowView { queue: absorbed(self.queue, self.dropped, self.ceiling(), tracks), ..self }
    }

    /// The page with a page of its queue taken on. One that brings nothing new
    /// gives up the token that bought it and counts as a failure.
    pub open spec fn with_page(self, page: PageView) -> NowView {
        let grown = self.with_tracks(page.tracks);
        if grown.queue.len() == self.queue.len() {
            NowView { continuation: None, topup_failures: one_more(self.topup_failures), ..self }
        } else {
            NowView {
                continuation: page.continuation,
                topup_failures: 0,
                queue_title: match page.title {
                    Some(title) => title,
                    None => self.queue_title,
                },
                ..grown
            }
        }
    }

    /// The rows of the Related tab.
    pub open spec fn rows_of(self) -> Seq<RowView> {
        match self.related {
            Panel::Ready(shelves) => shelves_rows(shelves),
            _ => Seq::empty(),
        }
    }
}

proof fn lemma_views_push<T: View>(s: Seq<T>, t: T)
    ensures
        source::views(s.push(t)) == source::views(s).push(t@),
{
    assert(source::views(s.push(t)) =~= source::views(s).push(t@));
}

impl NowPlaying {
    /// The page of a track that has just been started.
    pub fn new(track: &Track) -> (r: Self)
        ensures
            r@ == NowView::of_track(track@),
            r@.wf(),
    {
        let r = NowPlaying {
            video_id: track.id.clone(),
            title: track.title.clone(),
            artist: track.uploader.clone(),
            album: text::clone_opt(&track.album),
            duration: track.duration,
            queue_title: String::new(),
            queue: Vec::new(),
            queue_epoch: 0,
            continuation: None,
            topping_up: false,
            topup_failures: 0,
            dropped: VecDeque::new(),
            playing: None,
            tab: Tab::UpNext,
            cursor: [0, 0, 0, 0],
            follow_lyrics: true,
            lyrics: Panel::Idle,
            comments: Panel::Idle,
            related: Panel::Idle,
            lyrics_id: None,
            related_id: None,
            watched: false,
        };
        proof {
            assert(r@ =~= NowView::of_track(track@));
        }
        r
    }

    /// What the lyrics service is asked about this track.
    pub fn lyrics_query(&self) -> (r: Query)
        ensures
            r@ == self@.query_of(),
    {
        Query {
            artist: self.artist.clone(),
            title: self.title.clone(),
            album: text::clone_opt(&self.album),
            duration: self.duration,
        }
    }

    /// One line under the title: the artist, and the album behind it.
    pub fn byline(&self) -> (r: String)
        ensures
            r@ == self@.byline_of(),
    {
        let mut r = self.artist.clone();
        if let Some(album) = &self.album {
            if !self.artist.as_str().is_empty() {
                r.append(" • ");
                r.append(album.as_str());
            }
        }
        r
    }

    /// The cursor of the tab on screen.
    pub fn cursor(&self) -> (r: usize)
        ensures
            r == self@.cursor[self@.tab.place()],
    {
        self.cursor[self.tab.index()]
    }

    /// Puts the open tab's cursor on a line.
    pub fn set_cursor(&mut self, to: usize)
        ensures
            final(self)@ == old(self)@.at_cursor(to),
    {
        let index: usize = self.tab.index();
        self.cursor[index] = to;
        proof {
            assert(self@ =~= old(self)@.at_cursor(to));
        }
    }

    /// Moves the open tab's cursor, and hands the lyrics panel back to the
    /// user. Only the near end is clamped here.
    pub fn scroll(&mut self, delta: isize)
        ensures
            final(self)@ == old(self)@.scrolled(delta as int),
    {
        self.follow_lyrics = false;
        let at: usize = self.cursor();
        let to: usize = if delta >= 0 {
            at.saturating_add(delta as usize)
        } else {
            at.saturating_sub(((-(delta + 1)) as usize) + 1)
        };
        self.set_cursor(to);
    }

    /// Moves the open tab's cursor straight to a line.
    pub fn jump(&mut self, to: usize)
        ensures
            final(self)@ == old(self)@.jumped(to),
    {
        self.follow_lyrics = false;
        self.set_cursor(to);
    }

    /// Opens a tab, and reports whether that was a change.
    pub fn open(&mut self, tab: Tab) -> (r: bool)
        ensures
            r == (old(self)@.tab != tab),
            final(self)@ == old(self)@.opened(tab),
    {
        if tab == Tab::Lyrics {
            self.follow_lyrics = true;
        }
        let changed = self.tab != tab;
        self.tab = tab;
        changed
    }

    /// The track that the queue would play next, if there is one.
    pub fn next_in_queue(&self) -> (r: Option<&Track>)
        ensures
            match r {
                Some(track) => self@.next_of() == Some(track@),
                None => self@.next_of() is None,
            },
    {
        match self.playing {
            Some(at) => {
                if at < self.queue.len() && at + 1 < self.queue.len() {
                    Some(&self.queue[at + 1])
                } else {
                    None
                }
            },
            None => None,
        }
    }

    /// How many tracks are left ahead of the one playing.
    pub fn remaining(&self) -> (r: usize)
        ensures
            r == self@.remaining_of(),
    {
        match self.playing {
            Some(at) => {
                if at < self.queue.len() {
                    self.queue.len() - at - 1
                } else {
                    0
                }
            },
            None => 0,
        }
    }

    /// Drops what has fallen out of the window behind the playing track, and
    /// remembers the ids.
    pub fn trim(&mut self)
        requires
            old(self)@.playing is Some ==> old(self)@.playing->0 <= old(self)@.queue.len()
                + QUEUE_BEHIND,
        ensures
            final(self)@ == old(self)@.trimmed(),
    {
        let playing: usize = match self.playing {
            Some(at) => at,
            None => {
                return;
            },
        };
        if playing < QUEUE_BEHIND {
            return;
        }
        let excess: usize = playing - QUEUE_BEHIND;
        let kept = self.queue.split_off(excess);
        let ghost gone = source::views(self.queue@);
        let mut i: usize = 0;
        let ghost before = self.dropped@;
        let n: usize = self.queue.len();
        while i < n
            invariant
                i <= n == self.queue@.len(),
                gone == source::views(self.queue@),
                source::views(self.dropped@) == remember_all(source::views(before), gone.take(i as int)),
                self.queue@ == old(self).queue@.take(excess as int),
                self.video_id == old(self).video_id,
                self.title == old(self).title,
                self.artist == old(self).artist,
                self.album == old(self).album,
                self.duration == old(self).duration,
                self.queue_title == old(self).queue_title,
                self.queue_epoch == old(self).queue_epoch,
                self.continuation == old(self).continuation,
                self.topping_up == old(self).topping_up,
                self.topup_failures == old(self).topup_failures,
                self.playing == old(self).playing,
                self.tab == old(self).tab,
                self.cursor == old(self).cursor,
                self.follow_lyrics == old(self).follow_lyrics,
                self.lyrics == old(self).lyrics,
                self.comments == old(self).comments,
                self.related == old(self).related,
                self.lyrics_id == old(self).lyrics_id,
                self.related_id == old(self).related_id,
                self.watched == old(self).watched,
            decreases n - i,
        {
            let ghost held = self.dropped@;
            if self.dropped.len() >= QUEUE_MEMORY {
                let _ = self.dropped.pop_front();
            }
            let id = self.queue[i].id.clone();
            self.dropped.push_back(id);
            proof {
                let next = gone.take(i + 1);
                assert(next.drop_last() =~= gone.take(i as int));
                assert(next.last() == gone[i as int]);
                assert(source::views(self.dropped@) =~= remember(source::views(held), gone[i as int].id));
            }
            i += 1;
        }
        proof {
            assert(gone.take(n as int) =~= gone);
            assert(gone =~= source::views(old(self).queue@).take(excess as int));
            assert(source::views(kept@) =~= source::views(old(self).queue@).skip(excess as int));
        }
        self.queue = kept;
        self.playing = Some(QUEUE_BEHIND);
        let at: usize = Tab::UpNext.index();
        let was: usize = self.cursor[at];
        self.cursor[at] = was.saturating_sub(excess);
        proof {
            assert(self@ =~= old(self)@.trimmed());
        }
    }

    /// Appends a run of tracks, and reports how many were new. What is held or
    /// was dropped lately is left out.
    pub fn absorb(&mut self, tracks: Vec<Track>) -> (r: usize)
        ensures
            final(self)@ == old(self)@.with_tracks(source::views(tracks@)),
            r == final(self)@.queue.len() - old(self)@.queue.len(),
    {
        let ghost all = source::views(tracks@);
        let ghost start = self@;
        let held_before: usize = self.queue.len();
        proof {
            assert(all.take(0).len() == 0);
        }
        for track in it: tracks
            invariant
                it.seq() == tracks@,
                all == source::views(tracks@),
                start == old(self)@,
                self@ == (NowView {
                    queue: absorbed(
                        start.queue,
                        start.dropped,
                        start.ceiling(),
                        all.take(it.index()),
                    ),
                    ..start
                }),
        {
            let ghost before = self@;
            proof {
                let next = all.take(it.index() + 1);
                assert(next.drop_last() =~= all.take(it.index()));
                assert(next.last() == track@);
            }
            let len: usize = self.queue.len();
            let room = match self.playing {
                Some(at) => len <= at || len - at - 1 < QUEUE_AHEAD,
                None => len < QUEUE_AHEAD,
            };
            if room {
                let held = position(&self.queue, track.id.as_str());
                proof {
                    position_is_found(source::views(self.queue@), track@.id);
                }
                let known = self.remembers(track.id.as_str());
                if held.is_none() && !known {
                    proof {
                        lemma_views_push(self.queue@, track);
                        lemma_position_none(source::views(self.queue@), track@.id);
                    }
                    self.queue.push(track);
                } else {
                    proof {
                        lemma_position_none(source::views(self.queue@), track@.id);
                    }
                }
            }
            proof {
                assert(self@.queue =~= absorbed(
                    start.queue,
                    start.dropped,
                    start.ceiling(),
                    all.take(it.index() + 1),
                ));
                assert(self@ =~= (NowView { queue: self@.queue, ..before }));
            }
        }
        proof {
            assert(all.take(all.len() as int) =~= all);
            lemma_absorb_grows(start.queue, start.dropped, start.ceiling(), all);
        }
        self.queue.len() - held_before
    }

    /// Whether an id has left the window lately.
    fn remembers(&self, id: &str) -> (r: bool)
        ensures
            r == self@.dropped.contains(id@),
    {
        let ghost d = self@.dropped;
        let mut i: usize = 0;
        let n: usize = self.dropped.len();
        while i < n
            invariant
                i <= n == self.dropped@.len(),
                d == source::views(self.dropped@),
                forall|j: int| 0 <= j < i ==> #[trigger] d[j] != id@,
            decreases n - i,
        {
            if text::same(self.dropped[i].as_str(), id) {
                proof {
                    assert(d[i as int] == id@);
                }
                return true;
            }
            i += 1;
        }
        false
    }

    /// Takes a page onto the queue and settles what to do about the next one.
    /// Reports how many tracks were new.
    pub fn take_page(&mut self, page: QueuePage) -> (r: usize)
        ensures
            final(self)@ == old(self)@.with_page(page@),
            r == final(self)@.queue.len() - old(self)@.queue.len(),
    {
        let added = self.absorb(page.tracks);
        proof {
            lemma_absorb_grows(
                old(self)@.queue,
                old(self)@.dropped,
                old(self)@.ceiling(),
                page@.tracks,
            );
        }
        if added == 0 {
            proof {
                assert(self@.queue =~= old(self)@.queue);
            }
            self.continuation = None;
            self.topup_failures = self.topup_failures.saturating_add(1);
            return 0;
        }
        self.topup_failures = 0;
        self.continuation = page.continuation;
        if let Some(title) = page.title {
            self.queue_title = title;
        }
        added
    }

    /// The Related tab flattened into rows: each heading, and under it its
    /// cards.
    pub fn related_rows(&self) -> (r: Vec<RelatedRow<'_>>)
        ensures
            source::views(r@) == self@.rows_of(),
    {
        let mut rows: Vec<RelatedRow<'_>> = Vec::new();
        match &self.related {
            Panel::Ready(shelves) => {
                let ghost all = source::views(shelves@);
                proof {
                    assert(source::views(rows@) =~= shelves_rows(all.take(0)));
                }
                let mut i: usize = 0;
                while i < shelves.len()
                    invariant
                        i <= shelves@.len(),
                        all == source::views(shelves@),
                        source::views(rows@) == shelves_rows(all.take(i as int)),
                    decreases shelves.len() - i,
                {
                    let shelf = &shelves[i];
                    let ghost base = source::views(rows@);
                    let ghost head = seq![RowView::Heading(shelf@.title)];
                    rows.push(RelatedRow::Heading(shelf.title.as_str()));
                    proof {
                        assert(source::views(rows@) =~= base + head);
                    }
                    let mut j: usize = 0;
                    while j < shelf.cards.len()
                        invariant
                            j <= shelf.cards@.len(),
                            source::views(rows@) == base + head + Seq::new(
                                j as nat,
                                |k: int| RowView::Card(shelf@.cards[k]),
                            ),
                        decreases shelf.cards.len() - j,
                    {
                        let ghost so_far = rows@;
                        rows.push(RelatedRow::Card(&shelf.cards[j]));
                        proof {
                            assert(source::views(rows@) =~= source::views(so_far).push(
                                RowView::Card(shelf@.cards[j as int]),
                            ));
                            assert(source::views(rows@) =~= base + head + Seq::new(
                                (j + 1) as nat,
                                |k: int| RowView::Card(shelf@.cards[k]),
                            ));
                        }
                        j += 1;
                    }
                    proof {
                        let next = all.take(i + 1);
                        assert(next.drop_last() =~= all.take(i as int));
                        assert(next.last() == shelf@);
                        assert(source::views(rows@) =~= base + shelf_rows(shelf@));
                    }
                    i += 1;
                }
                proof {
                    assert(all.take(all.len() as int) =~= all);
                }
            },
            _ => {
                proof {
                    assert(source::views(rows@) =~= Seq::<RowView>::empty());
                }
            },
        }
        rows
    }
}

proof fn lemma_position_none(queue: Seq<Track<Seq<char>>>, id: Seq<char>)
    requires
        queue.len() <= usize::MAX,
    ensures
        position_of(queue, id) is None == !holds(queue, id),
{
    position_is_found(queue, id);
    match position_of(queue, id) {
        Some(i) => {
            assert(queue[i as int].id == id);
        },
        None => {},
    }
}

/// Absorbing only ever appends.
pub proof fn lemma_absorb_grows(
    queue: Seq<Track<Seq<char>>>,
    dropped: Seq<Seq<char>>,
    ceiling: int,
    tracks: Seq<Track<Seq<char>>>,
)
    ensures
        ({
            let r = absorbed(queue, dropped, ceiling, tracks);
            &&& queue.len() <= r.len() <= queue.len() + tracks.len()
            &&& r.take(queue.len() as int) == queue
            &&& r.len() > queue.len() ==> r.len() <= ceiling
        }),
    decreases tracks.len(),
{
    if tracks.len() > 0 {
        lemma_absorb_grows(queue, dropped, ceiling, tracks.drop_last());
        let r = absorbed(queue, dropped, ceiling, tracks);
        assert(r.take(queue.len() as int) =~= queue);
    } else {
        assert(queue.take(queue.len() as int) =~= queue);
    }
}

/// A page never grows the queue past its window, whatever it holds, and never
/// moves the track that plays.
pub proof fn queue_stays_inside_its_window(now: NowView, tracks: Seq<Track<Seq<char>>>)
    requires
        now.queue.len() <= now.ceiling(),
    ensures
        now.with_tracks(tracks).queue.len() <= now.ceiling(),
        now.with_tracks(tracks).playing == now.playing,
        now.with_tracks(tracks).queue.take(now.queue.len() as int) == now.queue,
{
    lemma_absorb_grows(now.queue, now.dropped, now.ceiling(), tracks);
}

/// A track that is held or was dropped lately is not taken on again.
pub proof fn known_tracks_are_not_taken(now: NowView, tracks: Seq<Track<Seq<char>>>)
    requires
        forall|i: int|
            0 <= i < tracks.len() ==> holds(now.queue, (#[trigger] tracks[i]).id)
                || now.dropped.contains(tracks[i].id),
    ensures
        now.with_tracks(tracks).queue == now.queue,
    decreases tracks.len(),
{
    if tracks.len() > 0 {
        let rest = tracks.drop_last();
        assert forall|i: int| 0 <= i < rest.len() implies holds(
            now.queue,
            (#[trigger] rest[i]).id,
        ) || now.dropped.contains(rest[i].id) by {
            assert(rest[i] == tracks[i]);
        }
        known_tracks_are_not_taken(now, rest);
        assert(tracks.last() == tracks[tracks.len() - 1]);
    }
}

/// A queue without repeats stays without repeats, whatever page arrives.
pub proof fn pages_bring_no_repeats(now: NowView, tracks: Seq<Track<Seq<char>>>)
    requires
        now.no_repeats(),
    ensures
        now.with_tracks(tracks).no_repeats(),
    decreases tracks.len(),
{
    if tracks.len() > 0 {
        pages_bring_no_repeats(now, tracks.drop_last());
        let so_far = absorbed(now.queue, now.dropped, now.ceiling(), tracks.drop_last());
        let r = absorbed(now.queue, now.dropped, now.ceiling(), tracks);
        if r.len() > so_far.len() {
            assert forall|i: int, j: int| 0 <= i < j < r.len() implies (#[trigger] r[i]).id != (
            #[trigger] r[j]).id by {
                if j == r.len() - 1 {
                    assert(so_far[i].id != tracks.last().id);
                } else {
                    assert(so_far[i].id != so_far[j].id);
                }
            }
        }
    }
}

/// A page of new tracks is taken on whole as long as it fits under the
/// ceiling.
proof fn lemma_absorb_all(
    queue: Seq<Track<Seq<char>>>,
    dropped: Seq<Seq<char>>,
    ceiling: int,
    tracks: Seq<Track<Seq<char>>>,
)
    requires
        queue.len() + tracks.len() <= ceiling,
        forall|i: int, j: int|
            0 <= i < j < tracks.len() ==> (#[trigger] tracks[i]).id != (#[trigger] tracks[j]).id,
        forall|i: int|
            0 <= i < tracks.len() ==> !holds(queue, (#[trigger] tracks[i]).id)
                && !dropped.contains(tracks[i].id),
    ensures
        absorbed(queue, dropped, ceiling, tracks) == queue + tracks,
    decreases tracks.len(),
{
    if tracks.len() == 0 {
        assert(queue + tracks =~= queue);
    } else {
        let rest = tracks.drop_last();
        assert forall|i: int, j: int| 0 <= i < j < rest.len() implies (#[trigger] rest[i]).id != (
        #[trigger] rest[j]).id by {
            assert(rest[i] == tracks[i] && rest[j] == tracks[j]);
        }
        assert forall|i: int| 0 <= i < rest.len() implies !holds(queue, (#[trigger] rest[i]).id)
            && !dropped.contains(rest[i].id) by {
            assert(rest[i] == tracks[i]);
        }
        lemma_absorb_all(queue, dropped, ceiling, rest);
        let last = tracks.last();
        let n = tracks.len() - 1;
        assert(last == tracks[n]);
        assert(!holds(queue + rest, last.id)) by {
            if holds(queue + rest, last.id) {
                let k = choose|k: int|
                    0 <= k < (queue + rest).len() && (#[trigger] (queue + rest)[k]).id == last.id;
                if k < queue.len() {
                    assert(queue[k].id == last.id);
                    assert(holds(queue, last.id));
                } else {
                    assert(rest[k - queue.len()] == tracks[k - queue.len()]);
                    assert(tracks[k - queue.len()].id != tracks[n].id);
                }
            }
        }
        assert(absorbed(queue, dropped, ceiling, tracks) =~= queue + tracks);
    }
}

/// A complete page of sixty new tracks fits whenever the queue has run below
/// its low-water mark, so that none of it is lost.
pub proof fn whole_page_fits_when_low(now: NowView, tracks: Seq<Track<Seq<char>>>)
    requires
        now.wf(),
        now.playing is Some,
        now.remaining_of() < QUEUE_LOW,
        tracks.len() <= 60,
        forall|i: int, j: int|
            0 <= i < j < tracks.len() ==> (#[trigger] tracks[i]).id != (#[trigger] tracks[j]).id,
        forall|i: int|
            0 <= i < tracks.len() ==> !holds(now.queue, (#[trigger] tracks[i]).id)
                && !now.dropped.contains(tracks[i].id),
    ensures
        now.with_tracks(tracks).queue == now.queue + tracks,
        now.with_tracks(tracks).remaining_of() == now.remaining_of() + tracks.len(),
{
    lemma_absorb_all(now.queue, now.dropped, now.ceiling(), tracks);
}

proof fn lemma_memory_bounded(dropped: Seq<Seq<char>>, tracks: Seq<Track<Seq<char>>>)
    requires
        dropped.len() <= QUEUE_MEMORY,
    ensures
        remember_all(dropped, tracks).len() <= QUEUE_MEMORY,
    decreases tracks.len(),
{
    if tracks.len() > 0 {
        lemma_memory_bounded(dropped, tracks.drop_last());
    }
}

/// Trimming keeps the track that plays under its index, keeps everything ahead
/// of it, keeps the memory bounded, and leaves no more behind it than the
/// window holds.
pub proof fn trimming_keeps_what_plays(now: NowView)
    requires
        now.wf(),
        now.playing is Some,
    ensures
        ({
            let t = now.trimmed();
            &&& t.wf()
            &&& t.playing is Some
            &&& t.playing->0 <= QUEUE_BEHIND
            &&& t.queue[t.playing->0 as int] == now.queue[now.playing->0 as int]
            &&& t.remaining_of() == now.remaining_of()
        }),
{
    if now.playing->0 >= QUEUE_BEHIND {
        lemma_memory_bounded(now.dropped, now.queue.take(now.playing->0 - QUEUE_BEHIND));
    }
}

/// The ids of a run of tracks are remembered after they have left the window,
/// as long as the run itself is no longer than the memory.
proof fn lemma_remembered(dropped: Seq<Seq<char>>, tracks: Seq<Track<Seq<char>>>, i: int)
    requires
        dropped.len() <= QUEUE_MEMORY,
        0 <= i < tracks.len() <= QUEUE_MEMORY,
    ensures
        ({
            let r = remember_all(dropped, tracks);
            &&& r.len() >= tracks.len()
            &&& r[r.len() - tracks.len() + i] == tracks[i].id
        }),
    decreases tracks.len(),
{
    let before = remember_all(dropped, tracks.drop_last());
    lemma_memory_bounded(dropped, tracks.drop_last());
    lemma_memory_bounded(dropped, tracks);
    if tracks.len() > 1 {
        lemma_remembered(dropped, tracks.drop_last(), if i < tracks.len() - 1 {
            i
        } else {
            0
        });
        if i < tracks.len() - 1 {
            assert(tracks.drop_last()[i] == tracks[i]);
        }
    }
}

/// A track that was trimmed away is not offered back by the next page.
pub proof fn trimmed_track_is_not_offered_back(now: NowView, i: int, again: Track<Seq<char>>)
    requires
        now.wf(),
        now.playing is Some,
        0 <= i < now.playing->0 - QUEUE_BEHIND <= QUEUE_MEMORY,
        again.id == now.queue[i].id,
    ensures
        now.trimmed().with_tracks(seq![again]).queue == now.trimmed().queue,
{
    let gone = now.queue.take(now.playing->0 - QUEUE_BEHIND);
    lemma_remembered(now.dropped, gone, i);
    let r = remember_all(now.dropped, gone);
    assert(gone[i] == now.queue[i]);
    assert(r[r.len() - gone.len() + i] == again.id);
    assert(now.trimmed().dropped.contains(again.id));
    known_tracks_are_not_taken(now.trimmed(), seq![again]);
}

/// The page after a session's step: one more page if the queue is low, then on
/// to the next track, then the trim.
pub open spec fn session_step(now: NowView, page: Seq<Track<Seq<char>>>) -> NowView {
    let fed = if now.remaining_of() < QUEUE_LOW {
        now.with_tracks(page)
    } else {
        now
    };
    (NowView { playing: Some((fed.playing->0 + 1) as usize), ..fed }).trimmed()
}

/// An endless queue does not grow: whatever pages arrive, a step of the session
/// keeps the window as wide as it may be and the memory as long as it may be.
pub proof fn endless_queue_does_not_grow(now: NowView, page: Seq<Track<Seq<char>>>)
    requires
        now.wf(),
        now.bounded(),
        now.remaining_of() >= 1 || now.with_tracks(page).remaining_of() >= 1,
    ensures
        session_step(now, page).wf(),
        session_step(now, page).bounded(),
        session_step(now, page).queue.len() <= QUEUE_BEHIND + 1 + QUEUE_AHEAD,
        session_step(now, page).dropped.len() <= QUEUE_MEMORY,
{
    lemma_absorb_grows(now.queue, now.dropped, now.ceiling(), page);
    let fed = if now.remaining_of() < QUEUE_LOW {
        now.with_tracks(page)
    } else {
        now
    };
    let on = NowView { playing: Some((fed.playing->0 + 1) as usize), ..fed };
    assert(on.wf());
    trimming_keeps_what_plays(on);
}

/// A page that brings nothing new leaves the queue as it is, gives up the token
/// that bought it, and counts as a failure.
pub proof fn barren_page_counts_as_a_failure(now: NowView, page: PageView)
    requires
        forall|i: int|
            0 <= i < page.tracks.len() ==> holds(now.queue, (#[trigger] page.tracks[i]).id)
                || now.dropped.contains(page.tracks[i].id),
        now.topup_failures < u8::MAX,
    ensures
        ({
            let after = now.with_page(page);
            &&& after.queue == now.queue
            &&& after.continuation is None
            &&& after.topup_failures == now.topup_failures + 1
            &&& after.playing == now.playing
            &&& after.queue_title == now.queue_title
        }),
{
    known_tracks_are_not_taken(now, page.tracks);
}

/// The page of a track that has just been started shows that track, with every
/// panel still to be asked for and nothing known of its queue.
pub proof fn fresh_page_shows_its_track(track: Track<Seq<char>>)
    ensures
        ({
            let now = NowView::of_track(track);
            &&& now.video_id == track.id
            &&& now.title == track.title
            &&& now.artist == track.uploader
            &&& now.album == track.album
            &&& now.duration == track.duration
            &&& now.lyrics is Idle
            &&& now.comments is Idle
            &&& now.related is Idle
            &&& now.playing is None
            &&& now.queue.len() == 0
            &&& !now.watched
            &&& !now.topping_up
            &&& now.topup_failures == 0
            &&& now.follow_lyrics
            &&& now.query_of().title == track.title
            &&& now.query_of().artist == track.uploader
            &&& now.query_of().album == track.album
            &&& now.query_of().duration == track.duration
        }),
{
}

/// The line under the title names the artist, and the album behind the artist.
pub proof fn byline_names_artist_and_album(now: NowView)
    ensures
        now.album is None ==> now.byline_of() == now.artist,
        now.artist.len() == 0 ==> now.byline_of() == now.artist,
        now.album is Some && now.artist.len() > 0 ==> now.byline_of() == now.artist + " • "@
            + now.album->0,
{
}

/// The rows of the Related tab are those of its shelves, one shelf after the
/// other: the heading, then the cards in their order.
pub proof fn related_rows_follow_their_shelves(shelves: Seq<ShelfView>, shelf: ShelfView, i: int)
    ensures
        ({
            let before = shelves_rows(shelves);
            let rows = shelves_rows(shelves.push(shelf));
            &&& rows.len() == before.len() + 1 + shelf.cards.len()
            &&& rows.take(before.len() as int) == before
            &&& rows[before.len() as int] == RowView::Heading(shelf.title)
            &&& 0 <= i < shelf.cards.len() ==> rows[before.len() + 1 + i] == RowView::Card(
                shelf.cards[i],
            )
        }),
{
    assert(shelves.push(shelf).drop_last() =~= shelves);
    let before = shelves_rows(shelves);
    let rows = shelves_rows(shelves.push(shelf));
    assert(rows.take(before.len() as int) =~= before);
}

/// What is ahead of the playing track is the tail of the queue behind it, and the
/// next track is the first of that.
pub proof fn remaining_tracks_are_the_tail(now: NowView, at: int)
    requires
        now.playing == Some(at as usize),
        0 <= at < now.queue.len() <= usize::MAX,
    ensures
        now.remaining_of() == now.queue.len() - at - 1,
        at + 1 < now.queue.len() ==> now.next_of() == Some(now.queue[at + 1]),
        at + 1 == now.queue.len() ==> now.next_of() is None,
{
}

/// Behind the playing track twenty are kept and older ones go, from the front and
/// in order; what plays, and what is ahead, stays.
pub proof fn trimming_drops_from_the_front(now: NowView, at: int)
    requires
        now.playing == Some(at as usize),
        0 <= at < now.queue.len() <= usize::MAX,
    ensures
        at <= 20 ==> now.trimmed().queue == now.queue && now.trimmed().playing == now.playing,
        at > 20 ==> {
            &&& now.trimmed().queue == now.queue.skip(at - 20)
            &&& now.trimmed().playing == Some(20usize)
        },
        now.trimmed().video_id == now.video_id,
        now.trimmed().continuation == now.continuation,
        now.trimmed().queue_epoch == now.queue_epoch,
{
    if at == 20 {
        assert(now.queue.skip(0) =~= now.queue);
    }
}

/// An id that leaves the window is remembered behind those that left before it,
/// and no more than two hundred are.
pub proof fn memory_forgets_the_oldest(dropped: Seq<Seq<char>>, id: Seq<char>)
    requires
        dropped.len() <= 200,
    ensures
        remember(dropped, id).last() == id,
        remember(dropped, id).len() <= 200,
        dropped.len() < 200 ==> remember(dropped, id).drop_last() == dropped,
        dropped.len() == 200 ==> remember(dropped, id).drop_last() == dropped.skip(1),
{
    assert(remember(dropped, id).drop_last() =~= if dropped.len() < 200 {
        dropped
    } else {
        dropped.skip(1)
    });
}

} // verus!
