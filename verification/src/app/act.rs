//! What the user asks for, done.

use vstd::prelude::*;
use vstd::view::View as _;

use super::input::{Action, TrayCommand, SEEK_STEP};
use super::play;
use super::{
    App, AppView, HomeView, LibraryView, ListView, Mode, Overlay, PicturesView, Screen,
    SessionView, View, VOLUME_STEP,
};
use crate::now_playing::{RelatedRow, RowView, Tab};
use crate::player::{Command, PlayState, MAX_VOLUME};
use crate::source;
use crate::source::{Request, ShelfView, Target, Track};
use crate::text;

verus! {

broadcast use vstd::string::group_string_axioms;

/// What an optional track says.
pub open spec fn track_view(track: Option<Track>) -> Option<Track<Seq<char>>> {
    match track {
        Some(track) => Some(track@),
        None => None,
    }
}

/// The last place of so many, and zero of none.
pub open spec fn last_of(n: nat) -> usize {
    if n == 0 {
        0
    } else {
        (n - 1) as usize
    }
}

/// A cursor moved down: not past the last place.
pub open spec fn down_to(at: usize, by: usize, last: usize) -> usize {
    if at + by < last {
        (at + by) as usize
    } else {
        last
    }
}

/// A cursor moved up: not above the first place.
pub open spec fn up_to(at: usize, by: usize) -> usize {
    if at < by {
        0
    } else {
        (at - by) as usize
    }
}

fn move_down(at: usize, by: usize, last: usize) -> (r: usize)
    ensures
        r == down_to(at, by, last),
{
    if at < last && by < last - at {
        at + by
    } else {
        last
    }
}

fn move_up(at: usize, by: usize) -> (r: usize)
    ensures
        r == up_to(at, by),
{
    at.saturating_sub(by)
}

/// The last card of a shelf of the landing page.
pub open spec fn last_card(shelves: Seq<ShelfView>, shelf: usize) -> usize {
    if shelf < shelves.len() {
        last_of(shelves[shelf as int].cards.len())
    } else {
        0
    }
}

/// The volume one step up, or one step down.
pub open spec fn nudged(volume: u16, up: bool) -> u16 {
    let to = if up {
        volume + VOLUME_STEP
    } else {
        volume - VOLUME_STEP
    };
    if to < 0 {
        0
    } else if to > MAX_VOLUME {
        MAX_VOLUME
    } else {
        to as u16
    }
}

fn nudge(volume: u16, up: bool) -> (r: u16)
    ensures
        r == nudged(volume, up),
{
    let to: u16 = if up {
        volume.saturating_add(VOLUME_STEP)
    } else {
        volume.saturating_sub(VOLUME_STEP)
    };
    if to > MAX_VOLUME {
        MAX_VOLUME
    } else {
        to
    }
}

/// A position one seek further on, or one seek back: not before the start.
pub open spec fn sought(position: u64, forward: bool) -> u64 {
    if forward {
        if position + SEEK_STEP > u64::MAX {
            u64::MAX
        } else {
            (position + SEEK_STEP) as u64
        }
    } else if position < SEEK_STEP {
        0
    } else {
        (position - SEEK_STEP) as u64
    }
}

impl AppView {
    /// With the program told to end.
    pub open spec fn quits(self) -> AppView {
        AppView { screen: Screen { should_quit: true, ..self.screen }, ..self }
    }

    /// With the cursor of the landing page on a card. A shelf that is shorter
    /// than the card's place takes the cursor to its last card. Moving restarts
    /// the wait of the prefetch.
    pub open spec fn home_to(self, shelf: usize, card: usize) -> AppView {
        let last = last_card(self.home.shelves, shelf);
        let fitted = if shelf != self.home.shelf && card > last {
            last
        } else {
            card
        };
        let placed = self.at_home(HomeView { shelf, card: fitted, ..self.home });
        if shelf != self.home.shelf || fitted != self.home.card {
            placed.settling()
        } else {
            placed
        }
    }

    /// With a row of the track list selected. Moving restarts the wait of the
    /// prefetch.
    pub open spec fn selects(self, row: usize) -> AppView {
        let placed = AppView { list: ListView { selected: row, ..self.list }, ..self };
        if row != self.list.selected {
            placed.settling()
        } else {
            placed
        }
    }

    /// With a playlist selected.
    pub open spec fn selects_playlist(self, row: usize) -> AppView {
        AppView { library: LibraryView { selected: row, ..self.library }, ..self }
    }

    /// With the cursor of the player page moved.
    pub open spec fn scrolls(self, delta: int) -> AppView {
        match self.session.now {
            Some(now) => self.paged(Some(now.scrolled(delta))),
            None => self,
        }
    }

    /// With the cursor of the player page on a line.
    pub open spec fn jumps(self, to: usize) -> AppView {
        match self.session.now {
            Some(now) => self.paged(Some(now.jumped(to))),
            None => self,
        }
    }

    /// Moves the cursor of the view down.
    #[verifier::opaque]
    pub open spec fn goes_down(self, by: usize) -> AppView {
        match self.screen.view {
            View::Home => self.home_to(
                down_to(self.home.shelf, by, last_of(self.home.shelves.len())),
                self.home.card,
            ),
            View::Tracks => if self.list.results.len() == 0 {
                self
            } else {
                self.selects(
                    down_to(self.list.selected, by, last_of(self.list.results.len())),
                )
            },
            View::Playlists => self.selects_playlist(
                down_to(self.library.selected, by, last_of(self.library.playlists.len())),
            ),
            View::Playing => self.scrolls(by as int),
        }
    }

    /// Moves the cursor of the view up. In the track list it also comes back
    /// from beyond the last row.
    #[verifier::opaque]
    pub open spec fn goes_up(self, by: usize) -> AppView {
        match self.screen.view {
            View::Home => self.home_to(up_to(self.home.shelf, by), self.home.card),
            View::Tracks => if self.list.results.len() == 0 {
                self
            } else {
                let to = up_to(self.list.selected, by);
                let last = last_of(self.list.results.len());
                self.selects(
                    if to > last {
                        last
                    } else {
                        to
                    },
                )
            },
            View::Playlists => self.selects_playlist(up_to(self.library.selected, by)),
            View::Playing => self.scrolls(-by),
        }
    }

    /// Moves the cursor of the view to its first row.
    #[verifier::opaque]
    pub open spec fn goes_first(self) -> AppView {
        match self.screen.view {
            View::Home => self.home_to(0, 0),
            View::Tracks => self.selects(0),
            View::Playlists => self.selects_playlist(0),
            View::Playing => self.jumps(0),
        }
    }

    /// Moves the cursor of the view to its last row. How long a panel of the
    /// player page is, only drawing it shows: it is asked for a line that it
    /// cannot have, and clamped then.
    #[verifier::opaque]
    pub open spec fn goes_last(self) -> AppView {
        match self.screen.view {
            View::Home => self.home_to(last_of(self.home.shelves.len()), self.home.card),
            View::Tracks => self.selects(last_of(self.list.results.len())),
            View::Playlists => self.selects_playlist(last_of(self.library.playlists.len())),
            View::Playing => self.jumps(usize::MAX),
        }
    }

    /// Walks along a shelf.
    #[verifier::opaque]
    pub open spec fn walks(self, forward: bool) -> AppView {
        self.home_to(
            self.home.shelf,
            if forward {
                down_to(self.home.card, 1, last_card(self.home.shelves, self.home.shelf))
            } else {
                up_to(self.home.card, 1)
            },
        )
    }

    /// Plays a card, or opens what it stands for.
    #[verifier::opaque]
    pub open spec fn opens(
        self,
        playable: Option<Track<Seq<char>>>,
        title: Seq<char>,
        target: Target<Seq<char>>,
    ) -> AppView {
        match playable {
            Some(track) => self.plays(track, false),
            None => match target {
                Target::Play { .. } => self,
                Target::Open { browse_id } => self.says("opening "@ + title + " ..."@).asks(
                    Request::OpenBrowse { browse_id, title },
                ),
            },
        }
    }

    /// Plays the row of the player page under the cursor, or opens it. Only a
    /// row of the queue and a recommendation can be.
    #[verifier::opaque]
    pub open spec fn opens_row(self) -> AppView {
        if self.session.now is Some {
            let now = self.session.now->0;
            let at = now.cursor[now.tab.place()] as int;
            match now.tab {
                Tab::UpNext => if at < now.queue.len() {
                    self.plays(now.queue[at], false)
                } else {
                    self
                },
                Tab::Related => if at < now.rows_of().len() {
                    match now.rows_of()[at] {
                        RowView::Card(card) => self.opens(card.playable, card.title, card.target),
                        RowView::Heading(_) => self,
                    }
                } else {
                    self
                },
                _ => self,
            }
        } else {
            self
        }
    }

    /// Opens the selected playlist.
    #[verifier::opaque]
    pub open spec fn opens_playlist(self) -> AppView {
        if self.library.selected < self.library.playlists.len() {
            let playlist = self.library.playlists[self.library.selected as int];
            self.says("opening "@ + playlist.title + " ..."@).asks(
                Request::OpenPlaylist { id: playlist.id, title: playlist.title },
            )
        } else {
            self
        }
    }

    /// Opens what is under the cursor of the view.
    #[verifier::opaque]
    pub open spec fn opens_selected(self) -> AppView {
        match self.screen.view {
            View::Home => match self.card_of() {
                Some(card) => self.opens(card.playable, card.title, card.target),
                None => self,
            },
            View::Tracks => if self.list.selected < self.list.results.len() {
                self.plays(self.list.results[self.list.selected as int], false)
            } else {
                self
            },
            View::Playlists => self.opens_playlist(),
            View::Playing => self.opens_row(),
        }
    }

    /// Opens a tab of the player page, and fetches what is behind it where that
    /// was a change.
    #[verifier::opaque]
    pub open spec fn opens_tab(self, tab: Tab) -> AppView {
        match self.session.now {
            Some(now) => {
                let opened = self.paged(Some(now.opened(tab)));
                if now.tab != tab {
                    opened.asks_tab()
                } else {
                    opened
                }
            },
            None => self,
        }
    }

    /// Moves along the ring of tabs.
    #[verifier::opaque]
    pub open spec fn shifts(self, delta: int) -> AppView {
        match self.session.now {
            Some(now) => self.opens_tab(now.tab.shifted_of(delta)),
            None => self,
        }
    }

    /// Moves the volume by a step, and says where it is.
    #[verifier::opaque]
    pub open spec fn nudges(self, up: bool) -> AppView {
        let volume = nudged(self.seen.volume, up);
        self.orders(Command::SetVolume(volume)).says(
            "volume "@ + text::decimal_of(volume as nat) + "%"@,
        )
    }

    /// Seeks by a step, where anything plays.
    #[verifier::opaque]
    pub open spec fn seeks(self, forward: bool) -> AppView {
        if self.seen.state == PlayState::Idle {
            self
        } else {
            self.orders(Command::Seek(sought(self.seen.position, forward)))
        }
    }

    /// Stops playback and closes the player page. What was heard of the track
    /// counts as heard, and neither the queue nor an answer on its way starts
    /// anything afterwards.
    #[verifier::opaque]
    pub open spec fn stops(self) -> AppView {
        let over = self.heard_out().orders(Command::Stop).says("stopped"@);
        AppView {
            session: SessionView {
                now: None,
                auto: false,
                pending: None,
                resuming: None,
                ..over.session
            },
            pictures: PicturesView { cover: None, cover_id: None, ..over.pictures },
            screen: Screen {
                view: if over.screen.view == View::Playing {
                    over.screen.back_to
                } else {
                    over.screen.view
                },
                ..over.screen
            },
            ..over
        }
    }

    /// With the cover at its other size.
    pub open spec fn resizes_cover(self) -> AppView {
        AppView {
            screen: Screen { cover_size: self.screen.cover_size.other(), ..self.screen },
            ..self
        }
    }

    /// To the search box.
    #[verifier::opaque]
    pub open spec fn edits(self) -> AppView {
        self.in_mode(Mode::Editing).says("type to search, Enter to run"@)
    }

    /// Shows the library. It is fetched only where it is not held.
    #[verifier::opaque]
    pub open spec fn opens_library(self) -> AppView {
        let shown = self.viewing(View::Playlists).in_mode(Mode::Browse);
        if self.library.playlists.len() == 0 {
            shown.says("loading your library ..."@).asks(Request::Playlists)
        } else {
            shown
        }
    }

    /// Asks to be signed out.
    #[verifier::opaque]
    pub open spec fn asks_sign_out(self) -> AppView {
        if self.source.open {
            self.sends(Request::SignOut)
        } else {
            self.says(super::NO_WORKER@)
        }
    }

    /// Asks for the session of the landing page to be imported afresh.
    #[verifier::opaque]
    pub open spec fn imports_session(self) -> AppView {
        if self.source.open {
            self.sends(Request::ImportCookies { force: true })
        } else {
            self.says(super::NO_WORKER@)
        }
    }

    /// Returns to the player page, where anything plays.
    #[verifier::opaque]
    pub open spec fn opens_player(self) -> AppView {
        if self.session.now is Some {
            AppView {
                screen: Screen {
                    back_to: self.screen.view,
                    view: View::Playing,
                    ..self.screen
                },
                ..self
            }
        } else {
            self.says("nothing is playing"@)
        }
    }

    /// Asks to let go of the terminal, where anything plays.
    #[verifier::opaque]
    pub open spec fn goes_behind(self) -> AppView {
        if self.session.now is Some {
            AppView { screen: Screen { wants_background: true, ..self.screen }, ..self }
        } else {
            self.says("nothing is playing to run in the background"@)
        }
    }

    /// Presses the presence switch, says where it is, and has that remembered.
    #[verifier::opaque]
    pub open spec fn switches_presence(self) -> AppView {
        let presence = self.presence.toggled();
        (AppView { presence, presence_setting: Some(presence.enabled), ..self }).says(
            presence.status_of(),
        )
    }

    /// The track that the user acts on, and what it is called: the playing one
    /// on the player page, the selected row elsewhere.
    pub open spec fn acted_on(self) -> Option<(Seq<char>, Seq<char>)> {
        match self.screen.view {
            View::Playing => match self.session.now {
                Some(now) => Some((now.video_id, source::label_of(now.title, now.artist))),
                None => None,
            },
            _ => if self.list.selected < self.list.results.len() {
                let track = self.list.results[self.list.selected as int];
                Some((track.id, track.label_of()))
            } else {
                None
            },
        }
    }

    /// Puts the playlist picker up. The playlists are fetched where they are
    /// not held.
    #[verifier::opaque]
    pub open spec fn begins_add(self) -> AppView {
        match self.acted_on() {
            Some((video_id, title)) => {
                let up = self.overlaid(Overlay::AddTo { video_id, title, selected: 0 });
                if self.library.playlists.len() == 0 {
                    up.says("loading your playlists ..."@).asks(Request::Playlists)
                } else {
                    up.says("choose a playlist"@)
                }
            },
            None => self,
        }
    }

    /// Removes the selected track from the playlist that it is shown from.
    #[verifier::opaque]
    pub open spec fn removes_selected(self) -> AppView {
        if self.list.selected < self.list.results.len() {
            let track = self.list.results[self.list.selected as int];
            match track.playlist_item_id {
                Some(row) => self.says("removing "@ + track.label_of() + " ..."@).asks(
                    Request::RemoveFromPlaylist { playlist_item_id: row, title: track.label_of() },
                ),
                None => self.says(
                    if self.list.open_playlist is Some {
                        "this row cannot be removed -- press f to unlike"@
                    } else {
                        "not in a playlist -- press L to open one"@
                    },
                ),
            }
        } else {
            self
        }
    }

    /// Likes the track that is acted on, or takes the like back.
    #[verifier::opaque]
    pub open spec fn switches_like(self) -> AppView {
        match self.acted_on() {
            Some((video_id, title)) => self.says("rating "@ + title + " ..."@).asks(
                Request::ToggleLike { video_id, title },
            ),
            None => self,
        }
    }

    /// Fetches the landing page again, from the next seeds.
    #[verifier::opaque]
    pub open spec fn refreshes(self) -> AppView {
        self.at_home(HomeView { rotation: play::stepped(self.home.rotation), ..self.home }).says(
            "refreshing the home feed ..."@,
        ).asks_home()
    }

    /// Leaves the view: the landing page for the track list where that has
    /// anything, the track list for the library or the landing page, the
    /// library for the track list or the landing page, and the player page for
    /// where it was opened from.
    #[verifier::opaque]
    pub open spec fn leaves(self) -> AppView {
        match self.screen.view {
            View::Home => if self.list.results.len() > 0 {
                self.viewing(View::Tracks)
            } else {
                self
            },
            View::Tracks => if self.list.open_playlist is Some {
                self.opens_library()
            } else {
                self.viewing(View::Home)
            },
            View::Playlists => if self.list.results.len() == 0 {
                self.viewing(View::Home)
            } else {
                self.viewing(View::Tracks)
            },
            View::Playing => self.viewing(self.screen.back_to),
        }
    }

    /// Performs an action.
    #[verifier::opaque]
    pub open spec fn performs(self, action: Action) -> AppView {
        match action {
            Action::Nothing => self,
            Action::Quit => self.quits(),
            Action::Down(by) => self.goes_down(by),
            Action::Up(by) => self.goes_up(by),
            Action::First => self.goes_first(),
            Action::Last => self.goes_last(),
            Action::Walk { forward } => self.walks(forward),
            Action::Open => self.opens_selected(),
            Action::NextTab => self.shifts(1),
            Action::PreviousTab => self.shifts(-1),
            Action::Show(tab) => self.opens_tab(tab),
            Action::Pause => self.orders(Command::TogglePause),
            Action::Louder => self.nudges(true),
            Action::Quieter => self.nudges(false),
            Action::Seek { forward } => self.seeks(forward),
            Action::Next => self.advances(1, false),
            Action::Previous => self.advances(-1, false),
            Action::Stop => self.stops(),
            Action::CoverSize => self.resizes_cover(),
            Action::Edit => self.edits(),
            Action::Search => self.viewing(View::Tracks).edits(),
            Action::Library => self.opens_library(),
            Action::SignIn => self.signs_in(),
            Action::SignOut => self.asks_sign_out(),
            Action::Import => self.imports_session(),
            Action::Player => self.opens_player(),
            Action::Background => self.goes_behind(),
            Action::Presence => self.switches_presence(),
            Action::Add => self.begins_add(),
            Action::Remove => self.removes_selected(),
            Action::Like => self.switches_like(),
            Action::Refresh => self.refreshes(),
            Action::Reload => self.asks(Request::Playlists),
            Action::Home => self.viewing(View::Home),
            Action::Leave => self.leaves(),
            Action::Menu(menu) => self.opens_menu(menu),
            Action::Settings => self.opens_settings(),
            Action::Help => self.opens_help(),
        }
    }

    /// Performs a command of the notification-area icon.
    pub open spec fn tray(self, command: TrayCommand) -> AppView {
        match command {
            TrayCommand::Show => AppView {
                screen: Screen { wants_foreground: true, ..self.screen },
                ..self
            },
            TrayCommand::TogglePause => self.orders(Command::TogglePause),
            TrayCommand::Next => self.advances(1, false),
            TrayCommand::Previous => self.advances(-1, false),
            TrayCommand::Quit => self.quits(),
        }
    }

    /// What hovering the icon says: whether it plays, the track, and who it is
    /// by.
    pub open spec fn tip_of(self) -> Seq<char> {
        match self.session.now {
            Some(now) => (match self.seen.state {
                PlayState::Paused => "paused -- "@,
                PlayState::Buffering => "loading -- "@,
                _ => ""@,
            }) + now.title + " -- "@ + now.byline_of(),
            None => "MTUI -- nothing playing"@,
        }
    }
}

/// The last place of so many, and zero of none.
fn last_place(n: usize) -> (r: usize)
    ensures
        r == last_of(n as nat),
{
    n.saturating_sub(1)
}

impl App {
    pub(super) fn quit(&mut self)
        ensures
            final(self).view() == old(self).view().quits(),
    {
        self.screen.should_quit = true;
    }

    fn shelf_end(&self, shelf: usize) -> (r: usize)
        ensures
            r == last_card(self.view().home.shelves, shelf),
    {
        if shelf < self.home.shelves.len() {
            last_place(self.home.shelves[shelf].cards.len())
        } else {
            0
        }
    }

    pub(super) fn move_home(&mut self, shelf: usize, card: usize)
        ensures
            final(self).view() == old(self).view().home_to(shelf, card),
    {
        let last: usize = self.shelf_end(shelf);
        let fitted: usize = if shelf != self.home.shelf && card > last {
            last
        } else {
            card
        };
        let moved = shelf != self.home.shelf || fitted != self.home.card;
        self.home.shelf = shelf;
        self.home.card = fitted;
        if moved {
            self.settle();
        }
    }

    pub(super) fn select(&mut self, row: usize)
        ensures
            final(self).view() == old(self).view().selects(row),
    {
        let moved = row != self.list.selected;
        self.list.selected = row;
        if moved {
            self.settle();
        }
    }

    pub(super) fn select_playlist(&mut self, row: usize)
        ensures
            final(self).view() == old(self).view().selects_playlist(row),
    {
        self.library.selected = row;
    }

    /// Moves the cursor of the open tab, where there is a page to move it on.
    fn scroll_page(&mut self, delta: isize)
        ensures
            final(self).view() == old(self).view().scrolls(delta as int),
    {
        if let Some(mut now) = self.take_page_off() {
            now.scroll(delta);
            self.set_page(Some(now));
        }
    }

    fn jump_page(&mut self, to: usize)
        ensures
            final(self).view() == old(self).view().jumps(to),
    {
        if let Some(mut now) = self.take_page_off() {
            now.jump(to);
            self.set_page(Some(now));
        }
    }

    fn go_down(&mut self, by: usize)
        requires
            by <= isize::MAX,
        ensures
            final(self).view() == old(self).view().goes_down(by),
    {
        reveal(AppView::goes_down);
        match self.screen.view {
            View::Home => {
                let last: usize = last_place(self.home.shelves.len());
                self.move_home(move_down(self.home.shelf, by, last), self.home.card);
            },
            View::Tracks => {
                if self.list.results.len() > 0 {
                    let last: usize = last_place(self.list.results.len());
                    self.select(move_down(self.list.selected, by, last));
                }
            },
            View::Playlists => {
                let last: usize = last_place(self.library.playlists.len());
                self.select_playlist(move_down(self.library.selected, by, last));
            },
            View::Playing => self.scroll_page(by as isize),
        }
    }

    fn go_up(&mut self, by: usize)
        requires
            by <= isize::MAX,
        ensures
            final(self).view() == old(self).view().goes_up(by),
    {
        reveal(AppView::goes_up);
        match self.screen.view {
            View::Home => self.move_home(move_up(self.home.shelf, by), self.home.card),
            View::Tracks => {
                if self.list.results.len() > 0 {
                    let to: usize = move_up(self.list.selected, by);
                    let last: usize = last_place(self.list.results.len());
                    self.select(
                        if to > last {
                            last
                        } else {
                            to
                        },
                    );
                }
            },
            View::Playlists => self.select_playlist(move_up(self.library.selected, by)),
            View::Playing => self.scroll_page(-(by as isize)),
        }
    }

    fn go_first(&mut self)
        ensures
            final(self).view() == old(self).view().goes_first(),
    {
        reveal(AppView::goes_first);
        match self.screen.view {
            View::Home => self.move_home(0, 0),
            View::Tracks => self.select(0),
            View::Playlists => self.select_playlist(0),
            View::Playing => self.jump_page(0),
        }
    }

    fn go_last(&mut self)
        ensures
            final(self).view() == old(self).view().goes_last(),
    {
        reveal(AppView::goes_last);
        match self.screen.view {
            View::Home => self.move_home(last_place(self.home.shelves.len()), self.home.card),
            View::Tracks => self.select(last_place(self.list.results.len())),
            View::Playlists => self.select_playlist(last_place(self.library.playlists.len())),
            View::Playing => self.jump_page(usize::MAX),
        }
    }

    fn walk(&mut self, forward: bool)
        ensures
            final(self).view() == old(self).view().walks(forward),
    {
        reveal(AppView::walks);
        let card: usize = if forward {
            move_down(self.home.card, 1, self.shelf_end(self.home.shelf))
        } else {
            move_up(self.home.card, 1)
        };
        self.move_home(self.home.shelf, card);
    }

    /// Plays a card, or opens what it stands for.
    fn open_card(&mut self, playable: Option<Track>, title: String, target: Target)
        ensures
            final(self).view() == old(self).view().opens(
                track_view(playable),
                title@,
                target@,
            ),
    {
        reveal(AppView::opens);
        match playable {
            Some(track) => self.play_track(track, false),
            None => match target {
                Target::Play { .. } => {},
                Target::Open { browse_id } => {
                    self.say_text(text::join3("opening ", title.as_str(), " ..."));
                    self.ask(Request::OpenBrowse { browse_id, title });
                },
            },
        }
    }

    fn open_page_row(&mut self)
        ensures
            final(self).view() == old(self).view().opens_row(),
    {
        reveal(AppView::opens_row);
        let mut chosen: Option<Track> = None;
        let mut card: Option<(Option<Track>, String, Target)> = None;
        match &self.session.now {
            None => {},
            Some(now) => {
                let at: usize = now.cursor();
                match now.tab {
                    Tab::UpNext => {
                        if at < now.queue.len() {
                            chosen = Some(now.queue[at].clone());
                        }
                    },
                    Tab::Related => {
                        let rows = now.related_rows();
                        if at < rows.len() {
                            proof {
                                assert(source::views(rows@)[at as int] == rows@[at as int]@);
                            }
                            if let RelatedRow::Card(shown) = &rows[at] {
                                card = Some(
                                    (shown.track(), shown.title.clone(), shown.target.clone()),
                                );
                            }
                        }
                    },
                    _ => {},
                }
            },
        }
        if let Some(track) = chosen {
            self.play_track(track, false);
        } else if let Some((playable, title, target)) = card {
            self.open_card(playable, title, target);
        }
    }

    fn open_selected_playlist(&mut self)
        ensures
            final(self).view() == old(self).view().opens_playlist(),
    {
        reveal(AppView::opens_playlist);
        if self.library.selected < self.library.playlists.len() {
            let playlist = &self.library.playlists[self.library.selected];
            let id = playlist.id.clone();
            let title = playlist.title.clone();
            self.say_text(text::join3("opening ", title.as_str(), " ..."));
            self.ask(Request::OpenPlaylist { id, title });
        }
    }

    fn open_selected(&mut self)
        ensures
            final(self).view() == old(self).view().opens_selected(),
    {
        reveal(AppView::opens_selected);
        match self.screen.view {
            View::Home => {
                let card = match self.home_card() {
                    Some(card) => Some((card.track(), card.title.clone(), card.target.clone())),
                    None => None,
                };
                if let Some((playable, title, target)) = card {
                    self.open_card(playable, title, target);
                }
            },
            View::Tracks => {
                if self.list.selected < self.list.results.len() {
                    let track = self.list.results[self.list.selected].clone();
                    self.play_track(track, false);
                }
            },
            View::Playlists => self.open_selected_playlist(),
            View::Playing => self.open_page_row(),
        }
    }

    fn open_tab(&mut self, tab: Tab)
        ensures
            final(self).view() == old(self).view().opens_tab(tab),
    {
        reveal(AppView::opens_tab);
        if let Some(mut now) = self.take_page_off() {
            let changed = now.open(tab);
            self.set_page(Some(now));
            if changed {
                self.request_tab();
            }
        }
    }

    fn shift_tab(&mut self, delta: isize)
        ensures
            final(self).view() == old(self).view().shifts(delta as int),
    {
        reveal(AppView::shifts);
        let to: Option<Tab> = match &self.session.now {
            Some(now) => Some(now.tab.shifted(delta)),
            None => None,
        };
        if let Some(tab) = to {
            self.open_tab(tab);
        }
    }

    fn nudge_volume(&mut self, up: bool)
        ensures
            final(self).view() == old(self).view().nudges(up),
    {
        reveal(AppView::nudges);
        let volume: u16 = nudge(self.seen.volume, up);
        self.order(Command::SetVolume(volume));
        let shown = text::decimal(volume as u64);
        self.say_text(text::join3("volume ", shown.as_str(), "%"));
    }

    /// Seeks from the current position, not before the start.
    fn seek_relative(&mut self, forward: bool)
        ensures
            final(self).view() == old(self).view().seeks(forward),
    {
        reveal(AppView::seeks);
        if self.seen.state != PlayState::Idle {
            let target: u64 = if forward {
                self.seen.position.saturating_add(SEEK_STEP)
            } else {
                self.seen.position.saturating_sub(SEEK_STEP)
            };
            self.order(Command::Seek(target));
        }
    }

    /// Stops playback and closes the player page.
    fn stop(&mut self)
        ensures
            final(self).view() == old(self).view().stops(),
    {
        reveal(AppView::stops);
        self.finish_listening();
        self.order(Command::Stop);
        self.say("stopped");
        self.session.now = None;
        self.session.auto = false;
        self.session.pending = None;
        self.session.resuming = None;
        self.pictures.cover = None;
        self.pictures.cover_id = None;
        if self.screen.view == View::Playing {
            self.screen.view = self.screen.back_to;
        }
    }

    fn resize_cover(&mut self)
        ensures
            final(self).view() == old(self).view().resizes_cover(),
    {
        self.screen.cover_size = self.screen.cover_size.toggled();
    }

    fn edit(&mut self)
        ensures
            final(self).view() == old(self).view().edits(),
    {
        reveal(AppView::edits);
        self.enter(Mode::Editing);
        self.say("type to search, Enter to run");
    }

    /// Shows the library, fetching it if it is not held.
    pub(super) fn open_library(&mut self)
        ensures
            final(self).view() == old(self).view().opens_library(),
    {
        reveal(AppView::opens_library);
        self.show(View::Playlists);
        self.enter(Mode::Browse);
        if self.library.playlists.len() == 0 {
            self.say("loading your library ...");
            self.request_playlists();
        }
    }

    fn sign_out(&mut self)
        ensures
            final(self).view() == old(self).view().asks_sign_out(),
    {
        reveal(AppView::asks_sign_out);
        if !self.send(Request::SignOut) {
            self.say(super::NO_WORKER);
        }
    }

    fn import_session(&mut self)
        ensures
            final(self).view() == old(self).view().imports_session(),
    {
        reveal(AppView::imports_session);
        if !self.send(Request::ImportCookies { force: true }) {
            self.say(super::NO_WORKER);
        }
    }

    fn open_player(&mut self)
        ensures
            final(self).view() == old(self).view().opens_player(),
    {
        reveal(AppView::opens_player);
        if self.session.now.is_some() {
            self.screen.back_to = self.screen.view;
            self.screen.view = View::Playing;
        } else {
            self.say("nothing is playing");
        }
    }

    fn background(&mut self)
        ensures
            final(self).view() == old(self).view().goes_behind(),
    {
        reveal(AppView::goes_behind);
        if self.session.now.is_some() {
            self.screen.wants_background = true;
        } else {
            self.say("nothing is playing to run in the background");
        }
    }

    /// Turns the Discord card on or off, and has that remembered.
    pub(super) fn toggle_presence(&mut self)
        ensures
            final(self).view() == old(self).view().switches_presence(),
    {
        reveal(AppView::switches_presence);
        let enabled = self.presence.toggle();
        self.presence_setting = Some(enabled);
        let status = self.presence.status();
        self.say_text(status);
    }

    /// The track that the user acts on, and what it is called.
    fn acting_on(&self) -> (r: Option<(String, String)>)
        ensures
            super::pair_view(r) == self.view().acted_on(),
    {
        match self.screen.view {
            View::Playing => match &self.session.now {
                Some(now) => Some(
                    (
                        now.video_id.clone(),
                        source::label(now.title.as_str(), now.artist.as_str()),
                    ),
                ),
                None => None,
            },
            _ => {
                if self.list.selected < self.list.results.len() {
                    let track = &self.list.results[self.list.selected];
                    Some((track.id.clone(), track.label()))
                } else {
                    None
                }
            },
        }
    }

    /// Puts the playlist picker up for the track that is acted on.
    fn begin_add(&mut self)
        ensures
            final(self).view() == old(self).view().begins_add(),
    {
        reveal(AppView::begins_add);
        if let Some((video_id, title)) = self.acting_on() {
            self.overlay(Overlay::AddTo { video_id, title, selected: 0 });
            if self.library.playlists.len() == 0 {
                self.say("loading your playlists ...");
                self.request_playlists();
            } else {
                self.say("choose a playlist");
            }
        }
    }

    /// Removes the selected track from the playlist that it is shown from.
    fn remove_selected(&mut self)
        ensures
            final(self).view() == old(self).view().removes_selected(),
    {
        reveal(AppView::removes_selected);
        if self.list.selected < self.list.results.len() {
            let row = text::clone_opt(&self.list.results[self.list.selected].playlist_item_id);
            let title = self.list.results[self.list.selected].label();
            match row {
                Some(playlist_item_id) => {
                    self.say_text(text::join3("removing ", title.as_str(), " ..."));
                    self.ask(Request::RemoveFromPlaylist { playlist_item_id, title });
                },
                None => {
                    if self.list.open_playlist.is_some() {
                        self.say("this row cannot be removed -- press f to unlike");
                    } else {
                        self.say("not in a playlist -- press L to open one");
                    }
                },
            }
        }
    }

    fn toggle_like(&mut self)
        ensures
            final(self).view() == old(self).view().switches_like(),
    {
        reveal(AppView::switches_like);
        if let Some((video_id, title)) = self.acting_on() {
            self.say_text(text::join3("rating ", title.as_str(), " ..."));
            self.ask(Request::ToggleLike { video_id, title });
        }
    }

    fn refresh(&mut self)
        ensures
            final(self).view() == old(self).view().refreshes(),
    {
        reveal(AppView::refreshes);
        self.home.rotation = self.home.rotation.wrapping_add(1);
        self.say("refreshing the home feed ...");
        self.request_home();
    }

    fn leave(&mut self)
        ensures
            final(self).view() == old(self).view().leaves(),
    {
        reveal(AppView::leaves);
        match self.screen.view {
            View::Home => {
                if self.list.results.len() > 0 {
                    self.show(View::Tracks);
                }
            },
            View::Tracks => {
                if self.list.open_playlist.is_some() {
                    self.open_library();
                } else {
                    self.show(View::Home);
                }
            },
            View::Playlists => {
                if self.list.results.len() == 0 {
                    self.show(View::Home);
                } else {
                    self.show(View::Tracks);
                }
            },
            View::Playing => self.show(self.screen.back_to),
        }
    }

    /// Performs an action.
    pub(super) fn perform(&mut self, action: Action)
        requires
            match action {
                Action::Down(by) => by <= isize::MAX,
                Action::Up(by) => by <= isize::MAX,
                _ => true,
            },
        ensures
            final(self).view() == old(self).view().performs(action),
    {
        reveal(AppView::performs);
        match action {
            Action::Nothing => {},
            Action::Quit => self.quit(),
            Action::Down(by) => self.go_down(by),
            Action::Up(by) => self.go_up(by),
            Action::First => self.go_first(),
            Action::Last => self.go_last(),
            Action::Walk { forward } => self.walk(forward),
            Action::Open => self.open_selected(),
            Action::NextTab => self.shift_tab(1),
            Action::PreviousTab => self.shift_tab(-1),
            Action::Show(tab) => self.open_tab(tab),
            Action::Pause => self.order(Command::TogglePause),
            Action::Louder => self.nudge_volume(true),
            Action::Quieter => self.nudge_volume(false),
            Action::Seek { forward } => self.seek_relative(forward),
            Action::Next => self.advance(1, false),
            Action::Previous => self.advance(-1, false),
            Action::Stop => self.stop(),
            Action::CoverSize => self.resize_cover(),
            Action::Edit => self.edit(),
            Action::Search => {
                self.show(View::Tracks);
                self.edit();
            },
            Action::Library => self.open_library(),
            Action::SignIn => self.begin_sign_in(),
            Action::SignOut => self.sign_out(),
            Action::Import => self.import_session(),
            Action::Player => self.open_player(),
            Action::Background => self.background(),
            Action::Presence => self.toggle_presence(),
            Action::Add => self.begin_add(),
            Action::Remove => self.remove_selected(),
            Action::Like => self.toggle_like(),
            Action::Refresh => self.refresh(),
            Action::Reload => self.request_playlists(),
            Action::Home => self.show(View::Home),
            Action::Leave => self.leave(),
            Action::Menu(menu) => self.open_menu(menu),
            Action::Settings => self.open_settings(),
            Action::Help => self.open_help(),
        }
    }

    /// A click on the notification-area icon.
    pub fn handle_tray(&mut self, command: TrayCommand)
        ensures
            final(self).view() == old(self).view().tray(command),
    {
        match command {
            TrayCommand::Show => {
                self.screen.wants_foreground = true;
            },
            TrayCommand::TogglePause => self.order(Command::TogglePause),
            TrayCommand::Next => self.advance(1, false),
            TrayCommand::Previous => self.advance(-1, false),
            TrayCommand::Quit => self.quit(),
        }
    }

    /// What hovering the icon says.
    pub fn tray_tip(&self) -> (r: String)
        ensures
            r@ == self.view().tip_of(),
    {
        match &self.session.now {
            None => "MTUI -- nothing playing".to_owned(),
            Some(now) => {
                let state = match self.seen.state {
                    PlayState::Paused => "paused -- ",
                    PlayState::Buffering => "loading -- ",
                    _ => "",
                };
                let byline = now.byline();
                let mut r = text::join3(state, now.title.as_str(), " -- ");
                r.append(byline.as_str());
                r
            },
        }
    }
}

} // verus!
