//! Keys, and what they do.
//!
//! A key is first turned into an [`Action`], by a table for each view, and the
//! action is then performed. A modal and the search box have the keyboard to
//! themselves while they have it.

use vstd::prelude::*;
use vstd::view::View as _;

use super::act;
use super::menu::Menu;
use super::{App, AppView, ListView, Mode, Overlay, SignIn, View, SEARCH_LIMIT};
use crate::keys::{KeyCode, KeyEvent};
use crate::now_playing::Tab;
use crate::source::{Request, Track};
use crate::text;

verus! {

broadcast use vstd::string::group_string_axioms;

/// How far a seek goes, in nanoseconds.
pub const SEEK_STEP: u64 = 5_000_000_000;

/// Something the user asks for.
#[derive(Debug, Clone, Copy, PartialEq, Eq, Structural)]
pub enum Action {
    Nothing,
    Quit,
    /// Moves the cursor by so many rows.
    Down(usize),
    Up(usize),
    /// To the first row, or to the last.
    First,
    Last,
    /// Along a shelf of the landing page.
    Walk { forward: bool },
    /// Enter.
    Open,
    /// Along the ring of tabs, or straight to one.
    NextTab,
    PreviousTab,
    Show(Tab),
    Pause,
    Louder,
    Quieter,
    Seek { forward: bool },
    Next,
    Previous,
    Stop,
    CoverSize,
    /// To the search box, from the track list or from elsewhere.
    Edit,
    Search,
    Library,
    SignIn,
    SignOut,
    /// Imports the session of the landing page, or refreshes it.
    Import,
    Player,
    Background,
    Presence,
    Add,
    Remove,
    Like,
    /// Fetches the landing page, or the playlists, again.
    Refresh,
    Reload,
    /// To the landing page.
    Home,
    /// Out of the view, to where it was reached from.
    Leave,
    /// Puts a menu, the settings panel or the keyboard help up.
    Menu(Menu),
    Settings,
    Help,
}

/// A command of the notification-area icon.
#[derive(Debug, Clone, Copy, PartialEq, Eq, Structural)]
pub enum TrayCommand {
    /// Take the terminal back.
    Show,
    TogglePause,
    Next,
    Previous,
    Quit,
}

/// What a printable key does on the landing page.
pub open spec fn home_char(c: char) -> Action {
    if c == 'q' {
        Action::Quit
    } else if c == 'l' {
        Action::Walk { forward: true }
    } else if c == 'h' {
        Action::Walk { forward: false }
    } else if c == 'j' {
        Action::Down(1)
    } else if c == 'k' {
        Action::Up(1)
    } else if c == 'g' {
        Action::First
    } else if c == 'G' {
        Action::Last
    } else if c == 'r' {
        Action::Refresh
    } else if c == '/' || c == 'i' {
        Action::Search
    } else if c == 'L' {
        Action::Library
    } else if c == 'A' {
        Action::SignIn
    } else if c == 'M' {
        Action::Import
    } else if c == '.' {
        Action::Menu(Menu::Page)
    } else if c == '?' {
        Action::Help
    } else if c == 'S' {
        Action::Settings
    } else if c == 'P' || c == 'p' {
        Action::Player
    } else if c == 'B' {
        Action::Background
    } else if c == 'D' {
        Action::Presence
    } else if c == 'c' {
        Action::CoverSize
    } else if c == ' ' {
        Action::Pause
    } else if c == '+' || c == '=' {
        Action::Louder
    } else if c == '-' || c == '_' {
        Action::Quieter
    } else {
        Action::Nothing
    }
}

/// What a key does on the landing page, where the arrows walk the grid.
pub open spec fn home_action(code: KeyCode) -> Action {
    match code {
        KeyCode::Char(c) => home_char(c),
        KeyCode::Right => Action::Walk { forward: true },
        KeyCode::Left => Action::Walk { forward: false },
        KeyCode::Down => Action::Down(1),
        KeyCode::Up => Action::Up(1),
        KeyCode::PageDown => Action::Down(3),
        KeyCode::PageUp => Action::Up(3),
        KeyCode::Home => Action::First,
        KeyCode::End => Action::Last,
        KeyCode::Enter => Action::Open,
        KeyCode::Esc => Action::Leave,
        _ => Action::Nothing,
    }
}

/// What a printable key does in the track list.
pub open spec fn tracks_char(c: char) -> Action {
    if c == 'q' {
        Action::Quit
    } else if c == '/' || c == 'i' {
        Action::Edit
    } else if c == 'j' {
        Action::Down(1)
    } else if c == 'k' {
        Action::Up(1)
    } else if c == 'g' {
        Action::First
    } else if c == 'G' {
        Action::Last
    } else if c == ' ' {
        Action::Pause
    } else if c == 'c' {
        Action::CoverSize
    } else if c == 's' {
        Action::Stop
    } else if c == 'P' || c == 'p' {
        Action::Player
    } else if c == 'B' {
        Action::Background
    } else if c == 'D' {
        Action::Presence
    } else if c == '+' || c == '=' {
        Action::Louder
    } else if c == '-' || c == '_' {
        Action::Quieter
    } else if c == 'L' || c == 'l' {
        Action::Library
    } else if c == 'A' {
        Action::SignIn
    } else if c == 'M' {
        Action::Import
    } else if c == '.' {
        Action::Menu(Menu::Page)
    } else if c == '?' {
        Action::Help
    } else if c == 'S' {
        Action::Settings
    } else if c == 'a' {
        Action::Add
    } else if c == 'd' {
        Action::Remove
    } else if c == 'f' {
        Action::Like
    } else if c == 'H' {
        Action::Home
    } else {
        Action::Nothing
    }
}

/// What a key does in the track list, where the arrows seek.
pub open spec fn tracks_action(code: KeyCode) -> Action {
    match code {
        KeyCode::Char(c) => tracks_char(c),
        KeyCode::Right => Action::Seek { forward: true },
        KeyCode::Left => Action::Seek { forward: false },
        KeyCode::Down => Action::Down(1),
        KeyCode::Up => Action::Up(1),
        KeyCode::PageDown => Action::Down(10),
        KeyCode::PageUp => Action::Up(10),
        KeyCode::Home => Action::First,
        KeyCode::End => Action::Last,
        KeyCode::Enter => Action::Open,
        KeyCode::Esc => Action::Leave,
        _ => Action::Nothing,
    }
}

/// What a printable key does in the library.
pub open spec fn playlists_char(c: char) -> Action {
    if c == 'q' {
        Action::Quit
    } else if c == 'j' {
        Action::Down(1)
    } else if c == 'k' {
        Action::Up(1)
    } else if c == 'g' {
        Action::First
    } else if c == 'G' {
        Action::Last
    } else if c == 'r' {
        Action::Reload
    } else if c == 'A' {
        Action::SignIn
    } else if c == 'M' {
        Action::Import
    } else if c == '.' {
        Action::Menu(Menu::Page)
    } else if c == '?' {
        Action::Help
    } else if c == 'S' {
        Action::Settings
    } else if c == 'P' || c == 'p' {
        Action::Player
    } else if c == 'B' {
        Action::Background
    } else if c == 'D' {
        Action::Presence
    } else if c == 'x' {
        Action::SignOut
    } else if c == 'L' || c == 'l' {
        Action::Leave
    } else if c == 'H' {
        Action::Home
    } else if c == '/' || c == 'i' {
        Action::Search
    } else if c == ' ' {
        Action::Pause
    } else if c == '+' || c == '=' {
        Action::Louder
    } else if c == '-' || c == '_' {
        Action::Quieter
    } else {
        Action::Nothing
    }
}

/// What a key does in the library.
pub open spec fn playlists_action(code: KeyCode) -> Action {
    match code {
        KeyCode::Char(c) => playlists_char(c),
        KeyCode::Down => Action::Down(1),
        KeyCode::Up => Action::Up(1),
        KeyCode::PageDown => Action::Down(10),
        KeyCode::PageUp => Action::Up(10),
        KeyCode::Home => Action::First,
        KeyCode::End => Action::Last,
        KeyCode::Enter => Action::Open,
        KeyCode::Esc => Action::Leave,
        _ => Action::Nothing,
    }
}

/// What a printable key does on the player page.
pub open spec fn playing_char(c: char) -> Action {
    if c == 'q' {
        Action::Quit
    } else if c == 'l' {
        Action::NextTab
    } else if c == 'h' {
        Action::PreviousTab
    } else if c == '1' {
        Action::Show(Tab::at_place(0))
    } else if c == '2' {
        Action::Show(Tab::at_place(1))
    } else if c == '3' {
        Action::Show(Tab::at_place(2))
    } else if c == '4' {
        Action::Show(Tab::at_place(3))
    } else if c == 'j' {
        Action::Down(1)
    } else if c == 'k' {
        Action::Up(1)
    } else if c == 'g' {
        Action::First
    } else if c == 'G' {
        Action::Last
    } else if c == 'n' {
        Action::Next
    } else if c == 'p' {
        Action::Previous
    } else if c == ' ' {
        Action::Pause
    } else if c == 's' {
        Action::Stop
    } else if c == 'c' {
        Action::CoverSize
    } else if c == '+' || c == '=' {
        Action::Louder
    } else if c == '-' || c == '_' {
        Action::Quieter
    } else if c == 'a' {
        Action::Add
    } else if c == 'f' {
        Action::Like
    } else if c == 'L' {
        Action::Library
    } else if c == 'A' {
        Action::SignIn
    } else if c == 'M' {
        Action::Import
    } else if c == '.' {
        Action::Menu(Menu::Page)
    } else if c == '?' {
        Action::Help
    } else if c == 'S' {
        Action::Settings
    } else if c == 'B' {
        Action::Background
    } else if c == 'D' {
        Action::Presence
    } else if c == '/' || c == 'i' {
        Action::Search
    } else if c == 'H' {
        Action::Leave
    } else {
        Action::Nothing
    }
}

/// What a key does on the player page, where the arrows seek.
pub open spec fn playing_action(code: KeyCode) -> Action {
    match code {
        KeyCode::Char(c) => playing_char(c),
        KeyCode::Tab => Action::NextTab,
        KeyCode::BackTab => Action::PreviousTab,
        KeyCode::Right => Action::Seek { forward: true },
        KeyCode::Left => Action::Seek { forward: false },
        KeyCode::Down => Action::Down(1),
        KeyCode::Up => Action::Up(1),
        KeyCode::PageDown => Action::Down(10),
        KeyCode::PageUp => Action::Up(10),
        KeyCode::Home => Action::First,
        KeyCode::End => Action::Last,
        KeyCode::Enter => Action::Open,
        KeyCode::Esc => Action::Leave,
        _ => Action::Nothing,
    }
}

/// What a key does in a view.
pub open spec fn action_of(view: View, code: KeyCode) -> Action {
    match view {
        View::Home => home_action(code),
        View::Tracks => tracks_action(code),
        View::Playlists => playlists_action(code),
        View::Playing => playing_action(code),
    }
}

fn home_bound(code: KeyCode) -> (r: Action)
    ensures
        r == home_action(code),
{
    match code {
        KeyCode::Char('q') => Action::Quit,
        KeyCode::Char('l') | KeyCode::Right => Action::Walk { forward: true },
        KeyCode::Char('h') | KeyCode::Left => Action::Walk { forward: false },
        KeyCode::Char('j') | KeyCode::Down => Action::Down(1),
        KeyCode::Char('k') | KeyCode::Up => Action::Up(1),
        KeyCode::Char('g') | KeyCode::Home => Action::First,
        KeyCode::Char('G') | KeyCode::End => Action::Last,
        KeyCode::PageDown => Action::Down(3),
        KeyCode::PageUp => Action::Up(3),
        KeyCode::Enter => Action::Open,
        KeyCode::Char('r') => Action::Refresh,
        KeyCode::Char('/') | KeyCode::Char('i') => Action::Search,
        KeyCode::Char('L') => Action::Library,
        KeyCode::Char('A') => Action::SignIn,
        KeyCode::Char('M') => Action::Import,
        KeyCode::Char('.') => Action::Menu(Menu::Page),
        KeyCode::Char('?') => Action::Help,
        KeyCode::Char('S') => Action::Settings,
        KeyCode::Char('P') | KeyCode::Char('p') => Action::Player,
        KeyCode::Char('B') => Action::Background,
        KeyCode::Char('D') => Action::Presence,
        KeyCode::Esc => Action::Leave,
        KeyCode::Char('c') => Action::CoverSize,
        KeyCode::Char(' ') => Action::Pause,
        KeyCode::Char('+') | KeyCode::Char('=') => Action::Louder,
        KeyCode::Char('-') | KeyCode::Char('_') => Action::Quieter,
        _ => Action::Nothing,
    }
}

fn tracks_bound(code: KeyCode) -> (r: Action)
    ensures
        r == tracks_action(code),
{
    match code {
        KeyCode::Char('q') => Action::Quit,
        KeyCode::Char('/') | KeyCode::Char('i') => Action::Edit,
        KeyCode::Char('j') | KeyCode::Down => Action::Down(1),
        KeyCode::Char('k') | KeyCode::Up => Action::Up(1),
        KeyCode::Char('g') | KeyCode::Home => Action::First,
        KeyCode::Char('G') | KeyCode::End => Action::Last,
        KeyCode::PageDown => Action::Down(10),
        KeyCode::PageUp => Action::Up(10),
        KeyCode::Enter => Action::Open,
        KeyCode::Char(' ') => Action::Pause,
        KeyCode::Char('c') => Action::CoverSize,
        KeyCode::Char('s') => Action::Stop,
        KeyCode::Char('P') | KeyCode::Char('p') => Action::Player,
        KeyCode::Char('B') => Action::Background,
        KeyCode::Char('D') => Action::Presence,
        KeyCode::Char('+') | KeyCode::Char('=') => Action::Louder,
        KeyCode::Char('-') | KeyCode::Char('_') => Action::Quieter,
        KeyCode::Right => Action::Seek { forward: true },
        KeyCode::Left => Action::Seek { forward: false },
        KeyCode::Char('L') | KeyCode::Char('l') => Action::Library,
        KeyCode::Char('A') => Action::SignIn,
        KeyCode::Char('M') => Action::Import,
        KeyCode::Char('.') => Action::Menu(Menu::Page),
        KeyCode::Char('?') => Action::Help,
        KeyCode::Char('S') => Action::Settings,
        KeyCode::Char('a') => Action::Add,
        KeyCode::Char('d') => Action::Remove,
        KeyCode::Char('f') => Action::Like,
        KeyCode::Esc => Action::Leave,
        KeyCode::Char('H') => Action::Home,
        _ => Action::Nothing,
    }
}

fn playlists_bound(code: KeyCode) -> (r: Action)
    ensures
        r == playlists_action(code),
{
    match code {
        KeyCode::Char('q') => Action::Quit,
        KeyCode::Char('j') | KeyCode::Down => Action::Down(1),
        KeyCode::Char('k') | KeyCode::Up => Action::Up(1),
        KeyCode::Char('g') | KeyCode::Home => Action::First,
        KeyCode::Char('G') | KeyCode::End => Action::Last,
        KeyCode::PageDown => Action::Down(10),
        KeyCode::PageUp => Action::Up(10),
        KeyCode::Enter => Action::Open,
        KeyCode::Char('r') => Action::Reload,
        KeyCode::Char('A') => Action::SignIn,
        KeyCode::Char('M') => Action::Import,
        KeyCode::Char('.') => Action::Menu(Menu::Page),
        KeyCode::Char('?') => Action::Help,
        KeyCode::Char('S') => Action::Settings,
        KeyCode::Char('P') | KeyCode::Char('p') => Action::Player,
        KeyCode::Char('B') => Action::Background,
        KeyCode::Char('D') => Action::Presence,
        KeyCode::Char('x') => Action::SignOut,
        KeyCode::Esc | KeyCode::Char('L') | KeyCode::Char('l') => Action::Leave,
        KeyCode::Char('H') => Action::Home,
        KeyCode::Char('/') | KeyCode::Char('i') => Action::Search,
        KeyCode::Char(' ') => Action::Pause,
        KeyCode::Char('+') | KeyCode::Char('=') => Action::Louder,
        KeyCode::Char('-') | KeyCode::Char('_') => Action::Quieter,
        _ => Action::Nothing,
    }
}

fn playing_bound(code: KeyCode) -> (r: Action)
    ensures
        r == playing_action(code),
{
    match code {
        KeyCode::Char('q') => Action::Quit,
        KeyCode::Char('l') | KeyCode::Tab => Action::NextTab,
        KeyCode::Char('h') | KeyCode::BackTab => Action::PreviousTab,
        KeyCode::Char('1') => Action::Show(Tab::ALL[0]),
        KeyCode::Char('2') => Action::Show(Tab::ALL[1]),
        KeyCode::Char('3') => Action::Show(Tab::ALL[2]),
        KeyCode::Char('4') => Action::Show(Tab::ALL[3]),
        KeyCode::Char('j') | KeyCode::Down => Action::Down(1),
        KeyCode::Char('k') | KeyCode::Up => Action::Up(1),
        KeyCode::PageDown => Action::Down(10),
        KeyCode::PageUp => Action::Up(10),
        KeyCode::Char('g') | KeyCode::Home => Action::First,
        KeyCode::Char('G') | KeyCode::End => Action::Last,
        KeyCode::Enter => Action::Open,
        KeyCode::Char('n') => Action::Next,
        KeyCode::Char('p') => Action::Previous,
        KeyCode::Char(' ') => Action::Pause,
        KeyCode::Char('s') => Action::Stop,
        KeyCode::Char('c') => Action::CoverSize,
        KeyCode::Char('+') | KeyCode::Char('=') => Action::Louder,
        KeyCode::Char('-') | KeyCode::Char('_') => Action::Quieter,
        KeyCode::Right => Action::Seek { forward: true },
        KeyCode::Left => Action::Seek { forward: false },
        KeyCode::Char('a') => Action::Add,
        KeyCode::Char('f') => Action::Like,
        KeyCode::Char('L') => Action::Library,
        KeyCode::Char('A') => Action::SignIn,
        KeyCode::Char('M') => Action::Import,
        KeyCode::Char('.') => Action::Menu(Menu::Page),
        KeyCode::Char('?') => Action::Help,
        KeyCode::Char('S') => Action::Settings,
        KeyCode::Char('B') => Action::Background,
        KeyCode::Char('D') => Action::Presence,
        KeyCode::Char('/') | KeyCode::Char('i') => Action::Search,
        KeyCode::Esc | KeyCode::Char('H') => Action::Leave,
        _ => Action::Nothing,
    }
}

/// What a key does in a view.
pub fn bound(view: View, code: KeyCode) -> (r: Action)
    ensures
        r == action_of(view, code),
{
    match view {
        View::Home => home_bound(code),
        View::Tracks => tracks_bound(code),
        View::Playlists => playlists_bound(code),
        View::Playing => playing_bound(code),
    }
}
/// A track that is known by its video id alone, and shown as what was typed.
pub open spec fn linked_track(id: Seq<char>, typed: Seq<char>) -> Track<Seq<char>> {
    Track {
        id,
        title: typed,
        uploader: Seq::empty(),
        duration: None,
        album: None,
        playlist_item_id: None,
    }
}

impl AppView {
    /// With another query in the search box.
    pub open spec fn typed(self, query: Seq<char>) -> AppView {
        AppView { list: ListView { query, ..self.list }, ..self }
    }

    /// Runs what is in the search box: a link plays, and anything else is
    /// searched for.
    #[verifier::opaque]
    pub open spec fn searches(self) -> AppView {
        let query = text::trim_of(self.list.query);
        if query.len() == 0 {
            self.says("enter something to search for"@)
        } else {
            match self.list.link {
                Some(id) => self.plays(linked_track(id, query), false),
                None => self.says("searching for "@ + query + " ..."@).asks(
                    Request::Search { query, limit: SEARCH_LIMIT },
                ),
            }
        }
    }

    /// Out of the search box, which is always possible. An empty track list is
    /// left for the landing page, where that has anything.
    #[verifier::opaque]
    pub open spec fn stops_typing(self) -> AppView {
        let out = self.in_mode(Mode::Browse).says("/ to search, L for your library"@);
        if self.list.results.len() == 0 && self.home.shelves.len() > 0 {
            out.viewing(View::Home)
        } else {
            out
        }
    }

    /// A key in the search box.
    #[verifier::opaque]
    pub open spec fn edit_key(self, code: KeyCode) -> AppView {
        match code {
            KeyCode::Enter => self.searches(),
            KeyCode::Esc => self.stops_typing(),
            KeyCode::Backspace => if self.list.query.len() == 0 {
                self
            } else {
                self.typed(self.list.query.drop_last())
            },
            KeyCode::Char(c) => self.typed(self.list.query.push(c)),
            _ => self,
        }
    }

    /// With the modal taken down.
    pub open spec fn dismisses(self, status: Seq<char>) -> AppView {
        self.overlaid(Overlay::Closed).says(status)
    }

    /// Adds the track of the picker to the playlist under its cursor.
    #[verifier::opaque]
    pub open spec fn adds(self, video_id: Seq<char>, selected: usize) -> AppView {
        if selected < self.library.playlists.len() {
            let playlist = self.library.playlists[selected as int];
            self.says("adding to "@ + playlist.title + " ..."@).overlaid(Overlay::Closed).asks(
                Request::AddToPlaylist {
                    playlist_id: playlist.id,
                    playlist_title: playlist.title,
                    video_id,
                },
            )
        } else {
            self.says("no playlist to add to"@)
        }
    }

    /// A key in the playlist picker.
    #[verifier::opaque]
    pub open spec fn picker_key(
        self,
        video_id: Seq<char>,
        title: Seq<char>,
        selected: usize,
        code: KeyCode,
    ) -> AppView {
        let last = act::last_of(self.library.playlists.len());
        if code == KeyCode::Char('j') || code == KeyCode::Down {
            self.overlaid(
                Overlay::AddTo { video_id, title, selected: act::down_to(selected, 1, last) },
            )
        } else if code == KeyCode::Char('k') || code == KeyCode::Up {
            self.overlaid(Overlay::AddTo { video_id, title, selected: act::up_to(selected, 1) })
        } else if code == KeyCode::Char('g') || code == KeyCode::Home {
            self.overlaid(Overlay::AddTo { video_id, title, selected: 0 })
        } else if code == KeyCode::Char('G') || code == KeyCode::End {
            self.overlaid(Overlay::AddTo { video_id, title, selected: last })
        } else if code == KeyCode::Enter {
            self.adds(video_id, selected)
        } else if code == KeyCode::Esc || code == KeyCode::Char('q') {
            self.dismisses("cancelled"@)
        } else {
            self
        }
    }

    /// A key while a modal is up. A sign-in that failed can be started again
    /// from its panel; dismissing the panel of one that is under way only
    /// hides it.
    #[verifier::opaque]
    pub open spec fn overlay_key(self, code: KeyCode) -> AppView {
        let dismissed = code == KeyCode::Esc || code == KeyCode::Enter;
        match self.screen.overlay {
            Overlay::Closed => self,
            Overlay::SignIn(SignIn::Failed { .. }) => if code == KeyCode::Char('A') || code
                == KeyCode::Char('a') {
                self.signs_in()
            } else if dismissed || code == KeyCode::Char('q') {
                self.dismisses("press A to try signing in again"@)
            } else {
                self
            },
            Overlay::SignIn(_) => if dismissed {
                self.dismisses("sign-in still pending in the background"@)
            } else {
                self
            },
            Overlay::Message { .. } => if dismissed || code == KeyCode::Char('q') {
                self.dismisses(Seq::empty())
            } else {
                self
            },
            Overlay::AddTo { video_id, title, selected } => self.picker_key(
                video_id,
                title,
                selected,
                code,
            ),
            Overlay::Menu { menu, selected } => self.menu_key(menu, selected, code),
            Overlay::Settings { selected } => self.settings_key(selected, code),
        }
    }

    /// A key. Control with `c` ends the program, with `l` opens the library, with
    /// `k` the App Menu, and with `s` the settings, whatever has the keyboard.
    pub open spec fn keyed(self, key: KeyEvent) -> AppView {
        if key.modifiers.control && key.code == KeyCode::Char('c') {
            self.quits()
        } else if key.modifiers.control && (key.code == KeyCode::Char('l') || key.code
            == KeyCode::Char('L')) {
            self.opens_library()
        } else if key.modifiers.control && (key.code == KeyCode::Char('k') || key.code
            == KeyCode::Char('K')) {
            self.opens_menu(Menu::App)
        } else if key.modifiers.control && (key.code == KeyCode::Char('s') || key.code
            == KeyCode::Char('S')) {
            self.opens_settings()
        } else if !(self.screen.overlay is Closed) {
            self.overlay_key(key.code)
        } else if self.screen.mode == Mode::Editing {
            self.edit_key(key.code)
        } else {
            self.performs(action_of(self.screen.view, key.code))
        }
    }
}

impl App {
    fn set_query(&mut self, query: String)
        ensures
            final(self).view() == old(self).view().typed(query@),
    {
        self.list.query = query;
    }

    fn submit_search(&mut self)
        ensures
            final(self).view() == old(self).view().searches(),
    {
        reveal(AppView::searches);
        let typed = text::to_chars(self.list.query.as_str());
        let trimmed = text::trim(&typed);
        if trimmed.len() == 0 {
            self.say("enter something to search for");
            return;
        }
        let query = text::from_chars(&trimmed);
        match text::clone_opt(&self.list.link) {
            Some(id) => {
                let track = Track {
                    id,
                    title: query,
                    uploader: String::new(),
                    duration: None,
                    album: None,
                    playlist_item_id: None,
                };
                proof {
                    assert(track@.uploader =~= Seq::empty());
                }
                self.play_track(track, false);
            },
            None => {
                self.say_text(text::join3("searching for ", query.as_str(), " ..."));
                self.ask(Request::Search { query, limit: SEARCH_LIMIT });
            },
        }
    }

    fn stop_typing(&mut self)
        ensures
            final(self).view() == old(self).view().stops_typing(),
    {
        reveal(AppView::stops_typing);
        self.enter(Mode::Browse);
        self.say("/ to search, L for your library");
        if self.list.results.len() == 0 && self.home.shelves.len() > 0 {
            self.show(View::Home);
        }
    }

    fn handle_editing_key(&mut self, code: KeyCode)
        ensures
            final(self).view() == old(self).view().edit_key(code),
    {
        reveal(AppView::edit_key);
        match code {
            KeyCode::Enter => self.submit_search(),
            KeyCode::Esc => self.stop_typing(),
            KeyCode::Backspace => {
                let mut chars = text::to_chars(self.list.query.as_str());
                if chars.len() > 0 {
                    let _ = chars.pop();
                    let query = text::from_chars(&chars);
                    self.set_query(query);
                }
            },
            KeyCode::Char(c) => {
                let mut query = self.list.query.clone();
                query.push(c);
                self.set_query(query);
            },
            _ => {},
        }
    }

    fn dismiss(&mut self, status: &str)
        ensures
            final(self).view() == old(self).view().dismisses(status@),
    {
        self.overlay(Overlay::Closed);
        self.say(status);
    }

    /// Adds the track of the picker to the playlist under its cursor.
    fn confirm_add(&mut self, video_id: String, selected: usize)
        ensures
            final(self).view() == old(self).view().adds(video_id@, selected),
    {
        reveal(AppView::adds);
        if selected < self.library.playlists.len() {
            let playlist = &self.library.playlists[selected];
            let playlist_id = playlist.id.clone();
            let playlist_title = playlist.title.clone();
            self.say_text(text::join3("adding to ", playlist_title.as_str(), " ..."));
            self.overlay(Overlay::Closed);
            self.ask(Request::AddToPlaylist { playlist_id, playlist_title, video_id });
        } else {
            self.say("no playlist to add to");
        }
    }

    fn handle_picker_key(
        &mut self,
        video_id: String,
        title: String,
        selected: usize,
        code: KeyCode,
    )
        ensures
            final(self).view() == old(self).view().picker_key(video_id@, title@, selected, code),
    {
        reveal(AppView::picker_key);
        let n: usize = self.library.playlists.len();
        let last: usize = n.saturating_sub(1);
        match code {
            KeyCode::Char('j') | KeyCode::Down => {
                let to: usize = if selected < last {
                    selected + 1
                } else {
                    last
                };
                self.overlay(Overlay::AddTo { video_id, title, selected: to });
            },
            KeyCode::Char('k') | KeyCode::Up => self.overlay(
                Overlay::AddTo { video_id, title, selected: selected.saturating_sub(1) },
            ),
            KeyCode::Char('g') | KeyCode::Home => self.overlay(
                Overlay::AddTo { video_id, title, selected: 0 },
            ),
            KeyCode::Char('G') | KeyCode::End => self.overlay(
                Overlay::AddTo { video_id, title, selected: last },
            ),
            KeyCode::Enter => self.confirm_add(video_id, selected),
            KeyCode::Esc | KeyCode::Char('q') => self.dismiss("cancelled"),
            _ => {},
        }
    }

    fn handle_overlay_key(&mut self, code: KeyCode)
        ensures
            final(self).view() == old(self).view().overlay_key(code),
    {
        reveal(AppView::overlay_key);
        let dismissed = matches!(code, KeyCode::Esc | KeyCode::Enter);
        let quit = matches!(code, KeyCode::Char('q'));
        match &self.screen.overlay {
            Overlay::Closed => {},
            Overlay::SignIn(SignIn::Failed { .. }) => {
                if matches!(code, KeyCode::Char('A') | KeyCode::Char('a')) {
                    self.begin_sign_in();
                } else if dismissed || quit {
                    self.dismiss("press A to try signing in again");
                }
            },
            Overlay::SignIn(_) => {
                if dismissed {
                    self.dismiss("sign-in still pending in the background");
                }
            },
            Overlay::Message { .. } => {
                if dismissed || quit {
                    proof {
                        reveal_strlit("");
                        assert(""@ =~= Seq::empty());
                    }
                    self.dismiss("");
                }
            },
            Overlay::AddTo { video_id, title, selected } => {
                let video_id = video_id.clone();
                let title = title.clone();
                let selected: usize = *selected;
                self.handle_picker_key(video_id, title, selected, code);
            },
            Overlay::Menu { menu, selected } => {
                let menu = *menu;
                let selected: usize = *selected;
                self.handle_menu_key(menu, selected, code);
            },
            Overlay::Settings { selected } => {
                let selected: usize = *selected;
                self.handle_settings_key(selected, code);
            },
        }
    }

    /// Does what a key asks for. Nothing here can fail.
    pub fn handle_key(&mut self, key: KeyEvent)
        ensures
            final(self).view() == old(self).view().keyed(key),
    {
        if key.modifiers.control && matches!(key.code, KeyCode::Char('c')) {
            self.quit();
        } else if key.modifiers.control && matches!(
            key.code,
            KeyCode::Char('l') | KeyCode::Char('L')
        ) {
            self.open_library();
        } else if key.modifiers.control && matches!(
            key.code,
            KeyCode::Char('k') | KeyCode::Char('K')
        ) {
            self.open_menu(Menu::App);
        } else if key.modifiers.control && matches!(
            key.code,
            KeyCode::Char('s') | KeyCode::Char('S')
        ) {
            self.open_settings();
        } else if self.screen.overlay.is_open() {
            self.handle_overlay_key(key.code);
        } else if self.screen.mode == Mode::Editing {
            self.handle_editing_key(key.code);
        } else {
            let action = bound(self.screen.view, key.code);
            self.perform(action);
        }
    }
}

} // verus!
