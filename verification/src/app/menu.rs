//! The menus, the settings panel and the keyboard help.
//!
//! A menu is a list of actions. The App Menu reaches what concerns the whole
//! program, and the page menu what can be done with the page or the selection.

use vstd::prelude::*;
use vstd::view::View as _;

use super::act;
use super::input::Action;
use super::{App, AppView, Mode, Overlay, View};
use crate::config::Settings;
use crate::keys::KeyCode;

verus! {

broadcast use vstd::string::group_string_axioms;

/// What the keyboard help says.
pub const HELP: &'static str = "Ctrl-K  app menu\n.  actions of the page or the selection\n?  this help\narrows, hjkl  move\ng, G  beginning, end\nPage Up, Page Down  move by a page\nEnter  play or open\n/, i  search\nEsc, H  back\nP  player\nSpace  pause or resume\n+, -  volume\nLeft, Right  seek\nn, p  next, previous\n1-4, Tab  queue, lyrics, related, comments\nc  cover size\nM  import the session\nD  Discord presence\nS, Ctrl-S  settings\nB  background\nq, Ctrl-C  quit";

/// Which menu is up.
#[derive(Debug, Clone, Copy, PartialEq, Eq, Structural)]
pub enum Menu {
    /// Navigation, accounts, settings, help, tray and quitting.
    App,
    /// Accounts and sessions.
    Account,
    /// What can be done with the page or the selection.
    Page,
}

/// What a menu offers in a view, from top to bottom.
pub open spec fn offered(menu: Menu, view: View) -> Seq<Action> {
    match menu {
        Menu::App => if view == View::Playing {
            seq![
                Action::Home,
                Action::Search,
                Action::Library,
                Action::Menu(Menu::Account),
                Action::Settings,
                Action::Help,
                Action::Background,
                Action::Quit,
            ]
        } else {
            seq![
                Action::Home,
                Action::Search,
                Action::Library,
                Action::Player,
                Action::Menu(Menu::Account),
                Action::Settings,
                Action::Help,
                Action::Background,
                Action::Quit,
            ]
        },
        Menu::Account => seq![Action::Import, Action::SignIn, Action::SignOut],
        Menu::Page => match view {
            View::Home => seq![Action::Open, Action::Refresh],
            View::Tracks => seq![Action::Open, Action::Add, Action::Like, Action::Remove],
            View::Playlists => seq![Action::Open, Action::Reload],
            View::Playing => seq![
                Action::Open,
                Action::Next,
                Action::Previous,
                Action::Stop,
                Action::Add,
                Action::Like,
            ],
        },
    }
}

/// What a menu offers in a view, from top to bottom.
pub fn offers(menu: Menu, view: View) -> (r: Vec<Action>)
    ensures
        r@ == offered(menu, view),
{
    let r = match menu {
        Menu::App => {
            if view == View::Playing {
                vec![
                    Action::Home,
                    Action::Search,
                    Action::Library,
                    Action::Menu(Menu::Account),
                    Action::Settings,
                    Action::Help,
                    Action::Background,
                    Action::Quit,
                ]
            } else {
                vec![
                    Action::Home,
                    Action::Search,
                    Action::Library,
                    Action::Player,
                    Action::Menu(Menu::Account),
                    Action::Settings,
                    Action::Help,
                    Action::Background,
                    Action::Quit,
                ]
            }
        },
        Menu::Account => vec![Action::Import, Action::SignIn, Action::SignOut],
        Menu::Page => match view {
            View::Home => vec![Action::Open, Action::Refresh],
            View::Tracks => vec![Action::Open, Action::Add, Action::Like, Action::Remove],
            View::Playlists => vec![Action::Open, Action::Reload],
            View::Playing => vec![
                Action::Open,
                Action::Next,
                Action::Previous,
                Action::Stop,
                Action::Add,
                Action::Like,
            ],
        },
    };
    proof {
        assert(r@ =~= offered(menu, view));
    }
    r
}

/// What an action is called in a menu.
pub open spec fn called(action: Action) -> Seq<char> {
    match action {
        Action::Home => "Home"@,
        Action::Search => "Search"@,
        Action::Library => "Library"@,
        Action::Player => "Player"@,
        Action::Menu(_) => "Account & Sessions"@,
        Action::Settings => "Settings"@,
        Action::Help => "Keyboard help"@,
        Action::Background => "Continue in the notification area"@,
        Action::Quit => "Quit"@,
        Action::Import => "Sign in to YouTube Music"@,
        Action::SignIn => "Sign in with Google"@,
        Action::SignOut => "Log out of YouTube Music"@,
        Action::Open => "Open"@,
        Action::Refresh => "Refresh"@,
        Action::Reload => "Refresh"@,
        Action::Add => "Add to a playlist"@,
        Action::Like => "Like or unlike"@,
        Action::Remove => "Remove from the playlist"@,
        Action::Next => "Next"@,
        Action::Previous => "Previous"@,
        Action::Stop => "Stop"@,
        _ => ""@,
    }
}

/// What an action is called in a menu.
pub fn name(action: Action) -> (r: &'static str)
    ensures
        r@ == called(action),
        action == Action::Home ==> r@ == "Home"@,
        action == Action::Search ==> r@ == "Search"@,
        action == Action::Library ==> r@ == "Library"@,
        action == Action::Player ==> r@ == "Player"@,
        action == Action::Settings ==> r@ == "Settings"@,
        action == Action::Help ==> r@ == "Keyboard help"@,
        action == Action::Background ==> r@ == "Continue in the notification area"@,
        action == Action::Quit ==> r@ == "Quit"@,
        action == Action::Import ==> r@ == "Sign in to YouTube Music"@,
        action == Action::SignIn ==> r@ == "Sign in with Google"@,
        action == Action::SignOut ==> r@ == "Log out of YouTube Music"@,
        action == Action::Open ==> r@ == "Open"@,
        action == Action::Refresh || action == Action::Reload ==> r@ == "Refresh"@,
        action == Action::Add ==> r@ == "Add to a playlist"@,
        action == Action::Like ==> r@ == "Like or unlike"@,
        action == Action::Remove ==> r@ == "Remove from the playlist"@,
        action == Action::Next ==> r@ == "Next"@,
        action == Action::Previous ==> r@ == "Previous"@,
        action == Action::Stop ==> r@ == "Stop"@,
{
    match action {
        Action::Home => "Home",
        Action::Search => "Search",
        Action::Library => "Library",
        Action::Player => "Player",
        Action::Menu(_) => "Account & Sessions",
        Action::Settings => "Settings",
        Action::Help => "Keyboard help",
        Action::Background => "Continue in the notification area",
        Action::Quit => "Quit",
        Action::Import => "Sign in to YouTube Music",
        Action::SignIn => "Sign in with Google",
        Action::SignOut => "Log out of YouTube Music",
        Action::Open => "Open",
        Action::Refresh => "Refresh",
        Action::Reload => "Refresh",
        Action::Add => "Add to a playlist",
        Action::Like => "Like or unlike",
        Action::Remove => "Remove from the playlist",
        Action::Next => "Next",
        Action::Previous => "Previous",
        Action::Stop => "Stop",
        _ => "",
    }
}

/// The rows of the settings panel: the icon in the tray, the song cover, the
/// image renderer, the icon theme, and the Discord presence.
pub const SETTINGS_ROWS: usize = 5;

/// The preferences with the one of a row turned, forwards or backwards along its
/// ring.
pub open spec fn turned(settings: Settings, row: usize, forward: bool) -> Settings {
    if row == 0 {
        Settings { start_in_tray: !settings.start_in_tray, ..settings }
    } else if row == 1 {
        Settings { cover_style: settings.cover_style.after(), ..settings }
    } else if row == 2 {
        Settings {
            image_renderer: if forward {
                settings.image_renderer.after()
            } else {
                settings.image_renderer.after().after()
            },
            ..settings
        }
    } else if row == 3 {
        Settings {
            icon_theme: if forward {
                settings.icon_theme.after()
            } else {
                settings.icon_theme.after().after().after()
            },
            ..settings
        }
    } else {
        settings
    }
}

fn turn(settings: Settings, row: usize, forward: bool) -> (r: Settings)
    ensures
        r == turned(settings, row, forward),
{
    let mut r = settings;
    match row {
        0 => {
            r.start_in_tray = !settings.start_in_tray;
        },
        1 => {
            r.cover_style = settings.cover_style.next();
        },
        2 => {
            r.image_renderer = if forward {
                settings.image_renderer.next()
            } else {
                settings.image_renderer.previous()
            };
        },
        3 => {
            r.icon_theme = if forward {
                settings.icon_theme.next()
            } else {
                settings.icon_theme.previous()
            };
        },
        _ => {},
    }
    r
}

/// Turning a preference back undoes turning it forwards.
pub proof fn turning_back_undoes(settings: Settings, row: usize)
    ensures
        turned(turned(settings, row, true), row, false) == settings,
{
}

impl AppView {
    /// Puts a menu up, with its cursor on the first row.
    pub open spec fn opens_menu(self, menu: Menu) -> AppView {
        self.overlaid(Overlay::Menu { menu, selected: 0 })
    }

    /// Puts the settings panel up.
    pub open spec fn opens_settings(self) -> AppView {
        self.overlaid(Overlay::Settings { selected: 0 })
    }

    /// Puts the keyboard help up.
    pub open spec fn opens_help(self) -> AppView {
        self.says("press Esc to dismiss"@).overlaid(Overlay::Message { body: HELP@ })
    }

    /// Takes a row of a menu: the menu goes, and so does the search box, and the
    /// action is performed.
    #[verifier::opaque]
    pub open spec fn takes_row(self, menu: Menu, selected: usize) -> AppView {
        let items = offered(menu, self.screen.view);
        if selected < items.len() {
            self.overlaid(Overlay::Closed).in_mode(Mode::Browse).performs(items[selected as int])
        } else {
            self
        }
    }

    /// A key in a menu.
    #[verifier::opaque]
    pub open spec fn menu_key(self, menu: Menu, selected: usize, code: KeyCode) -> AppView {
        let last = act::last_of(offered(menu, self.screen.view).len());
        if code == KeyCode::Char('j') || code == KeyCode::Down {
            self.overlaid(Overlay::Menu { menu, selected: act::down_to(selected, 1, last) })
        } else if code == KeyCode::Char('k') || code == KeyCode::Up {
            self.overlaid(Overlay::Menu { menu, selected: act::up_to(selected, 1) })
        } else if code == KeyCode::Char('g') || code == KeyCode::Home {
            self.overlaid(Overlay::Menu { menu, selected: 0 })
        } else if code == KeyCode::Char('G') || code == KeyCode::End {
            self.overlaid(Overlay::Menu { menu, selected: last })
        } else if code == KeyCode::Enter {
            self.takes_row(menu, selected)
        } else if code == KeyCode::Esc || code == KeyCode::Char('q') {
            self.overlaid(Overlay::Closed)
        } else {
            self
        }
    }

    /// Turns the setting of a row, and has it remembered. The last row is the
    /// presence switch.
    #[verifier::opaque]
    pub open spec fn turns(self, row: usize, forward: bool) -> AppView {
        if row + 1 == SETTINGS_ROWS {
            self.switches_presence()
        } else {
            let settings = turned(self.settings, row, forward);
            AppView { settings, settings_changed: Some(settings), ..self }
        }
    }

    /// A key in the settings panel.
    #[verifier::opaque]
    pub open spec fn settings_key(self, selected: usize, code: KeyCode) -> AppView {
        let last = (SETTINGS_ROWS - 1) as usize;
        if code == KeyCode::Char('j') || code == KeyCode::Down {
            self.overlaid(Overlay::Settings { selected: act::down_to(selected, 1, last) })
        } else if code == KeyCode::Char('k') || code == KeyCode::Up {
            self.overlaid(Overlay::Settings { selected: act::up_to(selected, 1) })
        } else if code == KeyCode::Char('g') || code == KeyCode::Home {
            self.overlaid(Overlay::Settings { selected: 0 })
        } else if code == KeyCode::Char('G') || code == KeyCode::End {
            self.overlaid(Overlay::Settings { selected: last })
        } else if code == KeyCode::Char('l') || code == KeyCode::Right || code == KeyCode::Enter
            || code == KeyCode::Char(' ') {
            self.turns(selected, true)
        } else if code == KeyCode::Char('h') || code == KeyCode::Left {
            self.turns(selected, false)
        } else if code == KeyCode::Esc || code == KeyCode::Char('q') || code == KeyCode::Char('S') {
            self.overlaid(Overlay::Closed)
        } else {
            self
        }
    }
}

impl App {
    pub(super) fn open_menu(&mut self, menu: Menu)
        ensures
            final(self).view() == old(self).view().opens_menu(menu),
    {
        self.overlay(Overlay::Menu { menu, selected: 0 });
    }

    pub(super) fn open_settings(&mut self)
        ensures
            final(self).view() == old(self).view().opens_settings(),
    {
        self.overlay(Overlay::Settings { selected: 0 });
    }

    pub(super) fn open_help(&mut self)
        ensures
            final(self).view() == old(self).view().opens_help(),
    {
        self.say("press Esc to dismiss");
        self.overlay(Overlay::Message { body: HELP.to_owned() });
    }

    fn take_row(&mut self, menu: Menu, selected: usize)
        ensures
            final(self).view() == old(self).view().takes_row(menu, selected),
    {
        reveal(AppView::takes_row);
        let items = offers(menu, self.screen.view);
        if selected < items.len() {
            let action = items[selected];
            self.overlay(Overlay::Closed);
            self.enter(Mode::Browse);
            self.perform(action);
        }
    }

    pub(super) fn handle_menu_key(&mut self, menu: Menu, selected: usize, code: KeyCode)
        ensures
            final(self).view() == old(self).view().menu_key(menu, selected, code),
    {
        reveal(AppView::menu_key);
        let n: usize = offers(menu, self.screen.view).len();
        let last: usize = n.saturating_sub(1);
        match code {
            KeyCode::Char('j') | KeyCode::Down => {
                let to: usize = if selected < last {
                    selected + 1
                } else {
                    last
                };
                self.overlay(Overlay::Menu { menu, selected: to });
            },
            KeyCode::Char('k') | KeyCode::Up => self.overlay(
                Overlay::Menu { menu, selected: selected.saturating_sub(1) },
            ),
            KeyCode::Char('g') | KeyCode::Home => self.overlay(Overlay::Menu { menu, selected: 0 }),
            KeyCode::Char('G') | KeyCode::End => self.overlay(
                Overlay::Menu { menu, selected: last },
            ),
            KeyCode::Enter => self.take_row(menu, selected),
            KeyCode::Esc | KeyCode::Char('q') => self.overlay(Overlay::Closed),
            _ => {},
        }
    }

    fn turn_setting(&mut self, row: usize, forward: bool)
        ensures
            final(self).view() == old(self).view().turns(row, forward),
    {
        reveal(AppView::turns);
        if row == SETTINGS_ROWS - 1 {
            self.toggle_presence();
        } else {
            let settings = turn(self.settings, row, forward);
            self.settings = settings;
            self.settings_changed = Some(settings);
        }
    }

    pub(super) fn handle_settings_key(&mut self, selected: usize, code: KeyCode)
        ensures
            final(self).view() == old(self).view().settings_key(selected, code),
    {
        reveal(AppView::settings_key);
        let last: usize = SETTINGS_ROWS - 1;
        match code {
            KeyCode::Char('j') | KeyCode::Down => {
                let to: usize = if selected < last {
                    selected + 1
                } else {
                    last
                };
                self.overlay(Overlay::Settings { selected: to });
            },
            KeyCode::Char('k') | KeyCode::Up => self.overlay(
                Overlay::Settings { selected: selected.saturating_sub(1) },
            ),
            KeyCode::Char('g') | KeyCode::Home => self.overlay(Overlay::Settings { selected: 0 }),
            KeyCode::Char('G') | KeyCode::End => self.overlay(Overlay::Settings { selected: last }),
            KeyCode::Char('l') | KeyCode::Right | KeyCode::Enter | KeyCode::Char(' ') => {
                self.turn_setting(selected, true)
            },
            KeyCode::Char('h') | KeyCode::Left => self.turn_setting(selected, false),
            KeyCode::Esc | KeyCode::Char('q') | KeyCode::Char('S') => self.overlay(Overlay::Closed),
            _ => {},
        }
    }
}

} // verus!
