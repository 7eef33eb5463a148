//! What the controls come to.
//!
//! Stated of the key, the click or the command on the one hand, and of what the
//! program holds before and after on the other.

use vstd::prelude::*;
use vstd::view::View as _;

use super::input::{Action, TrayCommand};
use super::menu;
use super::menu::Menu;
use super::mouse::{Hit, Region};
use super::outcomes;
use super::{AppView, HomeView, LibraryView, ListView, Mode, Overlay, Screen, SignIn, View};
use crate::keys::{KeyCode, KeyEvent, MouseButton, MouseEvent, MouseEventKind};
use crate::now_playing::{RowView, Tab};
use crate::player::{Command, PlayState};
use crate::source::{OutboxView, Request};
use crate::text;

verus! {

broadcast use vstd::string::group_string_axioms;

/// Whether the keys of the view have the keyboard, and this is one of them.
pub open spec fn plain(app: AppView, key: KeyEvent) -> bool {
    &&& app.screen.overlay is Closed
    &&& app.screen.mode == Mode::Browse
    &&& !key.modifiers.control
}

/// Whether a key was pressed with Control.
pub open spec fn with_control(key: KeyEvent, c: char) -> bool {
    key.modifiers.control && key.code == KeyCode::Char(c)
}

/// Whether all that has changed is the modal, which is now this one.
pub open spec fn only_overlay(app: AppView, after: AppView, overlay: Overlay<Seq<char>>) -> bool {
    after == (AppView { screen: Screen { overlay, ..app.screen }, ..app })
}

/// In every view the space bar pauses or resumes, and does nothing else.
pub proof fn space_pauses(app: AppView, key: KeyEvent)
    requires
        plain(app, key),
        key.code == KeyCode::Char(' '),
    ensures
        app.keyed(key) == (AppView { commands: app.commands.push(Command::TogglePause), ..app }),
{
    reveal(AppView::performs);
}

/// In every view plus and minus move the volume by five percent, between silence
/// and 200 percent.
pub proof fn volume_keys_move_the_volume(app: AppView, key: KeyEvent)
    requires
        plain(app, key),
        app.seen.volume <= 200,
    ensures
        key.code == KeyCode::Char('+') || key.code == KeyCode::Char('=') ==> {
            let after = app.keyed(key);
            &&& after.commands.len() == app.commands.len() + 1
            &&& after.commands.drop_last() == app.commands
            &&& after.commands.last() matches Command::SetVolume(v) && v == if app.seen.volume + 5
                > 200 {
                200
            } else {
                app.seen.volume + 5
            }
            &&& after.session == app.session
            &&& after.source == app.source
        },
        key.code == KeyCode::Char('-') || key.code == KeyCode::Char('_') ==> {
            let after = app.keyed(key);
            &&& after.commands.len() == app.commands.len() + 1
            &&& after.commands.drop_last() == app.commands
            &&& after.commands.last() matches Command::SetVolume(v) && v == if app.seen.volume < 5 {
                0
            } else {
                app.seen.volume - 5
            }
            &&& after.session == app.session
            &&& after.source == app.source
        },
{
    reveal(AppView::performs);
    reveal(AppView::nudges);
    let after = app.keyed(key);
    if key.code == KeyCode::Char('+') || key.code == KeyCode::Char('=') || key.code
        == KeyCode::Char('-') || key.code == KeyCode::Char('_') {
        assert(after.commands.drop_last() =~= app.commands);
    }
}

/// In the track list and on the player page the arrows seek by five seconds, and
/// not before the start of the track. While nothing plays they do nothing.
pub proof fn arrows_seek(app: AppView, key: KeyEvent)
    requires
        plain(app, key),
        app.screen.view == View::Tracks || app.screen.view == View::Playing,
        app.seen.position + 5_000_000_000 <= u64::MAX,
        key.code == KeyCode::Left || key.code == KeyCode::Right,
    ensures
        app.seen.state == PlayState::Idle ==> app.keyed(key) == app,
        app.seen.state != PlayState::Idle ==> {
            let to = if key.code == KeyCode::Right {
                app.seen.position + 5_000_000_000
            } else if app.seen.position < 5_000_000_000 {
                0
            } else {
                app.seen.position - 5_000_000_000
            };
            app.keyed(key) == (AppView {
                commands: app.commands.push(Command::Seek(to as u64)),
                ..app
            })
        },
{
    reveal(AppView::performs);
    reveal(AppView::seeks);
}

/// In every view `q` ends the program, and so does Control with `c` whatever has
/// the keyboard. Nothing else is touched.
pub proof fn quit_keys_quit(app: AppView, key: KeyEvent)
    requires
        plain(app, key) && key.code == KeyCode::Char('q') || with_control(key, 'c'),
    ensures
        app.keyed(key) == (AppView {
            screen: Screen { should_quit: true, ..app.screen },
            ..app
        }),
{
    reveal(AppView::performs);
}

/// On the player page `n` plays the track behind the playing one and `p` the one
/// in front of it, as chosen by the user. The tray does the same from anywhere.
pub proof fn skip_keys_walk_the_queue(app: AppView, key: KeyEvent, at: int)
    requires
        app.session.now is Some,
        app.session.now->0.playing == Some(at as usize),
        0 <= at < app.session.now->0.queue.len() <= usize::MAX,
    ensures
        ({
            let queue = app.session.now->0.queue;
            let here = plain(app, key) && app.screen.view == View::Playing;
            &&& at + 1 < queue.len() ==> app.tray(TrayCommand::Next) == app.plays(
                queue[at + 1],
                false,
            )
            &&& at > 0 ==> app.tray(TrayCommand::Previous) == app.plays(queue[at - 1], false)
            &&& here && key.code == KeyCode::Char('n') ==> app.keyed(key) == app.tray(
                TrayCommand::Next,
            )
            &&& here && key.code == KeyCode::Char('p') ==> app.keyed(key) == app.tray(
                TrayCommand::Previous,
            )
        }),
{
    reveal(AppView::performs);
    outcomes::queue_is_walked_in_order(app, at, false);
}

/// The tray pauses, ends the program, and asks for the terminal back, and none of
/// these does anything else.
pub proof fn tray_commands_are_done(app: AppView)
    ensures
        app.tray(TrayCommand::TogglePause) == (AppView {
            commands: app.commands.push(Command::TogglePause),
            ..app
        }),
        app.tray(TrayCommand::Quit) == (AppView {
            screen: Screen { should_quit: true, ..app.screen },
            ..app
        }),
        app.tray(TrayCommand::Show) == (AppView {
            screen: Screen { wants_foreground: true, ..app.screen },
            ..app
        }),
{
}

/// In the track list and on the player page `s` stops: the player is told, the
/// page is closed, nothing is waited for any more, and what was heard of the
/// track is reported.
pub proof fn stop_key_stops(app: AppView, key: KeyEvent)
    requires
        plain(app, key),
        app.screen.view == View::Tracks || app.screen.view == View::Playing,
        key.code == KeyCode::Char('s'),
        app.source.open,
    ensures
        ({
            let after = app.keyed(key);
            &&& after.commands == app.commands.push(Command::Stop)
            &&& after.session.now is None
            &&& after.session.pending is None
            &&& after.session.resuming is None
            &&& after.session.listening is None
            &&& !after.session.auto
            &&& after.pictures.cover is None
            &&& after.pictures.cover_id is None
            &&& after.screen.view == if app.screen.view == View::Playing {
                app.screen.back_to
            } else {
                app.screen.view
            }
            &&& after.list == app.list
            &&& after.library == app.library
            &&& after.home == app.home
            &&& match app.session.listening {
                Some((track, heard)) => if heard > 0 {
                    after.source.requests == app.source.requests.push(
                        Request::ReportPlay { track, listened: heard },
                    )
                } else {
                    after.source == app.source
                },
                None => after.source == app.source,
            }
        }),
{
    reveal(AppView::performs);
    reveal(AppView::stops);
    reveal(AppView::heard_out);
}

/// On the player page the digits open the queue, the lyrics, the related music
/// and the comments.
pub proof fn digits_open_tabs(app: AppView, key: KeyEvent)
    requires
        plain(app, key),
        app.screen.view == View::Playing,
        app.session.now is Some,
    ensures
        ({
            let after = app.keyed(key).session.now->0;
            &&& key.code == KeyCode::Char('1') ==> after.tab == Tab::UpNext
            &&& key.code == KeyCode::Char('2') ==> after.tab == Tab::Lyrics
            &&& key.code == KeyCode::Char('3') ==> after.tab == Tab::Related
            &&& key.code == KeyCode::Char('4') ==> after.tab == Tab::Comments
        }),
{
    reveal(AppView::performs);
    reveal(AppView::opens_tab);
    reveal(AppView::asks_tab);
}

/// On the player page Tab and Shift-Tab walk the tabs round.
pub proof fn tab_keys_walk_the_tabs(app: AppView, key: KeyEvent)
    requires
        plain(app, key),
        app.screen.view == View::Playing,
        app.session.now is Some,
    ensures
        ({
            let after = app.keyed(key).session.now->0.tab;
            let forward = key.code == KeyCode::Tab || key.code == KeyCode::Char('l');
            let backward = key.code == KeyCode::BackTab || key.code == KeyCode::Char('h');
            match app.session.now->0.tab {
                Tab::UpNext => (forward ==> after == Tab::Lyrics) && (backward ==> after
                    == Tab::Comments),
                Tab::Lyrics => (forward ==> after == Tab::Related) && (backward ==> after
                    == Tab::UpNext),
                Tab::Related => (forward ==> after == Tab::Comments) && (backward ==> after
                    == Tab::Lyrics),
                Tab::Comments => (forward ==> after == Tab::UpNext) && (backward ==> after
                    == Tab::Related),
            }
        }),
{
    reveal(AppView::performs);
    reveal(AppView::shifts);
    reveal(AppView::opens_tab);
    reveal(AppView::asks_tab);
}

/// Opening a tab leaves the queue and the cursors alone, follows the singer where
/// it is the lyrics, and asks for what the tab shows where that was never asked
/// for.
pub proof fn opening_a_tab_asks_for_it(app: AppView, tab: Tab)
    requires
        app.session.now is Some,
        app.source.open,
    ensures
        ({
            let before = app.session.now->0;
            let after = app.opens_tab(tab);
            let now = after.session.now->0;
            &&& after.session.now is Some
            &&& now.tab == tab
            &&& now.queue == before.queue
            &&& now.playing == before.playing
            &&& now.cursor == before.cursor
            &&& now.video_id == before.video_id
            &&& tab == Tab::Lyrics ==> now.follow_lyrics
            &&& after.commands == app.commands
            &&& before.tab == tab ==> after.source == app.source
            &&& before.tab != tab && tab == Tab::Comments && before.comments is Idle ==> {
                &&& now.comments is Loading
                &&& after.source.requests == app.source.requests.push(
                    Request::Comments { video_id: before.video_id },
                )
            }
            &&& before.tab != tab && tab == Tab::Related && before.related is Idle
                && before.related_id is Some ==> {
                &&& now.related is Loading
                &&& after.source.requests == app.source.requests.push(
                    Request::Related {
                        video_id: before.video_id,
                        browse_id: before.related_id->0,
                    },
                )
            }
            &&& before.tab != tab && tab == Tab::Lyrics && before.lyrics is Idle && before.watched
                ==> {
                &&& now.lyrics is Loading
                &&& after.source.requests.len() == app.source.requests.len() + 1
                &&& after.source.requests.last() is Lyrics
            }
            &&& tab == Tab::UpNext ==> after.source == app.source
        }),
{
    reveal(AppView::opens_tab);
    reveal(AppView::asks_tab);
}

/// The row below, not past the last; and so many rows below.
pub open spec fn lower(at: usize, by: int, n: nat) -> int {
    if at + by < n {
        at + by
    } else {
        n - 1
    }
}

/// The row above, not above the first; and so many rows above.
pub open spec fn higher(at: usize, by: int) -> int {
    if at >= by {
        at - by
    } else {
        0
    }
}

/// In the track list the arrows and `j` and `k` move the selection by one row,
/// the page keys by ten, and Home and End to either end. The wait before the
/// selection is resolved ahead of time starts anew when it moves.
pub proof fn cursor_keys_move_in_the_list(app: AppView, key: KeyEvent)
    requires
        plain(app, key),
        app.screen.view == View::Tracks,
        app.list.selected < app.list.results.len() <= usize::MAX,
    ensures
        ({
            let after = app.keyed(key);
            let n = app.list.results.len();
            let at = app.list.selected;
            let down = key.code == KeyCode::Down || key.code == KeyCode::Char('j');
            let up = key.code == KeyCode::Up || key.code == KeyCode::Char('k');
            let first = key.code == KeyCode::Home || key.code == KeyCode::Char('g');
            let last = key.code == KeyCode::End || key.code == KeyCode::Char('G');
            &&& down ==> after.list.selected == lower(at, 1, n)
            &&& up ==> after.list.selected == higher(at, 1)
            &&& key.code == KeyCode::PageDown ==> after.list.selected == lower(at, 10, n)
            &&& key.code == KeyCode::PageUp ==> after.list.selected == higher(at, 10)
            &&& first ==> after.list.selected == 0
            &&& last ==> after.list.selected == n - 1
            &&& down || up || first || last || key.code == KeyCode::PageDown || key.code
                == KeyCode::PageUp ==> {
                &&& after.list == (ListView { selected: after.list.selected, ..app.list })
                &&& after.screen.selection_settled == if after.list.selected != at {
                    Some(app.clock)
                } else {
                    app.screen.selection_settled
                }
                &&& after.session == app.session
                &&& after.source == app.source
                &&& after.commands == app.commands
            }
        }),
{
    reveal(AppView::performs);
    reveal(AppView::goes_down);
    reveal(AppView::goes_up);
    reveal(AppView::goes_first);
    reveal(AppView::goes_last);
}

/// The same in the library.
pub proof fn cursor_keys_move_in_the_library(app: AppView, key: KeyEvent)
    requires
        plain(app, key),
        app.screen.view == View::Playlists,
        app.library.selected < app.library.playlists.len() <= usize::MAX,
    ensures
        ({
            let after = app.keyed(key);
            let n = app.library.playlists.len();
            let at = app.library.selected;
            let down = key.code == KeyCode::Down || key.code == KeyCode::Char('j');
            let up = key.code == KeyCode::Up || key.code == KeyCode::Char('k');
            let first = key.code == KeyCode::Home || key.code == KeyCode::Char('g');
            let last = key.code == KeyCode::End || key.code == KeyCode::Char('G');
            &&& down ==> after.library.selected == lower(at, 1, n)
            &&& up ==> after.library.selected == higher(at, 1)
            &&& key.code == KeyCode::PageDown ==> after.library.selected == lower(at, 10, n)
            &&& key.code == KeyCode::PageUp ==> after.library.selected == higher(at, 10)
            &&& first ==> after.library.selected == 0
            &&& last ==> after.library.selected == n - 1
            &&& down || up || first || last ==> after == (AppView {
                library: LibraryView { selected: after.library.selected, ..app.library },
                ..app
            })
        }),
{
    reveal(AppView::performs);
    reveal(AppView::goes_down);
    reveal(AppView::goes_up);
    reveal(AppView::goes_first);
    reveal(AppView::goes_last);
}

/// Whether the cursor of the landing page is on a card, and every shelf has some.
pub open spec fn on_a_card(home: HomeView) -> bool {
    &&& home.shelf < home.shelves.len() <= usize::MAX
    &&& home.card < home.shelves[home.shelf as int].cards.len()
    &&& forall|i: int|
        0 <= i < home.shelves.len() ==> 0 < (#[trigger] home.shelves[i]).cards.len() <= usize::MAX
}

/// On the landing page up and down go from shelf to shelf, onto a card that is
/// there: the one at the same place, where the shelf is long enough.
pub proof fn arrows_walk_the_shelves(app: AppView, key: KeyEvent)
    requires
        plain(app, key),
        app.screen.view == View::Home,
        on_a_card(app.home),
        key.code == KeyCode::Down || key.code == KeyCode::Up,
    ensures
        ({
            let after = app.keyed(key).home;
            &&& after.shelf == if key.code == KeyCode::Down {
                lower(app.home.shelf, 1, app.home.shelves.len())
            } else {
                higher(app.home.shelf, 1)
            }
            &&& after == (HomeView { shelf: after.shelf, card: after.card, ..app.home })
            &&& on_a_card(after)
            &&& app.home.card < app.home.shelves[after.shelf as int].cards.len() ==> after.card
                == app.home.card
            &&& app.keyed(key).session == app.session
            &&& app.keyed(key).source == app.source
        }),
{
    reveal(AppView::performs);
    reveal(AppView::goes_down);
    reveal(AppView::goes_up);
}

/// On the landing page left and right go along the shelf, and not past its ends.
pub proof fn arrows_walk_along_the_shelf(app: AppView, key: KeyEvent)
    requires
        plain(app, key),
        app.screen.view == View::Home,
        on_a_card(app.home),
        key.code == KeyCode::Right || key.code == KeyCode::Left,
    ensures
        ({
            let after = app.keyed(key).home;
            &&& after.card == if key.code == KeyCode::Right {
                lower(app.home.card, 1, app.home.shelves[app.home.shelf as int].cards.len())
            } else {
                higher(app.home.card, 1)
            }
            &&& after == (HomeView { card: after.card, ..app.home })
            &&& app.keyed(key).session == app.session
            &&& app.keyed(key).source == app.source
        }),
{
    reveal(AppView::performs);
    reveal(AppView::walks);
}

/// On the landing page Home goes to its first card, End to its last shelf, and
/// the page keys by three shelves.
pub proof fn page_keys_walk_the_landing_page(app: AppView, key: KeyEvent)
    requires
        plain(app, key),
        app.screen.view == View::Home,
        on_a_card(app.home),
    ensures
        ({
            let after = app.keyed(key).home;
            let n = app.home.shelves.len();
            &&& key.code == KeyCode::Home ==> after.shelf == 0 && after.card == 0
            &&& key.code == KeyCode::End ==> after.shelf == n - 1
            &&& key.code == KeyCode::PageDown ==> after.shelf == lower(app.home.shelf, 3, n)
            &&& key.code == KeyCode::PageUp ==> after.shelf == higher(app.home.shelf, 3)
        }),
{
    reveal(AppView::performs);
    reveal(AppView::goes_down);
    reveal(AppView::goes_up);
    reveal(AppView::goes_first);
    reveal(AppView::goes_last);
}

/// On the player page the same keys move the cursor of the open tab, and of no
/// other. Moved by hand, the lyrics no longer follow the singer.
pub proof fn cursor_keys_move_on_the_page(app: AppView, key: KeyEvent, other: int)
    requires
        plain(app, key),
        app.screen.view == View::Playing,
        app.session.now is Some,
        app.session.now->0.cursor.len() == 4,
        app.session.now->0.cursor[app.session.now->0.tab.place()] < usize::MAX,
        0 <= other < 4,
        other != app.session.now->0.tab.place(),
    ensures
        ({
            let before = app.session.now->0;
            let after = app.keyed(key).session.now->0;
            let place = before.tab.place();
            let down = key.code == KeyCode::Down || key.code == KeyCode::Char('j');
            let up = key.code == KeyCode::Up || key.code == KeyCode::Char('k');
            let first = key.code == KeyCode::Home || key.code == KeyCode::Char('g');
            &&& down ==> after.cursor[place] == before.cursor[place] + 1
            &&& up ==> after.cursor[place] == higher(before.cursor[place], 1)
            &&& first ==> after.cursor[place] == 0
            &&& key.code == KeyCode::PageUp ==> after.cursor[place] == higher(
                before.cursor[place],
                10,
            )
            &&& key.code == KeyCode::PageDown && before.cursor[place] + 10 <= usize::MAX
                ==> after.cursor[place] == before.cursor[place] + 10
            &&& key.code == KeyCode::End ==> after.cursor[place] == usize::MAX
            &&& down || up || first ==> {
                &&& after.cursor[other] == before.cursor[other]
                &&& !after.follow_lyrics
                &&& after.queue == before.queue
                &&& after.tab == before.tab
                &&& app.keyed(key).commands == app.commands
            }
        }),
{
    reveal(AppView::performs);
    reveal(AppView::goes_down);
    reveal(AppView::goes_up);
    reveal(AppView::goes_first);
    reveal(AppView::goes_last);
}

/// Enter plays the selected track; on the player page the row of the queue under
/// the cursor.
pub proof fn enter_plays_the_selected_track(app: AppView, key: KeyEvent)
    requires
        plain(app, key),
        key.code == KeyCode::Enter,
    ensures
        app.screen.view == View::Tracks && app.list.selected < app.list.results.len()
            ==> app.keyed(key) == app.plays(app.list.results[app.list.selected as int], false),
        app.screen.view == View::Playing && app.session.now is Some && app.session.now->0.tab
            == Tab::UpNext && app.session.now->0.cursor[0] < app.session.now->0.queue.len()
            ==> app.keyed(key) == app.plays(
            app.session.now->0.queue[app.session.now->0.cursor[0] as int],
            false,
        ),
{
    reveal(AppView::performs);
    reveal(AppView::opens_selected);
    reveal(AppView::opens_row);
}

/// Enter plays the card under the cursor of the landing page, or asks for the
/// list that it stands for.
pub proof fn enter_opens_the_card(app: AppView, key: KeyEvent)
    requires
        plain(app, key),
        key.code == KeyCode::Enter,
        app.screen.view == View::Home,
        app.home.shelf < app.home.shelves.len(),
        app.home.card < app.home.shelves[app.home.shelf as int].cards.len(),
        app.source.open,
    ensures
        ({
            let card = app.home.shelves[app.home.shelf as int].cards[app.home.card as int];
            &&& card.playable is Some ==> app.keyed(key) == app.plays(card.playable->0, false)
            &&& card.playable is None && card.target is Open ==> {
                let after = app.keyed(key);
                &&& after.source.requests == app.source.requests.push(
                    Request::OpenBrowse {
                        browse_id: card.target->browse_id,
                        title: card.title,
                    },
                )
                &&& after.screen.busy
                &&& after.session == app.session
                &&& after.commands == app.commands
            }
        }),
{
    reveal(AppView::performs);
    reveal(AppView::opens_selected);
    reveal(AppView::opens);
}

/// Enter asks for the tracks of the selected playlist.
pub proof fn enter_opens_the_playlist(app: AppView, key: KeyEvent)
    requires
        plain(app, key),
        key.code == KeyCode::Enter,
        app.screen.view == View::Playlists,
        app.library.selected < app.library.playlists.len(),
        app.source.open,
    ensures
        ({
            let after = app.keyed(key);
            let playlist = app.library.playlists[app.library.selected as int];
            &&& after.source.requests == app.source.requests.push(
                Request::OpenPlaylist { id: playlist.id, title: playlist.title },
            )
            &&& after.screen.busy
            &&& after.session == app.session
            &&& after.commands == app.commands
        }),
{
    reveal(AppView::performs);
    reveal(AppView::opens_selected);
    reveal(AppView::opens_playlist);
}

/// On the Related tab Enter plays the recommendation under the cursor, or asks
/// for the list that it stands for. A heading does nothing.
pub proof fn enter_opens_the_recommendation(app: AppView, key: KeyEvent)
    requires
        plain(app, key),
        key.code == KeyCode::Enter,
        app.screen.view == View::Playing,
        app.session.now is Some,
        app.session.now->0.tab == Tab::Related,
        app.session.now->0.cursor[2] < app.session.now->0.rows_of().len(),
        app.source.open,
    ensures
        match app.session.now->0.rows_of()[app.session.now->0.cursor[2] as int] {
            RowView::Heading(_) => app.keyed(key) == app,
            RowView::Card(card) => {
                &&& card.playable is Some ==> app.keyed(key) == app.plays(card.playable->0, false)
                &&& card.playable is None && card.target is Open ==> app.keyed(key).source.requests
                    == app.source.requests.push(
                    Request::OpenBrowse { browse_id: card.target->browse_id, title: card.title },
                )
            },
        },
{
    reveal(AppView::performs);
    reveal(AppView::opens_selected);
    reveal(AppView::opens_row);
    reveal(AppView::opens);
}

/// `/` and `i` go to the search box of the track list, from every view.
pub proof fn search_keys_open_the_box(app: AppView, key: KeyEvent)
    requires
        plain(app, key),
        key.code == KeyCode::Char('/') || key.code == KeyCode::Char('i'),
    ensures
        ({
            let after = app.keyed(key);
            &&& after.screen.mode == Mode::Editing
            &&& after.screen.view == View::Tracks
            &&& after.list == app.list
            &&& after.session == app.session
            &&& after.source == app.source
            &&& after.commands == app.commands
        }),
{
    reveal(AppView::performs);
    reveal(AppView::edits);
}

/// Enter in the search box asks for twenty results of what was typed, without the
/// space around it. A link plays the video that it names. A blank query asks for
/// nothing. Escape always leads out.
pub proof fn search_box_searches(app: AppView, key: KeyEvent)
    requires
        app.screen.overlay is Closed,
        app.screen.mode == Mode::Editing,
        !key.modifiers.control,
        app.source.open,
    ensures
        ({
            let query = text::trim_of(app.list.query);
            let after = app.keyed(key);
            &&& key.code == KeyCode::Enter && query.len() == 0 ==> after.source == app.source
                && after.commands == app.commands
            &&& key.code == KeyCode::Enter && query.len() > 0 && app.list.link is None ==> {
                &&& after.source.requests == app.source.requests.push(
                    Request::Search { query, limit: 20 },
                )
                &&& after.screen.busy
                &&& after.commands == app.commands
                &&& after.session == app.session
            }
            &&& key.code == KeyCode::Enter && query.len() > 0 && app.list.link is Some ==> {
                &&& after.session.pending == app.list.link
                &&& after.session.now is Some && after.session.now->0.video_id
                    == app.list.link->0
                &&& after.session.now->0.title == query
            }
            &&& key.code == KeyCode::Esc ==> after.screen.mode == Mode::Browse && after.source
                == app.source && after.list == app.list
            &&& key.code == KeyCode::Esc && app.list.results.len() == 0 && app.home.shelves.len()
                > 0 ==> after.screen.view == View::Home
            &&& key.code == KeyCode::Esc && app.list.results.len() > 0 ==> after.screen.view
                == app.screen.view
        }),
{
    reveal(AppView::edit_key);
    reveal(AppView::searches);
    reveal(AppView::stops_typing);
    if key.code == KeyCode::Enter && text::trim_of(app.list.query).len() > 0 && app.list.link
        is Some {
        outcomes::playing_asks_for_the_stream(
            app,
            super::input::linked_track(app.list.link->0, text::trim_of(app.list.query)),
            false,
        );
    }
}

/// `L`, and Control with `l` whatever has the keyboard, show the library. It is
/// asked for where it is not held, and only there.
pub proof fn library_keys_show_the_library(app: AppView, key: KeyEvent)
    requires
        plain(app, key) && key.code == KeyCode::Char('L') && app.screen.view != View::Playlists
            || with_control(key, 'l'),
        app.source.open,
    ensures
        ({
            let after = app.keyed(key);
            &&& after.screen.view == View::Playlists
            &&& after.screen.mode == Mode::Browse
            &&& app.library.playlists.len() == 0 ==> after.source.requests
                == app.source.requests.push(Request::Playlists) && after.screen.busy
            &&& app.library.playlists.len() > 0 ==> after.source == app.source
            &&& after.library == app.library
            &&& after.session == app.session
        }),
{
    reveal(AppView::performs);
    reveal(AppView::opens_library);
}

/// In every view `A` signs in and `M` imports the session of a browser anew; in
/// the library `x` signs out and `r` asks for the playlists again.
pub proof fn account_keys_ask(app: AppView, key: KeyEvent)
    requires
        plain(app, key),
        app.source.open,
    ensures
        key.code == KeyCode::Char('A') ==> {
            &&& app.keyed(key).source.requests == app.source.requests.push(Request::SignIn)
            &&& app.keyed(key).screen.overlay == Overlay::<Seq<char>>::SignIn(
                SignIn::Connecting { started: app.clock },
            )
        },
        key.code == KeyCode::Char('M') ==> app.keyed(key) == (AppView {
            source: OutboxView {
                requests: app.source.requests.push(Request::ImportCookies { force: true }),
                ..app.source
            },
            ..app
        }),
        app.screen.view == View::Playlists && key.code == KeyCode::Char('x') ==> app.keyed(key)
            == (AppView {
            source: OutboxView {
                requests: app.source.requests.push(Request::SignOut),
                ..app.source
            },
            ..app
        }),
        app.screen.view == View::Playlists && key.code == KeyCode::Char('r')
            ==> app.keyed(key).source.requests == app.source.requests.push(Request::Playlists)
            && app.keyed(key).screen.busy,
{
    reveal(AppView::performs);
    reveal(AppView::asks_sign_out);
    reveal(AppView::imports_session);
}

/// `a` picks a playlist for the track that is meant, which is the playing one on
/// the player page and the selected one in the track list; and picking one asks
/// for that track to be added to it.
pub proof fn picked_playlist_gets_the_track(app: AppView, key: KeyEvent, enter: KeyEvent)
    requires
        plain(app, key),
        key.code == KeyCode::Char('a'),
        app.screen.view == View::Tracks && app.list.selected < app.list.results.len()
            || app.screen.view == View::Playing && app.session.now is Some,
        app.library.playlists.len() > 0,
        app.source.open,
        enter.code == KeyCode::Enter,
        !enter.modifiers.control,
    ensures
        ({
            let id = if app.screen.view == View::Playing {
                app.session.now->0.video_id
            } else {
                app.list.results[app.list.selected as int].id
            };
            let up = app.keyed(key);
            let added = up.keyed(enter);
            &&& up.screen.overlay matches Overlay::AddTo { video_id, selected, .. } && video_id
                == id && selected == 0
            &&& up.source == app.source
            &&& added.source.requests == app.source.requests.push(
                Request::AddToPlaylist {
                    playlist_id: app.library.playlists[0].id,
                    playlist_title: app.library.playlists[0].title,
                    video_id: id,
                },
            )
            &&& added.screen.overlay is Closed
        }),
{
    reveal(AppView::performs);
    reveal(AppView::begins_add);
    reveal(AppView::overlay_key);
    reveal(AppView::picker_key);
    reveal(AppView::adds);
}

/// In the picker Enter adds the track to the playlist under the cursor, and
/// Escape adds nothing.
pub proof fn picker_picks(
    app: AppView,
    key: KeyEvent,
    video_id: Seq<char>,
    title: Seq<char>,
    at: usize,
)
    requires
        app.screen.overlay == (Overlay::AddTo { video_id, title, selected: at }),
        at < app.library.playlists.len(),
        !key.modifiers.control,
        app.source.open,
    ensures
        ({
            let after = app.keyed(key);
            &&& key.code == KeyCode::Enter ==> after.source.requests == app.source.requests.push(
                Request::AddToPlaylist {
                    playlist_id: app.library.playlists[at as int].id,
                    playlist_title: app.library.playlists[at as int].title,
                    video_id,
                },
            ) && after.screen.overlay is Closed
            &&& key.code == KeyCode::Esc ==> after.source == app.source && after.screen.overlay
                is Closed
        }),
{
    reveal(AppView::overlay_key);
    reveal(AppView::picker_key);
    reveal(AppView::adds);
}

/// In the picker the arrows move the cursor by one playlist, and not off the
/// list.
pub proof fn picker_is_walked(
    app: AppView,
    key: KeyEvent,
    video_id: Seq<char>,
    title: Seq<char>,
    at: usize,
)
    requires
        app.screen.overlay == (Overlay::AddTo { video_id, title, selected: at }),
        at < app.library.playlists.len() <= usize::MAX,
        !key.modifiers.control,
        key.code == KeyCode::Down || key.code == KeyCode::Up || key.code == KeyCode::Home
            || key.code == KeyCode::End,
    ensures
        only_overlay(
            app,
            app.keyed(key),
            Overlay::AddTo {
                video_id,
                title,
                selected: (if key.code == KeyCode::Down {
                    lower(at, 1, app.library.playlists.len())
                } else if key.code == KeyCode::Up {
                    higher(at, 1)
                } else if key.code == KeyCode::Home {
                    0
                } else {
                    app.library.playlists.len() - 1
                }) as usize,
            },
        ),
{
    reveal(AppView::overlay_key);
    reveal(AppView::picker_key);
}

/// In the track list `d` asks for the selected row to be removed from its
/// playlist, where it stands in one, and asks for nothing where it does not.
pub proof fn remove_key_removes_the_row(app: AppView, key: KeyEvent)
    requires
        plain(app, key),
        app.screen.view == View::Tracks,
        key.code == KeyCode::Char('d'),
        app.list.selected < app.list.results.len(),
        app.source.open,
    ensures
        ({
            let track = app.list.results[app.list.selected as int];
            let after = app.keyed(key);
            &&& match track.playlist_item_id {
                Some(row) => after.source.requests == app.source.requests.push(
                    Request::RemoveFromPlaylist { playlist_item_id: row, title: track.label_of() },
                ) && after.screen.busy,
                None => after.source == app.source,
            }
            &&& after.list == app.list
        }),
{
    reveal(AppView::performs);
    reveal(AppView::removes_selected);
}

/// `f` likes the playing track on the player page, and the selected one in the
/// track list.
pub proof fn like_key_likes(app: AppView, key: KeyEvent)
    requires
        plain(app, key),
        key.code == KeyCode::Char('f'),
        app.source.open,
    ensures
        app.screen.view == View::Tracks && app.list.selected < app.list.results.len() ==> {
            let track = app.list.results[app.list.selected as int];
            app.keyed(key).source.requests == app.source.requests.push(
                Request::ToggleLike { video_id: track.id, title: track.label_of() },
            )
        },
        app.screen.view == View::Playing && app.session.now is Some ==> {
            let now = app.session.now->0;
            let sent = app.keyed(key).source.requests;
            &&& sent.len() == app.source.requests.len() + 1
            &&& sent.last() matches Request::ToggleLike { video_id, .. } && video_id
                == now.video_id
        },
{
    reveal(AppView::performs);
    reveal(AppView::switches_like);
}

/// On the landing page `r` asks for the page again, from other seeds.
pub proof fn refresh_key_asks_again(app: AppView, key: KeyEvent)
    requires
        plain(app, key),
        app.screen.view == View::Home,
        key.code == KeyCode::Char('r'),
        app.source.open,
        app.home.imported,
    ensures
        ({
            let after = app.keyed(key);
            &&& after.home.rotation != app.home.rotation
            &&& after.source.requests == app.source.requests.push(Request::Home).push(
                Request::PersonalShelves { rotation: after.home.rotation },
            )
            &&& after.home.pending
            &&& after.home.shelves == app.home.shelves
        }),
{
    reveal(AppView::performs);
    reveal(AppView::refreshes);
}

/// Escape leaves a view for where it was reached from, and asks for nothing that
/// is held.
pub proof fn escape_leaves_the_view(app: AppView, key: KeyEvent)
    requires
        plain(app, key),
        key.code == KeyCode::Esc,
    ensures
        ({
            let after = app.keyed(key);
            &&& app.screen.view == View::Home ==> after.screen.view == if app.list.results.len()
                > 0 {
                View::Tracks
            } else {
                View::Home
            }
            &&& app.screen.view == View::Tracks ==> after.screen.view
                == if app.list.open_playlist is Some {
                View::Playlists
            } else {
                View::Home
            }
            &&& app.screen.view == View::Playlists ==> after.screen.view
                == if app.list.results.len() > 0 {
                View::Tracks
            } else {
                View::Home
            }
            &&& app.screen.view == View::Playing ==> after.screen.view == app.screen.back_to
            &&& after.session == app.session
            &&& after.list == app.list
            &&& after.commands == app.commands
            &&& !(app.screen.view == View::Tracks && app.list.open_playlist is Some
                && app.library.playlists.len() == 0) ==> after.source == app.source
        }),
{
    reveal(AppView::performs);
    reveal(AppView::leaves);
    reveal(AppView::opens_library);
}

/// `H` leads to the landing page from the lists, and off the player page to where
/// that was reached from.
pub proof fn home_key_leads_home(app: AppView, key: KeyEvent)
    requires
        plain(app, key),
        key.code == KeyCode::Char('H'),
        app.screen.view != View::Home,
    ensures
        app.keyed(key) == (AppView {
            screen: Screen {
                view: if app.screen.view == View::Playing {
                    app.screen.back_to
                } else {
                    View::Home
                },
                ..app.screen
            },
            ..app
        }),
{
    reveal(AppView::performs);
    reveal(AppView::leaves);
}

/// `P` shows the player page of what plays, and Escape then leads back. Without a
/// page it stays where it is.
pub proof fn player_key_shows_the_page(app: AppView, key: KeyEvent, back: KeyEvent)
    requires
        plain(app, key),
        app.screen.view != View::Playing,
        key.code == KeyCode::Char('P'),
        back.code == KeyCode::Esc,
        !back.modifiers.control,
    ensures
        app.session.now is Some ==> app.keyed(key).screen.view == View::Playing
            && app.keyed(key).keyed(back).screen.view == app.screen.view,
        app.session.now is None ==> app.keyed(key).screen.view == app.screen.view,
        app.keyed(key).session == app.session,
        app.keyed(key).source == app.source,
        app.keyed(key).commands == app.commands,
{
    reveal(AppView::performs);
    reveal(AppView::opens_player);
    reveal(AppView::leaves);
}

/// `B` lets go of the terminal while anything plays, and only then.
pub proof fn background_key_lets_go(app: AppView, key: KeyEvent)
    requires
        plain(app, key),
        key.code == KeyCode::Char('B'),
    ensures
        app.session.now is Some ==> app.keyed(key) == (AppView {
            screen: Screen { wants_background: true, ..app.screen },
            ..app
        }),
        app.session.now is None ==> app.keyed(key).screen.wants_background
            == app.screen.wants_background,
{
    reveal(AppView::performs);
    reveal(AppView::goes_behind);
}

/// `D` turns the presence on or off and has it remembered as it then stands.
pub proof fn presence_key_turns_the_switch(app: AppView, key: KeyEvent)
    requires
        plain(app, key),
        key.code == KeyCode::Char('D'),
    ensures
        ({
            let after = app.keyed(key);
            &&& app.presence.unavailable is None ==> after.presence.enabled
                == !app.presence.enabled
            &&& app.presence.unavailable is Some ==> !after.presence.enabled
            &&& after.presence_setting == Some(after.presence.enabled)
            &&& after.session == app.session
            &&& after.source == app.source
        }),
{
    reveal(AppView::performs);
    reveal(AppView::switches_presence);
}

/// `c` gives the cover its other size, and pressed twice the one it had.
pub proof fn cover_key_resizes_the_cover(app: AppView, key: KeyEvent)
    requires
        plain(app, key),
        app.screen.view != View::Playlists,
        key.code == KeyCode::Char('c'),
    ensures
        app.keyed(key).screen.cover_size != app.screen.cover_size,
        app.keyed(key).keyed(key) == app,
{
    reveal(AppView::performs);
}

/// In every view `.` puts the page menu up, `S` the settings and `?` the help.
pub proof fn menu_keys_open_menus(app: AppView, key: KeyEvent)
    requires
        plain(app, key),
    ensures
        key.code == KeyCode::Char('.') ==> only_overlay(
            app,
            app.keyed(key),
            Overlay::Menu { menu: Menu::Page, selected: 0 },
        ),
        key.code == KeyCode::Char('S') ==> only_overlay(
            app,
            app.keyed(key),
            Overlay::Settings { selected: 0 },
        ),
        key.code == KeyCode::Char('?') ==> app.keyed(key).screen.overlay is Message,
{
    reveal(AppView::performs);
}

/// Control with `k` puts the App Menu up whatever has the keyboard, and with `s`
/// the settings.
pub proof fn control_keys_open_menus(app: AppView, key: KeyEvent)
    ensures
        with_control(key, 'k') ==> only_overlay(
            app,
            app.keyed(key),
            Overlay::Menu { menu: Menu::App, selected: 0 },
        ),
        with_control(key, 's') ==> only_overlay(
            app,
            app.keyed(key),
            Overlay::Settings { selected: 0 },
        ),
{
}

/// In a menu Enter takes the menu down and does what the row under the cursor
/// says, and Escape only takes it down.
pub proof fn menu_does_what_its_row_says(app: AppView, key: KeyEvent, menu: Menu, at: usize)
    requires
        app.screen.overlay == (Overlay::<Seq<char>>::Menu { menu, selected: at }),
        at < menu::offered(menu, app.screen.view).len(),
        !key.modifiers.control,
    ensures
        key.code == KeyCode::Enter ==> app.keyed(key) == (AppView {
            screen: Screen { overlay: Overlay::Closed, mode: Mode::Browse, ..app.screen },
            ..app
        }).performs(menu::offered(menu, app.screen.view)[at as int]),
        key.code == KeyCode::Esc ==> only_overlay(app, app.keyed(key), Overlay::Closed),
{
    reveal(AppView::overlay_key);
    reveal(AppView::menu_key);
    reveal(AppView::takes_row);
}

/// In a menu the arrows move the cursor by one row, and not off the menu.
pub proof fn menu_is_walked(app: AppView, key: KeyEvent, menu: Menu, at: usize)
    requires
        app.screen.overlay == (Overlay::<Seq<char>>::Menu { menu, selected: at }),
        at < menu::offered(menu, app.screen.view).len(),
        !key.modifiers.control,
        key.code == KeyCode::Down || key.code == KeyCode::Up || key.code == KeyCode::Home
            || key.code == KeyCode::End,
    ensures
        only_overlay(
            app,
            app.keyed(key),
            Overlay::Menu {
                menu,
                selected: (if key.code == KeyCode::Down {
                    lower(at, 1, menu::offered(menu, app.screen.view).len())
                } else if key.code == KeyCode::Up {
                    higher(at, 1)
                } else if key.code == KeyCode::Home {
                    0
                } else {
                    menu::offered(menu, app.screen.view).len() - 1
                }) as usize,
            },
        ),
{
    reveal(AppView::overlay_key);
    reveal(AppView::menu_key);
}

/// What a menu does is what a key does: each row of the page menu stands for the
/// key of the same action in its view.
pub proof fn page_menu_rows_stand_for_keys(app: AppView, key: KeyEvent)
    requires
        plain(app, key),
    ensures
        ({
            let rows = menu::offered(Menu::Page, app.screen.view);
            let does = |c: KeyCode, i: int|
                key.code == c ==> 0 <= i < rows.len() && app.performs(rows[i]) == app.keyed(key);
            &&& does(KeyCode::Enter, 0)
            &&& app.screen.view == View::Home ==> does(KeyCode::Char('r'), 1)
            &&& app.screen.view == View::Playlists ==> does(KeyCode::Char('r'), 1)
            &&& app.screen.view == View::Tracks ==> does(KeyCode::Char('a'), 1) && does(
                KeyCode::Char('f'),
                2,
            ) && does(KeyCode::Char('d'), 3)
            &&& app.screen.view == View::Playing ==> does(KeyCode::Char('n'), 1) && does(
                KeyCode::Char('p'),
                2,
            ) && does(KeyCode::Char('s'), 3) && does(KeyCode::Char('a'), 4) && does(
                KeyCode::Char('f'),
                5,
            )
        }),
{
}

/// The App Menu leads everywhere from everywhere, ends with quitting, and offers
/// the player page where that is not on screen; the account menu imports, signs
/// in and signs out.
pub proof fn app_menu_leads_everywhere(view: View)
    ensures
        ({
            let rows = menu::offered(Menu::App, view);
            let accounts = menu::offered(Menu::Account, view);
            &&& rows[0] == Action::Home
            &&& rows[1] == Action::Search
            &&& rows[2] == Action::Library
            &&& rows.contains(Action::Player) == (view != View::Playing)
            &&& rows[rows.len() - 5] == Action::Menu(Menu::Account)
            &&& rows[rows.len() - 4] == Action::Settings
            &&& rows[rows.len() - 3] == Action::Help
            &&& rows[rows.len() - 2] == Action::Background
            &&& rows[rows.len() - 1] == Action::Quit
            &&& accounts.len() == 3
            &&& accounts[0] == Action::Import
            &&& accounts[1] == Action::SignIn
            &&& accounts[2] == Action::SignOut
        }),
{
    let rows = menu::offered(Menu::App, view);
    if view != View::Playing {
        assert(rows[3] == Action::Player);
    }
}

/// In the settings panel a row is turned by Enter, and what it stands for then
/// has another value, which is to be remembered. The last row is the presence.
pub proof fn settings_rows_turn_settings(app: AppView, key: KeyEvent, row: usize)
    requires
        app.screen.overlay == (Overlay::<Seq<char>>::Settings { selected: row }),
        !key.modifiers.control,
        key.code == KeyCode::Enter || key.code == KeyCode::Right || key.code == KeyCode::Left,
    ensures
        ({
            let after = app.keyed(key);
            let old = app.settings;
            let new = after.settings;
            &&& row < 4 ==> after.settings_changed == Some(new)
            &&& row == 0 ==> new.start_in_tray == !old.start_in_tray && new.cover_style
                == old.cover_style && new.image_renderer == old.image_renderer && new.icon_theme
                == old.icon_theme
            &&& row == 1 ==> new.cover_style != old.cover_style && new.start_in_tray
                == old.start_in_tray && new.image_renderer == old.image_renderer
                && new.icon_theme == old.icon_theme
            &&& row == 2 ==> new.image_renderer != old.image_renderer && new.start_in_tray
                == old.start_in_tray && new.cover_style == old.cover_style && new.icon_theme
                == old.icon_theme
            &&& row == 3 ==> new.icon_theme != old.icon_theme && new.start_in_tray
                == old.start_in_tray && new.cover_style == old.cover_style
                && new.image_renderer == old.image_renderer
            &&& row == 4 ==> new == old && after.presence_setting == Some(after.presence.enabled)
                && (app.presence.unavailable is None ==> after.presence.enabled
                == !app.presence.enabled)
            &&& after.screen.overlay == app.screen.overlay
        }),
{
    reveal(AppView::overlay_key);
    reveal(AppView::settings_key);
    reveal(AppView::turns);
    reveal(AppView::switches_presence);
}

/// The rows of the settings panel are walked like those of a menu, and Escape
/// takes the panel down with nothing changed.
pub proof fn settings_rows_are_walked(app: AppView, key: KeyEvent, row: usize)
    requires
        app.screen.overlay == (Overlay::<Seq<char>>::Settings { selected: row }),
        row < 5,
        !key.modifiers.control,
    ensures
        key.code == KeyCode::Down ==> only_overlay(
            app,
            app.keyed(key),
            Overlay::Settings { selected: lower(row, 1, 5) as usize },
        ),
        key.code == KeyCode::Up ==> only_overlay(
            app,
            app.keyed(key),
            Overlay::Settings { selected: higher(row, 1) as usize },
        ),
        key.code == KeyCode::Esc ==> only_overlay(app, app.keyed(key), Overlay::Closed),
{
    reveal(AppView::overlay_key);
    reveal(AppView::settings_key);
}

/// A message and the panel of a sign-in are dismissed by Escape and Enter; a
/// sign-in that failed is started again by `A`.
pub proof fn panels_are_dismissed(app: AppView, key: KeyEvent)
    requires
        app.screen.overlay is Message || app.screen.overlay is SignIn,
        !key.modifiers.control,
        app.source.open,
    ensures
        key.code == KeyCode::Esc || key.code == KeyCode::Enter ==> {
            let after = app.keyed(key);
            &&& after.screen.overlay is Closed
            &&& after.source == app.source
            &&& after.session == app.session
        },
        app.screen.overlay is SignIn && app.screen.overlay->SignIn_0 is Failed && key.code
            == KeyCode::Char('A') ==> app.keyed(key).source.requests == app.source.requests.push(
            Request::SignIn,
        ),
{
    reveal(AppView::overlay_key);
}

/// The wheel does what the arrows do, and a modal keeps the mouse out.
pub proof fn wheel_moves_like_the_arrows(app: AppView, event: MouseEvent, key: KeyEvent)
    requires
        plain(app, key),
    ensures
        event.kind == MouseEventKind::ScrollDown && key.code == KeyCode::Down ==> app.moused(event)
            == app.keyed(key),
        event.kind == MouseEventKind::ScrollUp && key.code == KeyCode::Up ==> app.moused(event)
            == app.keyed(key),
{
}

/// Whether the mouse did something inside the region that is drawn on top.
pub open spec fn falls_on(app: AppView, event: MouseEvent, over: Region) -> bool {
    &&& app.screen.overlay is Closed
    &&& app.screen.mode == Mode::Browse
    &&& app.layout.len() > 0
    &&& over == app.layout.last()
    &&& over.left <= event.column < over.left + over.width
    &&& over.top <= event.row < over.top + over.height
}

/// A left click on a row of the track list plays that track. Where there is no
/// such row it does nothing.
pub proof fn click_plays_the_track(app: AppView, event: MouseEvent, over: Region, row: usize)
    requires
        falls_on(app, event, over),
        over.hit == Hit::Row(row),
        event.kind == MouseEventKind::Down(MouseButton::Left),
        app.source.open,
        app.screen.view == View::Tracks,
    ensures
        row < app.list.results.len() ==> app.moused(event).session.pending == Some(
            app.list.results[row as int].id,
        ) && app.moused(event).list.selected == row,
        row >= app.list.results.len() ==> app.moused(event) == app,
{
    reveal(AppView::clicks);
    reveal(AppView::performs);
    reveal(AppView::opens_selected);
    assert(app.in_mode(Mode::Browse) == app);
    if row < app.list.results.len() {
        reveal(AppView::plays);
        reveal(AppView::loads);
        reveal(AppView::heard_out);
        reveal(AppView::asks_tab);
        reveal(AppView::tops_up);
    }
}

/// A left click on a row of the library asks for that playlist.
pub proof fn click_opens_the_playlist(app: AppView, event: MouseEvent, over: Region, row: usize)
    requires
        falls_on(app, event, over),
        over.hit == Hit::Row(row),
        event.kind == MouseEventKind::Down(MouseButton::Left),
        app.source.open,
        app.screen.view == View::Playlists,
        row < app.library.playlists.len(),
    ensures
        app.moused(event).source.requests == app.source.requests.push(
            Request::OpenPlaylist {
                id: app.library.playlists[row as int].id,
                title: app.library.playlists[row as int].title,
            },
        ),
        app.moused(event).library.selected == row,
{
    reveal(AppView::clicks);
    reveal(AppView::performs);
    reveal(AppView::opens_selected);
    reveal(AppView::opens_playlist);
    assert(app.in_mode(Mode::Browse) == app);
}

/// A left click on a row of the queue plays that track.
pub proof fn click_plays_from_the_queue(app: AppView, event: MouseEvent, over: Region, row: usize)
    requires
        falls_on(app, event, over),
        over.hit == Hit::Row(row),
        event.kind == MouseEventKind::Down(MouseButton::Left),
        app.source.open,
        app.screen.view == View::Playing,
        app.session.now is Some,
        app.session.now->0.tab == Tab::UpNext,
        app.session.now->0.cursor.len() == 4,
        row < app.session.now->0.queue.len(),
    ensures
        app.moused(event).session.pending == Some(app.session.now->0.queue[row as int].id),
{
    reveal(AppView::clicks);
    reveal(AppView::performs);
    reveal(AppView::opens_selected);
    reveal(AppView::opens_row);
    assert(app.in_mode(Mode::Browse) == app);
    outcomes::playing_asks_for_the_stream(
        app.paged(Some(app.session.now->0.at_cursor(row))),
        app.session.now->0.queue[row as int],
        false,
    );
}

/// A left click on a card that plays a track plays it.
pub proof fn click_plays_the_card(
    app: AppView,
    event: MouseEvent,
    over: Region,
    shelf: usize,
    card: usize,
)
    requires
        falls_on(app, event, over),
        over.hit == (Hit::Card { shelf, card }),
        event.kind == MouseEventKind::Down(MouseButton::Left),
        app.source.open,
        app.screen.view == View::Home,
        shelf < app.home.shelves.len(),
        card < app.home.shelves[shelf as int].cards.len() <= usize::MAX,
        app.home.shelves[shelf as int].cards[card as int].playable is Some,
    ensures
        app.moused(event).session.pending == Some(
            app.home.shelves[shelf as int].cards[card as int].playable->0.id,
        ),
{
    let hit = Hit::Card { shelf, card };
    let there = app.home_to(shelf, card);
    let found = app.home.shelves[shelf as int].cards[card as int];
    assert(app.in_mode(Mode::Browse) == app);
    assert(app.moused(event) == app.clicks(hit));
    assert(app.clicks(hit) == there.performs(Action::Open)) by {
        reveal(AppView::clicks);
    }
    assert(there.performs(Action::Open) == there.opens_selected()) by {
        reveal(AppView::performs);
    }
    assert(there.card_of() == Some(found));
    assert(there.opens_selected() == there.plays(found.playable->0, false)) by {
        reveal(AppView::opens_selected);
        reveal(AppView::opens);
    }
    outcomes::playing_asks_for_the_stream(there, found.playable->0, false);
}

/// A left click on a tab opens it, and one on the search box goes there. Any other
/// button does nothing.
pub proof fn click_opens_what_it_falls_on(app: AppView, event: MouseEvent, over: Region)
    requires
        falls_on(app, event, over),
    ensures
        event.kind == MouseEventKind::Down(MouseButton::Right) ==> app.moused(event) == app,
        event.kind == MouseEventKind::Down(MouseButton::Left) && over.hit == Hit::Search ==> {
            &&& app.moused(event).screen.mode == Mode::Editing
            &&& app.moused(event).screen.view == View::Tracks
        },
        event.kind == MouseEventKind::Down(MouseButton::Left) && over.hit is Tab
            && app.screen.view == View::Playing ==> app.moused(event) == app.opens_tab(
            over.hit->Tab_0,
        ),
{
    reveal(AppView::clicks);
    reveal(AppView::performs);
    reveal(AppView::edits);
    assert(app.in_mode(Mode::Browse) == app);
}

/// What hovering the icon says names the track that plays, and whether it is
/// paused.
pub proof fn icon_names_what_plays(app: AppView)
    requires
        app.session.now is Some,
    ensures
        app.seen.state == PlayState::Playing ==> app.tip_of() == app.session.now->0.title + " -- "@
            + app.session.now->0.byline_of(),
        app.seen.state == PlayState::Paused ==> app.tip_of() == "paused -- "@
            + app.session.now->0.title + " -- "@ + app.session.now->0.byline_of(),
{
    reveal_strlit("");
    assert(""@ + app.session.now->0.title =~= app.session.now->0.title);
}

/// Whether two keys do the same.
pub open spec fn alike(app: AppView, one: KeyEvent, other: KeyEvent) -> bool {
    app.keyed(one) == app.keyed(other)
}

/// In every view the letters `j`, `k`, `g` and `G` do what the arrows and Home and
/// End do, `=` what `+` does, `_` what `-` does and `i` what `/` does.
pub proof fn letters_stand_for_keys(app: AppView, letter: KeyEvent, key: KeyEvent)
    requires
        plain(app, letter),
        plain(app, key),
    ensures
        letter.code == KeyCode::Char('j') && key.code == KeyCode::Down ==> alike(app, letter, key),
        letter.code == KeyCode::Char('k') && key.code == KeyCode::Up ==> alike(app, letter, key),
        letter.code == KeyCode::Char('g') && key.code == KeyCode::Home ==> alike(app, letter, key),
        letter.code == KeyCode::Char('G') && key.code == KeyCode::End ==> alike(app, letter, key),
        letter.code == KeyCode::Char('=') && key.code == KeyCode::Char('+') ==> alike(
            app,
            letter,
            key,
        ),
        letter.code == KeyCode::Char('_') && key.code == KeyCode::Char('-') ==> alike(
            app,
            letter,
            key,
        ),
        letter.code == KeyCode::Char('i') && key.code == KeyCode::Char('/') ==> alike(
            app,
            letter,
            key,
        ),
{
}

/// Some letters stand for a key in one view: on the landing page `l` and `h` for
/// the arrows, in the lists `p` for `P`, in the track list `l` for `L`, in the
/// library both for Escape, and on the player page `H` for Escape.
pub proof fn letters_stand_for_keys_of_a_view(app: AppView, letter: KeyEvent, key: KeyEvent)
    requires
        plain(app, letter),
        plain(app, key),
    ensures
        app.screen.view == View::Home && letter.code == KeyCode::Char('l') && key.code
            == KeyCode::Right ==> alike(app, letter, key),
        app.screen.view == View::Home && letter.code == KeyCode::Char('h') && key.code
            == KeyCode::Left ==> alike(app, letter, key),
        app.screen.view != View::Playing && letter.code == KeyCode::Char('p') && key.code
            == KeyCode::Char('P') ==> alike(app, letter, key),
        app.screen.view == View::Tracks && letter.code == KeyCode::Char('l') && key.code
            == KeyCode::Char('L') ==> alike(app, letter, key),
        app.screen.view == View::Playlists && (letter.code == KeyCode::Char('l') || letter.code
            == KeyCode::Char('L')) && key.code == KeyCode::Esc ==> alike(app, letter, key),
        app.screen.view == View::Playing && letter.code == KeyCode::Char('H') && key.code
            == KeyCode::Esc ==> alike(app, letter, key),
{
}

/// In a menu, the picker and the settings the letters do what the arrows do too,
/// and `q` what Escape does.
pub proof fn letters_stand_for_keys_of_a_modal(app: AppView, letter: KeyEvent, key: KeyEvent)
    requires
        app.screen.overlay is Menu || app.screen.overlay is AddTo || app.screen.overlay
            is Settings,
        !letter.modifiers.control,
        !key.modifiers.control,
    ensures
        letter.code == KeyCode::Char('j') && key.code == KeyCode::Down ==> alike(app, letter, key),
        letter.code == KeyCode::Char('k') && key.code == KeyCode::Up ==> alike(app, letter, key),
        letter.code == KeyCode::Char('g') && key.code == KeyCode::Home ==> alike(app, letter, key),
        letter.code == KeyCode::Char('G') && key.code == KeyCode::End ==> alike(app, letter, key),
        letter.code == KeyCode::Char('q') && key.code == KeyCode::Esc ==> alike(app, letter, key),
        app.screen.overlay is Settings && letter.code == KeyCode::Char('l') && key.code
            == KeyCode::Right ==> alike(app, letter, key),
        app.screen.overlay is Settings && letter.code == KeyCode::Char('h') && key.code
            == KeyCode::Left ==> alike(app, letter, key),
{
    reveal(AppView::overlay_key);
    reveal(AppView::menu_key);
    reveal(AppView::picker_key);
    reveal(AppView::settings_key);
}

/// A key that stands for nothing does nothing.
pub proof fn other_keys_do_nothing(app: AppView, key: KeyEvent)
    requires
        plain(app, key),
        key.code == KeyCode::Other || key.code == KeyCode::Delete || key.code
            == KeyCode::Backspace || key.code == KeyCode::Char('z') || key.code == KeyCode::Char(
            'Q',
        ),
    ensures
        app.keyed(key) == app,
{
    reveal(AppView::performs);
}

} // verus!
