//! The mouse: the wheel navigates, and a click edits the search box or opens
//! what it falls on.
//!
//! Where things are on screen is known to whoever draws them, and is told here
//! as a list of regions.

use vstd::prelude::*;
use vstd::view::View as _;

use super::input::Action;
use super::{App, AppView, Mode, View};
use crate::keys::{MouseButton, MouseEvent, MouseEventKind};
use crate::now_playing::{NowView, Tab};

verus! {

/// What a click falls on.
#[derive(Debug, Clone, Copy, PartialEq, Eq, Structural)]
pub enum Hit {
    /// The search box.
    Search,
    /// A card of the landing page.
    Card { shelf: usize, card: usize },
    /// A row of the list that is shown: a track, a playlist, or an entry of the
    /// player page.
    Row(usize),
    /// A tab of the player page.
    Tab(Tab),
}

/// A rectangle of cells, and what it shows.
#[derive(Debug, Clone, Copy, PartialEq, Eq, Structural)]
pub struct Region {
    pub left: u16,
    pub top: u16,
    pub width: u16,
    pub height: u16,
    pub hit: Hit,
}

impl Region {
    /// Whether a cell is inside.
    pub open spec fn has(self, x: u16, y: u16) -> bool {
        self.left <= x < self.left + self.width && self.top <= y < self.top + self.height
    }

    fn covers(&self, x: u16, y: u16) -> (r: bool)
        ensures
            r == self.has(x, y),
    {
        self.left <= x && x - self.left < self.width && self.top <= y && y - self.top < self.height
    }
}

/// What is shown at a cell. Of regions that overlap, the one drawn last is on
/// top.
pub open spec fn hit_of(layout: Seq<Region>, x: u16, y: u16) -> Option<Hit>
    decreases layout.len(),
{
    if layout.len() == 0 {
        None
    } else if layout.last().has(x, y) {
        Some(layout.last().hit)
    } else {
        hit_of(layout.drop_last(), x, y)
    }
}

/// What is shown at a cell.
pub fn hit_at(layout: &Vec<Region>, x: u16, y: u16) -> (r: Option<Hit>)
    ensures
        r == hit_of(layout@, x, y),
{
    let mut i: usize = layout.len();
    proof {
        assert(layout@.take(i as int) =~= layout@);
    }
    while i > 0
        invariant
            i <= layout@.len(),
            hit_of(layout@, x, y) == hit_of(layout@.take(i as int), x, y),
        decreases i,
    {
        proof {
            assert(layout@.take(i as int).last() == layout@[i - 1]);
            assert(layout@.take(i as int).drop_last() =~= layout@.take(i - 1));
        }
        if layout[i - 1].covers(x, y) {
            return Some(layout[i - 1].hit);
        }
        i -= 1;
    }
    None
}

/// How many entries of the open tab can be opened.
pub open spec fn entries_of(now: NowView) -> nat {
    match now.tab {
        Tab::UpNext => now.queue.len(),
        Tab::Related => now.rows_of().len(),
        _ => 0,
    }
}

impl AppView {
    /// With the cursor on a row of the list that is shown, or as it was where
    /// there is no such row.
    pub open spec fn on_row(self, row: usize) -> Option<AppView> {
        match self.screen.view {
            View::Home => None,
            View::Tracks => if row < self.list.results.len() {
                Some(self.selects(row))
            } else {
                None
            },
            View::Playlists => if row < self.library.playlists.len() {
                Some(self.selects_playlist(row))
            } else {
                None
            },
            View::Playing => match self.session.now {
                Some(now) => if row < entries_of(now) {
                    Some(self.paged(Some(now.at_cursor(row))))
                } else {
                    None
                },
                None => None,
            },
        }
    }

    /// A click on something. What is not there any more is not opened.
    #[verifier::opaque]
    pub open spec fn clicks(self, hit: Hit) -> AppView {
        let out = self.in_mode(Mode::Browse);
        match hit {
            Hit::Search => self.performs(Action::Search),
            Hit::Tab(tab) => if self.screen.view == View::Playing {
                out.performs(Action::Show(tab))
            } else {
                self
            },
            Hit::Card { shelf, card } => if self.screen.view == View::Home && shelf
                < self.home.shelves.len() && card < self.home.shelves[shelf as int].cards.len() {
                out.home_to(shelf, card).performs(Action::Open)
            } else {
                self
            },
            Hit::Row(row) => match out.on_row(row) {
                Some(there) => there.performs(Action::Open),
                None => self,
            },
        }
    }

    /// Something the mouse did. A modal keeps it out.
    pub open spec fn moused(self, event: MouseEvent) -> AppView {
        if !(self.screen.overlay is Closed) {
            self
        } else {
            match event.kind {
                MouseEventKind::ScrollDown => self.performs(Action::Down(1)),
                MouseEventKind::ScrollUp => self.performs(Action::Up(1)),
                MouseEventKind::Down(MouseButton::Left) => match hit_of(
                    self.layout,
                    event.column,
                    event.row,
                ) {
                    Some(hit) => self.clicks(hit),
                    None => self,
                },
                MouseEventKind::Down(_) => self,
            }
        }
    }
}

impl App {
    /// Puts the cursor on a row of the list that is shown, where there is such a
    /// row.
    fn go_to_row(&mut self, row: usize) -> (r: bool)
        ensures
            r == old(self).view().on_row(row) is Some,
            final(self).view() == match old(self).view().on_row(row) {
                Some(there) => there,
                None => old(self).view(),
            },
    {
        match self.screen.view {
            View::Home => false,
            View::Tracks => {
                if row < self.list.results.len() {
                    self.select(row);
                    true
                } else {
                    false
                }
            },
            View::Playlists => {
                if row < self.library.playlists.len() {
                    self.select_playlist(row);
                    true
                } else {
                    false
                }
            },
            View::Playing => {
                let n: usize = match &self.session.now {
                    None => 0,
                    Some(now) => match now.tab {
                        Tab::UpNext => now.queue.len(),
                        Tab::Related => now.related_rows().len(),
                        _ => 0,
                    },
                };
                if row < n {
                    if let Some(mut now) = self.take_page_off() {
                        now.set_cursor(row);
                        self.set_page(Some(now));
                    }
                    true
                } else {
                    false
                }
            },
        }
    }

    fn click(&mut self, hit: Hit)
        ensures
            final(self).view() == old(self).view().clicks(hit),
    {
        reveal(AppView::clicks);
        match hit {
            Hit::Search => self.perform(Action::Search),
            Hit::Tab(tab) => {
                if self.screen.view == View::Playing {
                    self.enter(Mode::Browse);
                    self.perform(Action::Show(tab));
                }
            },
            Hit::Card { shelf, card } => {
                if self.screen.view == View::Home && shelf < self.home.shelves.len() && card
                    < self.home.shelves[shelf].cards.len() {
                    self.enter(Mode::Browse);
                    self.move_home(shelf, card);
                    self.perform(Action::Open);
                }
            },
            Hit::Row(row) => {
                let mode = self.screen.mode;
                self.enter(Mode::Browse);
                if self.go_to_row(row) {
                    self.perform(Action::Open);
                } else {
                    self.enter(mode);
                }
            },
        }
    }

    /// Does what the mouse asks for.
    pub fn handle_mouse(&mut self, event: MouseEvent)
        ensures
            final(self).view() == old(self).view().moused(event),
    {
        if self.screen.overlay.is_open() {
            return;
        }
        match event.kind {
            MouseEventKind::ScrollDown => self.perform(Action::Down(1)),
            MouseEventKind::ScrollUp => self.perform(Action::Up(1)),
            MouseEventKind::Down(MouseButton::Left) => {
                if let Some(hit) = hit_at(&self.layout, event.column, event.row) {
                    self.click(hit);
                }
            },
            MouseEventKind::Down(_) => {},
        }
    }
}

/// A click opens what is drawn on top, and nothing where nothing is drawn.
pub proof fn clicks_fall_on_what_is_on_top(
    layout: Seq<Region>,
    over: Region,
    x: u16,
    y: u16,
)
    ensures
        over.has(x, y) ==> hit_of(layout.push(over), x, y) == Some(over.hit),
        !over.has(x, y) ==> hit_of(layout.push(over), x, y) == hit_of(layout, x, y),
{
    assert(layout.push(over).drop_last() =~= layout);
}

} // verus!
