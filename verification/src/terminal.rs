//! Where the cursor of a terminal is, for one that cannot be asked.
//!
//! Drawing leaves the cursor behind the last cell that was drawn. A terminal on
//! the other end of a pipe cannot say where that is, so it is worked out here.

use vstd::prelude::*;
use unicode_width::UnicodeWidthStr;

verus! {

broadcast use vstd::string::group_string_axioms;

/// How many columns a text takes, as the `unicode-width` crate counts them.
pub uninterp spec fn columns_of(s: Seq<char>) -> usize;

/// Calls `UnicodeWidthStr::width` of the `unicode-width` crate.
///
/// The width is a function of the text. How many columns a given character
/// takes is not stated here.
#[verifier::external_body]
fn columns(s: &str) -> (r: usize)
    ensures
        r == columns_of(s@),
{
    s.width()
}

/// How many columns a cell takes: one at least, and as many as sixteen bits
/// hold at most.
pub open spec fn cell_width(columns: usize) -> u16 {
    if columns > u16::MAX {
        u16::MAX
    } else if columns == 0 {
        1
    } else {
        columns as u16
    }
}

/// How many columns the symbol of a cell takes.
pub fn symbol_width(symbol: &str) -> (r: u16)
    ensures
        r == cell_width(columns_of(symbol@)),
{
    fit_width(columns(symbol))
}

/// How many columns a cell takes whose symbol takes so many.
pub fn fit_width(columns: usize) -> (r: u16)
    ensures
        r == cell_width(columns),
{
    if columns > u16::MAX as usize {
        u16::MAX
    } else if columns == 0 {
        1
    } else {
        columns as u16
    }
}

/// The size of a terminal and the place of its cursor, in cells.
#[derive(Debug, Clone, Copy, PartialEq, Eq, Structural)]
pub struct Tracker {
    pub width: u16,
    pub height: u16,
    pub x: u16,
    pub y: u16,
}

/// A sum, or the largest number of sixteen bits.
pub open spec fn sum16(a: u16, b: u16) -> u16 {
    if a + b > u16::MAX {
        u16::MAX
    } else {
        (a + b) as u16
    }
}

/// The last place of so many, and zero of none.
pub open spec fn last16(n: u16) -> u16 {
    if n == 0 {
        0
    } else {
        (n - 1) as u16
    }
}

/// The smaller of two.
pub open spec fn least16(a: u16, b: u16) -> u16 {
    if a < b {
        a
    } else {
        b
    }
}

fn smaller(a: u16, b: u16) -> (r: u16)
    ensures
        r == least16(a, b),
{
    if a < b {
        a
    } else {
        b
    }
}

impl Tracker {
    /// The cursor after a cell of this width has been drawn: behind it, or at
    /// the start of the next line, as far as there is one.
    pub open spec fn after_cell(self, x: u16, y: u16, columns: u16) -> Tracker {
        let next = sum16(x, columns);
        if self.width != 0 && next >= self.width {
            Tracker { x: 0, y: least16(sum16(y, 1), last16(self.height)), ..self }
        } else {
            Tracker { x: next, y, ..self }
        }
    }

    /// The cursor after lines have been appended.
    pub open spec fn after_lines(self, n: u16) -> Tracker {
        Tracker { x: 0, y: least16(sum16(self.y, n), last16(self.height)), ..self }
    }

    /// The cursor in a terminal of another size.
    pub open spec fn resized(self, width: u16, height: u16) -> Tracker {
        Tracker {
            width,
            height,
            x: least16(self.x, last16(width)),
            y: least16(self.y, last16(height)),
        }
    }

    /// A terminal of a size, with its cursor in the corner.
    pub fn new(width: u16, height: u16) -> (r: Self)
        ensures
            r == (Tracker { width, height, x: 0, y: 0 }),
    {
        Tracker { width, height, x: 0, y: 0 }
    }

    /// Takes another size.
    pub fn set_size(&mut self, width: u16, height: u16)
        ensures
            *final(self) == old(self).resized(width, height),
    {
        self.width = width;
        self.height = height;
        self.x = smaller(self.x, width.saturating_sub(1));
        self.y = smaller(self.y, height.saturating_sub(1));
    }

    /// Notes that a cell was drawn whose symbol takes so many columns.
    pub fn draw_cell(&mut self, x: u16, y: u16, columns: u16)
        ensures
            *final(self) == old(self).after_cell(x, y, columns),
    {
        let next: u16 = x.saturating_add(columns);
        if self.width != 0 && next >= self.width {
            self.x = 0;
            self.y = smaller(y.saturating_add(1), self.height.saturating_sub(1));
        } else {
            self.x = next;
            self.y = y;
        }
    }

    /// Notes that a symbol was drawn in a cell.
    pub fn draw(&mut self, x: u16, y: u16, symbol: &str)
        ensures
            *final(self) == old(self).after_cell(x, y, cell_width(columns_of(symbol@))),
    {
        let width: u16 = symbol_width(symbol);
        self.draw_cell(x, y, width);
    }

    /// Notes that lines were appended.
    pub fn append_lines(&mut self, n: u16)
        ensures
            *final(self) == old(self).after_lines(n),
    {
        self.x = 0;
        self.y = smaller(self.y.saturating_add(n), self.height.saturating_sub(1));
    }

    /// Notes where the cursor was put.
    pub fn set_cursor(&mut self, x: u16, y: u16)
        ensures
            *final(self) == (Tracker { x, y, ..*old(self) }),
    {
        self.x = x;
        self.y = y;
    }
}

/// Drawing inside a terminal leaves the cursor inside it.
pub proof fn cursor_stays_inside(at: Tracker, x: u16, y: u16, columns: u16, n: u16)
    requires
        at.width > 0,
        at.height > 0,
        at.x < at.width,
        at.y < at.height,
        x < at.width,
        y < at.height,
    ensures
        at.after_cell(x, y, columns).x < at.width,
        at.after_cell(x, y, columns).y < at.height,
        at.after_lines(n).x < at.width,
        at.after_lines(n).y < at.height,
{
}

/// Whatever its size becomes, the cursor is inside a terminal that has any
/// room.
pub proof fn resizing_keeps_the_cursor_inside(at: Tracker, width: u16, height: u16)
    requires
        width > 0,
        height > 0,
    ensures
        at.resized(width, height).x < width,
        at.resized(width, height).y < height,
{
}

/// A cell that is drawn leaves the cursor right behind it, and one that reaches
/// the edge at the start of the next line, where there is one.
pub proof fn drawing_moves_the_cursor_on(at: Tracker, x: u16, y: u16, columns: u16)
    requires
        at.width > 0,
        at.height > 0,
        y < at.height,
    ensures
        ({
            let after = at.after_cell(x, y, columns);
            &&& x + columns < at.width ==> after.x == x + columns && after.y == y
            &&& x + columns >= at.width && y + 1 < at.height ==> after.x == 0 && after.y == y + 1
            &&& x + columns >= at.width && y + 1 == at.height ==> after.x == 0 && after.y == y
            &&& after.width == at.width
            &&& after.height == at.height
        }),
{
}

/// Appended lines leave the cursor at the start of the line so many further down,
/// or of the last; and another size moves it no further than to stay inside.
pub proof fn lines_move_the_cursor_down(at: Tracker, n: u16, width: u16, height: u16)
    requires
        at.height > 0,
    ensures
        at.after_lines(n).x == 0,
        at.y + n < at.height ==> at.after_lines(n).y == at.y + n,
        at.y + n >= at.height ==> at.after_lines(n).y == at.height - 1,
        at.resized(width, height).width == width,
        at.resized(width, height).height == height,
        at.x < width ==> at.resized(width, height).x == at.x,
        at.y < height ==> at.resized(width, height).y == at.y,
{
}

/// A symbol takes as many cells as it has columns, but one at least.
pub proof fn symbols_take_their_columns(columns: usize)
    ensures
        cell_width(0) == 1,
        1 <= columns <= u16::MAX ==> cell_width(columns) == columns,
{
}

} // verus!
