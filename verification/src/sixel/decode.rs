//! Reading sixel back.
//!
//! The reader here is for what is said about the encoder: what a terminal that
//! reads a sequence ends up with on its screen. It understands the part of the
//! format that is written.

use vstd::prelude::*;

use super::quantise;
use super::Grid;

verus! {

/// Whether a byte is a decimal digit.
pub open spec fn is_digit(b: u8) -> bool {
    48 <= b <= 57
}

/// How many digits stand in front.
pub open spec fn leading(bytes: Seq<u8>) -> nat
    decreases bytes.len(),
{
    if bytes.len() == 0 || !is_digit(bytes[0]) {
        0
    } else {
        1 + leading(bytes.skip(1))
    }
}

/// The number that some digits stand for.
pub open spec fn value(digits: Seq<u8>) -> nat
    decreases digits.len(),
{
    if digits.len() == 0 {
        0
    } else {
        (value(digits.drop_last()) * 10 + digits.last() - 48) as nat
    }
}

/// The number in front, and what follows it.
pub open spec fn number(bytes: Seq<u8>) -> (nat, Seq<u8>) {
    let n = leading(bytes) as int;
    (value(bytes.take(n)), bytes.skip(n))
}

proof fn lemma_leading(bytes: Seq<u8>)
    ensures
        leading(bytes) <= bytes.len(),
    decreases bytes.len(),
{
    if bytes.len() > 0 && is_digit(bytes[0]) {
        lemma_leading(bytes.skip(1));
    }
}

/// What follows the separator in front, where there is one.
pub open spec fn after_separator(bytes: Seq<u8>) -> Seq<u8> {
    if bytes.len() > 0 && bytes[0] == 59 {
        bytes.skip(1)
    } else {
        bytes
    }
}

/// What follows four numbers.
pub open spec fn after_size(bytes: Seq<u8>) -> Seq<u8> {
    let a = after_separator(number(bytes).1);
    let b = after_separator(number(a).1);
    let c = after_separator(number(b).1);
    after_separator(number(c).1)
}

/// What is on the screen, and where the reader is.
pub struct Screen {
    /// The colours that have been declared, in percent of full scale.
    pub palette: spec_fn(nat) -> Option<(nat, nat, nat)>,
    /// The colour of each place that has been painted, by column and row.
    pub painted: spec_fn(int, int) -> Option<nat>,
    /// How often each place has been painted.
    pub times: spec_fn(int, int) -> nat,
    pub colour: nat,
    pub x: int,
    pub y: int,
}

impl Screen {
    /// Nothing painted, and the reader in the corner.
    pub open spec fn blank() -> Screen {
        Screen {
            palette: |i: nat| None,
            painted: |x: int, y: int| None,
            times: |x: int, y: int| 0,
            colour: 0,
            x: 0,
            y: 0,
        }
    }

    /// Whether one column of six bits, put down so many times, covers a place.
    pub open spec fn covers(self, bits: int, columns: int, x: int, y: int) -> bool {
        self.x <= x < self.x + columns && self.y <= y < self.y + 6 && lit(bits, y - self.y)
    }

    /// With one column of six bits painted so many times.
    pub open spec fn paint(self, bits: int, columns: int) -> Screen {
        Screen {
            painted: |x: int, y: int|
                if self.covers(bits, columns, x, y) {
                    Some(self.colour)
                } else {
                    (self.painted)(x, y)
                },
            times: |x: int, y: int|
                if self.covers(bits, columns, x, y) {
                    (self.times)(x, y) + 1
                } else {
                    (self.times)(x, y)
                },
            x: self.x + columns,
            ..self
        }
    }

    /// With a colour declared and selected.
    pub open spec fn declare(self, i: nat, colour: (nat, nat, nat)) -> Screen {
        Screen {
            palette: |k: nat|
                if k == i {
                    Some(colour)
                } else {
                    (self.palette)(k)
                },
            colour: i,
            ..self
        }
    }

    /// With a colour selected.
    pub open spec fn select(self, i: nat) -> Screen {
        Screen { colour: i, ..self }
    }

    /// Back at the start of the band.
    pub open spec fn back(self) -> Screen {
        Screen { x: 0, ..self }
    }

    /// At the start of the next band.
    pub open spec fn down(self) -> Screen {
        Screen { x: 0, y: self.y + 6, ..self }
    }
}

/// Whether one of six bits is set.
pub open spec fn lit(bits: int, r: int) -> bool {
    bits / super::row_bit(r as nat) % 2 == 1
}

/// The screen after some bytes have been read, up to the escape that ends them.
pub open spec fn read(bytes: Seq<u8>, screen: Screen) -> Screen
    decreases bytes.len(),
    via read_terminates
{
    if bytes.len() == 0 || bytes[0] == 27 {
        screen
    } else {
        let rest = bytes.skip(1);
        if bytes[0] == 34 {
            read(after_size(rest), screen)
        } else if bytes[0] == 35 {
            let (i, tail) = number(rest);
            if tail.len() > 0 && tail[0] == 59 {
                let (_, one) = number(tail.skip(1));
                let (r, two) = number(after_separator(one));
                let (g, three) = number(after_separator(two));
                let (b, four) = number(after_separator(three));
                read(four, screen.declare(i, (r, g, b)))
            } else {
                read(tail, screen.select(i))
            }
        } else if bytes[0] == 33 {
            let (n, tail) = number(rest);
            if tail.len() == 0 {
                screen
            } else {
                read(tail.skip(1), screen.paint(tail[0] - 63, n as int))
            }
        } else if bytes[0] == 36 {
            read(rest, screen.back())
        } else if bytes[0] == 45 {
            read(rest, screen.down())
        } else {
            read(rest, screen.paint(bytes[0] - 63, 1))
        }
    }
}

#[via_fn]
proof fn read_terminates(bytes: Seq<u8>, screen: Screen) {
    if bytes.len() > 0 {
        let rest = bytes.skip(1);
        lemma_shorter(rest);
        let tail = number(rest).1;
        lemma_shorter(tail);
        if tail.len() > 0 {
            lemma_shorter(tail.skip(1));
            let one = number(tail.skip(1)).1;
            lemma_shorter(after_separator(one));
            let two = number(after_separator(one)).1;
            lemma_shorter(after_separator(two));
            let three = number(after_separator(two)).1;
            lemma_shorter(after_separator(three));
        }
        let a = after_separator(number(rest).1);
        lemma_shorter(a);
        let b = after_separator(number(a).1);
        lemma_shorter(b);
        let c = after_separator(number(b).1);
        lemma_shorter(c);
    }
}

proof fn lemma_shorter(bytes: Seq<u8>)
    ensures
        number(bytes).1.len() <= bytes.len(),
        after_separator(bytes).len() <= bytes.len(),
{
    lemma_leading(bytes);
}

/// The screen after a complete sequence has been read.
pub open spec fn shown(bytes: Seq<u8>) -> Screen {
    if bytes.len() >= 3 && bytes[0] == 27 && bytes[1] == 80 && bytes[2] == 113 {
        read(bytes.skip(3), Screen::blank())
    } else {
        Screen::blank()
    }
}

proof fn lemma_digits(n: nat)
    ensures
        super::digits(n).len() > 0,
        value(super::digits(n)) == n,
        forall|i: int| 0 <= i < super::digits(n).len() ==> is_digit(#[trigger] super::digits(n)[i]),
    decreases n,
{
    let d = super::digits(n);
    if n >= 10 {
        lemma_digits(n / 10);
        assert(d.drop_last() =~= super::digits(n / 10));
        assert forall|i: int| 0 <= i < d.len() implies is_digit(#[trigger] d[i]) by {
            if i < d.len() - 1 {
                assert(d[i] == super::digits(n / 10)[i]);
            }
        }
    } else {
        assert(d.drop_last().len() == 0);
        assert(value(d.drop_last()) == 0);
    }
}

proof fn lemma_leading_digits(digits: Seq<u8>, rest: Seq<u8>)
    requires
        forall|i: int| 0 <= i < digits.len() ==> is_digit(#[trigger] digits[i]),
        rest.len() == 0 || !is_digit(rest[0]),
    ensures
        leading(digits + rest) == digits.len(),
    decreases digits.len(),
{
    let all = digits + rest;
    if digits.len() == 0 {
        assert(all =~= rest);
    } else {
        assert(all[0] == digits[0]);
        assert(all.skip(1) =~= digits.skip(1) + rest);
        assert forall|i: int| 0 <= i < digits.skip(1).len() implies is_digit(
            #[trigger] digits.skip(1)[i],
        ) by {
            assert(digits.skip(1)[i] == digits[i + 1]);
        }
        lemma_leading_digits(digits.skip(1), rest);
    }
}

/// A number that was written is read, and nothing of what follows.
proof fn lemma_number(n: nat, rest: Seq<u8>)
    requires
        rest.len() == 0 || !is_digit(rest[0]),
    ensures
        number(super::digits(n) + rest) == (n, rest),
{
    let d = super::digits(n);
    lemma_digits(n);
    lemma_leading_digits(d, rest);
    assert((d + rest).take(d.len() as int) =~= d);
    assert((d + rest).skip(d.len() as int) =~= rest);
}

proof fn lemma_paint_twice(s: Screen, bits: int, n: int)
    requires
        0 <= n,
    ensures
        s.paint(bits, n).paint(bits, 1) == s.paint(bits, n + 1),
        s.paint(bits, 0) == s,
{
    assert(s.paint(bits, n).paint(bits, 1).painted =~= s.paint(bits, n + 1).painted);
    assert(s.paint(bits, n).paint(bits, 1).times =~= s.paint(bits, n + 1).times);
    assert(s.paint(bits, 0).painted =~= s.painted);
    assert(s.paint(bits, 0).times =~= s.times);
}

/// A run of one character paints its column as often as it says.
proof fn lemma_run(s: Screen, ch: u8, n: nat, rest: Seq<u8>)
    requires
        n > 0 ==> 63 <= ch < 127,
    ensures
        read(super::run_of(ch, n) + rest, s) == read(rest, s.paint(ch - 63, n as int)),
{
    let all = super::run_of(ch, n) + rest;
    lemma_paint_twice(s, ch - 63, 0);
    lemma_paint_twice(s, ch - 63, 1);
    lemma_paint_twice(s, ch - 63, 2);
    if n == 0 {
        assert(all =~= rest);
    } else if n == 1 {
        assert(all.skip(1) =~= rest);
    } else if n == 2 {
        let one = seq![ch] + rest;
        assert(all.skip(1) =~= one);
        assert(one.skip(1) =~= rest);
        assert(read(all, s) == read(one, s.paint(ch - 63, 1)));
    } else if n == 3 {
        let two = seq![ch, ch] + rest;
        let one = seq![ch] + rest;
        assert(all.skip(1) =~= two);
        assert(two.skip(1) =~= one);
        assert(one.skip(1) =~= rest);
        assert(read(all, s) == read(two, s.paint(ch - 63, 1)));
        assert(read(two, s.paint(ch - 63, 1)) == read(one, s.paint(ch - 63, 2)));
    } else {
        let tail = seq![ch] + rest;
        assert(all.skip(1) =~= super::digits(n) + tail);
        lemma_number(n, tail);
        assert(tail.skip(1) =~= rest);
    }
}

/// With columns painted one after the other.
pub open spec fn painted(s: Screen, columns: Seq<u8>) -> Screen
    decreases columns.len(),
{
    if columns.len() == 0 {
        s
    } else {
        painted(s.paint(columns[0] as int, 1), columns.skip(1))
    }
}

/// Characters paint the columns that they were written for.
proof fn lemma_runs(s: Screen, ch: u8, n: nat, columns: Seq<u8>, rest: Seq<u8>)
    requires
        n > 0 ==> 63 <= ch < 127,
        forall|i: int| 0 <= i < columns.len() ==> (#[trigger] columns[i]) < 64,
    ensures
        read(super::runs_from(ch, n, columns) + rest, s) == read(
            rest,
            painted(s.paint(ch - 63, n as int), columns),
        ),
    decreases columns.len(),
{
    if columns.len() == 0 {
        lemma_run(s, ch, n, rest);
    } else {
        let tail = columns.skip(1);
        let next = (63 + columns[0]) as u8;
        assert forall|i: int| 0 <= i < tail.len() implies (#[trigger] tail[i]) < 64 by {
            assert(tail[i] == columns[i + 1]);
        }
        assert(columns[0] < 64);
        if n > 0 && next == ch {
            lemma_runs(s, ch, n + 1, tail, rest);
            lemma_paint_twice(s, ch - 63, n as int);
        } else {
            let further = super::runs_from(next, 1, tail);
            assert(super::runs_from(ch, n, columns) + rest =~= super::run_of(ch, n) + (further
                + rest));
            lemma_run(s, ch, n, further + rest);
            lemma_runs(s.paint(ch - 63, n as int), next, 1, tail, rest);
        }
    }
}

/// Painted columns are on the screen, and what was there stays elsewhere.
proof fn lemma_painted(s: Screen, columns: Seq<u8>, x: int, y: int)
    ensures
        ({
            let after = painted(s, columns);
            &&& after.x == s.x + columns.len()
            &&& after.y == s.y
            &&& after.colour == s.colour
            &&& after.palette == s.palette
            &&& (after.painted)(x, y) == if s.x <= x < s.x + columns.len() && s.y <= y < s.y + 6
                && lit(columns[x - s.x] as int, y - s.y) {
                Some(s.colour)
            } else {
                (s.painted)(x, y)
            }
            &&& (after.times)(x, y) == if s.x <= x < s.x + columns.len() && s.y <= y < s.y + 6
                && lit(columns[x - s.x] as int, y - s.y) {
                (s.times)(x, y) + 1
            } else {
                (s.times)(x, y)
            }
        }),
    decreases columns.len(),
{
    if columns.len() > 0 {
        let next = s.paint(columns[0] as int, 1);
        let tail = columns.skip(1);
        lemma_painted(next, tail, x, y);
        if s.x + 1 <= x < s.x + columns.len() {
            assert(tail[x - next.x] == columns[x - s.x]);
        }
    }
}

proof fn lemma_bit(a: int, b: int, c: int, d: int, e: int, f: int, r: int)
    requires
        0 <= a <= 1,
        0 <= b <= 1,
        0 <= c <= 1,
        0 <= d <= 1,
        0 <= e <= 1,
        0 <= f <= 1,
        0 <= r < 6,
    ensures
        lit(a + b * 2 + c * 4 + d * 8 + e * 16 + f * 32, r) == (seq![a, b, c, d, e, f][r] == 1),
{
    let bits = a + b * 2 + c * 4 + d * 8 + e * 16 + f * 32;
    if r == 0 {
        assert(bits / 1 % 2 == a);
    } else if r == 1 {
        assert(bits / 2 % 2 == b);
    } else if r == 2 {
        assert(bits / 4 % 2 == c);
    } else if r == 3 {
        assert(bits / 8 % 2 == d);
    } else if r == 4 {
        assert(bits / 16 % 2 == e);
    } else {
        assert(bits / 32 % 2 == f);
    }
}

/// A bit of a column is set exactly where the colour is.
proof fn lemma_lit(grid: Grid, x: int, top: int, colour: u8, r: int)
    requires
        0 <= r < 6,
    ensures
        lit(grid.column(x, top, colour, 6), r) == (grid.bit(x, top + r, colour) == 1),
        0 <= grid.column(x, top, colour, 6) < 64,
{
    reveal_with_fuel(Grid::column, 7);
    let a = grid.bit(x, top, colour);
    let b = grid.bit(x, top + 1, colour);
    let c = grid.bit(x, top + 2, colour);
    let d = grid.bit(x, top + 3, colour);
    let e = grid.bit(x, top + 4, colour);
    let f = grid.bit(x, top + 5, colour);
    assert(grid.column(x, top, colour, 6) == a + b * 2 + c * 4 + d * 8 + e * 16 + f * 32);
    lemma_bit(a, b, c, d, e, f, r);
    assert(grid.bit(x, top + r, colour) == seq![a, b, c, d, e, f][r]);
}

/// The columns that are left out are empty.
proof fn lemma_used(columns: Seq<u8>)
    ensures
        super::used(columns).len() <= columns.len(),
        columns.len() > 0 ==> super::used(columns).len() > 0,
        super::used(columns) == columns.take(super::used(columns).len() as int),
        forall|i: int| super::used(columns).len() <= i < columns.len() ==> (#[trigger] columns[i]) == 0,
    decreases columns.len(),
{
    if columns.len() <= 1 || columns.last() != 0 {
        assert(columns.take(columns.len() as int) =~= columns);
    } else {
        let init = columns.drop_last();
        lemma_used(init);
        let n = super::used(columns).len() as int;
        assert(init.take(n) =~= columns.take(n));
        assert forall|i: int| n <= i < columns.len() implies (#[trigger] columns[i]) == 0 by {
            if i < columns.len() - 1 {
                assert(init[i] == columns[i]);
            }
        }
    }
}

/// What stands first where columns are written is a character or a count.
proof fn lemma_runs_start(columns: Seq<u8>)
    requires
        columns.len() > 0,
        forall|i: int| 0 <= i < columns.len() ==> (#[trigger] columns[i]) < 64,
    ensures
        super::runs(columns).len() > 0,
        !is_digit(super::runs(columns)[0]),
        super::runs(columns)[0] != 59,
{
    let next = (63 + columns[0]) as u8;
    assert(columns[0] < 64);
    lemma_run_start(next, 1, columns.skip(1));
    assert(super::run_of(0, 0) =~= Seq::empty());
    assert(super::runs(columns) =~= super::runs_from(next, 1, columns.skip(1)));
}

proof fn lemma_run_start(ch: u8, n: nat, columns: Seq<u8>)
    requires
        n > 0,
        63 <= ch,
    ensures
        super::runs_from(ch, n, columns).len() > 0,
        super::runs_from(ch, n, columns)[0] == 33 || super::runs_from(ch, n, columns)[0] == ch,
    decreases columns.len(),
{
    if columns.len() > 0 {
        let next = (63 + columns[0]) as u8;
        if next == ch {
            lemma_run_start(ch, n + 1, columns.skip(1));
        }
    }
}

/// Whether a screen shows the first `n` colours of a band, and is otherwise what
/// another was.
pub open spec fn shows_colours(
    after: Screen,
    before: Screen,
    grid: Grid,
    top: int,
    colours: Seq<u8>,
    n: int,
) -> bool {
    &&& after.palette == before.palette
    &&& after.y == before.y
    &&& forall|x: int, y: int|
        #![trigger (after.painted)(x, y)]
        (after.painted)(x, y) == if 0 <= x < grid.width && top <= y < grid.bottom(top)
            && colours.take(n).contains(grid.cells[y * grid.width + x]) {
            Some(grid.cells[y * grid.width + x] as nat)
        } else {
            (before.painted)(x, y)
        }
    &&& forall|x: int, y: int|
        #![trigger (after.times)(x, y)]
        (after.times)(x, y) == (before.times)(x, y) + if 0 <= x < grid.width && top <= y
            < grid.bottom(top) && colours.take(n).contains(grid.cells[y * grid.width + x]) {
            1nat
        } else {
            0
        }
}

proof fn lemma_pass(
    s: Screen,
    before: Screen,
    grid: Grid,
    top: int,
    colours: Seq<u8>,
    n: int,
    rest: Seq<u8>,
) -> (after: Screen)
    requires
        grid.width > 0,
        0 <= top < grid.height,
        s.y == top,
        0 <= n < colours.len(),
        colours.no_duplicates(),
        shows_colours(s, before, grid, top, colours, n),
        n == 0 ==> s.x == 0,
    ensures
        read(super::pass(grid, top, colours[n], n == 0) + rest, s) == read(rest, after),
        shows_colours(after, before, grid, top, colours, n + 1),
{
    let colour = colours[n];
    let columns = grid.columns(top, colour);
    let cut = super::used(columns);
    lemma_used(columns);
    assert forall|i: int| 0 <= i < columns.len() implies (#[trigger] columns[i]) < 64 by {
        lemma_lit(grid, i, top, colour, 0);
    }
    assert forall|i: int| 0 <= i < cut.len() implies (#[trigger] cut[i]) < 64 by {
        assert(cut[i] == columns[i]);
    }
    lemma_runs_start(cut);
    let marks = super::runs(cut);
    let tail = marks + rest;
    let named = seq![35u8] + super::digits(colour as nat) + tail;
    let all = super::pass(grid, top, colour, n == 0) + rest;
    let start = s.back().select(colour as nat);
    if n == 0 {
        assert(all =~= named);
        assert(s.back() == s);
    } else {
        assert(all =~= seq![36u8] + named);
        assert(all.skip(1) =~= named);
    }
    assert(named.skip(1) =~= super::digits(colour as nat) + tail);
    assert(tail[0] == marks[0]);
    lemma_number(colour as nat, tail);
    assert(read(named, s.back()) == read(tail, start));
    lemma_runs(start, 0, 0, cut, rest);
    lemma_paint_twice(start, -63, 0);
    let after = painted(start, cut);
    assert forall|x: int, y: int|
        #![trigger (after.painted)(x, y)]
        #![trigger (after.times)(x, y)]
        ({
            let there = 0 <= x < grid.width && top <= y < grid.bottom(top) && colours.take(
                n + 1,
            ).contains(grid.cells[y * grid.width + x]);
            &&& (after.painted)(x, y) == if there {
                Some(grid.cells[y * grid.width + x] as nat)
            } else {
                (before.painted)(x, y)
            }
            &&& (after.times)(x, y) == (before.times)(x, y) + if there {
                1nat
            } else {
                0
            }
        }) by {
        lemma_painted(start, cut, x, y);
        let cell = grid.cells[y * grid.width + x];
        let held = colours.take(n);
        let next = colours.take(n + 1);
        let held_here = 0 <= x < grid.width && top <= y < grid.bottom(top) && held.contains(cell);
        assert((s.painted)(x, y) == if held_here {
            Some(cell as nat)
        } else {
            (before.painted)(x, y)
        });
        assert((s.times)(x, y) == (before.times)(x, y) + if held_here {
            1nat
        } else {
            0
        });
        if 0 <= x < grid.width && top <= y < top + 6 {
            lemma_lit(grid, x, top, colour, y - top);
            assert(columns[x] == grid.column(x, top, colour, 6));
            if x >= cut.len() {
                assert(columns[x] == 0);
            } else {
                assert(cut[x] == columns[x]);
            }
            if cell == colour {
                assert(next[n] == cell);
                assert(next.contains(cell));
                if held.contains(cell) {
                    let k = choose|k: int| 0 <= k < held.len() && held[k] == cell;
                    assert(colours[k] == colours[n]);
                }
            } else {
                if held.contains(cell) {
                    let k = choose|k: int| 0 <= k < held.len() && held[k] == cell;
                    assert(next[k] == cell);
                }
                if next.contains(cell) {
                    let k = choose|k: int| 0 <= k < next.len() && next[k] == cell;
                    assert(held[k] == cell);
                }
            }
        }
    }
    lemma_painted(start, cut, 0, 0);
    after
}

/// The passes of a band show its colours.
proof fn lemma_passes(
    s: Screen,
    grid: Grid,
    top: int,
    colours: Seq<u8>,
    n: nat,
    rest: Seq<u8>,
) -> (after: Screen)
    requires
        grid.width > 0,
        0 <= top < grid.height,
        s.y == top,
        s.x == 0,
        n <= colours.len(),
        colours.no_duplicates(),
    ensures
        read(super::passes(grid, top, colours, n) + rest, s) == read(rest, after),
        shows_colours(after, s, grid, top, colours, n as int),
        n == 0 ==> after == s,
    decreases n,
{
    if n == 0 {
        assert(super::passes(grid, top, colours, n) + rest =~= rest);
        s
    } else {
        let k = (n - 1) as nat;
        let last = super::pass(grid, top, colours[k as int], n == 1);
        assert(super::passes(grid, top, colours, n) + rest =~= super::passes(grid, top, colours, k)
            + (last + rest));
        let mid = lemma_passes(s, grid, top, colours, k, last + rest);
        lemma_pass(mid, s, grid, top, colours, k as int, rest)
    }
}

/// Whether a screen shows the rows from `top` down to `bottom` of an image, and
/// is otherwise what another was.
pub open spec fn shows_rows(
    after: Screen,
    before: Screen,
    grid: Grid,
    top: int,
    bottom: int,
) -> bool {
    &&& after.palette == before.palette
    &&& forall|x: int, y: int|
        #![trigger (after.painted)(x, y)]
        (after.painted)(x, y) == if 0 <= x < grid.width && top <= y < bottom {
            Some(grid.cells[y * grid.width + x] as nat)
        } else {
            (before.painted)(x, y)
        }
    &&& forall|x: int, y: int|
        #![trigger (after.times)(x, y)]
        (after.times)(x, y) == (before.times)(x, y) + if 0 <= x < grid.width && top <= y
            < bottom {
            1nat
        } else {
            0
        }
}

/// Each cell of a band is among its colours.
proof fn lemma_band_colours(grid: Grid, top: int, x: int, y: int)
    requires
        grid.wf(),
        0 <= top <= y < grid.bottom(top),
        0 <= x < grid.width,
    ensures
        super::seen(grid.band(top)).contains(grid.cells[y * grid.width + x]),
{
    let w = grid.width as int;
    let bottom = grid.bottom(top);
    let k = y * w + x - top * w;
    assert(0 <= k < bottom * w - top * w) by (nonlinear_arith)
        requires
            top <= y < bottom,
            0 <= x < w,
            k == y * w + x - top * w,
    ;
    assert(0 <= top * w && bottom * w <= grid.width * grid.height) by (nonlinear_arith)
        requires
            0 <= top,
            bottom <= grid.height,
            w == grid.width,
    ;
    super::lemma_seen(grid.band(top));
    assert(grid.band(top)[k] == grid.cells[y * w + x]);
    assert(grid.band(top).contains(grid.cells[y * w + x]));
}

/// A band shows its rows.
proof fn lemma_band(s: Screen, grid: Grid, top: int, rest: Seq<u8>) -> (after: Screen)
    requires
        grid.wf(),
        grid.width > 0,
        0 <= top < grid.height,
        s.y == top,
        s.x == 0,
    ensures
        read(super::band(grid, top) + rest, s) == read(rest, after),
        shows_rows(after, s, grid, top, grid.bottom(top)),
        after.x == 0,
        after.y == top + 6,
{
    let colours = super::seen(grid.band(top));
    let n = colours.len();
    let tail = seq![45u8] + rest;
    assert(super::band(grid, top) + rest =~= super::passes(grid, top, colours, n) + tail);
    super::lemma_seen(grid.band(top));
    let mid = lemma_passes(s, grid, top, colours, n, tail);
    assert(tail.skip(1) =~= rest);
    let after = mid.down();
    assert(read(tail, mid) == read(rest, after));
    assert(colours.take(n as int) =~= colours);
    assert forall|x: int, y: int|
        #![trigger (after.painted)(x, y)]
        #![trigger (after.times)(x, y)]
        ({
            let there = 0 <= x < grid.width && top <= y < grid.bottom(top);
            &&& (after.painted)(x, y) == if there {
                Some(grid.cells[y * grid.width + x] as nat)
            } else {
                (s.painted)(x, y)
            }
            &&& (after.times)(x, y) == (s.times)(x, y) + if there {
                1nat
            } else {
                0
            }
        }) by {
        assert((after.painted)(x, y) == (mid.painted)(x, y));
        assert((after.times)(x, y) == (mid.times)(x, y));
        if 0 <= x < grid.width && top <= y < grid.bottom(top) {
            lemma_band_colours(grid, top, x, y);
        }
    }
    after
}

/// The bands show the whole image.
proof fn lemma_bands(s: Screen, grid: Grid, top: int, rest: Seq<u8>) -> (after: Screen)
    requires
        grid.wf(),
        grid.width > 0,
        0 <= top,
        s.y == top,
        s.x == 0,
    ensures
        read(super::bands(grid, top) + rest, s) == read(rest, after),
        shows_rows(after, s, grid, top, grid.height as int),
    decreases grid.height + 6 - top,
{
    if top >= grid.height {
        assert(super::bands(grid, top) + rest =~= rest);
        s
    } else {
        let further = super::bands(grid, top + 6) + rest;
        assert(super::bands(grid, top) + rest =~= super::band(grid, top) + further);
        let mid = lemma_band(s, grid, top, further);
        let after = lemma_bands(mid, grid, top + 6, rest);
        assert forall|x: int, y: int|
            #![trigger (after.painted)(x, y)]
            #![trigger (after.times)(x, y)]
            ({
                let there = 0 <= x < grid.width && top <= y < grid.height;
                &&& (after.painted)(x, y) == if there {
                    Some(grid.cells[y * grid.width + x] as nat)
                } else {
                    (s.painted)(x, y)
                }
                &&& (after.times)(x, y) == (s.times)(x, y) + if there {
                    1nat
                } else {
                    0
                }
            }) by {
            let there = 0 <= x < grid.width && top <= y < grid.bottom(top);
            assert((mid.painted)(x, y) == if there {
                Some(grid.cells[y * grid.width + x] as nat)
            } else {
                (s.painted)(x, y)
            });
            assert((mid.times)(x, y) == (s.times)(x, y) + if there {
                1nat
            } else {
                0
            });
        }
        after
    }
}

/// Passes begin by naming a colour.
proof fn lemma_passes_start(grid: Grid, top: int, colours: Seq<u8>, n: nat)
    ensures
        n > 0 ==> super::passes(grid, top, colours, n).len() > 0 && super::passes(
            grid,
            top,
            colours,
            n,
        )[0] == 35,
    decreases n,
{
    if n == 1 {
        let first = super::pass(grid, top, colours[0], true);
        assert(super::passes(grid, top, colours, 0) + first =~= first);
    } else if n > 1 {
        lemma_passes_start(grid, top, colours, (n - 1) as nat);
    }
}

/// What stands first after the palette is no number and no separator.
proof fn lemma_bands_start(grid: Grid, top: int, rest: Seq<u8>)
    requires
        rest.len() > 0,
        rest[0] == 27,
    ensures
        ({
            let all = super::bands(grid, top) + rest;
            all.len() > 0 && (all[0] == 35 || all[0] == 45 || all[0] == 27)
        }),
{
    if 0 <= top < grid.height {
        let colours = super::seen(grid.band(top));
        lemma_passes_start(grid, top, colours, colours.len());
        let first = super::band(grid, top);
        assert(first.len() > 0 && (first[0] == 35 || first[0] == 45));
        assert((super::bands(grid, top) + rest)[0] == first[0]);
    } else {
        assert((super::bands(grid, top) + rest)[0] == rest[0]);
    }
}

/// The channels of a colour in percent.
pub open spec fn percents(colour: Seq<u8>) -> (nat, nat, nat) {
    (super::percent(colour[0]), super::percent(colour[1]), super::percent(colour[2]))
}

/// A declaration declares its colour.
proof fn lemma_declaration(s: Screen, i: nat, colour: Seq<u8>, rest: Seq<u8>)
    requires
        rest.len() > 0,
        !is_digit(rest[0]),
    ensures
        read(super::declaration(i, colour) + rest, s) == read(
            rest,
            s.declare(i, percents(colour)),
        ),
{
    let (r, g, b) = percents(colour);
    let four = super::digits(b) + rest;
    let three = super::digits(g) + (seq![59u8] + four);
    let two = super::digits(r) + (seq![59u8] + three);
    let one = super::digits(2) + (seq![59u8] + two);
    let tail = seq![59u8] + one;
    let all = super::declaration(i, colour) + rest;
    assert(super::digits(2) =~= seq![50u8]);
    assert(all =~= seq![35u8] + (super::digits(i) + tail));
    assert(all.skip(1) =~= super::digits(i) + tail);
    lemma_number(i, tail);
    assert(tail.skip(1) =~= one);
    lemma_number(2, seq![59u8] + two);
    assert(after_separator(seq![59u8] + two) =~= two);
    lemma_number(r, seq![59u8] + three);
    assert(after_separator(seq![59u8] + three) =~= three);
    lemma_number(g, seq![59u8] + four);
    assert(after_separator(seq![59u8] + four) =~= four);
    lemma_number(b, rest);
}

/// The screen with the first `n` entries of a palette declared.
pub open spec fn with_palette(s: Screen, palette: Seq<Seq<u8>>, n: nat) -> Screen
    decreases n,
{
    if n == 0 {
        s
    } else {
        let k = (n - 1) as nat;
        with_palette(s, palette, k).declare(k, percents(palette[k as int]))
    }
}

proof fn lemma_declarations(s: Screen, palette: Seq<Seq<u8>>, n: nat, rest: Seq<u8>)
    requires
        rest.len() > 0,
        !is_digit(rest[0]),
    ensures
        read(super::declarations(palette, n) + rest, s) == read(rest, with_palette(s, palette, n)),
    decreases n,
{
    if n == 0 {
        assert(super::declarations(palette, n) + rest =~= rest);
    } else {
        let k = (n - 1) as nat;
        let last = super::declaration(k, palette[k as int]);
        assert(super::declarations(palette, n) + rest =~= super::declarations(palette, k) + (last
            + rest));
        assert((last + rest)[0] == 35);
        lemma_declarations(s, palette, k, last + rest);
        lemma_declaration(with_palette(s, palette, k), k, palette[k as int], rest);
    }
}

proof fn lemma_with_palette(s: Screen, palette: Seq<Seq<u8>>, n: nat)
    ensures
        ({
            let after = with_palette(s, palette, n);
            &&& after.painted == s.painted
            &&& after.times == s.times
            &&& after.x == s.x
            &&& after.y == s.y
            &&& forall|i: nat|
                #![trigger (after.palette)(i)]
                (after.palette)(i) == if i < n {
                    Some(percents(palette[i as int]))
                } else {
                    (s.palette)(i)
                }
        }),
    decreases n,
{
    if n > 0 {
        let k = (n - 1) as nat;
        lemma_with_palette(s, palette, k);
        let before = with_palette(s, palette, k);
        let after = with_palette(s, palette, n);
        assert forall|i: nat|
            #![trigger (after.palette)(i)]
            (after.palette)(i) == if i < n {
                Some(percents(palette[i as int]))
            } else {
                (s.palette)(i)
            } by {
            assert((before.palette)(i) == if i < k {
                Some(percents(palette[i as int]))
            } else {
                (s.palette)(i)
            });
        }
    }
}

/// The size is read over.
proof fn lemma_size(s: Screen, width: nat, height: nat, rest: Seq<u8>)
    requires
        rest.len() > 0,
        !is_digit(rest[0]),
        rest[0] != 59,
    ensures
        read(
            seq![34u8, 49u8, 59u8, 49u8, 59u8] + super::digits(width) + seq![59u8] + super::digits(
                height,
            ) + rest,
            s,
        ) == read(rest, s),
{
    let d = super::digits(height) + rest;
    let c = super::digits(width) + (seq![59u8] + d);
    let b = super::digits(1) + (seq![59u8] + c);
    let a = super::digits(1) + (seq![59u8] + b);
    let all = seq![34u8, 49u8, 59u8, 49u8, 59u8] + super::digits(width) + seq![59u8]
        + super::digits(height) + rest;
    assert(super::digits(1) =~= seq![49u8]);
    assert(all =~= seq![34u8] + a);
    assert(all.skip(1) =~= a);
    lemma_number(1, seq![59u8] + b);
    assert(after_separator(seq![59u8] + b) =~= b);
    lemma_number(1, seq![59u8] + c);
    assert(after_separator(seq![59u8] + c) =~= c);
    lemma_number(width, seq![59u8] + d);
    assert(after_separator(seq![59u8] + d) =~= d);
    lemma_number(height, rest);
    assert(after_size(a) == rest);
}

/// What is written can be read back: every cell is painted once, with its entry
/// of the palette, nothing else is painted, and each entry is declared with its
/// colour.
pub proof fn sequence_can_be_read_back(palette: Seq<Seq<u8>>, grid: Grid)
    requires
        grid.wf(),
        grid.width > 0,
    ensures
        ({
            let after = shown(super::sequence(palette, grid));
            &&& forall|x: int, y: int|
                #![trigger (after.painted)(x, y)]
                (after.painted)(x, y) == if 0 <= x < grid.width && 0 <= y < grid.height {
                    Some(grid.cells[y * grid.width + x] as nat)
                } else {
                    None
                }
            &&& forall|x: int, y: int|
                #![trigger (after.times)(x, y)]
                (after.times)(x, y) == if 0 <= x < grid.width && 0 <= y < grid.height {
                    1nat
                } else {
                    0
                }
            &&& forall|i: nat|
                #![trigger (after.palette)(i)]
                (after.palette)(i) == if i < palette.len() {
                    Some(percents(palette[i as int]))
                } else {
                    None
                }
        }),
{
    let all = super::sequence(palette, grid);
    let end = seq![27u8, 92u8];
    let rows = super::bands(grid, 0) + end;
    let tail = super::declarations(palette, palette.len()) + rows;
    let body = seq![34u8, 49u8, 59u8, 49u8, 59u8] + super::digits(grid.width) + seq![59u8]
        + super::digits(grid.height) + tail;
    assert(all =~= seq![27u8, 80u8, 113u8] + body);
    assert(all.skip(3) =~= body);
    lemma_bands_start(grid, 0, end);
    lemma_declarations_start(palette, palette.len(), rows);
    let blank = Screen::blank();
    lemma_size(blank, grid.width, grid.height, tail);
    lemma_declarations(blank, palette, palette.len(), rows);
    lemma_with_palette(blank, palette, palette.len());
    let ready = with_palette(blank, palette, palette.len());
    let after = lemma_bands(ready, grid, 0, end);
    assert(shown(all) == after);
}

proof fn lemma_declarations_start(palette: Seq<Seq<u8>>, n: nat, rest: Seq<u8>)
    requires
        rest.len() > 0,
        !is_digit(rest[0]),
        rest[0] != 59,
    ensures
        ({
            let all = super::declarations(palette, n) + rest;
            all.len() > 0 && !is_digit(all[0]) && all[0] != 59
        }),
    decreases n,
{
    if n == 0 {
        assert(super::declarations(palette, n) + rest =~= rest);
    } else {
        let k = (n - 1) as nat;
        let last = super::declaration(k, palette[k as int]);
        assert(super::declarations(palette, n) + rest =~= super::declarations(palette, k) + (last
            + rest));
        assert((last + rest)[0] == 35);
        lemma_declarations_start(palette, k, last + rest);
    }
}

/// A percentage back on the scale of a channel, to the nearest.
pub open spec fn level(percent: nat) -> int {
    (percent as int * 255 + 50) / 100
}

/// Writing a channel in percent moves it by no more than one.
pub proof fn channels_are_close(v: u8)
    ensures
        -1 <= level(super::percent(v)) - v <= 1,
{
}

/// The whole and the half of a channel, and its absence, are written exactly.
pub proof fn exact_channels_are_kept(v: u8)
    requires
        v == 0 || v == 128 || v == 255,
    ensures
        level(super::percent(v)) == v,
{
}

/// An image with no more colours than the palette holds comes back: each of its
/// pixels is painted, and in a colour that is off by no more than one on each
/// channel.
pub proof fn image_comes_back(rgb: Seq<u8>, width: u32, height: u32, x: int, y: int)
    requires
        rgb.len() <= usize::MAX,
        rgb.len() == width as nat * height as nat * 3,
        quantise::histogram(rgb).len() <= quantise::MAX_COLOURS,
        0 <= x < width,
        0 <= y < height,
    ensures
        ({
            let after = shown(super::encoded(rgb, width, height));
            let entry = (after.painted)(x, y);
            let colour = (after.palette)(entry->0);
            let at = 3 * (y * width + x);
            &&& entry is Some
            &&& colour is Some
            &&& -1 <= level((colour->0).0) - rgb[at] <= 1
            &&& -1 <= level((colour->0).1) - rgb[at + 1] <= 1
            &&& -1 <= level((colour->0).2) - rgb[at + 2] <= 1
        }),
{
    let grid = super::grid_of(rgb, width, height);
    let palette = quantise::palette_of(rgb);
    let w = width as int;
    let i = y * w + x;
    assert(0 <= i < w * height) by (nonlinear_arith)
        requires
            0 <= x < w,
            0 <= y < height,
            i == y * w + x,
    ;
    assert(rgb.len() / 3 == width as nat * height as nat);
    sequence_can_be_read_back(palette, grid);
    quantise::palette_is_bounded(rgb, i);
    quantise::few_colours_are_kept(rgb, i);
    let after = shown(super::encoded(rgb, width, height));
    assert((after.painted)(x, y) == Some(grid.cells[i] as nat));
    let k = grid.cells[i] as nat;
    assert((after.palette)(k) == Some(percents(palette[k as int])));
    channels_are_close(rgb[3 * i]);
    channels_are_close(rgb[3 * i + 1]);
    channels_are_close(rgb[3 * i + 2]);
}

/// Each pixel of an image is painted exactly once, and nothing beyond it is
/// painted at all, however many colours the image has.
pub proof fn every_pixel_is_painted_once(rgb: Seq<u8>, width: u32, height: u32, x: int, y: int)
    requires
        rgb.len() == width as nat * height as nat * 3,
    ensures
        ({
            let after = shown(super::encoded(rgb, width, height));
            let inside = 0 <= x < width && 0 <= y < height;
            &&& (after.painted)(x, y) is Some == inside
            &&& (after.times)(x, y) == if inside {
                1nat
            } else {
                0
            }
        }),
{
    if width > 0 && height > 0 {
        assert(rgb.len() / 3 == width as nat * height as nat);
        let grid = super::grid_of(rgb, width, height);
        assert(grid.wf());
        sequence_can_be_read_back(quantise::palette_of(rgb), grid);
    }
}

/// How often a byte occurs.
pub open spec fn occurrences(bytes: Seq<u8>, b: u8) -> nat
    decreases bytes.len(),
{
    if bytes.len() == 0 {
        0
    } else {
        occurrences(bytes.drop_last(), b) + if bytes.last() == b {
            1nat
        } else {
            0
        }
    }
}

proof fn lemma_occurrences(a: Seq<u8>, c: Seq<u8>, b: u8)
    ensures
        occurrences(a + c, b) == occurrences(a, b) + occurrences(c, b),
    decreases c.len(),
{
    if c.len() == 0 {
        assert(a + c =~= a);
    } else {
        assert((a + c).drop_last() =~= a + c.drop_last());
        lemma_occurrences(a, c.drop_last(), b);
    }
}

proof fn lemma_absent(bytes: Seq<u8>, b: u8)
    requires
        forall|i: int| 0 <= i < bytes.len() ==> (#[trigger] bytes[i]) != b,
    ensures
        occurrences(bytes, b) == 0,
    decreases bytes.len(),
{
    if bytes.len() > 0 {
        let init = bytes.drop_last();
        assert forall|i: int| 0 <= i < init.len() implies (#[trigger] init[i]) != b by {
            assert(init[i] == bytes[i]);
        }
        lemma_absent(init, b);
    }
}

/// A number has no end of a band in it.
proof fn lemma_digits_end_no_band(n: nat)
    ensures
        occurrences(super::digits(n), 45) == 0,
{
    lemma_digits(n);
    let d = super::digits(n);
    assert forall|i: int| 0 <= i < d.len() implies (#[trigger] d[i]) != 45 by {
        assert(is_digit(d[i]));
    }
    lemma_absent(d, 45);
}

proof fn lemma_run_ends_no_band(ch: u8, n: nat)
    requires
        n > 0 ==> 63 <= ch,
    ensures
        occurrences(super::run_of(ch, n), 45) == 0,
{
    let run = super::run_of(ch, n);
    if n > 3 {
        lemma_digits_end_no_band(n);
        let counted = seq![33u8] + super::digits(n);
        lemma_absent(seq![33u8], 45);
        lemma_absent(seq![ch], 45);
        lemma_occurrences(seq![33u8], super::digits(n), 45);
        lemma_occurrences(counted, seq![ch], 45);
    } else {
        lemma_absent(run, 45);
    }
}

proof fn lemma_runs_end_no_band(ch: u8, n: nat, columns: Seq<u8>)
    requires
        n > 0 ==> 63 <= ch,
        forall|i: int| 0 <= i < columns.len() ==> (#[trigger] columns[i]) < 64,
    ensures
        occurrences(super::runs_from(ch, n, columns), 45) == 0,
    decreases columns.len(),
{
    if columns.len() == 0 {
        lemma_run_ends_no_band(ch, n);
    } else {
        let tail = columns.skip(1);
        let next = (63 + columns[0]) as u8;
        assert(columns[0] < 64);
        assert forall|i: int| 0 <= i < tail.len() implies (#[trigger] tail[i]) < 64 by {
            assert(tail[i] == columns[i + 1]);
        }
        if n > 0 && next == ch {
            lemma_runs_end_no_band(ch, n + 1, tail);
        } else {
            lemma_run_ends_no_band(ch, n);
            lemma_runs_end_no_band(next, 1, tail);
            lemma_occurrences(super::run_of(ch, n), super::runs_from(next, 1, tail), 45);
        }
    }
}

proof fn lemma_pass_ends_no_band(grid: Grid, top: int, colour: u8, first: bool)
    ensures
        occurrences(super::pass(grid, top, colour, first), 45) == 0,
{
    let columns = grid.columns(top, colour);
    let cut = super::used(columns);
    lemma_used(columns);
    assert forall|i: int| 0 <= i < cut.len() implies (#[trigger] cut[i]) < 64 by {
        assert(cut[i] == columns[i]);
        lemma_lit(grid, i, top, colour, 0);
    }
    let back = if first {
        Seq::empty()
    } else {
        seq![36u8]
    };
    let hash = seq![35u8];
    let name = super::digits(colour as nat);
    lemma_absent(back, 45);
    lemma_absent(hash, 45);
    lemma_digits_end_no_band(colour as nat);
    lemma_runs_end_no_band(0, 0, cut);
    lemma_occurrences(back, hash, 45);
    lemma_occurrences(back + hash, name, 45);
    lemma_occurrences(back + hash + name, super::runs(cut), 45);
}

proof fn lemma_passes_end_no_band(grid: Grid, top: int, colours: Seq<u8>, n: nat)
    ensures
        occurrences(super::passes(grid, top, colours, n), 45) == 0,
    decreases n,
{
    if n > 0 {
        let k = (n - 1) as nat;
        lemma_passes_end_no_band(grid, top, colours, k);
        lemma_pass_ends_no_band(grid, top, colours[k as int], n == 1);
        lemma_occurrences(
            super::passes(grid, top, colours, k),
            super::pass(grid, top, colours[k as int], n == 1),
            45,
        );
    }
}

/// Each six rows end once.
proof fn lemma_bands_end(grid: Grid, top: int)
    requires
        0 <= top,
    ensures
        occurrences(super::bands(grid, top), 45) == if top < grid.height {
            (grid.height - top + 5) / 6
        } else {
            0
        },
    decreases grid.height + 6 - top,
{
    if top < grid.height {
        let colours = super::seen(grid.band(top));
        let body = super::passes(grid, top, colours, colours.len());
        lemma_passes_end_no_band(grid, top, colours, colours.len());
        assert(super::band(grid, top).drop_last() =~= body);
        lemma_bands_end(grid, top + 6);
        lemma_occurrences(super::band(grid, top), super::bands(grid, top + 6), 45);
    }
}

proof fn lemma_declarations_end_no_band(palette: Seq<Seq<u8>>, n: nat)
    ensures
        occurrences(super::declarations(palette, n), 45) == 0,
    decreases n,
{
    if n > 0 {
        let k = (n - 1) as nat;
        let (r, g, b) = percents(palette[k as int]);
        lemma_declarations_end_no_band(palette, k);
        lemma_digits_end_no_band(k);
        lemma_digits_end_no_band(r);
        lemma_digits_end_no_band(g);
        lemma_digits_end_no_band(b);
        let hash = seq![35u8];
        let kind = seq![59u8, 50u8, 59u8];
        let sep = seq![59u8];
        lemma_absent(hash, 45);
        lemma_absent(kind, 45);
        lemma_absent(sep, 45);
        let one = hash + super::digits(k);
        let two = one + kind;
        let three = two + super::digits(r);
        let four = three + sep;
        let five = four + super::digits(g);
        let six = five + sep;
        lemma_occurrences(hash, super::digits(k), 45);
        lemma_occurrences(one, kind, 45);
        lemma_occurrences(two, super::digits(r), 45);
        lemma_occurrences(three, sep, 45);
        lemma_occurrences(four, super::digits(g), 45);
        lemma_occurrences(five, sep, 45);
        lemma_occurrences(six, super::digits(b), 45);
        lemma_occurrences(
            super::declarations(palette, k),
            super::declaration(k, palette[k as int]),
            45,
        );
    }
}

/// The sequence of an image opens with the introducer and the size, closes with
/// the terminator, and goes down once for every six rows that were begun.
pub proof fn bands_are_counted(rgb: Seq<u8>, width: u32, height: u32)
    requires
        width > 0,
        height > 0,
    ensures
        ({
            let all = super::encoded(rgb, width, height);
            let head = seq![27u8, 80u8, 113u8, 34u8, 49u8, 59u8, 49u8, 59u8] + super::digits(
                width as nat,
            ) + seq![59u8] + super::digits(height as nat);
            &&& head.is_prefix_of(all)
            &&& seq![27u8, 92u8].is_suffix_of(all)
            &&& occurrences(all, 45) == (height + 5) / 6
        }),
{
    let grid = super::grid_of(rgb, width, height);
    let palette = quantise::palette_of(rgb);
    let all = super::encoded(rgb, width, height);
    let start = seq![27u8, 80u8, 113u8, 34u8, 49u8, 59u8, 49u8, 59u8];
    let wide = start + super::digits(grid.width);
    let sep = seq![59u8];
    let head = wide + sep + super::digits(grid.height);
    let named = super::declarations(palette, palette.len());
    let rows = super::bands(grid, 0);
    let end = seq![27u8, 92u8];
    lemma_absent(start, 45);
    lemma_absent(sep, 45);
    lemma_absent(end, 45);
    lemma_digits_end_no_band(grid.width);
    lemma_digits_end_no_band(grid.height);
    lemma_declarations_end_no_band(palette, palette.len());
    lemma_bands_end(grid, 0);
    lemma_occurrences(start, super::digits(grid.width), 45);
    lemma_occurrences(wide, sep, 45);
    lemma_occurrences(wide + sep, super::digits(grid.height), 45);
    lemma_occurrences(head, named, 45);
    lemma_occurrences(head + named, rows, 45);
    lemma_occurrences(head + named + rows, end, 45);
    assert(all == head + named + rows + end);
    assert(all.take(head.len() as int) =~= head);
    assert(all.skip(all.len() - 2) =~= end);
}

/// Two encodings of one image are the same bytes.
pub proof fn encoding_is_deterministic(
    first: Vec<u8>,
    second: Vec<u8>,
    rgb: Seq<u8>,
    width: u32,
    height: u32,
)
    requires
        first@ == super::encoded(rgb, width, height),
        second@ == super::encoded(rgb, width, height),
    ensures
        first@ == second@,
{
}

} // verus!
