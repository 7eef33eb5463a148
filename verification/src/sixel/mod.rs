//! Sixel encoding: turns an RGB image into the escape sequence that a terminal
//! paints as actual pixels.
//!
//! Pixels are written in horizontal bands six rows tall, one pass for each
//! colour. Within a pass each character carries a column of six bits that says
//! which of those rows the colour has. `$` goes back to the start of the band
//! for the next colour, and `-` down to the next band. Colours are entries of a
//! palette that is declared in front.

use vstd::prelude::*;

pub mod decode;
pub mod quantise;

use self::quantise::quantise;

verus! {

/// The decimal digits of a number, as bytes.
pub open spec fn digits(n: nat) -> Seq<u8>
    decreases n,
{
    if n < 10 {
        seq![(48 + n) as u8]
    } else {
        digits(n / 10).push((48 + n % 10) as u8)
    }
}

fn push_number(out: &mut Vec<u8>, n: u64)
    ensures
        final(out)@ == old(out)@ + digits(n as nat),
    decreases n,
{
    if n >= 10 {
        push_number(out, n / 10);
    }
    out.push((48 + n % 10) as u8);
    proof {
        assert(out@ =~= old(out)@ + digits(n as nat));
    }
}

/// A channel as a percentage of full scale, to the nearest.
pub open spec fn percent(v: u8) -> nat {
    ((v as nat) * 100 + 127) / 255
}

/// The declaration of entry `i` of the palette.
pub open spec fn declaration(i: nat, colour: Seq<u8>) -> Seq<u8> {
    seq![35u8] + digits(i) + seq![59u8, 50u8, 59u8] + digits(percent(colour[0])) + seq![59u8]
        + digits(percent(colour[1])) + seq![59u8] + digits(percent(colour[2]))
}

/// The declarations of the first `n` entries of a palette.
pub open spec fn declarations(palette: Seq<Seq<u8>>, n: nat) -> Seq<u8>
    decreases n,
{
    if n == 0 {
        Seq::empty()
    } else {
        declarations(palette, (n - 1) as nat) + declaration((n - 1) as nat, palette[n - 1])
    }
}

/// An image as entries of its palette, row by row.
pub struct Grid {
    pub cells: Seq<u8>,
    pub width: nat,
    pub height: nat,
}

impl Grid {
    /// Whether there are as many cells as the size calls for.
    pub open spec fn wf(self) -> bool {
        self.cells.len() == self.width * self.height
    }

    /// Whether a place has a colour. Beyond the last row none has.
    pub open spec fn bit(self, x: int, y: int, colour: u8) -> int {
        if y < self.height && self.cells[y * self.width + x] == colour {
            1
        } else {
            0
        }
    }

    /// The first `n` of the six bits of a colour in a column of the band that
    /// starts at row `top`, the uppermost row in the lowest bit.
    pub open spec fn column(self, x: int, top: int, colour: u8, n: nat) -> int
        decreases n,
    {
        if n == 0 {
            0
        } else {
            self.column(x, top, colour, (n - 1) as nat) + self.bit(x, top + n - 1, colour)
                * row_bit((n - 1) as nat)
        }
    }

    /// The columns of a colour in a band.
    pub open spec fn columns(self, top: int, colour: u8) -> Seq<u8> {
        Seq::new(self.width, |x: int| self.column(x, top, colour, 6) as u8)
    }

    /// The first row below a band.
    pub open spec fn bottom(self, top: int) -> int {
        if top + 6 < self.height {
            top + 6
        } else {
            self.height as int
        }
    }

    /// The cells of a band, row by row.
    pub open spec fn band(self, top: int) -> Seq<u8> {
        self.cells.subrange(top * self.width, self.bottom(top) * self.width)
    }
}

/// The bit of a row.
pub open spec fn row_bit(r: nat) -> int {
    if r == 0 {
        1
    } else if r == 1 {
        2
    } else if r == 2 {
        4
    } else if r == 3 {
        8
    } else if r == 4 {
        16
    } else {
        32
    }
}

/// The different values of a run, in the order in which they first occur.
pub open spec fn seen(cells: Seq<u8>) -> Seq<u8>
    decreases cells.len(),
{
    if cells.len() == 0 {
        cells
    } else {
        let before = seen(cells.drop_last());
        if before.contains(cells.last()) {
            before
        } else {
            before.push(cells.last())
        }
    }
}

/// Columns without the empty ones at their end, but for the first.
pub open spec fn used(columns: Seq<u8>) -> Seq<u8>
    decreases columns.len(),
{
    if columns.len() <= 1 || columns.last() != 0 {
        columns
    } else {
        used(columns.drop_last())
    }
}

/// One character as often as it is wanted. Four and more are written with a
/// count.
pub open spec fn run_of(ch: u8, n: nat) -> Seq<u8> {
    if n == 0 {
        Seq::empty()
    } else if n == 1 {
        seq![ch]
    } else if n == 2 {
        seq![ch, ch]
    } else if n == 3 {
        seq![ch, ch, ch]
    } else {
        seq![33u8] + digits(n) + seq![ch]
    }
}

/// A run of `n` characters that has been read already, and the columns after
/// it.
pub open spec fn runs_from(ch: u8, n: nat, columns: Seq<u8>) -> Seq<u8>
    decreases columns.len(),
{
    if columns.len() == 0 {
        run_of(ch, n)
    } else {
        let next = (63 + columns[0]) as u8;
        if n > 0 && next == ch {
            runs_from(ch, n + 1, columns.skip(1))
        } else {
            run_of(ch, n) + runs_from(next, 1, columns.skip(1))
        }
    }
}

/// Columns as characters, with repeats counted.
pub open spec fn runs(columns: Seq<u8>) -> Seq<u8> {
    runs_from(0, 0, columns)
}

/// The pass of a colour over a band. All but the first go back to its start.
pub open spec fn pass(grid: Grid, top: int, colour: u8, first: bool) -> Seq<u8> {
    (if first {
        Seq::empty()
    } else {
        seq![36u8]
    }) + seq![35u8] + digits(colour as nat) + runs(used(grid.columns(top, colour)))
}

/// The passes of the first `n` colours of a band.
pub open spec fn passes(grid: Grid, top: int, colours: Seq<u8>, n: nat) -> Seq<u8>
    decreases n,
{
    if n == 0 {
        Seq::empty()
    } else {
        passes(grid, top, colours, (n - 1) as nat) + pass(grid, top, colours[n - 1], n == 1)
    }
}

/// A band: a pass for each of its colours, and then down.
pub open spec fn band(grid: Grid, top: int) -> Seq<u8> {
    let colours = seen(grid.band(top));
    passes(grid, top, colours, colours.len()).push(45)
}

/// The bands from row `top` on.
pub open spec fn bands(grid: Grid, top: int) -> Seq<u8>
    decreases grid.height + 6 - top,
{
    if top < 0 || top >= grid.height {
        Seq::empty()
    } else {
        band(grid, top) + bands(grid, top + 6)
    }
}

/// A complete sequence: the introducer, the size, the palette, the bands, and
/// the end.
pub open spec fn sequence(palette: Seq<Seq<u8>>, grid: Grid) -> Seq<u8> {
    seq![27u8, 80u8, 113u8, 34u8, 49u8, 59u8, 49u8, 59u8] + digits(grid.width) + seq![59u8]
        + digits(grid.height) + declarations(palette, palette.len()) + bands(grid, 0) + seq![
        27u8,
        92u8,
    ]
}

/// An image as entries of its own palette.
pub open spec fn grid_of(rgb: Seq<u8>, width: u32, height: u32) -> Grid {
    Grid { cells: quantise::indices_of(rgb), width: width as nat, height: height as nat }
}

/// The sixel sequence of an image. An image without pixels has none.
pub open spec fn encoded(rgb: Seq<u8>, width: u32, height: u32) -> Seq<u8> {
    if width == 0 || height == 0 {
        Seq::empty()
    } else {
        sequence(quantise::palette_of(rgb), grid_of(rgb, width, height))
    }
}

fn push_run(out: &mut Vec<u8>, ch: u8, n: u64)
    ensures
        final(out)@ == old(out)@ + run_of(ch, n as nat),
{
    if n == 1 {
        out.push(ch);
    } else if n == 2 {
        out.push(ch);
        out.push(ch);
    } else if n == 3 {
        out.push(ch);
        out.push(ch);
        out.push(ch);
    } else if n > 3 {
        out.push(33);
        push_number(out, n);
        out.push(ch);
    }
    proof {
        assert(out@ =~= old(out)@ + run_of(ch, n as nat));
    }
}

/// Writes columns as characters, with repeats counted.
fn emit_runs(out: &mut Vec<u8>, columns: &Vec<u8>, len: usize)
    requires
        len <= columns@.len(),
        forall|x: int| 0 <= x < columns@.len() ==> (#[trigger] columns@[x]) < 64,
    ensures
        final(out)@ == old(out)@ + runs(columns@.take(len as int)),
{
    let ghost all = columns@.take(len as int);
    let ghost start = out@;
    let mut ch: u8 = 0;
    let mut n: u64 = 0;
    let mut i: usize = 0;
    proof {
        assert(all.skip(0) =~= all);
    }
    while i < len
        invariant
            i <= len <= columns@.len(),
            all == columns@.take(len as int),
            forall|x: int| 0 <= x < columns@.len() ==> (#[trigger] columns@[x]) < 64,
            n <= i,
            out@ + runs_from(ch, n as nat, all.skip(i as int)) =~= start + runs(all),
        decreases len - i,
    {
        let next: u8 = 63 + columns[i];
        proof {
            let rest = all.skip(i as int);
            assert(rest[0] == columns@[i as int]);
            assert(rest.skip(1) =~= all.skip(i + 1));
        }
        if n > 0 && next == ch {
            n += 1;
        } else {
            push_run(out, ch, n);
            ch = next;
            n = 1;
        }
        i += 1;
    }
    proof {
        assert(all.skip(i as int) =~= Seq::empty());
    }
    push_run(out, ch, n);
}

/// How many of the columns are used.
fn used_len(columns: &Vec<u8>) -> (r: usize)
    ensures
        r <= columns@.len(),
        columns@.take(r as int) == used(columns@),
{
    let mut n: usize = columns.len();
    proof {
        assert(columns@.take(n as int) =~= columns@);
    }
    while n > 1 && columns[n - 1] == 0
        invariant
            n <= columns@.len(),
            used(columns@) == used(columns@.take(n as int)),
        decreases n,
    {
        proof {
            assert(columns@.take(n as int).drop_last() =~= columns@.take(n - 1));
        }
        n -= 1;
    }
    n
}

proof fn lemma_seen(cells: Seq<u8>)
    ensures
        forall|c: u8| seen(cells).contains(c) <==> cells.contains(c),
        seen(cells).no_duplicates(),
        seen(cells).len() <= cells.len(),
    decreases cells.len(),
{
    if cells.len() > 0 {
        let init = cells.drop_last();
        lemma_seen(init);
        let before = seen(init);
        let after = seen(cells);
        assert forall|c: u8| after.contains(c) <==> cells.contains(c) by {
            if cells.contains(c) && c != cells.last() {
                let k = choose|k: int| 0 <= k < cells.len() && cells[k] == c;
                assert(init[k] == c);
                assert(init.contains(c));
                assert(before.contains(c));
                let j = choose|j: int| 0 <= j < before.len() && before[j] == c;
                assert(after[j] == c);
            }
            if c == cells.last() {
                assert(cells[cells.len() - 1] == c);
                if !before.contains(c) {
                    assert(after[after.len() - 1] == c);
                }
            }
            if after.contains(c) && c != cells.last() {
                let j = choose|j: int| 0 <= j < after.len() && after[j] == c;
                assert(before[j] == c);
                assert(init.contains(c));
                let k = choose|k: int| 0 <= k < init.len() && init[k] == c;
                assert(cells[k] == c);
            }
        }
        assert(after.no_duplicates()) by {
            if !before.contains(cells.last()) {
                assert forall|i: int, j: int|
                    0 <= i < after.len() && 0 <= j < after.len() && i != j implies after[i]
                    != after[j] by {
                    if i < before.len() && j < before.len() {
                        assert(before[i] != before[j]);
                    }
                }
            }
        }
    }
}

impl Grid {
    proof fn lemma_column(self, x: int, top: int, colour: u8, n: nat)
        requires
            n <= 6,
        ensures
            0 <= self.column(x, top, colour, n),
            self.column(x, top, colour, n) < if n == 6 {
                64
            } else {
                row_bit(n)
            },
        decreases n,
    {
        if n > 0 {
            self.lemma_column(x, top, colour, (n - 1) as nat);
        }
    }

    /// A colour that none of the first `n` rows of a column has leaves their
    /// bits empty.
    proof fn lemma_column_empty(self, x: int, top: int, colour: u8, n: nat)
        requires
            forall|r: int| 0 <= r < n ==> #[trigger] self.bit(x, top + r, colour) == 0,
        ensures
            self.column(x, top, colour, n) == 0,
        decreases n,
    {
        if n > 0 {
            self.lemma_column_empty(x, top, colour, (n - 1) as nat);
            assert(self.bit(x, top + (n - 1), colour) == 0);
        }
    }
}

/// A colour, and its columns in a band.
struct Slot {
    colour: u8,
    columns: Vec<u8>,
}

/// How many rows of a column have been read, once the cells before column `x`
/// of row `r` have been.
pub open spec fn rows_read(r: nat, x: int, column: int) -> nat {
    if column < x {
        r + 1
    } else {
        r
    }
}

/// Whether the slots hold what the cells before column `x` of row `r` of a band
/// say.
spec fn slots_fit(
    slots: Seq<Slot>,
    places: Seq<usize>,
    grid: Grid,
    top: int,
    r: nat,
    x: int,
) -> bool {
    let read = grid.band(top).take(r * grid.width + x);
    &&& places.len() == 256
    &&& slots.len() == seen(read).len()
    &&& forall|j: int| 0 <= j < slots.len() ==> (#[trigger] slots[j]).colour == seen(read)[j]
    &&& forall|j: int| 0 <= j < slots.len() ==> (#[trigger] slots[j]).columns@.len() == grid.width
    &&& forall|j: int, k: int|
        0 <= j < slots.len() && 0 <= k < grid.width ==> (#[trigger] slots[j].columns@[k])
            == grid.column(k, top, slots[j].colour, rows_read(r, x, k))
    &&& forall|c: int|
        0 <= c < 256 ==> if (#[trigger] places[c]) == usize::MAX {
            !seen(read).contains(c as u8)
        } else {
            places[c] < slots.len() && slots[places[c] as int].colour == c
        }
}

proof fn lemma_band_cell(grid: Grid, top: int, r: int, x: int)
    requires
        grid.wf(),
        0 <= top < grid.height,
        0 <= r,
        top + r < grid.bottom(top),
        0 <= x < grid.width,
    ensures
        0 <= r * grid.width + x < grid.band(top).len(),
        grid.band(top)[r * grid.width + x] == grid.cells[(top + r) * grid.width + x],
        grid.band(top).len() == (grid.bottom(top) - top) * grid.width,
        0 <= (top + r) * grid.width + x < grid.cells.len(),
{
    let w = grid.width as int;
    let b = grid.bottom(top);
    let h = grid.height as int;
    assert(0 <= top * w <= b * w <= h * w) by (nonlinear_arith)
        requires
            0 <= top <= b <= h,
            0 <= w,
    ;
    assert(w * h == h * w) by (nonlinear_arith);
    assert((b - top) * w == b * w - top * w) by (nonlinear_arith);
    assert((top + r) * w == top * w + r * w) by (nonlinear_arith);
    assert(r * w + x < (b - top) * w) by (nonlinear_arith)
        requires
            0 <= r < b - top,
            0 <= x < w,
    ;
    assert(0 <= r * w) by (nonlinear_arith)
        requires
            0 <= r,
            0 <= w,
    ;
}

/// A colour that is new to a band has nothing in its columns so far.
proof fn lemma_new_colour(grid: Grid, top: int, r: nat, x: int, colour: u8, k: int)
    requires
        grid.wf(),
        0 <= top < grid.height,
        top + r < grid.bottom(top),
        0 <= x < grid.width,
        0 <= k < grid.width,
        !grid.band(top).take(r * grid.width + x).contains(colour),
    ensures
        grid.column(k, top, colour, rows_read(r, x, k)) == 0,
{
    lemma_band_cell(grid, top, r as int, x);
    let w = grid.width as int;
    let read = grid.band(top).take(r * w + x);
    let n = rows_read(r, x, k);
    assert forall|i: int| 0 <= i < n implies #[trigger] grid.bit(k, top + i, colour) == 0 by {
        lemma_band_cell(grid, top, i, k);
        assert(i * w + k < r * w + x) by (nonlinear_arith)
            requires
                i < r || (i == r && k < x),
                0 <= k < w,
                0 <= x < w,
                0 <= i,
        ;
        assert(read[i * w + k] == grid.cells[(top + i) * w + k]);
        if grid.cells[(top + i) * w + k] == colour {
            assert(read.contains(colour));
        }
    }
    grid.lemma_column_empty(k, top, colour, n);
}

fn empty_columns(width: usize) -> (r: Vec<u8>)
    ensures
        r@.len() == width,
        forall|k: int| 0 <= k < width ==> (#[trigger] r@[k]) == 0,
{
    let mut r: Vec<u8> = Vec::new();
    while r.len() < width
        invariant
            r@.len() <= width,
            forall|k: int| 0 <= k < r@.len() ==> (#[trigger] r@[k]) == 0,
        decreases width - r.len(),
    {
        r.push(0);
    }
    r
}

fn bit_of_row(r: usize) -> (b: u8)
    requires
        r < 6,
    ensures
        b == row_bit(r as nat),
{
    match r {
        0 => 1,
        1 => 2,
        2 => 4,
        3 => 8,
        4 => 16,
        _ => 32,
    }
}

/// Takes one cell of a band into the slots.
fn take_cell(
    slots: &mut Vec<Slot>,
    places: &mut Vec<usize>,
    colour: u8,
    r: usize,
    x: usize,
    width: usize,
    Ghost(grid): Ghost<Grid>,
    Ghost(top): Ghost<int>,
)
    requires
        grid.wf(),
        grid.width == width,
        0 <= top < grid.height,
        r < 6,
        top + r < grid.bottom(top),
        x < width,
        grid.band(top)[r * width + x] == colour,
        slots_fit(old(slots)@, old(places)@, grid, top, r as nat, x as int),
        old(slots)@.len() < usize::MAX,
    ensures
        slots_fit(final(slots)@, final(places)@, grid, top, r as nat, x + 1),
        final(slots)@.len() <= old(slots)@.len() + 1,
{
    let ghost w = grid.width as int;
    let ghost read = grid.band(top).take(r * w + x);
    let ghost next = grid.band(top).take(r * w + x + 1);
    proof {
        lemma_band_cell(grid, top, r as int, x as int);
        assert(next.drop_last() =~= read);
        assert(next.last() == colour);
        lemma_seen(read);
        lemma_seen(next);
    }
    let ghost before = slots@;
    let ghost was = places@;
    let held: usize = places[colour as usize];
    let at: usize = if held == usize::MAX {
        let n: usize = slots.len();
        slots.push(Slot { colour, columns: empty_columns(width) });
        places[colour as usize] = n;
        proof {
            assert(!seen(read).contains(colour));
            assert(!read.contains(colour));
            assert(seen(next) == seen(read).push(colour));
            assert forall|k: int| 0 <= k < w implies (#[trigger] slots@[n as int].columns@[k])
                == grid.column(k, top, colour, rows_read(r as nat, x as int, k)) by {
                lemma_new_colour(grid, top, r as nat, x as int, colour, k);
            }
        }
        n
    } else {
        proof {
            assert(seen(read)[held as int] == colour);
            assert(seen(read).contains(colour));
            assert(seen(next) == seen(read));
        }
        held
    };
    let ghost mid = slots@;
    proof {
        assert(mid[at as int].colour == colour);
        assert(forall|j: int| 0 <= j < mid.len() ==> (#[trigger] mid[j]).columns@.len() == w);
        grid.lemma_column(x as int, top, colour, r as nat);
        grid.lemma_column(x as int, top, colour, (r + 1) as nat);
        assert(mid[at as int].columns@[x as int] == grid.column(
            x as int,
            top,
            colour,
            rows_read(r as nat, x as int, x as int),
        ));
        assert(grid.bit(x as int, top + r, colour) == 1);
    }
    let column: u8 = slots[at].columns[x];
    let full: u8 = column + bit_of_row(r);
    slots[at].columns[x] = full;
    proof {
        assert forall|j: int, k: int|
            0 <= j < slots@.len() && 0 <= k < w implies (#[trigger] slots@[j].columns@[k])
            == grid.column(k, top, slots@[j].colour, rows_read(r as nat, x + 1, k)) by {
            assert(mid[j].columns@[k] == grid.column(
                k,
                top,
                mid[j].colour,
                rows_read(r as nat, x as int, k),
            ));
            assert(slots@[j].colour == mid[j].colour);
            if k == x {
                if j != at {
                    assert(mid[j].colour != colour) by {
                        assert(seen(next)[j] != seen(next)[at as int]);
                    }
                    assert(grid.bit(k, top + r, mid[j].colour) == 0);
                }
            }
        }
        assert forall|c: int| 0 <= c < 256 implies if (#[trigger] places@[c]) == usize::MAX {
            !seen(next).contains(c as u8)
        } else {
            places@[c] < slots@.len() && slots@[places@[c] as int].colour == c
        } by {
            if held == usize::MAX {
                if c != colour {
                    assert(places@[c] == was[c]);
                }
            } else {
                assert(places@[c] == was[c]);
            }
        }
    }
}

/// Takes a band into slots.
fn take_band(indices: &Vec<u8>, width: usize, height: usize, top: usize) -> (r: Vec<Slot>)
    requires
        (Grid { cells: indices@, width: width as nat, height: height as nat }).wf(),
        0 < width,
        top < height,
    ensures
        ({
            let grid = Grid { cells: indices@, width: width as nat, height: height as nat };
            let colours = seen(grid.band(top as int));
            &&& r@.len() == colours.len()
            &&& forall|j: int|
                0 <= j < r@.len() ==> (#[trigger] r@[j]).colour == colours[j] && r@[j].columns@
                    == grid.columns(top as int, colours[j])
        }),
{
    let ghost grid = Grid { cells: indices@, width: width as nat, height: height as nat };
    let cells: usize = indices.len();
    let mut slots: Vec<Slot> = Vec::new();
    let mut places: Vec<usize> = Vec::new();
    while places.len() < 256
        invariant
            places@.len() <= 256,
            forall|c: int| 0 <= c < places@.len() ==> (#[trigger] places@[c]) == usize::MAX,
        decreases 256 - places.len(),
    {
        places.push(usize::MAX);
    }
    let rows: usize = if height - top < 6 {
        height - top
    } else {
        6
    };
    let mut r: usize = 0;
    proof {
        assert(0 * grid.width + 0 == 0);
        assert(grid.band(top as int).take(0) =~= Seq::empty());
    }
    while r < rows
        invariant
            grid == (Grid { cells: indices@, width: width as nat, height: height as nat }),
            grid.wf(),
            cells == indices@.len(),
            0 < width,
            top < height,
            rows <= 6,
            top + rows == grid.bottom(top as int),
            r <= rows,
            slots_fit(slots@, places@, grid, top as int, r as nat, 0),
            slots@.len() <= r * width,
        decreases rows - r,
    {
        let mut x: usize = 0;
        while x < width
            invariant
                grid == (Grid { cells: indices@, width: width as nat, height: height as nat }),
                grid.wf(),
                cells == indices@.len(),
                0 < width,
                top < height,
                rows <= 6,
                top + rows == grid.bottom(top as int),
                r < rows,
                x <= width,
                slots_fit(slots@, places@, grid, top as int, r as nat, x as int),
                slots@.len() <= r * width + x,
            decreases width - x,
        {
            proof {
                lemma_band_cell(grid, top as int, r as int, x as int);
                assert(0 <= r * width) by (nonlinear_arith)
                    requires
                        0 <= r,
                        0 <= width,
                ;
                assert(0 <= (top + r) * width <= (top + r) * width + x);
                assert(r * width + x < cells) by {
                    assert(r * width <= (top + r) * width) by (nonlinear_arith)
                        requires
                            0 <= top,
                            0 <= width,
                            0 <= r,
                    ;
                }
            }
            let colour: u8 = indices[(top + r) * width + x];
            take_cell(
                &mut slots,
                &mut places,
                colour,
                r,
                x,
                width,
                Ghost(grid),
                Ghost(top as int),
            );
            x += 1;
        }
        proof {
            assert((r + 1) * width == r * width + width) by (nonlinear_arith);
            assert forall|j: int, k: int|
                0 <= j < slots@.len() && 0 <= k < grid.width implies (
            #[trigger] slots@[j].columns@[k]) == grid.column(
                k,
                top as int,
                slots@[j].colour,
                rows_read((r + 1) as nat, 0, k),
            ) by {
                assert(rows_read(r as nat, width as int, k) == rows_read((r + 1) as nat, 0, k));
            }
        }
        r += 1;
    }
    proof {
        let w = grid.width as int;
        lemma_band_cell(grid, top as int, 0, 0);
        assert(grid.band(top as int).len() == rows * w);
        assert(grid.band(top as int).take(rows * w + 0) =~= grid.band(top as int));
        assert forall|j: int| 0 <= j < slots@.len() implies (#[trigger] slots@[j]).columns@
            == grid.columns(top as int, slots@[j].colour) by {
            let colour = slots@[j].colour;
            assert forall|k: int| 0 <= k < w implies slots@[j].columns@[k] == grid.columns(
                top as int,
                colour,
            )[k] by {
                assert(slots@[j].columns@[k] == grid.column(
                    k,
                    top as int,
                    colour,
                    rows_read(rows as nat, 0, k),
                ));
                lemma_short_band(grid, k, top as int, colour, rows as nat);
                grid.lemma_column(k, top as int, colour, 6);
            }
            assert(slots@[j].columns@ =~= grid.columns(top as int, colour));
        }
    }
    slots
}

/// The rows below the image leave no bits.
proof fn lemma_short_band(grid: Grid, x: int, top: int, colour: u8, rows: nat)
    requires
        0 <= top < grid.height,
        rows <= 6,
        top + rows == grid.bottom(top),
    ensures
        grid.column(x, top, colour, rows) == grid.column(x, top, colour, 6),
{
    reveal_with_fuel(Grid::column, 7);
    if rows < 6 {
        assert(top + rows == grid.height);
    }
}

/// Writes a band.
fn emit_band(out: &mut Vec<u8>, indices: &Vec<u8>, width: usize, height: usize, top: usize)
    requires
        (Grid { cells: indices@, width: width as nat, height: height as nat }).wf(),
        0 < width,
        top < height,
    ensures
        final(out)@ == old(out)@ + band(
            Grid { cells: indices@, width: width as nat, height: height as nat },
            top as int,
        ),
{
    let ghost grid = Grid { cells: indices@, width: width as nat, height: height as nat };
    let ghost start = out@;
    let slots = take_band(indices, width, height, top);
    let ghost colours = seen(grid.band(top as int));
    let mut i: usize = 0;
    while i < slots.len()
        invariant
            i <= slots@.len() == colours.len(),
            grid.width == width,
            forall|j: int|
                0 <= j < slots@.len() ==> (#[trigger] slots@[j]).colour == colours[j]
                    && slots@[j].columns@ == grid.columns(top as int, colours[j]),
            out@ =~= start + passes(grid, top as int, colours, i as nat),
        decreases slots.len() - i,
    {
        let slot = &slots[i];
        let ghost before = out@;
        proof {
            assert(slots@[i as int].columns@ == grid.columns(top as int, colours[i as int]));
            assert forall|x: int| 0 <= x < slot.columns@.len() implies (
            #[trigger] slot.columns@[x]) < 64 by {
                grid.lemma_column(x, top as int, colours[i as int], 6);
            }
        }
        if i > 0 {
            out.push(36);
        }
        out.push(35);
        push_number(out, slot.colour as u64);
        let n: usize = used_len(&slot.columns);
        emit_runs(out, &slot.columns, n);
        proof {
            assert(out@ =~= before + pass(grid, top as int, colours[i as int], i == 0));
        }
        i += 1;
    }
    out.push(45);
    proof {
        assert(out@ =~= start + band(grid, top as int));
    }
}

fn percent_of(v: u8) -> (r: u64)
    ensures
        r == percent(v),
{
    (v as u64 * 100 + 127) / 255
}

fn emit_palette(out: &mut Vec<u8>, palette: &Vec<[u8; 3]>, Ghost(shown): Ghost<Seq<Seq<u8>>>)
    requires
        palette@.len() == shown.len(),
        forall|i: int| 0 <= i < palette@.len() ==> (#[trigger] palette@[i])@ == shown[i],
    ensures
        final(out)@ == old(out)@ + declarations(shown, shown.len()),
{
    let ghost start = out@;
    let mut i: usize = 0;
    while i < palette.len()
        invariant
            i <= palette@.len() == shown.len(),
            forall|i: int| 0 <= i < palette@.len() ==> (#[trigger] palette@[i])@ == shown[i],
            out@ =~= start + declarations(shown, i as nat),
        decreases palette.len() - i,
    {
        let ghost before = out@;
        let colour = palette[i];
        proof {
            assert(palette@[i as int]@ == shown[i as int]);
        }
        out.push(35);
        push_number(out, i as u64);
        out.push(59);
        out.push(50);
        out.push(59);
        push_number(out, percent_of(colour[0]));
        out.push(59);
        push_number(out, percent_of(colour[1]));
        out.push(59);
        push_number(out, percent_of(colour[2]));
        proof {
            assert(out@ =~= before + declaration(i as nat, shown[i as int]));
        }
        i += 1;
    }
}

/// Encodes an RGB image as a complete sixel sequence.
pub fn encode(rgb: &[u8], width: u32, height: u32) -> (r: Vec<u8>)
    requires
        rgb@.len() == width as nat * height as nat * 3,
    ensures
        r@ == encoded(rgb@, width, height),
{
    let mut out: Vec<u8> = Vec::new();
    if width == 0 || height == 0 {
        return out;
    }
    let len: usize = rgb.len();
    let (palette, indices) = quantise(rgb);
    let ghost grid = grid_of(rgb@, width, height);
    let ghost shown = quantise::palette_of(rgb@);
    proof {
        assert(rgb@.len() / 3 == width as nat * height as nat);
        assert(grid.wf());
        assert(width <= width * height && height <= width * height) by (nonlinear_arith)
            requires
                0 < width,
                0 < height,
        ;
    }
    let w: usize = width as usize;
    let h: usize = height as usize;
    out.push(27);
    out.push(80);
    out.push(113);
    out.push(34);
    out.push(49);
    out.push(59);
    out.push(49);
    out.push(59);
    push_number(&mut out, width as u64);
    out.push(59);
    push_number(&mut out, height as u64);
    emit_palette(&mut out, &palette, Ghost(shown));
    let ghost start = out@;
    let mut top: usize = 0;
    while top < h
        invariant
            grid == (Grid { cells: indices@, width: w as nat, height: h as nat }),
            grid.wf(),
            0 < w,
            out@ + bands(grid, top as int) =~= start + bands(grid, 0),
        decreases h - top,
    {
        emit_band(&mut out, &indices, w, h, top);
        if h - top <= 6 {
            proof {
                assert(bands(grid, top + 6) =~= Seq::empty());
                assert(bands(grid, h as int) =~= Seq::empty());
            }
            top = h;
        } else {
            top += 6;
        }
    }
    out.push(27);
    out.push(92);
    proof {
        assert(bands(grid, top as int) =~= Seq::empty());
        assert(out@ =~= sequence(shown, grid));
    }
    out
}

} // verus!
