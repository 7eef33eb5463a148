//! What the terminal can draw, established once at startup.
//!
//! A terminal without graphics prints the escape sequences across the screen, so
//! it is asked first, and the answer is no if none comes. Three questions go out
//! together: whether Kitty's graphics protocol is understood, the primary device
//! attributes, in which `4` means sixel, and the pixel size of one character
//! cell.

use vstd::prelude::*;

use crate::config::{CoverStyle, ImageRenderer};
use crate::keys::{KeyCode, KeyEvent, KeyEventKind};
use crate::text;

verus! {

broadcast use vstd::string::group_string_axioms;

/// How long to wait for a terminal that may never answer, in nanoseconds.
pub const BUDGET: u64 = 250_000_000;

/// The questions. Kitty's goes first, as a query of one pixel that is never
/// shown, because a terminal that does not know it says nothing to it.
pub const QUESTIONS: &'static str = "\x1b_Gi=31,s=1,v=1,a=q,t=d,f=24;AAAA\x1b\\\x1b[c\x1b[16t";

/// The cell size of a terminal that reports none. Small on purpose: a guess
/// under the truth makes the picture smaller than its pane, and one over it
/// makes it spill.
pub const ASSUMED_CELL: (u16, u16) = (8, 16);

/// What the terminal can draw.
#[derive(Debug, Clone, Copy, PartialEq, Eq)]
pub struct Graphics {
    /// Whether covers can be drawn as real pixels, by sixel.
    pub sixel: bool,
    /// Whether they can be by Kitty's graphics protocol.
    pub kitty: bool,
    /// Pixel size of one character cell, as `(width, height)`.
    pub cell: (u16, u16),
}

impl Graphics {
    /// Half-blocks only. Also what every failure comes to.
    pub fn blocks() -> (r: Self)
        ensures
            r == (Graphics { sixel: false, kitty: false, cell: ASSUMED_CELL }),
    {
        Graphics { sixel: false, kitty: false, cell: ASSUMED_CELL }
    }

    /// What is drawn with, by the settings: what the terminal can, Kitty's
    /// protocol whatever the terminal says, or neither.
    pub open spec fn chosen_by(self, renderer: ImageRenderer) -> Graphics {
        match renderer {
            ImageRenderer::Automatic => self,
            ImageRenderer::Kitty => Graphics { sixel: false, kitty: true, ..self },
            ImageRenderer::PixelArt => Graphics { sixel: false, kitty: false, ..self },
        }
    }

    /// What is drawn with, by the settings.
    pub fn with_renderer(self, renderer: ImageRenderer) -> (r: Self)
        ensures
            r == self.chosen_by(renderer),
    {
        match renderer {
            ImageRenderer::Automatic => self,
            ImageRenderer::Kitty => Graphics { sixel: false, kitty: true, cell: self.cell },
            ImageRenderer::PixelArt => Graphics { sixel: false, kitty: false, cell: self.cell },
        }
    }

    /// How the large cover of the current song is drawn. Kitty's protocol comes
    /// before sixel where there are both.
    pub fn cover(self, style: CoverStyle) -> (r: Drawing)
        ensures
            r == if style == CoverStyle::ColoredAscii {
                Drawing::Ascii
            } else if self.kitty {
                Drawing::Kitty
            } else if self.sixel {
                Drawing::Sixel
            } else {
                Drawing::Blocks
            },
    {
        match style {
            CoverStyle::ColoredAscii => Drawing::Ascii,
            CoverStyle::Pixel => {
                if self.kitty {
                    Drawing::Kitty
                } else if self.sixel {
                    Drawing::Sixel
                } else {
                    Drawing::Blocks
                }
            },
        }
    }
}

/// How a cover is drawn.
#[derive(Debug, Clone, Copy, PartialEq, Eq, Structural)]
pub enum Drawing {
    /// Real pixels, by Kitty's graphics protocol.
    Kitty,
    /// Real pixels, by sixel.
    Sixel,
    /// Half-blocks, two pixels a cell.
    Blocks,
    /// Colored characters.
    Ascii,
}

/// Whether a reply says that Kitty's graphics protocol is understood. The escape
/// in front is left out, since it may arrive as a modifier of what follows it.
pub open spec fn kitty_in(reply: Seq<char>) -> bool {
    text::occurs(reply, "_Gi=31;OK"@)
}

/// What follows the first `needle` in a text.
pub open spec fn after_of(hay: Seq<char>, needle: Seq<char>) -> Option<Seq<char>> {
    match text::place_in(hay, needle, 0) {
        Some(i) => Some(hay.skip(i + needle.len())),
        None => None,
    }
}

/// Whether the attributes of a reply name sixel: `4` is one of the numbers
/// between `ESC [ ?` and `c`.
pub open spec fn sixel_in(reply: Seq<char>) -> bool {
    match after_of(reply, "\x1b[?"@) {
        Some(rest) => text::split_of(text::split_of(rest, 'c')[0], ';').contains("4"@),
        None => false,
    }
}

/// A number of sixteen bits that a text states.
pub open spec fn short_of(s: Seq<char>) -> Option<u16> {
    match text::number_of(s) {
        Some(n) => if n <= u16::MAX {
            Some(n as u16)
        } else {
            None
        },
        None => None,
    }
}

/// The cell size in a reply, width first. The report is `ESC [ 6`, the height,
/// the width and `t`; a size of zero is no answer.
pub open spec fn cell_in(reply: Seq<char>) -> Option<(u16, u16)> {
    match after_of(reply, "\x1b[6;"@) {
        Some(rest) => {
            let parts = text::split_of(text::split_of(rest, 't')[0], ';');
            if parts.len() < 2 {
                None
            } else {
                match (short_of(parts[0]), short_of(parts[1])) {
                    (Some(height), Some(width)) => if width > 0 && height > 0 {
                        Some((width, height))
                    } else {
                        None
                    },
                    _ => None,
                }
            }
        },
        None => None,
    }
}

/// What follows the first `needle` in a text.
fn after(hay: &[char], needle: &str) -> (r: Option<Vec<char>>)
    ensures
        match r {
            Some(rest) => after_of(hay@, needle@) == Some(rest@),
            None => after_of(hay@, needle@) is None,
        },
{
    let wanted = text::to_chars(needle);
    match text::place(hay, &wanted) {
        Some(i) => {
            let len: usize = hay.len();
            let rest = text::part(hay, i + wanted.len(), len);
            proof {
                assert(rest@ =~= hay@.skip(i + wanted@.len()));
            }
            Some(rest)
        },
        None => None,
    }
}

fn short(chars: &[char]) -> (r: Option<u16>)
    ensures
        r == short_of(chars@),
{
    match text::number(chars) {
        Some(n) => {
            if n <= u16::MAX as u64 {
                Some(n as u16)
            } else {
                None
            }
        },
        None => None,
    }
}

fn names_sixel(reply: &[char]) -> (r: bool)
    ensures
        r == sixel_in(reply@),
{
    match after(reply, "\x1b[?") {
        None => false,
        Some(rest) => {
            let pieces = text::split(&rest, 'c');
            let attributes = text::split(&pieces[0], ';');
            let ghost all = text::split_of(text::split_of(rest@, 'c')[0], ';');
            let wanted = text::to_chars("4");
            let mut i: usize = 0;
            while i < attributes.len()
                invariant
                    i <= attributes@.len() == all.len(),
                    wanted@ == "4"@,
                    after_of(reply@, "\x1b[?"@) == Some(rest@),
                    all == text::split_of(text::split_of(rest@, 'c')[0], ';'),
                    forall|k: int| 0 <= k < all.len() ==> (#[trigger] attributes@[k])@ == all[k],
                    forall|k: int| 0 <= k < i ==> (#[trigger] all[k]) != "4"@,
                decreases attributes.len() - i,
            {
                proof {
                    assert(attributes@[i as int]@ == all[i as int]);
                }
                if text::same_chars(&attributes[i], &wanted) {
                    proof {
                        assert(all.contains(all[i as int]));
                    }
                    return true;
                }
                i += 1;
            }
            false
        },
    }
}

fn cell_size(reply: &[char]) -> (r: Option<(u16, u16)>)
    ensures
        r == cell_in(reply@),
{
    match after(reply, "\x1b[6;") {
        None => None,
        Some(rest) => {
            let pieces = text::split(&rest, 't');
            let parts = text::split(&pieces[0], ';');
            if parts.len() < 2 {
                return None;
            }
            match (short(&parts[0]), short(&parts[1])) {
                (Some(height), Some(width)) => {
                    if width > 0 && height > 0 {
                        Some((width, height))
                    } else {
                        None
                    }
                },
                _ => None,
            }
        },
    }
}

/// Pulls sixel support and cell size out of a raw reply, in whichever order the
/// two answers came.
pub fn parse(reply: &str) -> (r: (bool, Option<(u16, u16)>))
    ensures
        r == (sixel_in(reply@), cell_in(reply@)),
{
    let chars = text::to_chars(reply);
    (names_sixel(&chars), cell_size(&chars))
}

/// What the terminal can draw, from the user's wish and from its reply. `blocks`
/// is taken at its word, `sixel` and `kitty` are believed whatever the terminal
/// says, and any other wish counts for nothing.
pub open spec fn detected(wish: Option<Seq<char>>, reply: Option<Seq<char>>) -> Graphics {
    let said = match reply {
        Some(reply) => reply,
        None => Seq::empty(),
    };
    let cell = match cell_in(said) {
        Some(cell) => cell,
        None => ASSUMED_CELL,
    };
    if wish == Some("blocks"@) {
        Graphics { sixel: false, kitty: false, cell: ASSUMED_CELL }
    } else if wish == Some("sixel"@) {
        Graphics { sixel: true, kitty: false, cell }
    } else if wish == Some("kitty"@) {
        Graphics { sixel: false, kitty: true, cell }
    } else if reply is None {
        Graphics { sixel: false, kitty: false, cell: ASSUMED_CELL }
    } else {
        Graphics { sixel: sixel_in(said), kitty: kitty_in(said), cell }
    }
}

/// Whether the terminal has to be asked at all.
pub fn asks(wish: &Option<String>) -> (r: bool)
    ensures
        r == (text::opt_view(*wish) != Some("blocks"@)),
{
    !text::opt_same(wish, "blocks")
}

/// What the terminal can draw, from the user's wish and from its reply.
pub fn detect(wish: &Option<String>, reply: &Option<String>) -> (r: Graphics)
    ensures
        r == detected(text::opt_view(*wish), text::opt_view(*reply)),
{
    if text::opt_same(wish, "blocks") {
        return Graphics::blocks();
    }
    let (sixel, found) = match reply {
        Some(reply) => parse(reply.as_str()),
        None => {
            proof {
                reveal_strlit("");
                assert(""@ =~= Seq::empty());
            }
            parse("")
        },
    };
    let cell = match found {
        Some(cell) => cell,
        None => ASSUMED_CELL,
    };
    if text::opt_same(wish, "sixel") {
        Graphics { sixel: true, kitty: false, cell }
    } else if text::opt_same(wish, "kitty") {
        Graphics { sixel: false, kitty: true, cell }
    } else {
        match reply {
            None => Graphics::blocks(),
            Some(reply) => {
                let kitty = text::str_contains(reply.as_str(), "_Gi=31;OK");
                Graphics { sixel, kitty, cell }
            },
        }
    }
}

/// A terminal that says nothing gets half-blocks, unless the user knows better.
pub proof fn silence_means_blocks(wish: Option<Seq<char>>)
    requires
        wish != Some("sixel"@),
        wish != Some("kitty"@),
    ensures
        detected(wish, None) == (Graphics { sixel: false, kitty: false, cell: ASSUMED_CELL }),
{
}

/// No cell is ever without width or height.
pub proof fn cells_have_a_size(wish: Option<Seq<char>>, reply: Option<Seq<char>>)
    ensures
        detected(wish, reply).cell.0 > 0,
        detected(wish, reply).cell.1 > 0,
{
}

/// A wish for one kind of pixels is a wish against the other, and forcing Kitty's
/// protocol in the settings needs nothing of the terminal.
pub proof fn wishes_are_granted(reply: Option<Seq<char>>)
    ensures
        detected(Some("kitty"@), reply).kitty,
        !detected(Some("kitty"@), reply).sixel,
        detected(Some("sixel"@), reply).sixel,
        !detected(Some("sixel"@), reply).kitty,
        detected(None, reply).chosen_by(ImageRenderer::Kitty).kitty,
{
    reveal_strlit("kitty");
    reveal_strlit("sixel");
    reveal_strlit("blocks");
    assert("kitty"@[0] != "sixel"@[0]);
    assert("kitty"@[0] != "blocks"@[0]);
    assert("sixel"@[0] != "blocks"@[0]);
}

/// What a key adds to a reply. Replies arrive as if they were typed; a release
/// adds nothing, or every character would be there twice.
pub open spec fn heard(reply: Seq<char>, key: KeyEvent) -> Seq<char> {
    if key.kind != KeyEventKind::Press {
        reply
    } else {
        match key.code {
            KeyCode::Esc => reply.push('\x1b'),
            KeyCode::Char(c) => reply.push(c),
            _ => reply,
        }
    }
}

/// Takes a key into a reply, and says whether the last answers are in: the
/// attributes end in `c`, and the cell size in `t`.
pub fn hear(reply: &mut String, key: KeyEvent) -> (r: bool)
    ensures
        final(reply)@ == heard(old(reply)@, key),
        r == (final(reply)@.contains('c') && final(reply)@.contains('t')),
{
    if key.kind == KeyEventKind::Press {
        match key.code {
            KeyCode::Esc => reply.push('\x1b'),
            KeyCode::Char(c) => reply.push(c),
            _ => {},
        }
    }
    text::has_char(reply.as_str(), 'c') && text::has_char(reply.as_str(), 't')
}

/// A terminal that reports its cell, height first, is believed: the width and the
/// height are those that it reports, whatever else it says after that.
#[verifier::spinoff_prover]
pub proof fn reported_cell_is_read(width: u16, height: u16, rest: Seq<char>)
    requires
        width > 0,
        height > 0,
    ensures
        cell_in(
            "\x1b[6;"@ + (text::decimal_of(height as nat).push(';') + text::decimal_of(
                width as nat,
            )).push('t') + rest,
        ) == Some((width, height)),
{
    reveal_strlit("\x1b[6;");
    let h = text::decimal_of(height as nat);
    let w = text::decimal_of(width as nat);
    text::decimal_reads_back(height as u64);
    text::decimal_reads_back(width as u64);
    let inner = h.push(';') + w;
    let reply = "\x1b[6;"@ + inner.push('t') + rest;
    assert(reply.subrange(0, "\x1b[6;"@.len() as int) =~= "\x1b[6;"@);
    assert(text::occurs_at(reply, "\x1b[6;"@, 0));
    assert(reply.skip("\x1b[6;"@.len() as int) =~= inner.push('t') + rest);
    assert(!h.contains(';')) by {
        if h.contains(';') {
            let k = choose|k: int| 0 <= k < h.len() && h[k] == ';';
            assert(text::is_digit(h[k]));
        }
    }
    assert(!w.contains(';')) by {
        if w.contains(';') {
            let k = choose|k: int| 0 <= k < w.len() && w[k] == ';';
            assert(text::is_digit(w[k]));
        }
    }
    assert(!inner.contains('t')) by {
        if inner.contains('t') {
            let k = choose|k: int| 0 <= k < inner.len() && inner[k] == 't';
            if k < h.len() {
                assert(text::is_digit(h[k]));
            } else if k > h.len() {
                assert(text::is_digit(w[k - h.len() - 1]));
            }
        }
    }
    text::separator_ends_a_piece(inner, 't', rest);
    text::separator_ends_a_piece(h, ';', w);
    text::separator_ends_a_piece(w, ';', w);
    assert(text::split_of(inner, ';') =~= seq![h, w]);
}

/// A terminal whose attributes name sixel, between two others or at their end, can
/// do sixel; one that names another number only cannot.
#[verifier::spinoff_prover]
pub proof fn reported_sixel_is_read(first: u16, rest: Seq<char>)
    ensures
        sixel_in("\x1b[?"@ + (text::decimal_of(first as nat) + ";4"@).push('c') + rest),
        sixel_in("\x1b[?"@ + text::decimal_of(first as nat).push('c') + rest) == (first == 4),
{
    reveal_strlit("\x1b[?");
    reveal_strlit(";4");
    reveal_strlit("4");
    let d = text::decimal_of(first as nat);
    text::decimal_reads_back(first as u64);
    text::decimal_reads_back(4);
    assert(text::decimal_of(4) =~= "4"@);
    let two = d + ";4"@;
    let head = "\x1b[?"@;
    let one_reply = head + d.push('c') + rest;
    let two_reply = head + two.push('c') + rest;
    assert(one_reply.subrange(0, head.len() as int) =~= head);
    assert(two_reply.subrange(0, head.len() as int) =~= head);
    assert(text::occurs_at(one_reply, head, 0) && text::occurs_at(two_reply, head, 0));
    assert(one_reply.skip(head.len() as int) =~= d.push('c') + rest);
    assert(two_reply.skip(head.len() as int) =~= two.push('c') + rest);
    assert forall|k: int| 0 <= k < d.len() implies (#[trigger] d[k]) != 'c' && d[k] != ';' by {
        assert(text::is_digit(d[k]));
    }
    assert(!d.contains('c') && !d.contains(';'));
    assert(!two.contains('c')) by {
        if two.contains('c') {
            let k = choose|k: int| 0 <= k < two.len() && two[k] == 'c';
            if k < d.len() {
                assert(two[k] == d[k]);
            }
        }
    }
    text::separator_ends_a_piece(two, 'c', rest);
    text::separator_ends_a_piece(d, 'c', rest);
    text::separator_ends_a_piece(d, ';', "4"@);
    assert(two =~= d.push(';') + "4"@);
    assert(!"4"@.contains(';'));
    text::separator_ends_a_piece("4"@, ';', rest);
    let pieces = text::split_of(two, ';');
    assert(pieces =~= seq![d, "4"@]);
    assert(pieces[1] == "4"@);
    let alone = text::split_of(d, ';');
    assert(alone == seq![d]);
    assert(alone[0] == d);
    if alone.contains("4"@) {
        let k = choose|k: int| 0 <= k < alone.len() && alone[k] == "4"@;
        assert(d == "4"@);
        assert(text::number_of(d) == Some(4u64));
    }
}

/// The settings have their way: pixel art takes the terminal's pixels away, and
/// leaving it to the terminal changes nothing. The cell is the terminal's either
/// way.
pub proof fn settings_choose_the_renderer(graphics: Graphics)
    ensures
        graphics.chosen_by(ImageRenderer::Automatic) == graphics,
        !graphics.chosen_by(ImageRenderer::PixelArt).sixel,
        !graphics.chosen_by(ImageRenderer::PixelArt).kitty,
        graphics.chosen_by(ImageRenderer::Kitty).kitty,
        !graphics.chosen_by(ImageRenderer::Kitty).sixel,
        graphics.chosen_by(ImageRenderer::PixelArt).cell == graphics.cell,
        graphics.chosen_by(ImageRenderer::Kitty).cell == graphics.cell,
{
}

/// Unless the user wishes otherwise, a terminal that answers is believed in what
/// it says.
pub proof fn answers_are_believed(wish: Option<Seq<char>>, reply: Seq<char>)
    requires
        wish is None,
    ensures
        detected(wish, Some(reply)).sixel == sixel_in(reply),
        detected(wish, Some(reply)).kitty == text::occurs(reply, "_Gi=31;OK"@),
        cell_in(reply) is Some ==> detected(wish, Some(reply)).cell == cell_in(reply)->0,
        detected(Some("blocks"@), Some(reply)) == (Graphics {
            sixel: false,
            kitty: false,
            cell: ASSUMED_CELL,
        }),
{
}

/// A reply is put together from the keys that it arrives as, in their order: a
/// character as it is, Escape as itself, and a release not at all.
pub proof fn replies_are_put_together(reply: Seq<char>, key: KeyEvent, c: char)
    ensures
        key.kind == KeyEventKind::Press && key.code == KeyCode::Char(c) ==> heard(reply, key)
            == reply.push(c),
        key.kind == KeyEventKind::Press && key.code == KeyCode::Esc ==> heard(reply, key)
            == reply.push('\x1b'),
        key.kind == KeyEventKind::Release ==> heard(reply, key) == reply,
{
}

} // verus!
