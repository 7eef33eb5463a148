//! The protocol between the player and the helper that owns its console.
//!
//! On Windows closing a console kills every process attached to it, so a helper
//! of its own owns the window: rendered bytes go one way, and native input
//! records come back the other way. The first message is a handshake of fixed
//! size. This module says what the bytes mean; opening the console and the
//! pipes is left to the program around it.

use vstd::prelude::*;

use crate::keys::{
    Event, KeyCode, KeyEvent, KeyEventKind, KeyModifiers, MouseButton, MouseEvent, MouseEventKind,
};
use crate::text;

verus! {

broadcast use vstd::string::group_string_axioms;

/// The first argument of the helper process.
pub const HOST_ARGUMENT: &'static str = "--mtui-console-host";

/// Bytes of a handshake.
pub const HANDSHAKE_LEN: usize = 512;

/// Bytes of a handshake in front of its text.
pub const HANDSHAKE_HEAD: usize = 15;

/// How long the helper may take to become ready, in milliseconds.
pub const HANDSHAKE_TIMEOUT_MS: u64 = 5000;

/// How often an empty pipe is looked at again, in milliseconds.
pub const PIPE_POLL_MS: u64 = 2;

/// Bytes of an input record on the wire.
pub const RECORD_LEN: usize = 18;

pub const KEY_EVENT: u16 = 0x0001;

pub const MOUSE_EVENT: u16 = 0x0002;

pub const WINDOW_BUFFER_SIZE_EVENT: u16 = 0x0004;

pub const SHIFT_PRESSED: u32 = 0x0010;

pub const ALT_PRESSED: u32 = 0x0003;

pub const CONTROL_PRESSED: u32 = 0x000c;

pub const MOUSE_WHEELED: u32 = 0x0004;

/// Input modes that are switched off: processed input, line input, echo and
/// quick edit.
pub const INPUT_MODES_OFF: u32 = 0x0047;

/// Input modes that are switched on: window input, mouse input and extended
/// flags.
pub const INPUT_MODES_ON: u32 = 0x0098;

/// Output modes that are switched on: processed output, wrapping at the end of
/// a line and virtual terminal sequences.
pub const OUTPUT_MODES_ON: u32 = 0x0007;

/// `char::from_u32` of the standard library: a character for every number that
/// is a Unicode scalar value, and none for any other number.
pub assume_specification[ char::from_u32 ](n: u32) -> (r: Option<char>)
    ensures
        r == if n < 0xd800 || (0xe000 <= n && n <= 0x10ffff) {
            Some(n as char)
        } else {
            None
        },
;

/// Whether a process was started as the console helper, by its first argument.
pub fn is_host(first_argument: Option<&str>) -> (r: bool)
    ensures
        r == (first_argument is Some && first_argument->0@ == HOST_ARGUMENT@),
{
    match first_argument {
        Some(arg) => text::same(arg, HOST_ARGUMENT),
        None => false,
    }
}

/// A native input record: what kind of event it is, and sixteen bytes about it.
#[derive(Debug, Clone, Copy)]
pub struct InputRecord {
    pub event_type: u16,
    pub event: [u32; 4],
}

/// A native key event.
#[derive(Debug, Clone, Copy)]
pub struct KeyRecord {
    pub down: i32,
    pub repeat: u16,
    pub virtual_key: u16,
    pub scan_code: u16,
    pub unicode: u16,
    pub control: u32,
}

/// A native mouse event.
#[derive(Debug, Clone, Copy)]
pub struct MouseRecord {
    pub position: [i16; 2],
    pub button_state: u32,
    pub control: u32,
    pub event_flags: u32,
}

/// Byte `i` of a number, the lowest first.
pub open spec fn byte_of(n: u32, i: int) -> u8 {
    if i == 0 {
        (n % 256) as u8
    } else if i == 1 {
        (n / 256 % 256) as u8
    } else if i == 2 {
        (n / 65536 % 256) as u8
    } else {
        (n / 16777216) as u8
    }
}

fn byte(n: u32, i: usize) -> (r: u8)
    requires
        i < 4,
    ensures
        r == byte_of(n, i as int),
{
    if i == 0 {
        (n % 256) as u8
    } else if i == 1 {
        (n / 256 % 256) as u8
    } else if i == 2 {
        (n / 65536 % 256) as u8
    } else {
        (n / 16777216) as u8
    }
}

/// The number that four bytes state, the lowest first.
pub open spec fn word_of(bytes: Seq<u8>, at: int) -> u32 {
    (bytes[at] + 256 * bytes[at + 1] + 65536 * bytes[at + 2] + 16777216 * bytes[at + 3]) as u32
}

fn word(bytes: &[u8], at: usize) -> (r: u32)
    requires
        at + 4 <= bytes@.len(),
    ensures
        r == word_of(bytes@, at as int),
{
    bytes[at] as u32 + 256 * (bytes[at + 1] as u32) + 65536 * (bytes[at + 2] as u32) + 16777216 * (
    bytes[at + 3] as u32)
}

/// The number that two bytes state, the lowest first.
pub open spec fn half_of(bytes: Seq<u8>, at: int) -> u16 {
    (bytes[at] + 256 * bytes[at + 1]) as u16
}

fn half(bytes: &[u8], at: usize) -> (r: u16)
    requires
        at + 2 <= bytes@.len(),
    ensures
        r == half_of(bytes@, at as int),
{
    bytes[at] as u16 + 256 * (bytes[at + 1] as u16)
}

/// An input record on the wire: its type in two bytes, then its four words.
pub open spec fn wire_of(record: InputRecord) -> Seq<u8> {
    Seq::new(
        RECORD_LEN as nat,
        |i: int|
            if i < 2 {
                byte_of(record.event_type as u32, i)
            } else {
                byte_of(record.event@[(i - 2) / 4], (i - 2) % 4)
            },
    )
}

/// Writes an input record in its wire format.
pub fn encode_record(record: InputRecord) -> (r: [u8; 18])
    ensures
        r@ == wire_of(record),
{
    let kind: u32 = record.event_type as u32;
    let a: u32 = record.event[0];
    let b: u32 = record.event[1];
    let c: u32 = record.event[2];
    let d: u32 = record.event[3];
    let r = [
        byte(kind, 0),
        byte(kind, 1),
        byte(a, 0),
        byte(a, 1),
        byte(a, 2),
        byte(a, 3),
        byte(b, 0),
        byte(b, 1),
        byte(b, 2),
        byte(b, 3),
        byte(c, 0),
        byte(c, 1),
        byte(c, 2),
        byte(c, 3),
        byte(d, 0),
        byte(d, 1),
        byte(d, 2),
        byte(d, 3),
    ];
    proof {
        assert(r@ =~= wire_of(record));
    }
    r
}

/// Reads an input record from its wire format.
pub fn decode_record(wire: &[u8; 18]) -> (r: InputRecord)
    ensures
        r.event_type == half_of(wire@, 0),
        r.event@ == seq![
            word_of(wire@, 2),
            word_of(wire@, 6),
            word_of(wire@, 10),
            word_of(wire@, 14),
        ],
{
    let r = InputRecord {
        event_type: half(wire, 0),
        event: [word(wire, 2), word(wire, 6), word(wire, 10), word(wire, 14)],
    };
    proof {
        assert(r.event@ =~= seq![
            word_of(wire@, 2),
            word_of(wire@, 6),
            word_of(wire@, 10),
            word_of(wire@, 14),
        ]);
    }
    r
}

/// What is written to the wire is what is read from it.
pub proof fn records_round_trip(record: InputRecord)
    ensures
        half_of(wire_of(record), 0) == record.event_type,
        forall|k: int|
            0 <= k < 4 ==> #[trigger] word_of(wire_of(record), 2 + 4 * k) == record.event@[k],
{
    let w = wire_of(record);
    assert forall|k: int| 0 <= k < 4 implies #[trigger] word_of(w, 2 + 4 * k) == record.event@[k] by {
        let n = record.event@[k];
        assert(w[2 + 4 * k] == byte_of(n, 0));
        assert(w[3 + 4 * k] == byte_of(n, 1));
        assert(w[4 + 4 * k] == byte_of(n, 2));
        assert(w[5 + 4 * k] == byte_of(n, 3));
    }
}

/// A number of thirty-two bits read as a signed one.
pub open spec fn signed_word(n: u32) -> i32 {
    if n < 0x8000_0000 {
        n as i32
    } else {
        (n - 0x1_0000_0000) as i32
    }
}

/// A number of sixteen bits read as a signed one.
pub open spec fn signed_half(n: int) -> i16 {
    if n < 0x8000 {
        n as i16
    } else {
        (n - 0x1_0000) as i16
    }
}

fn to_signed(n: u16) -> (r: i16)
    ensures
        r == signed_half(n as int),
{
    if n < 0x8000 {
        n as i16
    } else {
        (n as i32 - 0x1_0000) as i16
    }
}

/// The key event that the words of a record hold.
pub open spec fn key_record_of(event: Seq<u32>) -> KeyRecord {
    KeyRecord {
        down: signed_word(event[0]),
        repeat: (event[1] % 65536) as u16,
        virtual_key: (event[1] / 65536) as u16,
        scan_code: (event[2] % 65536) as u16,
        unicode: (event[2] / 65536) as u16,
        control: event[3],
    }
}

/// Reads the key event that the words of a record hold.
pub fn key_record(event: [u32; 4]) -> (r: KeyRecord)
    ensures
        r == key_record_of(event@),
{
    let down: u32 = event[0];
    KeyRecord {
        down: if down < 0x8000_0000 {
            down as i32
        } else {
            (down as i64 - 0x1_0000_0000) as i32
        },
        repeat: (event[1] % 65536) as u16,
        virtual_key: (event[1] / 65536) as u16,
        scan_code: (event[2] % 65536) as u16,
        unicode: (event[2] / 65536) as u16,
        control: event[3],
    }
}

/// Reads the mouse event that the words of a record hold.
pub fn mouse_record(event: [u32; 4]) -> (r: MouseRecord)
    ensures
        r.position@ == seq![
            signed_half((event@[0] % 65536) as int),
            signed_half((event@[0] / 65536) as int),
        ],
        r.button_state == event@[1],
        r.control == event@[2],
        r.event_flags == event@[3],
{
    let r = MouseRecord {
        position: [
            to_signed((event[0] % 65536) as u16),
            to_signed((event[0] / 65536) as u16),
        ],
        button_state: event[1],
        control: event[2],
        event_flags: event[3],
    };
    proof {
        assert(r.position@ =~= seq![
            signed_half((event@[0] % 65536) as int),
            signed_half((event@[0] / 65536) as int),
        ]);
    }
    r
}

/// The modifier keys that a native event reports.
pub open spec fn modifiers_of(control: u32) -> KeyModifiers {
    KeyModifiers {
        shift: control & SHIFT_PRESSED != 0,
        control: control & CONTROL_PRESSED != 0,
        alt: control & ALT_PRESSED != 0,
    }
}

fn modifiers(control: u32) -> (r: KeyModifiers)
    ensures
        r == modifiers_of(control),
{
    KeyModifiers {
        shift: control & SHIFT_PRESSED != 0,
        control: control & CONTROL_PRESSED != 0,
        alt: control & ALT_PRESSED != 0,
    }
}

/// The button that was pressed, where it is one of three.
pub open spec fn button_of(state: u32) -> Option<MouseButton> {
    if state & 1 != 0 {
        Some(MouseButton::Left)
    } else if state & 2 != 0 {
        Some(MouseButton::Right)
    } else if state & 4 != 0 {
        Some(MouseButton::Middle)
    } else {
        None
    }
}

/// What the mouse did, by the flags and the button state of a native event. The
/// wheel turned up where the upper half of the state is a positive number.
pub open spec fn mouse_kind_of(flags: u32, state: u32) -> Option<MouseEventKind> {
    if flags == MOUSE_WHEELED {
        if 0 < state / 65536 < 0x8000 {
            Some(MouseEventKind::ScrollUp)
        } else {
            Some(MouseEventKind::ScrollDown)
        }
    } else if flags == 0 {
        match button_of(state) {
            Some(button) => Some(MouseEventKind::Down(button)),
            None => None,
        }
    } else {
        None
    }
}

/// What a native mouse event at `x` and `y` reports.
pub open spec fn mouse_of(x: i16, y: i16, state: u32, control: u32, flags: u32) -> Option<
    MouseEvent,
> {
    if x < 0 || y < 0 {
        None
    } else {
        match mouse_kind_of(flags, state) {
            Some(kind) => Some(
                MouseEvent {
                    kind,
                    column: x as u16,
                    row: y as u16,
                    modifiers: modifiers_of(control),
                },
            ),
            None => None,
        }
    }
}

/// Reads a native mouse event. A position outside the window, a move, and a
/// button that is not known report nothing.
pub fn mouse_event(record: MouseRecord) -> (r: Option<MouseEvent>)
    ensures
        r == mouse_of(
            record.position@[0],
            record.position@[1],
            record.button_state,
            record.control,
            record.event_flags,
        ),
{
    let x: i16 = record.position[0];
    let y: i16 = record.position[1];
    if x < 0 || y < 0 {
        return None;
    }
    let kind = if record.event_flags == MOUSE_WHEELED {
        let turned: u32 = record.button_state / 65536;
        if 0 < turned && turned < 0x8000 {
            MouseEventKind::ScrollUp
        } else {
            MouseEventKind::ScrollDown
        }
    } else if record.event_flags == 0 {
        if record.button_state & 1 != 0 {
            MouseEventKind::Down(MouseButton::Left)
        } else if record.button_state & 2 != 0 {
            MouseEventKind::Down(MouseButton::Right)
        } else if record.button_state & 4 != 0 {
            MouseEventKind::Down(MouseButton::Middle)
        } else {
            return None;
        }
    } else {
        return None;
    };
    Some(
        MouseEvent { kind, column: x as u16, row: y as u16, modifiers: modifiers(record.control) },
    )
}

/// Whether a unit is the first half of a surrogate pair.
pub open spec fn is_high(unit: u16) -> bool {
    0xd800 <= unit <= 0xdbff
}

/// Whether a unit is the second half of a surrogate pair.
pub open spec fn is_low(unit: u16) -> bool {
    0xdc00 <= unit <= 0xdfff
}

/// The character that a surrogate pair stands for.
pub open spec fn paired(high: u16, low: u16) -> char {
    (0x1_0000 + (high - 0xd800) * 1024 + (low - 0xdc00)) as char
}

/// The character that a unit completes.
pub open spec fn unit_char(unit: u16, high: Option<u16>) -> Option<char> {
    if is_high(unit) {
        None
    } else if is_low(unit) {
        match high {
            Some(high) => Some(paired(high, unit)),
            None => None,
        }
    } else if unit == 0 {
        None
    } else {
        Some(unit as char)
    }
}

/// Takes one UTF-16 unit. The first half of a pair is held until its second
/// half comes; anything else in between drops it.
pub fn unicode_char(unit: u16, high_surrogate: &mut Option<u16>) -> (r: Option<char>)
    requires
        *old(high_surrogate) is Some ==> is_high((*old(high_surrogate))->0),
    ensures
        r == unit_char(unit, *old(high_surrogate)),
        *final(high_surrogate) == if is_high(unit) {
            Some(unit)
        } else {
            None
        },
{
    if 0xd800 <= unit && unit <= 0xdbff {
        *high_surrogate = Some(unit);
        return None;
    }
    if 0xdc00 <= unit && unit <= 0xdfff {
        return match high_surrogate.take() {
            Some(high) => {
                let scalar: u32 = 0x1_0000 + (high as u32 - 0xd800) * 1024 + (unit as u32 - 0xdc00);
                char::from_u32(scalar)
            },
            None => None,
        };
    }
    *high_surrogate = None;
    if unit == 0 {
        None
    } else {
        char::from_u32(unit as u32)
    }
}

/// The key that a virtual key code names by itself, whatever character it
/// types.
pub open spec fn named_key(virtual_key: u16, shift: bool) -> Option<KeyCode> {
    if virtual_key == 0x08 {
        Some(KeyCode::Backspace)
    } else if virtual_key == 0x09 {
        Some(
            if shift {
                KeyCode::BackTab
            } else {
                KeyCode::Tab
            },
        )
    } else if virtual_key == 0x0d {
        Some(KeyCode::Enter)
    } else if virtual_key == 0x1b {
        Some(KeyCode::Esc)
    } else if virtual_key == 0x21 {
        Some(KeyCode::PageUp)
    } else if virtual_key == 0x22 {
        Some(KeyCode::PageDown)
    } else if virtual_key == 0x23 {
        Some(KeyCode::End)
    } else if virtual_key == 0x24 {
        Some(KeyCode::Home)
    } else if virtual_key == 0x25 {
        Some(KeyCode::Left)
    } else if virtual_key == 0x26 {
        Some(KeyCode::Up)
    } else if virtual_key == 0x27 {
        Some(KeyCode::Right)
    } else if virtual_key == 0x28 {
        Some(KeyCode::Down)
    } else if virtual_key == 0x2e {
        Some(KeyCode::Delete)
    } else {
        None
    }
}

/// Whether a record is a letter held with Control alone.
pub open spec fn control_letter(record: KeyRecord) -> bool {
    &&& 0x41 <= record.virtual_key <= 0x5a
    &&& modifiers_of(record.control).control
    &&& !modifiers_of(record.control).alt
}

/// The key that a native event reports.
pub open spec fn key_code_of(record: KeyRecord, high: Option<u16>) -> Option<KeyCode> {
    match named_key(record.virtual_key, modifiers_of(record.control).shift) {
        Some(code) => Some(code),
        None => if control_letter(record) {
            Some(KeyCode::Char((record.virtual_key + 32) as char))
        } else {
            match unit_char(record.unicode, high) {
                Some(c) => Some(KeyCode::Char(c)),
                None => None,
            }
        },
    }
}

/// Whether a native event types its character, so that the pair it may be half
/// of moves on.
pub open spec fn types_character(record: KeyRecord) -> bool {
    named_key(record.virtual_key, modifiers_of(record.control).shift) is None && !control_letter(
        record,
    )
}

/// What a native key event reports.
pub open spec fn key_of(record: KeyRecord, high: Option<u16>) -> Option<KeyEvent> {
    match key_code_of(record, high) {
        Some(code) => Some(
            KeyEvent {
                code,
                modifiers: modifiers_of(record.control),
                kind: if record.down != 0 || (record.virtual_key == 0x12 && record.unicode != 0) {
                    KeyEventKind::Press
                } else {
                    KeyEventKind::Release
                },
            },
        ),
        None => None,
    }
}

/// The half of a pair that is held after a native key event.
pub open spec fn held_after(record: KeyRecord, high: Option<u16>) -> Option<u16> {
    if !types_character(record) {
        high
    } else if is_high(record.unicode) {
        Some(record.unicode)
    } else {
        None
    }
}

/// Reads a native key event. A key that types nothing, such as a modifier
/// alone, reports nothing. A character composed on the number pad arrives with
/// the release of Alt and counts as pressed.
pub fn key_event(record: KeyRecord, high_surrogate: &mut Option<u16>) -> (r: Option<KeyEvent>)
    requires
        *old(high_surrogate) is Some ==> is_high((*old(high_surrogate))->0),
    ensures
        r == key_of(record, *old(high_surrogate)),
        *final(high_surrogate) == held_after(record, *old(high_surrogate)),
{
    let held = modifiers(record.control);
    let code = match record.virtual_key {
        0x08 => KeyCode::Backspace,
        0x09 => {
            if held.shift {
                KeyCode::BackTab
            } else {
                KeyCode::Tab
            }
        },
        0x0d => KeyCode::Enter,
        0x1b => KeyCode::Esc,
        0x21 => KeyCode::PageUp,
        0x22 => KeyCode::PageDown,
        0x23 => KeyCode::End,
        0x24 => KeyCode::Home,
        0x25 => KeyCode::Left,
        0x26 => KeyCode::Up,
        0x27 => KeyCode::Right,
        0x28 => KeyCode::Down,
        0x2e => KeyCode::Delete,
        _ => {
            if 0x41 <= record.virtual_key && record.virtual_key <= 0x5a && held.control
                && !held.alt {
                KeyCode::Char((record.virtual_key as u8 + 32) as char)
            } else {
                match unicode_char(record.unicode, high_surrogate) {
                    Some(c) => KeyCode::Char(c),
                    None => {
                        return None;
                    },
                }
            }
        },
    };
    let kind = if record.down != 0 || (record.virtual_key == 0x12 && record.unicode != 0) {
        KeyEventKind::Press
    } else {
        KeyEventKind::Release
    };
    Some(KeyEvent { code, modifiers: held, kind })
}

/// What an input record reports: a key, the mouse, or a new size of the window.
pub open spec fn event_of(kind: u16, words: Seq<u32>, high: Option<u16>) -> Option<Event> {
    if kind == KEY_EVENT {
        match key_of(key_record_of(words), high) {
            Some(key) => Some(Event::Key(key)),
            None => None,
        }
    } else if kind == MOUSE_EVENT {
        match mouse_of(
            signed_half((words[0] % 65536) as int),
            signed_half((words[0] / 65536) as int),
            words[1],
            words[2],
            words[3],
        ) {
            Some(mouse) => Some(Event::Mouse(mouse)),
            None => None,
        }
    } else if kind == WINDOW_BUFFER_SIZE_EVENT {
        Some(Event::Resize((words[0] % 65536) as u16, (words[0] / 65536) as u16))
    } else {
        None
    }
}

/// Reads an input record. Records of other kinds report nothing.
pub fn event(record: InputRecord, high_surrogate: &mut Option<u16>) -> (r: Option<Event>)
    requires
        *old(high_surrogate) is Some ==> is_high((*old(high_surrogate))->0),
    ensures
        r == event_of(record.event_type, record.event@, *old(high_surrogate)),
        *final(high_surrogate) == if record.event_type == KEY_EVENT {
            held_after(key_record_of(record.event@), *old(high_surrogate))
        } else {
            *old(high_surrogate)
        },
        *final(high_surrogate) is Some ==> is_high((*final(high_surrogate))->0),
{
    if record.event_type == KEY_EVENT {
        match key_event(key_record(record.event), high_surrogate) {
            Some(key) => Some(Event::Key(key)),
            None => None,
        }
    } else if record.event_type == MOUSE_EVENT {
        match mouse_event(mouse_record(record.event)) {
            Some(mouse) => Some(Event::Mouse(mouse)),
            None => None,
        }
    } else if record.event_type == WINDOW_BUFFER_SIZE_EVENT {
        let packed: u32 = record.event[0];
        Some(Event::Resize((packed % 65536) as u16, (packed / 65536) as u16))
    } else {
        None
    }
}

/// The magic number that opens a handshake.
pub open spec fn magic() -> Seq<u8> {
    seq![77u8, 84u8, 85u8, 73u8, 67u8, 79u8, 78u8, 49u8]
}

/// The status byte of a helper that is ready.
pub const HANDSHAKE_READY: u8 = 1;

/// The status byte of a helper that could not be set up.
pub const HANDSHAKE_ERROR: u8 = 2;

/// What a helper reports: the size of its window, or the bytes that say what
/// went wrong.
pub open spec fn handshake_of(size: Option<(u16, u16)>, why: Seq<u8>) -> Seq<u8> {
    let cut = if why.len() > HANDSHAKE_LEN - HANDSHAKE_HEAD {
        HANDSHAKE_LEN - HANDSHAKE_HEAD
    } else {
        why.len() as int
    };
    Seq::new(
        HANDSHAKE_LEN as nat,
        |i: int|
            if i < 8 {
                magic()[i]
            } else if size is Some {
                if i == 8 {
                    HANDSHAKE_READY
                } else if i < 11 {
                    byte_of((size->0).0 as u32, i - 9)
                } else if i < 13 {
                    byte_of((size->0).1 as u32, i - 11)
                } else {
                    0
                }
            } else if i == 8 {
                HANDSHAKE_ERROR
            } else if i < 13 {
                0
            } else if i < 15 {
                byte_of(cut as u32, i - 13)
            } else if i < 15 + cut {
                why[i - 15]
            } else {
                0
            },
    )
}

/// Writes a handshake. A text that is too long is cut.
pub fn write_handshake(result: Result<(u16, u16), &str>) -> (r: Vec<u8>)
    ensures
        r@ == handshake_of(
            match result {
                Ok(size) => Some(size),
                Err(_) => None,
            },
            match result {
                Ok(_) => Seq::empty(),
                Err(why) => vstd::utf8::encode_utf8(why@),
            },
        ),
{
    let mut out: Vec<u8> = Vec::new();
    out.push(77);
    out.push(84);
    out.push(85);
    out.push(73);
    out.push(67);
    out.push(79);
    out.push(78);
    out.push(49);
    match result {
        Ok((width, height)) => {
            out.push(HANDSHAKE_READY);
            out.push(byte(width as u32, 0));
            out.push(byte(width as u32, 1));
            out.push(byte(height as u32, 0));
            out.push(byte(height as u32, 1));
            let ghost want = handshake_of(Some((width, height)), Seq::empty());
            while out.len() < HANDSHAKE_LEN
                invariant
                    13 <= out@.len() <= HANDSHAKE_LEN,
                    want == handshake_of(Some((width, height)), Seq::empty()),
                    out@ =~= want.take(out@.len() as int),
                decreases HANDSHAKE_LEN - out.len(),
            {
                out.push(0);
            }
            proof {
                assert(want.take(HANDSHAKE_LEN as int) =~= want);
            }
        },
        Err(why) => {
            let bytes = why.as_bytes();
            let room: usize = HANDSHAKE_LEN - HANDSHAKE_HEAD;
            let cut: usize = if bytes.len() > room {
                room
            } else {
                bytes.len()
            };
            out.push(HANDSHAKE_ERROR);
            out.push(0);
            out.push(0);
            out.push(0);
            out.push(0);
            out.push(byte(cut as u32, 0));
            out.push(byte(cut as u32, 1));
            let ghost want = handshake_of(None, vstd::utf8::encode_utf8(why@));
            while out.len() < HANDSHAKE_LEN
                invariant
                    15 <= out@.len() <= HANDSHAKE_LEN,
                    bytes@ == vstd::utf8::encode_utf8(why@),
                    cut <= bytes@.len(),
                    cut == (if bytes@.len() > HANDSHAKE_LEN - HANDSHAKE_HEAD {
                        HANDSHAKE_LEN - HANDSHAKE_HEAD
                    } else {
                        bytes@.len() as int
                    }),
                    want == handshake_of(None, vstd::utf8::encode_utf8(why@)),
                    out@ =~= want.take(out@.len() as int),
                decreases HANDSHAKE_LEN - out.len(),
            {
                let i: usize = out.len();
                if i < 15 + cut {
                    out.push(bytes[i - 15]);
                } else {
                    out.push(0);
                }
            }
            proof {
                assert(want.take(HANDSHAKE_LEN as int) =~= want);
            }
        },
    }
    out
}

/// Why a handshake was not accepted.
#[derive(Debug)]
pub enum HandshakeError {
    /// It does not open with the magic number.
    NotAHandshake,
    /// The window has no size.
    NoSize,
    /// The helper could not be set up, and says why.
    Refused(String),
    /// The status is not a known one.
    UnknownStatus,
}

impl HandshakeError {
    /// What the error says.
    pub open spec fn text_of(self) -> Seq<char> {
        match self {
            HandshakeError::NotAHandshake => "the terminal helper sent an invalid setup response"@,
            HandshakeError::NoSize => "the terminal helper reported an invalid size"@,
            HandshakeError::Refused(why) => "terminal helper setup failed: "@ + why@,
            HandshakeError::UnknownStatus => "the terminal helper sent an invalid setup status"@,
        }
    }

    /// What the error says.
    pub fn to_text(&self) -> (r: String)
        ensures
            r@ == self.text_of(),
    {
        match self {
            HandshakeError::NotAHandshake =>
                "the terminal helper sent an invalid setup response".to_owned(),
            HandshakeError::NoSize => "the terminal helper reported an invalid size".to_owned(),
            HandshakeError::Refused(why) => {
                let mut r = String::new();
                r.append("terminal helper setup failed: ");
                r.append(why.as_str());
                proof {
                    assert(r@ =~= "terminal helper setup failed: "@ + why@);
                }
                r
            },
            HandshakeError::UnknownStatus =>
                "the terminal helper sent an invalid setup status".to_owned(),
        }
    }
}

/// The bytes of the text in a handshake.
pub open spec fn handshake_text(message: Seq<u8>) -> Seq<u8> {
    let stated = half_of(message, 13) as int;
    let length = if stated > HANDSHAKE_LEN - HANDSHAKE_HEAD {
        HANDSHAKE_LEN - HANDSHAKE_HEAD
    } else {
        stated
    };
    message.subrange(15, 15 + length)
}

/// Reads a handshake: the size of the helper's window, or why there is none.
pub fn read_handshake(message: &[u8]) -> (r: Result<(u16, u16), HandshakeError>)
    requires
        message@.len() == HANDSHAKE_LEN,
    ensures
        ({
            let m = message@;
            let width = half_of(m, 9);
            let height = half_of(m, 11);
            if m.take(8) != magic() {
                r matches Err(HandshakeError::NotAHandshake)
            } else if m[8] == HANDSHAKE_READY {
                if width != 0 && height != 0 {
                    r == Ok::<(u16, u16), HandshakeError>((width, height))
                } else {
                    r matches Err(HandshakeError::NoSize)
                }
            } else if m[8] == HANDSHAKE_ERROR {
                r matches Err(HandshakeError::Refused(why)) && why@ == text::lossy_of(
                    handshake_text(m),
                )
            } else {
                r matches Err(HandshakeError::UnknownStatus)
            }
        }),
{
    let opens = message[0] == 77 && message[1] == 84 && message[2] == 85 && message[3] == 73
        && message[4] == 67 && message[5] == 79 && message[6] == 78 && message[7] == 49;
    proof {
        if opens {
            assert(message@.take(8) =~= magic());
        } else {
            let m = message@.take(8);
            assert(m != magic()) by {
                if m == magic() {
                    assert(m[0] == 77 && m[1] == 84 && m[2] == 85 && m[3] == 73);
                    assert(m[4] == 67 && m[5] == 79 && m[6] == 78 && m[7] == 49);
                }
            }
        }
    }
    if !opens {
        return Err(HandshakeError::NotAHandshake);
    }
    let width: u16 = half(message, 9);
    let height: u16 = half(message, 11);
    if message[8] == HANDSHAKE_READY {
        if width != 0 && height != 0 {
            Ok((width, height))
        } else {
            Err(HandshakeError::NoSize)
        }
    } else if message[8] == HANDSHAKE_ERROR {
        let stated: usize = half(message, 13) as usize;
        let room: usize = HANDSHAKE_LEN - HANDSHAKE_HEAD;
        let length: usize = if stated > room {
            room
        } else {
            stated
        };
        let bytes = text::bytes_part(message, 15, 15 + length);
        Err(HandshakeError::Refused(text::lossy(&bytes)))
    } else {
        Err(HandshakeError::UnknownStatus)
    }
}

/// A handshake that was written is read back as it was meant: the size of a
/// window that has one, and otherwise the text, as far as it was not cut.
pub proof fn handshakes_round_trip(width: u16, height: u16, why: Seq<u8>)
    ensures
        ({
            let m = handshake_of(Some((width, height)), Seq::empty());
            &&& m.len() == HANDSHAKE_LEN
            &&& m.take(8) == magic()
            &&& m[8] == HANDSHAKE_READY
            &&& half_of(m, 9) == width
            &&& half_of(m, 11) == height
        }),
        ({
            let m = handshake_of(None, why);
            &&& m.take(8) == magic()
            &&& m[8] == HANDSHAKE_ERROR
            &&& why.len() <= HANDSHAKE_LEN - HANDSHAKE_HEAD ==> handshake_text(m) == why
            &&& why.len() > HANDSHAKE_LEN - HANDSHAKE_HEAD ==> handshake_text(m) == why.take(
                HANDSHAKE_LEN - HANDSHAKE_HEAD,
            )
        }),
{
    let m = handshake_of(Some((width, height)), Seq::empty());
    assert(m.take(8) =~= magic());
    let e = handshake_of(None, why);
    assert(e.take(8) =~= magic());
    let room = HANDSHAKE_LEN - HANDSHAKE_HEAD;
    let cut = if why.len() > room {
        room
    } else {
        why.len() as int
    };
    assert(half_of(e, 13) == cut);
    assert(handshake_text(e) =~= why.take(cut));
    if why.len() <= room {
        assert(why.take(cut) =~= why);
    }
}

/// What the reader of a pipe does next.
#[derive(Debug, Clone, Copy, PartialEq, Eq, Structural)]
pub enum ReadStep {
    /// Everything is there.
    Done,
    /// Read so many bytes.
    Read(usize),
    /// Look again after so many milliseconds.
    Sleep(u64),
    /// Nothing came in time.
    TimedOut,
    /// The other end is gone.
    Closed,
}

/// What the reader of a pipe does next, with `filled` of `wanted` bytes read,
/// `available` bytes waiting (`None` where the other end is gone) and `left_ms`
/// until the deadline. Never more is read than is waiting or is missing.
pub fn read_step(filled: usize, wanted: usize, available: Option<usize>, left_ms: u64) -> (r:
    ReadStep)
    ensures
        r == if filled >= wanted {
            ReadStep::Done
        } else {
            match available {
                None => ReadStep::Closed,
                Some(waiting) => if waiting == 0 {
                    if left_ms == 0 {
                        ReadStep::TimedOut
                    } else if left_ms < PIPE_POLL_MS {
                        ReadStep::Sleep(left_ms)
                    } else {
                        ReadStep::Sleep(PIPE_POLL_MS)
                    }
                } else if waiting < wanted - filled {
                    ReadStep::Read(waiting)
                } else {
                    ReadStep::Read((wanted - filled) as usize)
                },
            }
        },
{
    if filled >= wanted {
        return ReadStep::Done;
    }
    match available {
        None => ReadStep::Closed,
        Some(waiting) => {
            if waiting == 0 {
                if left_ms == 0 {
                    ReadStep::TimedOut
                } else if left_ms < PIPE_POLL_MS {
                    ReadStep::Sleep(left_ms)
                } else {
                    ReadStep::Sleep(PIPE_POLL_MS)
                }
            } else if waiting < wanted - filled {
                ReadStep::Read(waiting)
            } else {
                ReadStep::Read(wanted - filled)
            }
        },
    }
}

/// Whether an error of a pipe means that the other end is gone: by the code of
/// the system, or by the kind of the error.
pub fn pipe_closed(code: Option<i32>, broken_pipe: bool, not_connected: bool) -> (r: bool)
    ensures
        r == (code == Some(109i32) || code == Some(232i32) || code == Some(233i32) || broken_pipe
            || not_connected),
{
    let coded = match code {
        Some(code) => code == 109 || code == 232 || code == 233,
        None => false,
    };
    coded || broken_pipe || not_connected
}

/// The size of a console window from its edges, both included: left, top,
/// right and bottom. None where there is no window, or one too large to be
/// stated.
pub fn window_size(window: [i16; 4]) -> (r: Option<(u16, u16)>)
    ensures
        ({
            let width = window@[2] - window@[0] + 1;
            let height = window@[3] - window@[1] + 1;
            r == if width <= 0 || height <= 0 || width > u16::MAX || height > u16::MAX {
                None
            } else {
                Some((width as u16, height as u16))
            }
        }),
{
    let width: i32 = window[2] as i32 - window[0] as i32 + 1;
    let height: i32 = window[3] as i32 - window[1] as i32 + 1;
    if width <= 0 || height <= 0 || width > 65535 || height > 65535 {
        None
    } else {
        Some((width as u16, height as u16))
    }
}

/// The input mode of a console that is read key by key, from the mode it had.
pub fn input_mode(mode: u32) -> (r: u32)
    ensures
        r == (mode & !INPUT_MODES_OFF) | INPUT_MODES_ON,
        r & INPUT_MODES_OFF == 0,
        r & INPUT_MODES_ON == INPUT_MODES_ON,
{
    let r: u32 = (mode & !INPUT_MODES_OFF) | INPUT_MODES_ON;
    assert(((mode & !0x47u32) | 0x98u32) & 0x47u32 == 0) by (bit_vector);
    assert(((mode & !0x47u32) | 0x98u32) & 0x98u32 == 0x98u32) by (bit_vector);
    r
}

/// The output mode of a console that is written to in terminal sequences, from
/// the mode it had.
pub fn output_mode(mode: u32) -> (r: u32)
    ensures
        r == mode | OUTPUT_MODES_ON,
{
    mode | OUTPUT_MODES_ON
}

/// The session with the helper, as far as the player knows it.
#[derive(Debug, Clone, Copy)]
pub struct Session {
    /// Whether the helper or either half of its pipe has gone away.
    pub closed: bool,
    pub width: u16,
    pub height: u16,
}

impl Session {
    /// No helper yet, and the size that terminals have always had.
    pub fn new() -> (r: Self)
        ensures
            r.closed,
            r.width == 80,
            r.height == 24,
    {
        Session { closed: true, width: 80, height: 24 }
    }

    /// Takes the size that the helper reported. A size of nothing is not taken.
    pub fn set_size(&mut self, width: u16, height: u16)
        ensures
            final(self).closed == old(self).closed,
            width != 0 && height != 0 ==> final(self).width == width && final(self).height == height,
            width == 0 || height == 0 ==> *final(self) == *old(self),
    {
        if width != 0 && height != 0 {
            self.width = width;
            self.height = height;
        }
    }

    /// Whether the helper is gone. Once it is, it stays so; otherwise it is by
    /// whether its process is alive.
    pub fn closed(&mut self, alive: bool) -> (r: bool)
        ensures
            r == (old(self).closed || !alive),
            final(self).closed == r,
            final(self).width == old(self).width,
            final(self).height == old(self).height,
    {
        if !alive {
            self.closed = true;
        }
        self.closed
    }

    /// The last size the helper reported, while it is there.
    pub fn size(&mut self, alive: bool) -> (r: Option<(u16, u16)>)
        ensures
            r == if old(self).closed || !alive {
                None
            } else {
                Some((old(self).width, old(self).height))
            },
            final(self).closed == (old(self).closed || !alive),
            final(self).width == old(self).width,
            final(self).height == old(self).height,
    {
        if self.closed(alive) {
            None
        } else {
            Some((self.width, self.height))
        }
    }

    /// The helper has been let go of.
    pub fn detach(&mut self)
        ensures
            final(self).closed,
            final(self).width == old(self).width,
            final(self).height == old(self).height,
    {
        self.closed = true;
    }

    /// A helper is there and has reported its size.
    pub fn attach(&mut self, width: u16, height: u16)
        ensures
            !final(self).closed,
            width != 0 && height != 0 ==> final(self).width == width && final(self).height == height,
            width == 0 || height == 0 ==> final(self).width == old(self).width
                && final(self).height == old(self).height,
    {
        self.set_size(width, height);
        self.closed = false;
    }
}

/// The words of a record hold the key event that was put into them.
pub proof fn key_records_are_read(
    repeat: u16,
    virtual_key: u16,
    scan_code: u16,
    unicode: u16,
    control: u32,
    down: bool,
)
    ensures
        ({
            let words = seq![
                if down {
                    1u32
                } else {
                    0u32
                },
                (repeat + virtual_key * 65536) as u32,
                (scan_code + unicode * 65536) as u32,
                control,
            ];
            let record = key_record_of(words);
            &&& record.repeat == repeat
            &&& record.virtual_key == virtual_key
            &&& record.scan_code == scan_code
            &&& record.unicode == unicode
            &&& record.control == control
            &&& (record.down != 0) == down
        }),
{
}

/// A key that types an ordinary character reports that character, pressed when it
/// goes down and released when it comes up.
pub proof fn typed_characters_are_reported(record: KeyRecord, high: Option<u16>)
    requires
        record.virtual_key > 0x2e,
        !(0x41 <= record.virtual_key <= 0x5a) || record.control & 0x000c == 0,
        0 < record.unicode < 0xd800,
    ensures
        key_of(record, high) matches Some(key) && key.code == KeyCode::Char(record.unicode as char)
            && (record.down != 0 ==> key.kind == KeyEventKind::Press) && (record.down == 0
            ==> key.kind == KeyEventKind::Release) && key.modifiers.shift == (record.control
            & 0x0010 != 0) && key.modifiers.control == (record.control & 0x000c != 0)
            && key.modifiers.alt == (record.control & 0x0003 != 0),
{
}

/// The keys that have a name report it, whatever they type: the arrows, the page
/// keys, and those that edit.
pub proof fn named_keys_are_reported(record: KeyRecord, high: Option<u16>)
    ensures
        ({
            let code = key_code_of(record, high);
            &&& record.virtual_key == 0x25 ==> code == Some(KeyCode::Left)
            &&& record.virtual_key == 0x26 ==> code == Some(KeyCode::Up)
            &&& record.virtual_key == 0x27 ==> code == Some(KeyCode::Right)
            &&& record.virtual_key == 0x28 ==> code == Some(KeyCode::Down)
            &&& record.virtual_key == 0x0d ==> code == Some(KeyCode::Enter)
            &&& record.virtual_key == 0x1b ==> code == Some(KeyCode::Esc)
            &&& record.virtual_key == 0x08 ==> code == Some(KeyCode::Backspace)
            &&& record.virtual_key == 0x2e ==> code == Some(KeyCode::Delete)
            &&& record.virtual_key == 0x21 ==> code == Some(KeyCode::PageUp)
            &&& record.virtual_key == 0x22 ==> code == Some(KeyCode::PageDown)
            &&& record.virtual_key == 0x23 ==> code == Some(KeyCode::End)
            &&& record.virtual_key == 0x24 ==> code == Some(KeyCode::Home)
            &&& record.virtual_key == 0x09 && record.control & 0x0010 == 0 ==> code == Some(
                KeyCode::Tab,
            )
            &&& record.virtual_key == 0x09 && record.control & 0x0010 != 0 ==> code == Some(
                KeyCode::BackTab,
            )
        }),
{
}

/// A letter with Control reports the small letter, whatever control character the
/// console made of it.
pub proof fn control_letters_are_reported(record: KeyRecord, high: Option<u16>)
    requires
        0x41 <= record.virtual_key <= 0x5a,
        record.control & 0x000c != 0,
        record.control & 0x0003 == 0,
    ensures
        key_code_of(record, high) == Some(KeyCode::Char((record.virtual_key + 32) as char)),
        held_after(record, high) == high,
{
}

/// The two halves of a pair give the character that UTF-16 splits into them.
pub proof fn surrogate_pairs_are_joined(c: char)
    requires
        c as u32 >= 0x1_0000,
    ensures
        ({
            let high = (0xd800 + (c as u32 - 0x1_0000) / 1024) as u16;
            let low = (0xdc00 + (c as u32 - 0x1_0000) % 1024) as u16;
            &&& is_high(high)
            &&& is_low(low)
            &&& unit_char(high, None) is None
            &&& unit_char(low, Some(high)) == Some(c)
            &&& unit_char(low, None) is None
        }),
{
    let n = c as u32 - 0x1_0000;
    assert(0 <= n <= 0xf_ffff);
    assert(n == n / 1024 * 1024 + n % 1024);
}

/// A click is reported where it fell, with the button that made it; the wheel with
/// the way that it turned; and nothing outside the window.
pub proof fn mouse_is_reported(x: i16, y: i16, state: u32, control: u32)
    requires
        x >= 0,
        y >= 0,
    ensures
        state & 1 != 0 ==> mouse_of(x, y, state, control, 0) == Some(
            MouseEvent {
                kind: MouseEventKind::Down(MouseButton::Left),
                column: x as u16,
                row: y as u16,
                modifiers: modifiers_of(control),
            },
        ),
        state & 1 == 0 && state & 2 != 0 ==> mouse_of(x, y, state, control, 0) == Some(
            MouseEvent {
                kind: MouseEventKind::Down(MouseButton::Right),
                column: x as u16,
                row: y as u16,
                modifiers: modifiers_of(control),
            },
        ),
        0 < state / 65536 < 0x8000 ==> mouse_of(x, y, state, control, 4) == Some(
            MouseEvent {
                kind: MouseEventKind::ScrollUp,
                column: x as u16,
                row: y as u16,
                modifiers: modifiers_of(control),
            },
        ),
        state / 65536 >= 0x8000 ==> mouse_of(x, y, state, control, 4) == Some(
            MouseEvent {
                kind: MouseEventKind::ScrollDown,
                column: x as u16,
                row: y as u16,
                modifiers: modifiers_of(control),
            },
        ),
        x > 0 ==> mouse_of((-x) as i16, y, state, control, 0) is None,
        y > 0 ==> mouse_of(x, (-y) as i16, state, control, 0) is None,
{
}

/// A record is read by its kind: a key, the mouse, or a new size, width first.
pub proof fn records_are_read_by_their_kind(
    words: Seq<u32>,
    high: Option<u16>,
    width: u16,
    height: u16,
)
    ensures
        event_of(1, words, high) is Some ==> event_of(1, words, high)->0 is Key,
        key_of(key_record_of(words), high) is Some ==> event_of(1, words, high) == Some(
            Event::Key(key_of(key_record_of(words), high)->0),
        ),
        event_of(2, words, high) is Some ==> event_of(2, words, high)->0 is Mouse,
        words[0] == width + height * 65536 ==> event_of(4, words, high) == Some(
            Event::Resize(width, height),
        ),
{
}

/// A key that types nothing and has no name reports nothing.
pub proof fn silent_keys_report_nothing(record: KeyRecord, high: Option<u16>)
    requires
        record.virtual_key > 0x2e,
        !(0x41 <= record.virtual_key <= 0x5a),
        record.unicode == 0,
    ensures
        key_of(record, high) is None,
        held_after(record, high) is None,
{
}

/// On the wire a record is its kind and then its words, each with the lowest byte
/// first.
pub proof fn records_go_low_byte_first(record: InputRecord, k: int)
    requires
        0 <= k < 4,
    ensures
        ({
            let wire = wire_of(record);
            let word = record.event@[k];
            &&& wire.len() == 18
            &&& wire[0] == record.event_type % 256
            &&& wire[1] == record.event_type / 256
            &&& wire[2 + 4 * k] == word % 256
            &&& wire[3 + 4 * k] == word / 256 % 256
            &&& wire[4 + 4 * k] == word / 65536 % 256
            &&& wire[5 + 4 * k] == word / 16777216
        }),
{
    assert((4 * k) / 4 == k && (4 * k) % 4 == 0);
    assert((4 * k + 1) / 4 == k && (4 * k + 1) % 4 == 1);
    assert((4 * k + 2) / 4 == k && (4 * k + 2) % 4 == 2);
    assert((4 * k + 3) / 4 == k && (4 * k + 3) % 4 == 3);
}

} // verus!
