use mtui::console::{
    decode_record, encode_record, event, input_mode, is_host, key_event, key_record, mouse_event,
    mouse_record, output_mode, pipe_closed, read_handshake, read_step, unicode_char, window_size,
    write_handshake, HandshakeError, InputRecord, KeyRecord, MouseRecord, ReadStep, Session,
    HANDSHAKE_LEN, HOST_ARGUMENT, KEY_EVENT, WINDOW_BUFFER_SIZE_EVENT,
};
use mtui::keys::{Event, KeyCode, KeyEventKind, MouseButton, MouseEventKind};

fn record(virtual_key: u16, unicode: u16, control: u32) -> KeyRecord {
    KeyRecord {
        down: 1,
        repeat: 1,
        virtual_key,
        scan_code: 0,
        unicode,
        control,
    }
}

#[test]
fn modifier_only_records_do_not_type_nul() {
    let mut high = None;
    assert!(key_event(record(0x10, 0, 0x0010), &mut high).is_none());
}

#[test]
fn control_letters_keep_the_control_modifier() {
    let mut high = None;
    let key = key_event(record(0x53, 0x13, 0x0008), &mut high).unwrap();
    assert_eq!(key.code, KeyCode::Char('s'));
    assert!(key.modifiers.control);
}

#[test]
fn altgr_letters_keep_the_character_windows_composed() {
    let mut high = None;
    let key = key_event(record(0x53, 'ś' as u16, 0x0009), &mut high).unwrap();
    assert_eq!(key.code, KeyCode::Char('ś'));
    assert!(key.modifiers.control);
    assert!(key.modifiers.alt);
}

#[test]
fn alt_numpad_characters_are_delivered_as_press_events() {
    let mut high = None;
    let mut release = record(0x12, 'é' as u16, 0);
    release.down = 0;
    let key = key_event(release, &mut high).unwrap();
    assert!(key.kind == KeyEventKind::Press);
    assert_eq!(key.code, KeyCode::Char('é'));
}

#[test]
fn surrogate_pairs_form_one_character() {
    let mut high = None;
    assert_eq!(unicode_char(0xd83c, &mut high), None);
    assert_eq!(unicode_char(0xdfb5, &mut high), Some('🎵'));
}

#[test]
fn half_a_pair_is_no_character() {
    let mut high = None;
    assert_eq!(unicode_char(0xdfb5, &mut high), None);
    assert_eq!(unicode_char(0xd83c, &mut high), None);
    assert_eq!(high, Some(0xd83c));
    assert_eq!(unicode_char(0x61, &mut high), Some('a'));
    assert_eq!(high, None);
}

#[test]
fn input_record_wire_format_is_stable_and_round_trips() {
    let record = InputRecord {
        event_type: 0x1234,
        event: [0x0102_0304, 5, 0xaabb_ccdd, u32::MAX],
    };
    let wire = encode_record(record);
    assert_eq!(wire.len(), 18);
    assert_eq!(&wire[..6], &[0x34, 0x12, 4, 3, 2, 1]);
    let decoded = decode_record(&wire);
    assert_eq!(decoded.event_type, record.event_type);
    assert_eq!(decoded.event, record.event);
}

#[test]
fn native_left_click_becomes_a_terminal_mouse_event() {
    let event = mouse_event(MouseRecord {
        position: [12, 7],
        button_state: 1,
        control: 0,
        event_flags: 0,
    })
    .unwrap();
    assert_eq!(event.kind, MouseEventKind::Down(MouseButton::Left));
    assert_eq!((event.column, event.row), (12, 7));
}

#[test]
fn native_wheel_direction_keeps_its_sign() {
    let up = mouse_event(MouseRecord {
        position: [0, 0],
        button_state: (120u32) << 16,
        control: 0,
        event_flags: 4,
    })
    .unwrap();
    let down = mouse_event(MouseRecord {
        button_state: ((-120i16 as u16) as u32) << 16,
        ..MouseRecord {
            position: [0, 0],
            button_state: 0,
            control: 0,
            event_flags: 4,
        }
    })
    .unwrap();
    assert_eq!(up.kind, MouseEventKind::ScrollUp);
    assert_eq!(down.kind, MouseEventKind::ScrollDown);
}

#[test]
fn records_are_read_from_their_words() {
    let key = key_record([1, 0x0025_0001, 0x0041_0000, 0x10]);
    assert_eq!(key.down, 1);
    assert_eq!(key.repeat, 1);
    assert_eq!(key.virtual_key, 0x25);
    assert_eq!(key.unicode, 0x41);
    assert_eq!(key.control, 0x10);
    let mouse = mouse_record([0xffff_0003, 1, 2, 4]);
    assert_eq!(mouse.position, [3, -1]);
    assert_eq!(mouse.button_state, 1);
    assert_eq!(mouse.event_flags, 4);
}

#[test]
fn events_are_told_apart_by_their_type() {
    let mut high = None;
    let key = event(
        InputRecord {
            event_type: KEY_EVENT,
            event: [1, 0x0026_0001, 0, 0],
        },
        &mut high,
    );
    assert!(matches!(key, Some(Event::Key(k)) if k.code == KeyCode::Up));
    let size = event(
        InputRecord {
            event_type: WINDOW_BUFFER_SIZE_EVENT,
            event: [0x0018_0050, 0, 0, 0],
        },
        &mut high,
    );
    assert_eq!(size, Some(Event::Resize(80, 24)));
    let other = event(
        InputRecord {
            event_type: 0x0010,
            event: [0; 4],
        },
        &mut high,
    );
    assert_eq!(other, None);
}

#[test]
fn a_handshake_carries_the_size() {
    let wire = write_handshake(Ok((120, 30)));
    assert_eq!(wire.len(), HANDSHAKE_LEN);
    assert_eq!(read_handshake(&wire).ok(), Some((120, 30)));
}

#[test]
fn a_handshake_carries_what_went_wrong() {
    let wire = write_handshake(Err("no window"));
    assert_eq!(
        read_handshake(&wire).unwrap_err().to_text(),
        "terminal helper setup failed: no window"
    );
    let zero = write_handshake(Ok((0, 30)));
    assert!(matches!(read_handshake(&zero), Err(HandshakeError::NoSize)));
    let garbage = vec![0u8; HANDSHAKE_LEN];
    assert!(matches!(
        read_handshake(&garbage),
        Err(HandshakeError::NotAHandshake)
    ));
}

#[test]
fn a_pipe_is_read_until_everything_is_there() {
    assert_eq!(read_step(18, 18, None, 0), ReadStep::Done);
    assert_eq!(read_step(4, 18, Some(5), 100), ReadStep::Read(5));
    assert_eq!(read_step(4, 18, Some(50), 100), ReadStep::Read(14));
    assert!(pipe_closed(Some(109), false, false));
    assert!(pipe_closed(None, true, false));
    assert!(!pipe_closed(Some(5), false, false));
}

#[test]
fn windows_have_a_size() {
    assert_eq!(window_size([0, 0, 79, 23]), Some((80, 24)));
    assert_eq!(window_size([5, 5, 4, 9]), None);
    assert_eq!(input_mode(0x01ff), 0x01b8);
    assert_eq!(output_mode(0x8), 0xf);
}

#[test]
fn a_closed_helper_stays_closed() {
    let mut session = Session::new();
    assert!(session.closed);
    session.closed = false;
    assert_eq!(session.size(true), Some((80, 24)));
    session.set_size(100, 40);
    session.set_size(0, 50);
    assert_eq!(session.size(true), Some((100, 40)));
    assert!(session.closed(false));
    assert!(session.closed(true));
    assert_eq!(session.size(true), None);
}

#[test]
fn the_helper_is_told_by_its_first_argument() {
    assert!(is_host(Some(HOST_ARGUMENT)));
    assert!(!is_host(Some("--other")));
    assert!(!is_host(None));
}
