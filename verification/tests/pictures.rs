use mtui::config::{CoverStyle, ImageRenderer};
use mtui::graphics::{asks, detect, hear, parse, Drawing, Graphics};
use mtui::keys::{KeyCode, KeyEvent, KeyEventKind, KeyModifiers};
use mtui::kitty::{base64, delete, encode, CHUNK, IMAGE_NUMBER};

#[test]
fn reads_sixel_support_and_cell_size() {
    // Shaped like what Windows Terminal answers.
    let (sixel, cell) = parse("\x1b[?61;4;6;7;14;21;22;23;24;28;32;42c\x1b[6;20;10t");
    assert!(sixel);
    assert_eq!(cell, Some((10, 20)));
}

#[test]
fn reads_replies_in_either_order() {
    let (sixel, cell) = parse("\x1b[6;16;8t\x1b[?62;4;22c");
    assert!(sixel);
    assert_eq!(cell, Some((8, 16)));
}

#[test]
fn absent_attribute_four_means_no_sixel() {
    let (sixel, cell) = parse("\x1b[?62;22c\x1b[6;18;9t");
    assert!(!sixel, "no attribute 4 in the reply");
    assert_eq!(cell, Some((9, 18)), "cell size is still usable");
}

#[test]
fn a_number_merely_containing_four_is_not_attribute_four() {
    // `14` and `42` must not be mistaken for `4`.
    let (sixel, _) = parse("\x1b[?62;14;42;40c");
    assert!(!sixel);
}

#[test]
fn missing_or_partial_replies_degrade() {
    assert_eq!(parse(""), (false, None));
    // Attributes only: sixel is known, cell size is not.
    assert_eq!(parse("\x1b[?62;4c"), (true, None));
    // Cell report only.
    assert_eq!(parse("\x1b[6;20;10t"), (false, Some((10, 20))));
    // Truncated numbers must not panic or half-parse.
    assert_eq!(parse("\x1b[6;20t"), (false, None));
    assert_eq!(parse("\x1b[6;;t"), (false, None));
}

#[test]
fn a_zero_cell_size_is_rejected() {
    // A terminal reporting zeroes would divide the image maths by one of
    // them; treat it as no answer at all.
    assert_eq!(parse("\x1b[6;0;0t"), (false, None));
}

#[test]
fn base64_encodes_complete_and_partial_groups() {
    assert_eq!(base64(b"Man"), b"TWFu");
    assert_eq!(base64(b"Ma"), b"TWE=");
    assert_eq!(base64(b"M"), b"TQ==");
}

#[test]
fn small_image_is_one_complete_command() {
    assert_eq!(
        String::from_utf8(encode(&[255, 0, 0], 1, 1, 1, 1)).unwrap(),
        format!("\x1b_Ga=T,f=24,s=1,v=1,c=1,r=1,C=1,I={IMAGE_NUMBER},q=2,m=0;/wAA\x1b\\")
    );
}

#[test]
fn large_image_is_chunked_on_base64_boundaries() {
    let rgb = vec![0; 48 * 24 * 3];
    let encoded = String::from_utf8(encode(&rgb, 48, 24, 6, 2)).unwrap();
    assert!(encoded.contains("q=2,m=1;"));
    assert!(encoded.contains("\x1b_Gm=0;"));
    assert_eq!(encoded.matches("\x1b_G").count(), 2);
}

#[test]
fn delete_targets_only_mtuis_image() {
    assert_eq!(
        String::from_utf8(delete()).unwrap(),
        format!("\x1b_Ga=d,d=N,I={IMAGE_NUMBER},q=2;\x1b\\")
    );
}

#[test]
fn a_silent_terminal_gets_blocks() {
    assert_eq!(detect(&None, &None), Graphics::blocks());
    assert_eq!(
        detect(&Some("blocks".to_string()), &Some("\x1b[?62;4c".to_string())),
        Graphics::blocks()
    );
    assert!(!asks(&Some("blocks".to_string())));
    assert!(asks(&None));
    let seen = detect(&None, &Some("\x1b[?62;4c\x1b[6;20;10t".to_string()));
    assert!(seen.sixel);
    assert_eq!(seen.cell, (10, 20));
    let unsized_cells = detect(&None, &Some("\x1b[?62;4c".to_string()));
    assert_eq!(unsized_cells, Graphics { sixel: true, kitty: false, cell: (8, 16) });
}

#[test]
fn a_reply_is_heard_until_both_answers_are_in() {
    let key = |c: char| KeyEvent {
        code: KeyCode::Char(c),
        modifiers: KeyModifiers { shift: false, control: false, alt: false },
        kind: KeyEventKind::Press,
    };
    let mut reply = String::new();
    assert!(!hear(&mut reply, key('c')));
    let mut released = key('t');
    released.kind = KeyEventKind::Release;
    assert!(!hear(&mut reply, released));
    assert!(hear(&mut reply, key('t')));
    assert_eq!(reply, "ct");
}

#[test]
fn an_image_of_one_whole_chunk_is_one_command() {
    let rgb = vec![0; CHUNK / 4 * 3];
    let encoded = String::from_utf8(encode(&rgb, 32, 32, 4, 2)).unwrap();
    assert_eq!(encoded.matches("\x1b_G").count(), 1);
    assert!(encoded.contains("s=32,v=32,c=4,r=2"));
    assert_eq!(base64(b""), b"");
}

#[test]
fn kitty_is_detected_or_forced() {
    let reply = Some("\x1b_Gi=31;OK\x1b\\\x1b[?62;4c\x1b[6;20;10t".to_string());
    let both = detect(&None, &reply);
    assert!(both.kitty && both.sixel);
    assert_eq!(both.cell, (10, 20));
    assert!(!detect(&None, &Some("\x1b[?62;4c".to_string())).kitty);
    let forced = detect(&Some("kitty".to_string()), &None);
    assert_eq!(forced, Graphics { sixel: false, kitty: true, cell: (8, 16) });
    assert!(!detect(&Some("sixel".to_string()), &reply).kitty);
}

#[test]
fn the_settings_choose_how_covers_are_drawn() {
    let plain = Graphics::blocks();
    let sixel = Graphics { sixel: true, kitty: false, cell: (10, 20) };
    let both = Graphics { sixel: true, kitty: true, cell: (10, 20) };
    assert_eq!(plain.cover(CoverStyle::Pixel), Drawing::Blocks);
    assert_eq!(sixel.cover(CoverStyle::Pixel), Drawing::Sixel);
    assert_eq!(both.cover(CoverStyle::Pixel), Drawing::Kitty);
    assert_eq!(both.cover(CoverStyle::ColoredAscii), Drawing::Ascii);
    assert_eq!(sixel.with_renderer(ImageRenderer::Automatic), sixel);
    let forced = plain.with_renderer(ImageRenderer::Kitty);
    assert_eq!(forced.cover(CoverStyle::Pixel), Drawing::Kitty);
    let cells = both.with_renderer(ImageRenderer::PixelArt);
    assert_eq!(cells.cover(CoverStyle::Pixel), Drawing::Blocks);
    assert_eq!(cells.cell, (10, 20));
}
