use mtui::sixel::encode;
use mtui::sixel::quantise::{quantise, MAX_COLOURS};

/// A sixel reader, so the encoder is checked against the format rather than
/// against itself. Understands exactly the subset `encode` emits.
fn decode(sixel: &[u8], width: u32, height: u32) -> Vec<u8> {
    let mut palette = [[0u8; 3]; MAX_COLOURS];
    let mut out = vec![0u8; (width * height * 3) as usize];
    let mut colour = 0usize;
    let (mut x, mut y) = (0u32, 0u32);

    let body = sixel
        .windows(3)
        .position(|w| w == b"\x1bPq")
        .map(|i| &sixel[i + 3..])
        .expect("DCS introducer");
    let mut i = 0;
    let number = |bytes: &[u8], i: &mut usize| -> u32 {
        let start = *i;
        while *i < bytes.len() && bytes[*i].is_ascii_digit() {
            *i += 1;
        }
        std::str::from_utf8(&bytes[start..*i])
            .unwrap()
            .parse()
            .unwrap()
    };

    while i < body.len() {
        match body[i] {
            b'"' => {
                // Raster attributes: four numbers we do not need back.
                i += 1;
                for _ in 0..4 {
                    number(body, &mut i);
                    if body.get(i) == Some(&b';') {
                        i += 1;
                    }
                }
            }
            b'#' => {
                i += 1;
                let index = number(body, &mut i) as usize;
                if body.get(i) == Some(&b';') {
                    i += 1;
                    let mode = number(body, &mut i);
                    assert_eq!(mode, 2, "RGB colour space");
                    let mut rgb = [0u8; 3];
                    for channel in &mut rgb {
                        i += 1; // the ';'
                        *channel = ((number(body, &mut i) * 255 + 50) / 100) as u8;
                    }
                    palette[index] = rgb;
                }
                colour = index;
            }
            b'!' => {
                i += 1;
                let count = number(body, &mut i);
                let bits = body[i] - 0x3f;
                i += 1;
                for _ in 0..count {
                    paint(&mut out, width, height, x, y, bits, palette[colour]);
                    x += 1;
                }
            }
            b'$' => {
                x = 0;
                i += 1;
            }
            b'-' => {
                x = 0;
                y += 6;
                i += 1;
            }
            0x1b => break,
            b => {
                assert!((0x3f..=0x7e).contains(&b), "unexpected byte {b:#x}");
                paint(&mut out, width, height, x, y, b - 0x3f, palette[colour]);
                x += 1;
                i += 1;
            }
        }
    }
    out
}

fn paint(out: &mut [u8], width: u32, height: u32, x: u32, y: u32, bits: u8, rgb: [u8; 3]) {
    for r in 0..6 {
        if bits & (1 << r) == 0 || y + r >= height || x >= width {
            continue;
        }
        let i = (((y + r) * width + x) * 3) as usize;
        out[i..i + 3].copy_from_slice(&rgb);
    }
}

#[test]
fn encodes_a_flat_image_compactly() {
    // Six red pixels in one row: one palette entry, one run.
    let rgb: Vec<u8> = [255, 0, 0].repeat(6);
    let out = encode(&rgb, 6, 1);
    assert_eq!(
        String::from_utf8(out).unwrap(),
        "\x1bPq\"1;1;6;1#0;2;100;0;0#0!6@-\x1b\\"
    );
}

/// Sixel carries colour as a percentage per channel, so a perfect byte
/// round trip is not available -- half a percent, about 1.3 levels, is the
/// format's own floor.
fn assert_close(got: &[u8], want: &[u8], tolerance: u8) {
    assert_eq!(got.len(), want.len(), "size");
    if let Some((i, (g, w))) = got
        .iter()
        .zip(want)
        .enumerate()
        .find(|(_, (g, w))| g.abs_diff(**w) > tolerance)
    {
        panic!("byte {i}: decoded {g}, encoded {w} (tolerance {tolerance})");
    }
}

#[test]
fn round_trips_a_multi_colour_image() {
    // 240 pixels, each a different colour: fewer than the palette holds, so
    // quantisation is lossless and only the format's own colour precision
    // stands between the input and what comes back.
    let (w, h) = (15u32, 16u32);
    let mut rgb = Vec::new();
    for y in 0..h {
        for x in 0..w {
            rgb.extend_from_slice(&[(x * 11) as u8, (y * 17) as u8, 64]);
        }
    }
    let decoded = decode(&encode(&rgb, w, h), w, h);
    assert_close(&decoded, &rgb, 2);
}

#[test]
fn round_trips_an_image_taller_than_one_band() {
    // Height not a multiple of six exercises the short final band.
    let (w, h) = (8u32, 20u32);
    let mut rgb = Vec::new();
    for y in 0..h {
        for x in 0..w {
            let v = ((x + y) % 2) as u8 * 255;
            rgb.extend_from_slice(&[v, 255 - v, 128]);
        }
    }
    // 0, 128 and 255 all land on exact percentages, so this one is lossless.
    assert_eq!(decode(&encode(&rgb, w, h), w, h), rgb);
}

#[test]
fn quantises_down_to_the_palette_limit() {
    // Every pixel a different colour: more than the palette can hold, so
    // the result must be capped and every pixel still mapped.
    let (w, h) = (40u32, 40u32);
    let mut rgb = Vec::new();
    for i in 0..(w * h) {
        rgb.extend_from_slice(&[(i % 256) as u8, (i / 7 % 256) as u8, (i / 13 % 256) as u8]);
    }
    let (palette, indices) = quantise(&rgb);
    assert!(palette.len() <= MAX_COLOURS, "{} colours", palette.len());
    assert_eq!(indices.len() as u32, w * h);
    assert!(indices.iter().all(|i| usize::from(*i) < palette.len()));
}

#[test]
fn quantisation_error_stays_small() {
    // Photographic-ish content: after quantisation no channel should be far
    // off, which is the property that makes the palette worth building.
    let (w, h) = (60u32, 60u32);
    let mut rgb = Vec::new();
    for y in 0..h {
        for x in 0..w {
            rgb.extend_from_slice(&[
                (x * 4 % 256) as u8,
                (y * 4 % 256) as u8,
                ((x + y) * 2 % 256) as u8,
            ]);
        }
    }
    let (palette, indices) = quantise(&rgb);
    let worst = rgb
        .chunks_exact(3)
        .zip(&indices)
        .map(|(px, i)| {
            let p = palette[usize::from(*i)];
            (0..3).map(|c| px[c].abs_diff(p[c])).max().unwrap()
        })
        .max()
        .unwrap();
    assert!(worst <= 16, "worst channel error was {worst}");
}

#[test]
fn encoding_is_deterministic() {
    let rgb: Vec<u8> = (0..300).map(|i| (i % 251) as u8).collect();
    assert_eq!(encode(&rgb, 10, 10), encode(&rgb, 10, 10));
}

#[test]
fn an_image_without_pixels_has_no_sequence() {
    assert!(encode(&[], 0, 5).is_empty());
    assert!(encode(&[], 5, 0).is_empty());
}

#[test]
fn two_colours_take_two_passes() {
    // Black above white: the first pass sets the upper row, the second goes
    // back and sets the lower one.
    let rgb = [0, 0, 0, 255, 255, 255];
    assert_eq!(
        String::from_utf8(encode(&rgb, 1, 2)).unwrap(),
        "\x1bPq\"1;1;1;2#0;2;0;0;0#1;2;100;100;100#0@$#1A-\x1b\\"
    );
}

#[test]
fn every_six_rows_end_once() {
    for (height, bands) in [(1u32, 1usize), (6, 1), (7, 2), (12, 2), (13, 3)] {
        let rgb: Vec<u8> = (0..2 * height * 3).map(|i| (i % 5) as u8 * 60).collect();
        let out = encode(&rgb, 2, height);
        assert!(out.starts_with(format!("\x1bPq\"1;1;2;{height}").as_bytes()));
        assert!(out.ends_with(b"\x1b\\"));
        assert_eq!(out.iter().filter(|b| **b == b'-').count(), bands);
    }
}

#[test]
fn no_pixel_is_painted_twice() {
    let (width, height) = (5u32, 8u32);
    let rgb: Vec<u8> = (0..width * height * 3).map(|i| (i * 37 % 251) as u8).collect();
    let out = encode(&rgb, width, height);
    let mut times = vec![0u32; (width * height) as usize];
    let (mut x, mut y, mut i) = (0u32, 0u32, 3usize);
    let mut count = 1u32;
    while out[i] != 0x1b {
        match out[i] {
            b'-' => (x, y) = (0, y + 6),
            b'$' => x = 0,
            b'!' => {
                count = 0;
                while out[i + 1].is_ascii_digit() {
                    i += 1;
                    count = count * 10 + u32::from(out[i] - b'0');
                }
            }
            b @ 0x3f..=0x7e => {
                for _ in 0..count {
                    for r in 0..6 {
                        if (b - 0x3f) >> r & 1 == 1 {
                            times[((y + r) * width + x) as usize] += 1;
                        }
                    }
                    x += 1;
                }
                count = 1;
            }
            _ => {}
        }
        i += 1;
    }
    assert!(times.iter().all(|n| *n == 1));
}
