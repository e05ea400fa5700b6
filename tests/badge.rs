use wpe::badge::{badge_label, draw_text, fill_capsule, glyph_rows, text_pixel_width, draw_upper_text};

#[test]
fn glyphs_exist_for_capitals_digits_dash_space() {
    assert_eq!(glyph_rows('A'), Some([0b01110, 0b10001, 0b10001, 0b11111, 0b10001, 0b10001, 0b10001]));
    assert_eq!(glyph_rows('-'), Some([0, 0, 0, 0b11111, 0, 0, 0]));
    assert_eq!(glyph_rows(' '), Some([0; 7]));
    assert!(glyph_rows('7').is_some());
    assert_eq!(glyph_rows('a'), None);
    assert_eq!(glyph_rows('_'), None);
}

#[test]
fn text_width_counts_glyphs_only() {
    assert_eq!(text_pixel_width(""), 0);
    assert_eq!(text_pixel_width("A"), 20);
    assert_eq!(text_pixel_width("DP-1"), 4 * 20 + 3 * 4);
    assert_eq!(text_pixel_width("a_b"), 0);
}

#[test]
fn capsule_corners_are_transparent_and_centre_coloured() {
    let (w, h) = (260u32, 88u32);
    let mut buf = vec![7u8; (w * h * 4) as usize];
    fill_capsule(&mut buf, w, h);
    let at = |x: u32, y: u32| ((y * w + x) * 4) as usize;
    assert_eq!(&buf[at(130, 44)..at(130, 44) + 4], &[0x6E, 0x00, 0x4B, 0xFF]);
    assert_eq!(&buf[at(0, 0)..at(0, 0) + 4], &[7, 7, 7, 0]);
    assert_eq!(&buf[at(259, 87)..at(259, 87) + 4], &[7, 7, 7, 0]);
    assert_eq!(&buf[at(44, 0)..at(44, 0) + 4], &[0x6E, 0x00, 0x4B, 0xFF]);
}

#[test]
fn text_is_drawn_centred_in_white() {
    let (w, h) = (260u32, 88u32);
    let mut buf = vec![0u8; (w * h * 4) as usize];
    draw_text(&mut buf, w, h, "i");
    // "I" is 20 pixels wide: it starts at (260 - 20) / 2 = 120, top at (88 - 28) / 2 = 30.
    // Its first row is 0b01110: dots 1..=3 are set, dot 0 is not.
    let at = |x: u32, y: u32| ((y * w + x) * 4) as usize;
    assert_eq!(&buf[at(124, 30)..at(124, 30) + 4], &[0xFF; 4]);
    assert_eq!(&buf[at(120, 30)..at(120, 30) + 4], &[0; 4]);
    assert_eq!(&buf[at(127, 33)..at(127, 33) + 4], &[0xFF; 4]);
    assert_eq!(&buf[at(124, 29)..at(124, 29) + 4], &[0; 4]);
    let lit = buf.chunks(4).filter(|p| p[0] == 0xFF).count();
    // 'I' has 3 + 1 * 5 + 3 = 11 dots of 16 pixels each.
    assert_eq!(lit, 11 * 16);
}

#[test]
fn long_text_stops_at_the_right_edge() {
    let (w, h) = (60u32, 40u32);
    let mut buf = vec![0u8; (w * h * 4) as usize];
    draw_upper_text(&mut buf, w, h, "HHHH");
    // The start is clamped to 8; two characters fit (32 + 20 < 60), the third
    // would reach the edge (56 + 20 >= 60).
    let at = |x: u32, y: u32| ((y * w + x) * 4) as usize;
    assert_eq!(buf[at(8, 6)], 0xFF);
    assert_eq!(buf[at(33, 6)], 0xFF);
    assert!((0..h).all(|y| buf[at(57, y)] == 0));
}

#[test]
fn badge_label_falls_back() {
    assert_eq!(badge_label(Some("DP-1".into()), Some("Dell".into())), "DP-1");
    assert_eq!(badge_label(None, Some("Dell".into())), "Dell");
    assert_eq!(badge_label(None, None), "Display");
}

#[test]
fn capsule_fills_tall_buffers() {
    let (w, h) = (2u32, 65535u32);
    let mut buf = vec![9u8; (w * h * 4) as usize];
    fill_capsule(&mut buf, w, h);
    // radius 32767: every pixel of a 2-wide badge lies in the left half disc's
    // column band, and the middle row is inside.
    let at = |x: u32, y: u32| ((y * w + x) * 4) as usize;
    assert_eq!(&buf[at(0, 32767)..at(0, 32767) + 4], &[0x6E, 0x00, 0x4B, 0xFF]);
    assert_eq!(&buf[at(0, 0)..at(0, 0) + 4], &[9, 9, 9, 0]);
}
