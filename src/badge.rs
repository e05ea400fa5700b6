//! The badge that names each output: a rounded capsule with the output's
//! name in a small bitmap font, drawn into an ARGB8888 pixel buffer.
use vstd::prelude::*;

use vstd::string::*;

use crate::text::chars_of;

verus! {

pub const BADGE_WIDTH: u32 = 260;
pub const BADGE_HEIGHT: u32 = 88;
/// Columns of a glyph.
pub const GLYPH_WIDTH: u32 = 5;
/// Pixels per glyph dot.
pub const GLYPH_SCALE: u32 = 4;

/// The capsule colour, byte by byte.
pub open spec fn badge_bg(c: int) -> u8 {
    if c == 0 {
        0x6E
    } else if c == 1 {
        0x00
    } else if c == 2 {
        0x4B
    } else {
        0xFF
    }
}

/// Every byte of the text colour.
pub const TEXT_BYTE: u8 = 0xFF;

/// The characters the bitmap font has: capitals, digits, `-` and space.
pub open spec fn has_glyph(ch: char) -> bool {
    ('A' <= ch <= 'Z') || ('0' <= ch <= '9') || ch == '-' || ch == ' '
}

/// The bitmap font: seven rows of five dots per glyph, the high bit of each
/// row leftmost.
pub open spec fn font(ch: char) -> Option<Seq<u8>> {
    match ch {
        'A' => Some(seq![0b01110u8, 0b10001u8, 0b10001u8, 0b11111u8, 0b10001u8, 0b10001u8, 0b10001u8]),
        'B' => Some(seq![0b11110u8, 0b10001u8, 0b11110u8, 0b10001u8, 0b10001u8, 0b10001u8, 0b11110u8]),
        'C' => Some(seq![0b01110u8, 0b10001u8, 0b10000u8, 0b10000u8, 0b10000u8, 0b10001u8, 0b01110u8]),
        'D' => Some(seq![0b11100u8, 0b10010u8, 0b10001u8, 0b10001u8, 0b10001u8, 0b10010u8, 0b11100u8]),
        'E' => Some(seq![0b11111u8, 0b10000u8, 0b11110u8, 0b10000u8, 0b10000u8, 0b10000u8, 0b11111u8]),
        'F' => Some(seq![0b11111u8, 0b10000u8, 0b11110u8, 0b10000u8, 0b10000u8, 0b10000u8, 0b10000u8]),
        'G' => Some(seq![0b01110u8, 0b10001u8, 0b10000u8, 0b10111u8, 0b10001u8, 0b10001u8, 0b01111u8]),
        'H' => Some(seq![0b10001u8, 0b10001u8, 0b11111u8, 0b10001u8, 0b10001u8, 0b10001u8, 0b10001u8]),
        'I' => Some(seq![0b01110u8, 0b00100u8, 0b00100u8, 0b00100u8, 0b00100u8, 0b00100u8, 0b01110u8]),
        'J' => Some(seq![0b00111u8, 0b00010u8, 0b00010u8, 0b00010u8, 0b10010u8, 0b10010u8, 0b01100u8]),
        'K' => Some(seq![0b10001u8, 0b10010u8, 0b10100u8, 0b11000u8, 0b10100u8, 0b10010u8, 0b10001u8]),
        'L' => Some(seq![0b10000u8, 0b10000u8, 0b10000u8, 0b10000u8, 0b10000u8, 0b10000u8, 0b11111u8]),
        'M' => Some(seq![0b10001u8, 0b11011u8, 0b10101u8, 0b10101u8, 0b10001u8, 0b10001u8, 0b10001u8]),
        'N' => Some(seq![0b10001u8, 0b11001u8, 0b10101u8, 0b10011u8, 0b10001u8, 0b10001u8, 0b10001u8]),
        'O' => Some(seq![0b01110u8, 0b10001u8, 0b10001u8, 0b10001u8, 0b10001u8, 0b10001u8, 0b01110u8]),
        'P' => Some(seq![0b11110u8, 0b10001u8, 0b10001u8, 0b11110u8, 0b10000u8, 0b10000u8, 0b10000u8]),
        'Q' => Some(seq![0b01110u8, 0b10001u8, 0b10001u8, 0b10001u8, 0b10101u8, 0b10010u8, 0b01101u8]),
        'R' => Some(seq![0b11110u8, 0b10001u8, 0b10001u8, 0b11110u8, 0b10100u8, 0b10010u8, 0b10001u8]),
        'S' => Some(seq![0b01110u8, 0b10001u8, 0b10000u8, 0b01110u8, 0b00001u8, 0b10001u8, 0b01110u8]),
        'T' => Some(seq![0b11111u8, 0b00100u8, 0b00100u8, 0b00100u8, 0b00100u8, 0b00100u8, 0b00100u8]),
        'U' => Some(seq![0b10001u8, 0b10001u8, 0b10001u8, 0b10001u8, 0b10001u8, 0b10001u8, 0b01110u8]),
        'V' => Some(seq![0b10001u8, 0b10001u8, 0b10001u8, 0b10001u8, 0b10001u8, 0b01010u8, 0b00100u8]),
        'W' => Some(seq![0b10001u8, 0b10001u8, 0b10001u8, 0b10101u8, 0b10101u8, 0b10101u8, 0b01010u8]),
        'X' => Some(seq![0b10001u8, 0b10001u8, 0b01010u8, 0b00100u8, 0b01010u8, 0b10001u8, 0b10001u8]),
        'Y' => Some(seq![0b10001u8, 0b10001u8, 0b01010u8, 0b00100u8, 0b00100u8, 0b00100u8, 0b00100u8]),
        'Z' => Some(seq![0b11111u8, 0b00001u8, 0b00010u8, 0b00100u8, 0b01000u8, 0b10000u8, 0b11111u8]),
        '0' => Some(seq![0b01110u8, 0b10011u8, 0b10101u8, 0b10101u8, 0b11001u8, 0b10001u8, 0b01110u8]),
        '1' => Some(seq![0b00100u8, 0b01100u8, 0b00100u8, 0b00100u8, 0b00100u8, 0b00100u8, 0b01110u8]),
        '2' => Some(seq![0b01110u8, 0b10001u8, 0b00001u8, 0b00110u8, 0b01000u8, 0b10000u8, 0b11111u8]),
        '3' => Some(seq![0b11110u8, 0b00001u8, 0b00001u8, 0b01110u8, 0b00001u8, 0b00001u8, 0b11110u8]),
        '4' => Some(seq![0b10010u8, 0b10010u8, 0b10010u8, 0b11111u8, 0b00010u8, 0b00010u8, 0b00010u8]),
        '5' => Some(seq![0b11111u8, 0b10000u8, 0b10000u8, 0b11110u8, 0b00001u8, 0b00001u8, 0b11110u8]),
        '6' => Some(seq![0b01110u8, 0b10000u8, 0b10000u8, 0b11110u8, 0b10001u8, 0b10001u8, 0b01110u8]),
        '7' => Some(seq![0b11111u8, 0b00001u8, 0b00010u8, 0b00100u8, 0b01000u8, 0b01000u8, 0b01000u8]),
        '8' => Some(seq![0b01110u8, 0b10001u8, 0b10001u8, 0b01110u8, 0b10001u8, 0b10001u8, 0b01110u8]),
        '9' => Some(seq![0b01110u8, 0b10001u8, 0b10001u8, 0b01111u8, 0b00001u8, 0b00001u8, 0b01110u8]),
        '-' => Some(seq![0b00000u8, 0b00000u8, 0b00000u8, 0b11111u8, 0b00000u8, 0b00000u8, 0b00000u8]),
        ' ' => Some(seq![0u8, 0u8, 0u8, 0u8, 0u8, 0u8, 0u8]),
        _ => None,
    }
}

/// The rows of `ch`'s glyph in the bitmap font.
pub fn glyph_rows(ch: char) -> (r: Option<[u8; 7]>)
    ensures
        r is Some <==> has_glyph(ch),
        match r {
            Some(rows) => font(ch) == Some(rows@),
            None => font(ch) is None,
        },
{
    match ch {
        'A' => Some([0b01110, 0b10001, 0b10001, 0b11111, 0b10001, 0b10001, 0b10001]),
        'B' => Some([0b11110, 0b10001, 0b11110, 0b10001, 0b10001, 0b10001, 0b11110]),
        'C' => Some([0b01110, 0b10001, 0b10000, 0b10000, 0b10000, 0b10001, 0b01110]),
        'D' => Some([0b11100, 0b10010, 0b10001, 0b10001, 0b10001, 0b10010, 0b11100]),
        'E' => Some([0b11111, 0b10000, 0b11110, 0b10000, 0b10000, 0b10000, 0b11111]),
        'F' => Some([0b11111, 0b10000, 0b11110, 0b10000, 0b10000, 0b10000, 0b10000]),
        'G' => Some([0b01110, 0b10001, 0b10000, 0b10111, 0b10001, 0b10001, 0b01111]),
        'H' => Some([0b10001, 0b10001, 0b11111, 0b10001, 0b10001, 0b10001, 0b10001]),
        'I' => Some([0b01110, 0b00100, 0b00100, 0b00100, 0b00100, 0b00100, 0b01110]),
        'J' => Some([0b00111, 0b00010, 0b00010, 0b00010, 0b10010, 0b10010, 0b01100]),
        'K' => Some([0b10001, 0b10010, 0b10100, 0b11000, 0b10100, 0b10010, 0b10001]),
        'L' => Some([0b10000, 0b10000, 0b10000, 0b10000, 0b10000, 0b10000, 0b11111]),
        'M' => Some([0b10001, 0b11011, 0b10101, 0b10101, 0b10001, 0b10001, 0b10001]),
        'N' => Some([0b10001, 0b11001, 0b10101, 0b10011, 0b10001, 0b10001, 0b10001]),
        'O' => Some([0b01110, 0b10001, 0b10001, 0b10001, 0b10001, 0b10001, 0b01110]),
        'P' => Some([0b11110, 0b10001, 0b10001, 0b11110, 0b10000, 0b10000, 0b10000]),
        'Q' => Some([0b01110, 0b10001, 0b10001, 0b10001, 0b10101, 0b10010, 0b01101]),
        'R' => Some([0b11110, 0b10001, 0b10001, 0b11110, 0b10100, 0b10010, 0b10001]),
        'S' => Some([0b01110, 0b10001, 0b10000, 0b01110, 0b00001, 0b10001, 0b01110]),
        'T' => Some([0b11111, 0b00100, 0b00100, 0b00100, 0b00100, 0b00100, 0b00100]),
        'U' => Some([0b10001, 0b10001, 0b10001, 0b10001, 0b10001, 0b10001, 0b01110]),
        'V' => Some([0b10001, 0b10001, 0b10001, 0b10001, 0b10001, 0b01010, 0b00100]),
        'W' => Some([0b10001, 0b10001, 0b10001, 0b10101, 0b10101, 0b10101, 0b01010]),
        'X' => Some([0b10001, 0b10001, 0b01010, 0b00100, 0b01010, 0b10001, 0b10001]),
        'Y' => Some([0b10001, 0b10001, 0b01010, 0b00100, 0b00100, 0b00100, 0b00100]),
        'Z' => Some([0b11111, 0b00001, 0b00010, 0b00100, 0b01000, 0b10000, 0b11111]),
        '0' => Some([0b01110, 0b10011, 0b10101, 0b10101, 0b11001, 0b10001, 0b01110]),
        '1' => Some([0b00100, 0b01100, 0b00100, 0b00100, 0b00100, 0b00100, 0b01110]),
        '2' => Some([0b01110, 0b10001, 0b00001, 0b00110, 0b01000, 0b10000, 0b11111]),
        '3' => Some([0b11110, 0b00001, 0b00001, 0b01110, 0b00001, 0b00001, 0b11110]),
        '4' => Some([0b10010, 0b10010, 0b10010, 0b11111, 0b00010, 0b00010, 0b00010]),
        '5' => Some([0b11111, 0b10000, 0b10000, 0b11110, 0b00001, 0b00001, 0b11110]),
        '6' => Some([0b01110, 0b10000, 0b10000, 0b11110, 0b10001, 0b10001, 0b01110]),
        '7' => Some([0b11111, 0b00001, 0b00010, 0b00100, 0b01000, 0b01000, 0b01000]),
        '8' => Some([0b01110, 0b10001, 0b10001, 0b01110, 0b10001, 0b10001, 0b01110]),
        '9' => Some([0b01110, 0b10001, 0b10001, 0b01111, 0b00001, 0b00001, 0b01110]),
        '-' => Some([0b00000, 0b00000, 0b00000, 0b11111, 0b00000, 0b00000, 0b00000]),
        ' ' => Some([0; 7]),
        _ => None,
    }
}

/// How many characters of `s` have a glyph.
pub open spec fn glyph_count(s: Seq<char>) -> nat
    decreases s.len(),
{
    if s.len() == 0 {
        0
    } else {
        glyph_count(s.drop_last()) + if has_glyph(s.last()) {
            1nat
        } else {
            0nat
        }
    }
}

proof fn lemma_glyph_count_bound(s: Seq<char>)
    ensures
        glyph_count(s) <= s.len(),
    decreases s.len(),
{
    if s.len() > 0 {
        lemma_glyph_count_bound(s.drop_last());
    }
}

/// The width of `n` glyphs set side by side, one dot apart.
pub open spec fn run_width(n: nat) -> nat {
    if n == 0 {
        0
    } else {
        (24 * n - 4) as nat
    }
}

/// The rendered width of `text`, in pixels: characters without a glyph take
/// no room.
pub fn text_pixel_width(text: &str) -> (r: u32)
    requires
        text@.len() <= 100_000_000,
    ensures
        r == run_width(glyph_count(text@)),
{
    let cs = chars_of(text);
    let mut width: u32 = 0;
    let mut first = true;
    let mut i: usize = 0;
    while i < cs.len()
        invariant
            cs@ == text@,
            cs@.len() <= 100_000_000,
            i <= cs@.len(),
            glyph_count(cs@.subrange(0, i as int)) <= i,
            width == run_width(glyph_count(cs@.subrange(0, i as int))),
            first == (glyph_count(cs@.subrange(0, i as int)) == 0),
        decreases cs@.len() - i,
    {
        proof {
            assert(cs@.subrange(0, i + 1).drop_last() =~= cs@.subrange(0, i as int));
        }
        if glyph_rows(cs[i]).is_some() {
            if !first {
                width = width + GLYPH_SCALE;
            }
            width = width + GLYPH_WIDTH * GLYPH_SCALE;
            first = false;
        }
        i = i + 1;
    }
    assert(cs@.subrange(0, cs@.len() as int) =~= cs@);
    width
}

/// Whether pixel `(x, y)` of a `w` by `h` badge lies inside the capsule: a
/// rectangle whose left and right ends are half discs of radius `h / 2`.
pub open spec fn capsule_inside(w: int, h: int, x: int, y: int) -> bool {
    let r = h / 2;
    let dy = h / 2 - y;
    if x < r {
        (r - x) * (r - x) + dy * dy <= r * r
    } else if x >= w - r {
        (x - (w - r)) * (x - (w - r)) + dy * dy <= r * r
    } else {
        true
    }
}

pub open spec fn pixel_offset(w: int, x: int, y: int) -> int {
    (y * w + x) * 4
}

/// Pixel `(x, y)` after filling: the capsule colour inside, transparent
/// outside with its colour bytes kept.
pub open spec fn filled_pixel(old: Seq<u8>, new: Seq<u8>, w: int, h: int, x: int, y: int) -> bool {
    let o = pixel_offset(w, x, y);
    if capsule_inside(w, h, x, y) {
        new[o] == badge_bg(0) && new[o + 1] == badge_bg(1) && new[o + 2] == badge_bg(2)
            && new[o + 3] == badge_bg(3)
    } else {
        new[o] == old[o] && new[o + 1] == old[o + 1] && new[o + 2] == old[o + 2] && new[o + 3]
            == 0
    }
}

proof fn lemma_earlier_row(w: int, x: int, y0: int, y: int)
    requires
        0 <= x < w,
        0 <= y0 < y,
    ensures
        pixel_offset(w, x, y0) + 3 < y * w * 4,
{
    assert((y0 * w + x) * 4 + 3 < y * w * 4) by (nonlinear_arith)
        requires
            0 <= x < w,
            0 <= y0 < y,
    ;
}

proof fn lemma_square_bound(a: int)
    requires
        -32767 <= a <= 32767,
    ensures
        0 <= a * a <= 1_073_676_289,
{
    assert(0 <= a * a <= 1_073_676_289) by (nonlinear_arith)
        requires
            -32767 <= a <= 32767,
    ;
}

fn inside(w: i32, h: i32, x: i32, y: i32) -> (r: bool)
    requires
        0 <= h <= 65535,
        0 <= y < h,
        0 <= x < w,
    ensures
        r == capsule_inside(w as int, h as int, x as int, y as int),
{
    let radius = h / 2;
    let center_y = h / 2;
    let right_center = w - radius;
    let dy = center_y - y;
    proof {
        lemma_square_bound(dy as int);
        lemma_square_bound(radius as int);
    }
    if x < radius {
        let dx = radius - x;
        proof {
            lemma_square_bound(dx as int);
        }
        dx * dx + dy * dy <= radius * radius
    } else if x >= right_center {
        let dx = x - right_center;
        proof {
            lemma_square_bound(dx as int);
        }
        dx * dx + dy * dy <= radius * radius
    } else {
        true
    }
}

/// Paints the capsule into a `width` by `height` buffer: capsule pixels get
/// the badge colour, the others become transparent.
pub fn fill_capsule(buffer: &mut Vec<u8>, width: u32, height: u32)
    requires
        old(buffer)@.len() == width * height * 4,
        width <= 0x7fff_ffff,
        height <= 65535,
    ensures
        final(buffer)@.len() == old(buffer)@.len(),
        forall|x: int, y: int|
            0 <= x < width && 0 <= y < height ==> #[trigger] filled_pixel(
                old(buffer)@,
                final(buffer)@,
                width as int,
                height as int,
                x,
                y,
            ),
{
    let ghost start = buffer@;
    let ghost w = width as int;
    let ghost h = height as int;
    let total = buffer.len();
    let mut y: u32 = 0;
    while y < height
        invariant
            start == old(buffer)@,
            w == width,
            h == height,
            width <= 0x7fff_ffff,
            height <= 65535,
            buffer@.len() == start.len() == w * h * 4,
            total == buffer@.len(),
            y <= height,
            forall|x0: int, y0: int|
                0 <= x0 < w && 0 <= y0 < y ==> #[trigger] filled_pixel(start, buffer@, w, h, x0, y0),
            forall|i: int| y * w * 4 <= i < buffer@.len() ==> buffer@[i] == start[i],
        decreases height - y,
    {
        assert((y as int) * w * 4 + w * 4 <= w * h * 4) by (nonlinear_arith)
            requires
                0 <= y < h,
                0 <= w,
        ;
        let base: usize = (y as usize) * (width as usize) * 4;
        let ghost row = buffer@;
        let mut x: u32 = 0;
        while x < width
            invariant
                start == old(buffer)@,
                w == width,
                h == height,
                width <= 0x7fff_ffff,
                height <= 65535,
                buffer@.len() == start.len() == w * h * 4,
                total == buffer@.len(),
                y < height,
                base == y * w * 4,
                base + w * 4 <= w * h * 4,
                x <= width,
                forall|x0: int, y0: int|
                    0 <= x0 < w && 0 <= y0 < y ==> #[trigger] filled_pixel(
                        start,
                        buffer@,
                        w,
                        h,
                        x0,
                        y0,
                    ),
                forall|x0: int|
                    0 <= x0 < x ==> #[trigger] filled_pixel(start, buffer@, w, h, x0, y as int),
                forall|i: int| base + x * 4 <= i < buffer@.len() ==> buffer@[i] == start[i],
            decreases width - x,
        {
            let o: usize = base + (x as usize) * 4;
            let ghost before = buffer@;
            let lit = inside(width as i32, height as i32, x as i32, y as i32);
            if lit {
                buffer.set(o, 0x6E);
                buffer.set(o + 1, 0x00);
                buffer.set(o + 2, 0x4B);
                buffer.set(o + 3, 0xFF);
            } else {
                buffer.set(o + 3, 0);
            }
            proof {
                assert(pixel_offset(w, x as int, y as int) == o);
                assert forall|x0: int, y0: int|
                    0 <= x0 < w && 0 <= y0 < y implies #[trigger] filled_pixel(
                    start,
                    buffer@,
                    w,
                    h,
                    x0,
                    y0,
                ) by {
                    lemma_earlier_row(w, x0, y0, y as int);
                    assert(filled_pixel(start, before, w, h, x0, y0));
                }
                assert forall|x0: int|
                    0 <= x0 <= x implies #[trigger] filled_pixel(
                    start,
                    buffer@,
                    w,
                    h,
                    x0,
                    y as int,
                ) by {
                    if x0 < x {
                        assert(filled_pixel(start, before, w, h, x0, y as int));
                    }
                }
            }
            x = x + 1;
        }
        assert((y as int + 1) * w * 4 == base + w * 4) by (nonlinear_arith)
            requires
                base == y * w * 4,
        ;
        y = y + 1;
    }
}

/// `a / 2` rounded toward zero, as integer division does.
pub open spec fn half(a: int) -> int {
    if a >= 0 {
        a / 2
    } else {
        -((-a) / 2)
    }
}

/// Where the text starts: centred, but at least 8 pixels from the left.
pub open spec fn text_left(w: int, upper: Seq<char>) -> int {
    let c = half(w - run_width(glyph_count(upper)) as int);
    if c < 8 {
        8
    } else {
        c
    }
}

/// Where the text starts: centred, but at least 4 pixels from the top.
pub open spec fn text_top(h: int) -> int {
    let c = half(h - 28);
    if c < 4 {
        4
    } else {
        c
    }
}

/// Dot `c` (0 leftmost) of glyph row `row` is set.
pub open spec fn dot_set(row: u8, c: int) -> bool {
    (row >> ((4 - c) as u8)) & 1u8 == 1u8
}

/// Whether pixel `(x, y)` is painted by the text `upper`: every character
/// takes a cell 24 pixels wide (20 of glyph, 4 of gap), characters are laid
/// out until one would reach the right edge, and a glyph's set dot covers
/// 4 by 4 pixels.
pub open spec fn text_lit(upper: Seq<char>, w: int, h: int, x: int, y: int) -> bool {
    let dx = x - text_left(w, upper);
    let dy = y - text_top(h);
    let k = dx / 24;
    &&& 0 <= dx
    &&& 0 <= dy < 28
    &&& dx % 24 < 20
    &&& k < upper.len()
    &&& text_left(w, upper) + 24 * k + 20 < w
    &&& font(upper[k]) matches Some(rows) && dot_set(rows[dy / 4], (dx % 24) / 4)
}

/// The pixel that byte `i` of a `w` pixels wide buffer belongs to.
pub open spec fn pixel_x(w: int, i: int) -> int {
    (i / 4) % w
}

pub open spec fn pixel_y(w: int, i: int) -> int {
    (i / 4) / w
}

/// Byte `i` after drawing: the text colour on painted pixels, else as before.
pub open spec fn drawn_byte(old: Seq<u8>, upper: Seq<char>, w: int, h: int, i: int) -> u8 {
    if text_lit(upper, w, h, pixel_x(w, i), pixel_y(w, i)) {
        TEXT_BYTE
    } else {
        old[i]
    }
}

proof fn lemma_pixel_of(w: int, x: int, y: int, c: int)
    requires
        0 <= x < w,
        0 <= y,
        0 <= c < 4,
    ensures
        pixel_x(w, (y * w + x) * 4 + c) == x,
        pixel_y(w, (y * w + x) * 4 + c) == y,
{
    let i = (y * w + x) * 4 + c;
    vstd::arithmetic::div_mod::lemma_fundamental_div_mod_converse(i, 4, y * w + x, c);
    vstd::arithmetic::div_mod::lemma_fundamental_div_mod_converse(y * w + x, w, y, x);
}

proof fn lemma_pixel_in_range(w: int, h: int, i: int)
    requires
        0 < w,
        0 <= i < w * h * 4,
    ensures
        0 <= pixel_x(w, i) < w,
        0 <= pixel_y(w, i) < h,
{
    let p = i / 4;
    assert(0 <= p < w * h);
    vstd::arithmetic::div_mod::lemma_div_pos_is_pos(p, w);
    vstd::arithmetic::div_mod::lemma_mod_bound(p, w);
    vstd::arithmetic::div_mod::lemma_fundamental_div_mod(p, w);
    let q = p / w;
    let r = p % w;
    assert(q < h) by (nonlinear_arith)
        requires
            p == w * q + r,
            0 <= r,
            p < w * h,
            0 < w,
    ;
}

/// Paints the upper-cased `upper` onto a `width` by `height` buffer.
pub fn draw_upper_text(buffer: &mut Vec<u8>, width: u32, height: u32, upper: &str)
    requires
        old(buffer)@.len() == width * height * 4,
        0 < width <= 0x3fff_ffff,
        height <= 0x3fff_ffff,
        upper@.len() <= 10_000_000,
    ensures
        final(buffer)@.len() == old(buffer)@.len(),
        forall|i: int|
            0 <= i < old(buffer)@.len() ==> #[trigger] final(buffer)@[i] == drawn_byte(
                old(buffer)@,
                upper@,
                width as int,
                height as int,
                i,
            ),
{
    let cs = chars_of(upper);
    let ghost start = buffer@;
    let ghost w = width as int;
    let ghost h = height as int;
    let ghost u = upper@;
    let total = buffer.len();
    proof {
        lemma_glyph_count_bound(u);
    }
    let tw = text_pixel_width(upper) as i32;
    let dxw: i32 = width as i32 - tw;
    let cx: i32 = if dxw >= 0 {
        dxw / 2
    } else {
        -((-dxw) / 2)
    };
    let left: i32 = if cx < 8 {
        8
    } else {
        cx
    };
    let dyh: i32 = height as i32 - 28;
    let cy: i32 = if dyh >= 0 {
        dyh / 2
    } else {
        -((-dyh) / 2)
    };
    let top: i32 = if cy < 4 {
        4
    } else {
        cy
    };
    assert(left == text_left(w, u));
    assert(top == text_top(h));
    let mut cursor: i32 = left;
    let mut k: usize = 0;
    while k < cs.len() && cursor + 20 < width as i32
        invariant
            cs@ == u,
            u.len() <= 10_000_000,
            start == old(buffer)@,
            w == width,
            h == height,
            0 < width <= 0x3fff_ffff,
            height <= 0x3fff_ffff,
            total == buffer@.len() == start.len() == w * h * 4,
            left == text_left(w, u),
            top == text_top(h),
            8 <= left,
            4 <= top,
            k <= cs@.len(),
            cursor == left + 24 * k,
            cursor < w + 24,
            forall|i: int|
                0 <= i < total ==> #[trigger] buffer@[i] == if text_lit(
                    u,
                    w,
                    h,
                    pixel_x(w, i),
                    pixel_y(w, i),
                ) && (pixel_x(w, i) - left) / 24 < k {
                    TEXT_BYTE
                } else {
                    start[i]
                },
        decreases cs@.len() - k,
    {
        let glyph = glyph_rows(cs[k]);
        if let Some(rows) = glyph {
            let mut dy: i32 = 0;
            while dy < 28
                invariant
                    cs@ == u,
                    start == old(buffer)@,
                    w == width,
                    h == height,
                    0 < width <= 0x3fff_ffff,
                    height <= 0x3fff_ffff,
                    total == buffer@.len() == start.len() == w * h * 4,
                    left == text_left(w, u),
                    top == text_top(h),
                    8 <= left,
                    4 <= top,
                    k < cs@.len(),
                    cursor == left + 24 * k,
                    cursor + 20 < w,
                    font(u[k as int]) == Some(rows@),
                    0 <= dy <= 28,
                    forall|i: int|
                        0 <= i < total ==> #[trigger] buffer@[i] == if text_lit(
                            u,
                            w,
                            h,
                            pixel_x(w, i),
                            pixel_y(w, i),
                        ) && ((pixel_x(w, i) - left) / 24 < k || ((pixel_x(w, i) - left) / 24
                            == k && pixel_y(w, i) - top < dy)) {
                            TEXT_BYTE
                        } else {
                            start[i]
                        },
                decreases 28 - dy,
            {
                let mut dx: i32 = 0;
                while dx < 20
                    invariant
                        cs@ == u,
                        start == old(buffer)@,
                        w == width,
                        h == height,
                        0 < width <= 0x3fff_ffff,
                        height <= 0x3fff_ffff,
                        total == buffer@.len() == start.len() == w * h * 4,
                        left == text_left(w, u),
                        top == text_top(h),
                        8 <= left,
                        4 <= top,
                        k < cs@.len(),
                        cursor == left + 24 * k,
                        cursor + 20 < w,
                        font(u[k as int]) == Some(rows@),
                        0 <= dy < 28,
                        0 <= dx <= 20,
                        forall|i: int|
                            0 <= i < total ==> #[trigger] buffer@[i] == if text_lit(
                                u,
                                w,
                                h,
                                pixel_x(w, i),
                                pixel_y(w, i),
                            ) && ((pixel_x(w, i) - left) / 24 < k || ((pixel_x(w, i) - left)
                                / 24 == k && (pixel_y(w, i) - top < dy || (pixel_y(w, i) - top
                                == dy && (pixel_x(w, i) - left) % 24 < dx)))) {
                                TEXT_BYTE
                            } else {
                                start[i]
                            },
                    decreases 20 - dx,
                {
                    let row = rows[(dy / 4) as usize];
                    let set = (row >> ((4 - dx / 4) as u8)) & 1u8 == 1u8;
                    let px = cursor + dx;
                    let py = top + dy;
                    let ghost before = buffer@;
                    let painted = set && py < height as i32;
                    if painted {
                        assert(((py as int) * w + px) * 4 + 4 <= w * h * 4) by (nonlinear_arith)
                            requires
                                0 <= py < h,
                                0 <= px < w,
                        ;
                        let o: usize = ((py as usize) * (width as usize) + (px as usize)) * 4;
                        buffer.set(o, TEXT_BYTE);
                        buffer.set(o + 1, TEXT_BYTE);
                        buffer.set(o + 2, TEXT_BYTE);
                        buffer.set(o + 3, TEXT_BYTE);
                    }
                    proof {
                        let gx = px as int;
                        let gy = py as int;
                        vstd::arithmetic::div_mod::lemma_fundamental_div_mod_converse(
                            gx - left,
                            24,
                            k as int,
                            dx as int,
                        );
                        vstd::arithmetic::div_mod::lemma_fundamental_div_mod_converse(
                            dx as int,
                            4,
                            (dx / 4) as int,
                            (dx % 4) as int,
                        );
                        assert forall|i: int| 0 <= i < total implies #[trigger] buffer@[i] == if text_lit(
                            u,
                            w,
                            h,
                            pixel_x(w, i),
                            pixel_y(w, i),
                        ) && ((pixel_x(w, i) - left) / 24 < k || ((pixel_x(w, i) - left) / 24
                            == k && (pixel_y(w, i) - top < dy || (pixel_y(w, i) - top == dy
                            && (pixel_x(w, i) - left) % 24 < dx + 1)))) {
                            TEXT_BYTE
                        } else {
                            start[i]
                        } by {
                            lemma_pixel_in_range(w, h, i);
                            let x = pixel_x(w, i);
                            let y = pixel_y(w, i);
                            let q = i / 4;
                            vstd::arithmetic::div_mod::lemma_fundamental_div_mod(i, 4);
                            vstd::arithmetic::div_mod::lemma_fundamental_div_mod(q, w);
                            vstd::arithmetic::div_mod::lemma_mod_bound(i, 4);
                            if x - left >= 0 {
                                vstd::arithmetic::div_mod::lemma_fundamental_div_mod(x - left, 24);
                                vstd::arithmetic::div_mod::lemma_mod_bound(x - left, 24);
                            }
                            if x == gx && y == gy {
                                assert(w * gy == gy * w) by (nonlinear_arith);
                                assert(q == gy * w + gx);
                                assert((gy * w + gx) * 4 <= i < (gy * w + gx) * 4 + 4);
                                if painted {
                                    assert(text_lit(u, w, h, x, y));
                                }
                            } else {
                                let o = (gy * w + gx) * 4;
                                if painted && o <= i < o + 4 {
                                    lemma_pixel_of(w, gx, gy, i - o);
                                }
                                assert(buffer@[i] == before[i]);
                                if (x - left) / 24 == k && y - top == dy && (x - left) % 24 == dx {
                                    assert(x - left == 24 * k + dx);
                                }
                            }
                        }
                    }
                    dx = dx + 1;
                }
                dy = dy + 1;
            }
        }
        cursor = cursor + 24;
        k = k + 1;
    }
}

/// What `str::to_uppercase` gives for `s`: the full Unicode upper-casing.
pub uninterp spec fn upper_of(s: Seq<char>) -> Seq<char>;

/// Relies on `str::to_uppercase`: the result depends on the characters alone.
#[verifier::external_body]
fn uppercase(s: &str) -> (r: String)
    ensures
        r@ == upper_of(s@),
{
    s.to_uppercase()
}

/// Paints `text`, upper-cased, onto a `width` by `height` buffer.  A text
/// whose upper-cased form exceeds ten million characters is not drawn.
pub fn draw_text(buffer: &mut Vec<u8>, width: u32, height: u32, text: &str)
    requires
        old(buffer)@.len() == width * height * 4,
        0 < width <= 0x3fff_ffff,
        height <= 0x3fff_ffff,
    ensures
        final(buffer)@.len() == old(buffer)@.len(),
        upper_of(text@).len() > 10_000_000 ==> final(buffer)@ == old(buffer)@,
        upper_of(text@).len() <= 10_000_000 ==> forall|i: int|
            0 <= i < old(buffer)@.len() ==> #[trigger] final(buffer)@[i] == drawn_byte(
                old(buffer)@,
                upper_of(text@),
                width as int,
                height as int,
                i,
            ),
{
    let upper = uppercase(text);
    if upper.as_str().unicode_len() > 10_000_000 {
        return;
    }
    draw_upper_text(buffer, width, height, upper.as_str());
}

/// The name a badge shows: the output's name, else its description, else
/// "Display".
pub fn badge_label(name: Option<String>, description: Option<String>) -> (r: String)
    ensures
        r@ == match name {
            Some(n) => n@,
            None => match description {
                Some(d) => d@,
                None => "Display"@,
            },
        },
{
    match name {
        Some(n) => n,
        None => match description {
            Some(d) => d,
            None => "Display".to_owned(),
        },
    }
}

} // verus!
