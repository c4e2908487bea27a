use boot_handoff::console::{write_text, ConsoleCursor, Glyph, GlyphSet};
use boot_handoff::surface::PixelSurface;

const BG: u32 = 0x000000;
const FG: u32 = 0xFFFFFF;

fn glyph(ch: char, rows: [u8; 16]) -> Glyph {
    Glyph { ch, rows }
}

fn small_set() -> GlyphSet {
    let mut dot = [0u8; 16];
    dot[0] = 0b0000_0001;
    let mut bar = [0u8; 16];
    bar[15] = 0b1111_1111;
    let mut corner = [0u8; 16];
    corner[0] = 0b0000_0011;
    corner[1] = 0b0000_0001;
    GlyphSet { glyphs: vec![glyph('a', dot), glyph('b', bar), glyph('c', corner)] }
}

fn chars(s: &str) -> Vec<char> {
    s.chars().collect()
}

#[test]
fn cursor_advances_one_cell_per_character() {
    let mut s = PixelSurface::new_filled(800, 600, BG);
    let mut cur = ConsoleCursor { col: 0, row: 0 };
    write_text(&mut s, &mut cur, &small_set(), FG, &chars("abc"));
    assert_eq!(cur, ConsoleCursor { col: 3, row: 0 });
}

#[test]
fn cursor_wraps_at_right_edge() {
    // 32 x 32 pixels: 4 glyph columns, 2 glyph rows.
    let mut s = PixelSurface::new_filled(32, 32, BG);
    let mut cur = ConsoleCursor { col: 0, row: 0 };
    write_text(&mut s, &mut cur, &small_set(), FG, &chars("aaaaa"));
    assert_eq!(cur, ConsoleCursor { col: 1, row: 1 });
}

#[test]
fn newline_wraps_without_drawing() {
    let mut s = PixelSurface::new_filled(800, 600, BG);
    let mut cur = ConsoleCursor { col: 2, row: 0 };
    write_text(&mut s, &mut cur, &small_set(), FG, &chars("\n"));
    assert_eq!(cur, ConsoleCursor { col: 0, row: 1 });
    for y in 0..600 {
        for x in 0..800 {
            assert_eq!(s.get_pixel(x, y), BG);
        }
    }
}

#[test]
fn cursor_persists_across_calls() {
    let mut s = PixelSurface::new_filled(800, 600, BG);
    let mut cur = ConsoleCursor { col: 0, row: 0 };
    write_text(&mut s, &mut cur, &small_set(), FG, &chars("ab"));
    write_text(&mut s, &mut cur, &small_set(), FG, &chars("a"));
    assert_eq!(cur, ConsoleCursor { col: 3, row: 0 });
}

#[test]
fn same_text_twice_ends_at_same_cursor() {
    let text = chars("abc\naa\nbbbb");
    let start = ConsoleCursor { col: 5, row: 2 };

    let mut s1 = PixelSurface::new_filled(320, 240, BG);
    let mut c1 = start;
    write_text(&mut s1, &mut c1, &small_set(), FG, &text);

    let mut s2 = PixelSurface::new_filled(320, 240, BG);
    let mut c2 = start;
    write_text(&mut s2, &mut c2, &small_set(), FG, &text);

    assert_eq!(c1, c2);
}

#[test]
fn long_text_wraps_to_later_rows_inside_width() {
    // 80 x 64 pixels: 10 glyph columns, 4 glyph rows.
    let mut s = PixelSurface::new_filled(80, 64, BG);
    let mut cur = ConsoleCursor { col: 0, row: 0 };
    let text: Vec<char> = std::iter::repeat('a').take(25).collect();
    write_text(&mut s, &mut cur, &small_set(), FG, &text);
    assert_eq!(cur, ConsoleCursor { col: 5, row: 2 });
    // A glyph cell was drawn on each of the first three rows, never past
    // column 9: the dot glyph lights the cell's top-left pixel.
    assert_eq!(s.get_pixel(0, 0), FG);
    assert_eq!(s.get_pixel(0, 16), FG);
    assert_eq!(s.get_pixel(0, 32), FG);
}

#[test]
fn glyph_bits_map_to_cell_pixels() {
    let mut s = PixelSurface::new_filled(32, 32, BG);
    let mut cur = ConsoleCursor { col: 1, row: 1 };
    write_text(&mut s, &mut cur, &small_set(), FG, &chars("c"));
    // Cell origin is (8, 16): bits 0 and 1 of row 0, bit 0 of row 1.
    assert_eq!(s.get_pixel(8, 16), FG);
    assert_eq!(s.get_pixel(9, 16), FG);
    assert_eq!(s.get_pixel(8, 17), FG);
    assert_eq!(s.get_pixel(10, 16), BG);
    assert_eq!(s.get_pixel(9, 17), BG);
    // Clear bits leave the background; neighbors untouched.
    assert_eq!(s.get_pixel(7, 16), BG);
    assert_eq!(s.get_pixel(8, 15), BG);
}

#[test]
fn bottom_bar_glyph_lights_last_cell_row() {
    let mut s = PixelSurface::new_filled(32, 32, BG);
    let mut cur = ConsoleCursor { col: 0, row: 0 };
    write_text(&mut s, &mut cur, &small_set(), FG, &chars("b"));
    for x in 0..8 {
        assert_eq!(s.get_pixel(x, 15), FG);
    }
    for x in 0..8 {
        assert_eq!(s.get_pixel(x, 14), BG);
    }
}

#[test]
fn unsupported_character_advances_but_draws_nothing() {
    let mut s = PixelSurface::new_filled(64, 32, BG);
    let mut cur = ConsoleCursor { col: 0, row: 0 };
    write_text(&mut s, &mut cur, &small_set(), FG, &chars("z"));
    assert_eq!(cur, ConsoleCursor { col: 1, row: 0 });
    for y in 0..32 {
        for x in 0..64 {
            assert_eq!(s.get_pixel(x, y), BG);
        }
    }
}

#[test]
fn writes_past_bottom_are_no_ops() {
    // 32 x 32 pixels: 4 glyph columns, 2 glyph rows; row 2 is off-bottom.
    let mut s = PixelSurface::new_filled(32, 32, BG);
    let mut cur = ConsoleCursor { col: 0, row: 2 };
    write_text(&mut s, &mut cur, &small_set(), FG, &chars("aaa\n"));
    assert_eq!(cur, ConsoleCursor { col: 0, row: 2 });
    for y in 0..32 {
        for x in 0..32 {
            assert_eq!(s.get_pixel(x, y), BG);
        }
    }
}

#[test]
fn first_glyph_for_a_character_wins() {
    let mut first = [0u8; 16];
    first[0] = 0b0000_0001;
    let second = [0u8; 16];
    let set = GlyphSet { glyphs: vec![glyph('x', first), glyph('x', second)] };
    let mut s = PixelSurface::new_filled(32, 32, BG);
    let mut cur = ConsoleCursor { col: 0, row: 0 };
    write_text(&mut s, &mut cur, &set, FG, &chars("x"));
    assert_eq!(s.get_pixel(0, 0), FG);
}
