//! A primitive text console over a raw `PixelSurface`: fixed 8 by 16 bitmap
//! glyphs, a cursor tracked in glyph cells, left-to-right top-to-bottom
//! advancement with wrapping at the right edge. Policies: a character with no
//! glyph in the set still advances the cursor but draws nothing (a blank
//! placeholder cell), and once the cursor has passed the bottom row, writes
//! become no-ops rather than wrapping to the top.

use crate::surface::PixelSurface;
use vstd::prelude::*;

verus! {

broadcast use vstd::array::group_array_axioms;

/// Width of one glyph cell in pixels.
pub const GLYPH_WIDTH: usize = 8;

/// Height of one glyph cell in pixels.
pub const GLYPH_HEIGHT: usize = 16;

/// One bitmap glyph: the character it renders and 16 rows of 8 bits each.
/// Bit `k` of a row is the pixel `k` steps right of the cell's left edge.
#[derive(Clone, Copy, Debug)]
pub struct Glyph {
    pub ch: char,
    pub rows: [u8; 16],
}

/// The injected read-only glyph resource: a lookup table from character to
/// bitmap. The first entry for a character wins.
pub struct GlyphSet {
    pub glyphs: Vec<Glyph>,
}

/// The current glyph-cell position within a surface: column then row, both
/// zero-based.
#[derive(Clone, Copy, Debug, PartialEq, Eq, Structural)]
pub struct ConsoleCursor {
    pub col: usize,
    pub row: usize,
}

/// The first glyph for `c` in `s`, if any.
pub open spec fn lookup_in(s: Seq<Glyph>, c: char) -> Option<Glyph>
    decreases s.len(),
{
    if s.len() == 0 {
        Option::None
    } else if s.first().ch == c {
        Option::Some(s.first())
    } else {
        lookup_in(s.drop_first(), c)
    }
}

/// Bit `k` of `b` is set.
pub open spec fn bit_set(b: u8, k: int) -> bool {
    (b >> (k as u8)) & 1u8 == 1u8
}

/// The cursor lies within the glyph grid: the column strictly inside it, the
/// row allowed one past the last, which is the parked off-bottom position.
pub open spec fn cursor_in_grid(col: int, row: int, cols: int, rows: int) -> bool {
    0 <= col < cols && 0 <= row <= rows
}

/// Where the cursor stands after one character: unchanged once parked off the
/// bottom; a newline wraps to the start of the next row without drawing; any
/// other character moves one cell right, wrapping at the right edge.
pub open spec fn advance_char(col: int, row: int, c: char, cols: int, rows: int) -> (int, int) {
    if row >= rows {
        (col, row)
    } else if c == '\n' {
        (0, row + 1)
    } else if col + 1 >= cols {
        (0, row + 1)
    } else {
        (col + 1, row)
    }
}

/// Where the cursor stands after a whole text, character by character.
pub open spec fn advance_text(col: int, row: int, text: Seq<char>, cols: int, rows: int) -> (
    int,
    int,
)
    decreases text.len(),
{
    if text.len() == 0 {
        (col, row)
    } else {
        let p = advance_text(col, row, text.drop_last(), cols, rows);
        advance_char(p.0, p.1, text.last(), cols, rows)
    }
}

/// The pixels after one glyph bitmap is blitted at pixel position
/// `(px, py)`: set bits become the foreground color, clear bits leave the
/// pixel untouched.
pub open spec fn blit_spec(
    p: Seq<u32>,
    width: int,
    bits: Seq<u8>,
    px: int,
    py: int,
    fg: u32,
) -> Seq<u32> {
    Seq::new(
        p.len(),
        |i: int|
            {
                let x = i % width;
                let y = i / width;
                if px <= x < px + 8 && py <= y < py + 16 && bit_set(bits[y - py], x - px) {
                    fg
                } else {
                    p[i]
                }
            },
    )
}

/// The pixels after one character is rendered at cursor cell `(col, row)`:
/// nothing once the cursor is parked off the bottom, nothing for a newline or
/// for a character with no glyph, otherwise the glyph blitted into its cell.
pub open spec fn render_char(
    p: Seq<u32>,
    width: int,
    gs: Seq<Glyph>,
    col: int,
    row: int,
    c: char,
    rows: int,
    fg: u32,
) -> Seq<u32> {
    if row >= rows || c == '\n' {
        p
    } else {
        match lookup_in(gs, c) {
            Option::None => p,
            Option::Some(g) => blit_spec(p, width, g.rows@, col * 8, row * 16, fg),
        }
    }
}

/// The pixels after a whole text is rendered from a starting cursor, each
/// character drawn at the cell the cursor had reached before it.
pub open spec fn render_text(
    p: Seq<u32>,
    width: int,
    gs: Seq<Glyph>,
    col: int,
    row: int,
    text: Seq<char>,
    cols: int,
    rows: int,
    fg: u32,
) -> Seq<u32>
    decreases text.len(),
{
    if text.len() == 0 {
        p
    } else {
        let q = render_text(p, width, gs, col, row, text.drop_last(), cols, rows, fg);
        let cur = advance_text(col, row, text.drop_last(), cols, rows);
        render_char(q, width, gs, cur.0, cur.1, text.last(), rows, fg)
    }
}

impl GlyphSet {
    /// Finds the first glyph for `c`, exactly as the lookup specification
    /// does.
    pub fn lookup(&self, c: char) -> (r: Option<Glyph>)
        ensures
            r == lookup_in(self.glyphs@, c),
    {
        let n = self.glyphs.len();
        let mut i: usize = 0;
        proof {
            assert(self.glyphs@.skip(0int) =~= self.glyphs@);
        }
        while i < n
            invariant
                i <= n,
                n == self.glyphs@.len(),
                lookup_in(self.glyphs@, c) == lookup_in(self.glyphs@.skip(i as int), c),
            decreases n - i,
        {
            let g = self.glyphs[i];
            proof {
                lemma_lookup_skip_step(self.glyphs@, i as int, c);
            }
            if g.ch == c {
                return Some(g);
            }
            i = i + 1;
        }
        proof {
            assert(self.glyphs@.skip(n as int) =~= Seq::<Glyph>::empty());
        }
        None
    }
}

/// One step of walking the glyph table: position `i` either matches or the
/// search continues from `i + 1`.
proof fn lemma_lookup_skip_step(s: Seq<Glyph>, i: int, c: char)
    requires
        0 <= i < s.len(),
    ensures
        s[i].ch == c ==> lookup_in(s.skip(i), c) == Option::Some(s[i]),
        s[i].ch != c ==> lookup_in(s.skip(i), c) == lookup_in(s.skip(i + 1), c),
{
    assert(s.skip(i).first() == s[i]);
    assert(s.skip(i).drop_first() =~= s.skip(i + 1));
}

/// Within a `w` by `h` rectangle, a row-major index splits uniquely into its
/// column and row.
proof fn lemma_row_major_decompose(i: int, w: int, h: int)
    requires
        w > 0,
        h > 0,
        0 <= i < w * h,
    ensures
        0 <= i % w < w,
        0 <= i / w < h,
        (i / w) * w + (i % w) == i,
{
    vstd::arithmetic::div_mod::lemma_fundamental_div_mod(i, w);
    vstd::arithmetic::div_mod::lemma_mod_bound(i, w);
    assert(0 <= i / w < h) by (nonlinear_arith)
        requires
            w > 0,
            h > 0,
            0 <= i < w * h,
            i == w * (i / w) + (i % w),
            0 <= i % w < w,
    ;
}

/// Blits one glyph bitmap at pixel position `(px, py)`: set bits take the
/// foreground color, clear bits leave their pixel as it was.
fn blit_glyph(surface: &mut PixelSurface, bits: &[u8; 16], px: usize, py: usize, fg: u32)
    requires
        old(surface).wf(),
        px + 8 <= old(surface).width,
        py + 16 <= old(surface).height,
    ensures
        final(surface).wf(),
        final(surface).width == old(surface).width,
        final(surface).height == old(surface).height,
        final(surface).pixels@ == blit_spec(
            old(surface).pixels@,
            old(surface).width as int,
            bits@,
            px as int,
            py as int,
            fg,
        ),
{
    let mut dy: usize = 0;
    while dy < 16
        invariant
            surface.wf(),
            surface.width == old(surface).width,
            surface.height == old(surface).height,
            px + 8 <= surface.width,
            py + 16 <= surface.height,
            dy <= 16,
            forall|a: int, b: int|
                surface.in_bounds(a, b) ==> surface.pixel_at(a, b) == (if px <= a < px + 8 && py
                    <= b < py + 16 && b - py < dy && bit_set(bits@[b - py], a - px) {
                    fg
                } else {
                    old(surface).pixel_at(a, b)
                }),
        decreases 16 - dy,
    {
        let mut dx: usize = 0;
        while dx < 8
            invariant
                surface.wf(),
                surface.width == old(surface).width,
                surface.height == old(surface).height,
                px + 8 <= surface.width,
                py + 16 <= surface.height,
                dy < 16,
                dx <= 8,
                forall|a: int, b: int|
                    surface.in_bounds(a, b) ==> surface.pixel_at(a, b) == (if px <= a < px + 8 && py
                        <= b < py + 16 && (b - py < dy || (b - py == dy && a - px < dx)) && bit_set(
                        bits@[b - py],
                        a - px,
                    ) {
                        fg
                    } else {
                        old(surface).pixel_at(a, b)
                    }),
            decreases 8 - dx,
        {
            let row_bits = bits[dy];
            if (row_bits >> (dx as u8)) & 1u8 == 1u8 {
                surface.set_pixel(px + dx, py + dy, fg);
            }
            dx = dx + 1;
        }
        dy = dy + 1;
    }
    proof {
        let w = surface.width as int;
        let h = surface.height as int;
        let target = blit_spec(old(surface).pixels@, w, bits@, px as int, py as int, fg);
        assert forall|i: int| 0 <= i < surface.pixels@.len() implies surface.pixels@[i]
            == target[i] by {
            lemma_row_major_decompose(i, w, h);
            let a = i % w;
            let b = i / w;
            assert(surface.pixel_at(a, b) == surface.pixels@[i]);
            assert(old(surface).pixel_at(a, b) == old(surface).pixels@[i]);
        }
        assert(surface.pixels@ =~= target);
    }
}

/// Renders UTF-8 text glyph by glyph at the cursor, advancing it one cell
/// per character, wrapping at the surface's right edge, treating a newline
/// as an explicit wrap that draws nothing. Cursor state persists between
/// calls, so diagnostics can stream line by line. The surface keeps its
/// size, the final cursor is exactly the advancement specification applied
/// to the text, and the pixels are exactly the rendering specification.
pub fn write_text(
    surface: &mut PixelSurface,
    cursor: &mut ConsoleCursor,
    glyphs: &GlyphSet,
    fg: u32,
    text: &Vec<char>,
)
    requires
        old(surface).wf(),
        old(surface).width >= 8,
        old(surface).height >= 16,
        cursor_in_grid(
            old(cursor).col as int,
            old(cursor).row as int,
            old(surface).width as int / 8,
            old(surface).height as int / 16,
        ),
    ensures
        final(surface).wf(),
        final(surface).width == old(surface).width,
        final(surface).height == old(surface).height,
        (final(cursor).col as int, final(cursor).row as int) == advance_text(
            old(cursor).col as int,
            old(cursor).row as int,
            text@,
            old(surface).width as int / 8,
            old(surface).height as int / 16,
        ),
        cursor_in_grid(
            final(cursor).col as int,
            final(cursor).row as int,
            old(surface).width as int / 8,
            old(surface).height as int / 16,
        ),
        final(surface).pixels@ == render_text(
            old(surface).pixels@,
            old(surface).width as int,
            glyphs.glyphs@,
            old(cursor).col as int,
            old(cursor).row as int,
            text@,
            old(surface).width as int / 8,
            old(surface).height as int / 16,
            fg,
        ),
{
    let cols: usize = surface.width / GLYPH_WIDTH;
    let rows: usize = surface.height / GLYPH_HEIGHT;
    proof {
        vstd::arithmetic::div_mod::lemma_fundamental_div_mod(surface.width as int, 8);
        vstd::arithmetic::div_mod::lemma_fundamental_div_mod(surface.height as int, 16);
        vstd::arithmetic::div_mod::lemma_mod_bound(surface.width as int, 8);
        vstd::arithmetic::div_mod::lemma_mod_bound(surface.height as int, 16);
        assert(text@.take(0int) =~= Seq::<char>::empty());
    }
    let n = text.len();
    let mut i: usize = 0;
    while i < n
        invariant
            n == text@.len(),
            i <= n,
            surface.wf(),
            surface.width == old(surface).width,
            surface.height == old(surface).height,
            cols == surface.width as int / 8,
            rows == surface.height as int / 16,
            cols >= 1,
            rows >= 1,
            8 * cols <= surface.width,
            16 * rows <= surface.height,
            cursor_in_grid(cursor.col as int, cursor.row as int, cols as int, rows as int),
            (cursor.col as int, cursor.row as int) == advance_text(
                old(cursor).col as int,
                old(cursor).row as int,
                text@.take(i as int),
                cols as int,
                rows as int,
            ),
            surface.pixels@ == render_text(
                old(surface).pixels@,
                old(surface).width as int,
                glyphs.glyphs@,
                old(cursor).col as int,
                old(cursor).row as int,
                text@.take(i as int),
                cols as int,
                rows as int,
                fg,
            ),
        decreases n - i,
    {
        let c = text[i];
        proof {
            lemma_advance_take_step(
                old(cursor).col as int,
                old(cursor).row as int,
                text@,
                i as int,
                cols as int,
                rows as int,
            );
            lemma_render_take_step(
                old(surface).pixels@,
                old(surface).width as int,
                glyphs.glyphs@,
                old(cursor).col as int,
                old(cursor).row as int,
                text@,
                i as int,
                cols as int,
                rows as int,
                fg,
            );
        }
        if cursor.row < rows {
            if c == '\n' {
                cursor.col = 0;
                cursor.row = cursor.row + 1;
            } else {
                match glyphs.lookup(c) {
                    Some(g) => {
                        blit_glyph(surface, &g.rows, cursor.col * 8, cursor.row * 16, fg);
                    },
                    None => (),
                }
                if cursor.col + 1 >= cols {
                    cursor.col = 0;
                    cursor.row = cursor.row + 1;
                } else {
                    cursor.col = cursor.col + 1;
                }
            }
        }
        i = i + 1;
    }
    proof {
        assert(text@.take(n as int) =~= text@);
    }
}

/// Taking one more character advances the cursor by exactly that character.
proof fn lemma_advance_take_step(col: int, row: int, text: Seq<char>, i: int, cols: int, rows: int)
    requires
        0 <= i < text.len(),
    ensures
        advance_text(col, row, text.take(i + 1), cols, rows) == {
            let p = advance_text(col, row, text.take(i), cols, rows);
            advance_char(p.0, p.1, text[i], cols, rows)
        },
{
    assert(text.take(i + 1).drop_last() =~= text.take(i));
    assert(text.take(i + 1).last() == text[i]);
}

/// Taking one more character renders exactly that character on top of the
/// pixels so far, at the cell the cursor had reached.
proof fn lemma_render_take_step(
    p: Seq<u32>,
    width: int,
    gs: Seq<Glyph>,
    col: int,
    row: int,
    text: Seq<char>,
    i: int,
    cols: int,
    rows: int,
    fg: u32,
)
    requires
        0 <= i < text.len(),
    ensures
        render_text(p, width, gs, col, row, text.take(i + 1), cols, rows, fg) == {
            let q = render_text(p, width, gs, col, row, text.take(i), cols, rows, fg);
            let cur = advance_text(col, row, text.take(i), cols, rows);
            render_char(q, width, gs, cur.0, cur.1, text[i], rows, fg)
        },
{
    assert(text.take(i + 1).drop_last() =~= text.take(i));
    assert(text.take(i + 1).last() == text[i]);
}

/// One character keeps the cursor inside the glyph grid.
pub proof fn lemma_advance_char_in_grid(col: int, row: int, c: char, cols: int, rows: int)
    requires
        cols >= 1,
        cursor_in_grid(col, row, cols, rows),
    ensures
        cursor_in_grid(
            advance_char(col, row, c, cols, rows).0,
            advance_char(col, row, c, cols, rows).1,
            cols,
            rows,
        ),
{
}

/// A whole text keeps the cursor inside the glyph grid.
pub proof fn lemma_advance_text_in_grid(col: int, row: int, text: Seq<char>, cols: int, rows: int)
    requires
        cols >= 1,
        cursor_in_grid(col, row, cols, rows),
    ensures
        cursor_in_grid(
            advance_text(col, row, text, cols, rows).0,
            advance_text(col, row, text, cols, rows).1,
            cols,
            rows,
        ),
    decreases text.len(),
{
    if text.len() > 0 {
        lemma_advance_text_in_grid(col, row, text.drop_last(), cols, rows);
        let p = advance_text(col, row, text.drop_last(), cols, rows);
        lemma_advance_char_in_grid(p.0, p.1, text.last(), cols, rows);
    }
}

/// Cursor advancement is repeatable: writing the same text twice from the
/// same starting cursor ends at the same position both times. Together with
/// `write_text`'s postcondition, which pins the final cursor to
/// `advance_text`, this says two equal writes from equal cursors agree.
pub proof fn lemma_cursor_advance_repeatable(
    col: int,
    row: int,
    text: Seq<char>,
    cols: int,
    rows: int,
    end1: (int, int),
    end2: (int, int),
)
    requires
        end1 == advance_text(col, row, text, cols, rows),
        end2 == advance_text(col, row, text, cols, rows),
    ensures
        end1 == end2,
{
}

/// Text longer than one row wraps to later rows and never reaches outside
/// the surface's width: after any prefix of the text, the cursor's column is
/// still inside the grid, and the glyph cell it addresses ends at or before
/// the surface's right edge.
pub proof fn lemma_wrap_stays_within_width(
    col: int,
    row: int,
    text: Seq<char>,
    width: int,
    height: int,
)
    requires
        width >= 8,
        height >= 16,
        cursor_in_grid(col, row, width / 8, height / 16),
    ensures
        forall|i: int|
            0 <= i <= text.len() ==> {
                let p = advance_text(col, row, #[trigger] text.take(i), width / 8, height / 16);
                cursor_in_grid(p.0, p.1, width / 8, height / 16) && 8 * p.0 + 8 <= width
            },
{
    vstd::arithmetic::div_mod::lemma_fundamental_div_mod(width, 8);
    vstd::arithmetic::div_mod::lemma_mod_bound(width, 8);
    assert forall|i: int| 0 <= i <= text.len() implies {
        let p = advance_text(col, row, #[trigger] text.take(i), width / 8, height / 16);
        cursor_in_grid(p.0, p.1, width / 8, height / 16) && 8 * p.0 + 8 <= width
    } by {
        lemma_advance_text_in_grid(col, row, text.take(i), width / 8, height / 16);
    }
}

} // verus!
