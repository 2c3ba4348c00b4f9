//! What the greeter draws: the font atlas, and the text laid out with it.

use std::collections::HashMap;
use vstd::arithmetic::div_mod::*;
use vstd::arithmetic::mul::*;
use vstd::prelude::*;

use crate::keyboard::Modifiers;
use crate::login::LoginEvent;

verus! {

/// Rows and columns of a glyph.
pub const GLYPH_SIZE: usize = 8;

/// Bytes of a pixel.
pub const PIXEL_SIZE: usize = 4;

/// Whether a row of a glyph has a pixel in a column.
pub open spec fn is_lit(row: u8, col: usize) -> bool {
    (row >> col) & 1 != 0
}

/// Whether a glyph covers a pixel, when it is drawn at `x`, `y` with each of its pixels enlarged
/// to a square of `scale`.
pub open spec fn covers(glyph: Seq<u8>, x: int, y: int, scale: int, px: int, py: int) -> bool {
    &&& scale > 0
    &&& x <= px && (px - x) / scale < GLYPH_SIZE
    &&& y <= py && (py - y) / scale < GLYPH_SIZE
    &&& is_lit(glyph[(py - y) / scale], ((px - x) / scale) as usize)
}

/// An image of `w` by `h` pixels in which those that a mask selects have got a colour.
pub open spec fn paint(
    image: Seq<u8>,
    w: int,
    h: int,
    color: Seq<u8>,
    mask: spec_fn(int, int) -> bool,
) -> Seq<u8> {
    Seq::new(
        image.len(),
        |k: int|
            if w > 0 && (k / 4) / w < h && mask((k / 4) % w, (k / 4) / w) {
                color[k % 4]
            } else {
                image[k]
            },
    )
}

/// Whether an image has bytes for all pixels of `w` by `h` that a mask selects.
pub open spec fn has_room(
    len: int,
    w: int,
    h: int,
    mask: spec_fn(int, int) -> bool,
) -> bool {
    forall|px: int, py: int|
        0 <= px < w && 0 <= py < h && #[trigger] mask(px, py) ==> (py * w + px) * 4 + 4 <= len
}

/// Whether the pixels that a glyph covers can be numbered on this machine.
pub open spec fn is_reachable(glyph: Seq<u8>, x: int, y: int, scale: int) -> bool {
    forall|row: int, col: usize|
        0 <= row < GLYPH_SIZE && col < GLYPH_SIZE && #[trigger] is_lit(glyph[row], col) ==> x + col
            * scale + scale - 1 <= usize::MAX && y + row * scale + scale - 1 <= usize::MAX
}

/// Painting twice is painting once what either mask selects.
proof fn lemma_paint_twice(
    image: Seq<u8>,
    w: int,
    h: int,
    color: Seq<u8>,
    first: spec_fn(int, int) -> bool,
    second: spec_fn(int, int) -> bool,
    both: spec_fn(int, int) -> bool,
)
    requires
        forall|px: int, py: int|
            0 <= px < w && 0 <= py < h ==> (#[trigger] both(px, py) <==> first(px, py) || second(
                px,
                py,
            )),
    ensures
        paint(paint(image, w, h, color, first), w, h, color, second) == paint(
            image,
            w,
            h,
            color,
            both,
        ),
{
    let once = paint(image, w, h, color, first);
    let twice = paint(once, w, h, color, second);
    let joint = paint(image, w, h, color, both);
    assert forall|k: int| 0 <= k < image.len() implies twice[k] == joint[k] by {
        if w > 0 && (k / 4) / w < h {
            let p = k / 4;
            lemma_mod_bound(p, w);
            lemma_div_pos_is_pos(p, w);
            assert(both(p % w, p / w) <==> first(p % w, p / w) || second(p % w, p / w));
        }
    }
    assert(twice =~= joint);
}

/// The number of a pixel, by its place.
proof fn lemma_pixel_number(w: int, px: int, py: int, p: int)
    requires
        0 <= px < w,
        0 <= py,
        0 <= p,
    ensures
        (p % w == px && p / w == py) <==> p == py * w + px,
{
    lemma_fundamental_div_mod(p, w);
    lemma_mul_is_commutative(w, p / w);
    if p == py * w + px {
        lemma_fundamental_div_mod_converse(p, w, py, px);
    }
}

/// Colours one pixel, if it lies in the image.
fn set_pixel(buf: &mut [u8], buf_w: usize, buf_h: usize, px: usize, py: usize, color: [u8; 4])
    requires
        px < buf_w && py < buf_h ==> (py * buf_w + px) * 4 + 4 <= old(buf)@.len(),
    ensures
        final(buf)@ == paint(
            old(buf)@,
            buf_w as int,
            buf_h as int,
            color@,
            |a: int, b: int| a == px && b == py,
        ),
{
    let ghost image = buf@;
    let ghost mask = |a: int, b: int| a == px && b == py;
    let ghost w = buf_w as int;
    if px < buf_w && py < buf_h {
        proof {
            lemma_mul_nonnegative(py as int, w);
            assert(buf@.len() == buf.len());
        }
        let first: usize = (py * buf_w + px) * 4;
        buf[first] = color[0];
        buf[first + 1] = color[1];
        buf[first + 2] = color[2];
        buf[first + 3] = color[3];
    }
    proof {
        let painted = paint(image, w, buf_h as int, color@, mask);
        assert forall|k: int| 0 <= k < image.len() implies buf@[k] == painted[k] by {
            if w > 0 {
                lemma_mod_bound(k / 4, w);
                if px < buf_w {
                    lemma_pixel_number(w, px as int, py as int, k / 4);
                }
            }
        }
        assert(buf@ =~= painted);
    }
}

/// Fills a square, as far as it lies in the image.
fn fill_square(
    buf: &mut [u8],
    buf_w: usize,
    buf_h: usize,
    x: usize,
    y: usize,
    side: usize,
    color: [u8; 4],
)
    requires
        x + side - 1 <= usize::MAX,
        y + side - 1 <= usize::MAX,
        has_room(
            old(buf)@.len() as int,
            buf_w as int,
            buf_h as int,
            |a: int, b: int| x <= a < x + side && y <= b < y + side,
        ),
    ensures
        final(buf)@ == paint(
            old(buf)@,
            buf_w as int,
            buf_h as int,
            color@,
            |a: int, b: int| x <= a < x + side && y <= b < y + side,
        ),
{
    let ghost image = buf@;
    let ghost w = buf_w as int;
    let ghost h = buf_h as int;
    let ghost square = |a: int, b: int| x <= a < x + side && y <= b < y + side;
    assert(buf@ =~= paint(
        image,
        w,
        h,
        color@,
        |a: int, b: int| x <= a < x + side && y <= b < y + 0,
    ));
    for sy in 0..side
        invariant
            x + side - 1 <= usize::MAX,
            y + side - 1 <= usize::MAX,
            w == buf_w,
            h == buf_h,
            image == old(buf)@,
            buf@.len() == image.len(),
            square == (|a: int, b: int| x <= a < x + side && y <= b < y + side),
            has_room(image.len() as int, w, h, square),
            buf@ == paint(
                image,
                w,
                h,
                color@,
                |a: int, b: int| x <= a < x + side && y <= b < y + sy,
            ),
    {
        let ghost above = |a: int, b: int| x <= a < x + side && y <= b < y + sy;
        let ghost reached = |a: int, b: int, sx: int|
            above(a, b) || (b == y + sy && x <= a < x + sx);
        proof {
            lemma_paint_same(image, w, h, color@, above, |a: int, b: int| reached(a, b, 0));
        }
        for sx in 0..side
            invariant
                x + side - 1 <= usize::MAX,
                y + side - 1 <= usize::MAX,
                sy < side,
                w == buf_w,
                h == buf_h,
                buf@.len() == image.len(),
                square == (|a: int, b: int| x <= a < x + side && y <= b < y + side),
                has_room(image.len() as int, w, h, square),
                reached == (|a: int, b: int, sx: int|
                    above(a, b) || (b == y + sy && x <= a < x + sx)),
                buf@ == paint(image, w, h, color@, |a: int, b: int| reached(a, b, sx as int)),
        {
            let px: usize = x + sx;
            let py: usize = y + sy;
            assert(square(px as int, py as int));
            set_pixel(buf, buf_w, buf_h, px, py, color);
            proof {
                lemma_paint_twice(
                    image,
                    w,
                    h,
                    color@,
                    |a: int, b: int| reached(a, b, sx as int),
                    |a: int, b: int| a == px && b == py,
                    |a: int, b: int| reached(a, b, sx + 1),
                );
            }
        }
        proof {
            lemma_paint_same(
                image,
                w,
                h,
                color@,
                |a: int, b: int| reached(a, b, side as int),
                |a: int, b: int| x <= a < x + side && y <= b < y + (sy + 1),
            );
        }
    }
}

/// Masks that select the same pixels of an image paint the same.
proof fn lemma_paint_same(
    image: Seq<u8>,
    w: int,
    h: int,
    color: Seq<u8>,
    first: spec_fn(int, int) -> bool,
    second: spec_fn(int, int) -> bool,
)
    requires
        forall|px: int, py: int|
            0 <= px < w && 0 <= py < h ==> (#[trigger] first(px, py) <==> second(px, py)),
    ensures
        paint(image, w, h, color, first) == paint(image, w, h, color, second),
{
    let one = paint(image, w, h, color, first);
    let two = paint(image, w, h, color, second);
    assert forall|k: int| 0 <= k < image.len() implies one[k] == two[k] by {
        if w > 0 && (k / 4) / w < h {
            let p = k / 4;
            lemma_mod_bound(p, w);
            lemma_div_pos_is_pos(p, w);
            assert(first(p % w, p / w) <==> second(p % w, p / w));
        }
    }
    assert(one =~= two);
}

/// Which of the enlarged columns a place lies in.
proof fn lemma_enlarged(x: int, scale: int, col: int, px: int)
    requires
        scale > 0,
        col >= 0,
    ensures
        (x <= px && (px - x) / scale == col) <==> x + col * scale <= px < x + col * scale + scale,
{
    lemma_mul_nonnegative(col, scale);
    if x + col * scale <= px < x + col * scale + scale {
        lemma_fundamental_div_mod_converse(px - x, scale, col, px - x - col * scale);
    }
    if x <= px && (px - x) / scale == col {
        lemma_fundamental_div_mod(px - x, scale);
        lemma_mod_bound(px - x, scale);
        lemma_mul_is_commutative(scale, col);
    }
}

/// Whether a glyph covers a pixel with one of the squares before a place in it.
spec fn covers_before(
    glyph: Seq<u8>,
    x: int,
    y: int,
    scale: int,
    px: int,
    py: int,
    row: int,
    col: int,
) -> bool {
    covers(glyph, x, y, scale, px, py) && ((py - y) / scale < row || ((py - y) / scale == row && (px
        - x) / scale < col))
}

/// Draws a glyph at `x`, `y`, with each of its pixels enlarged to a square of `scale`. What lies
/// outside of the image is left out.
pub fn draw_glyph(
    buf: &mut [u8],
    buf_w: usize,
    buf_h: usize,
    glyph: [u8; 8],
    x: usize,
    y: usize,
    scale: usize,
    color: [u8; 4],
)
    requires
        is_reachable(glyph@, x as int, y as int, scale as int),
        has_room(
            old(buf)@.len() as int,
            buf_w as int,
            buf_h as int,
            |px: int, py: int| covers(glyph@, x as int, y as int, scale as int, px, py),
        ),
    ensures
        final(buf)@ == paint(
            old(buf)@,
            buf_w as int,
            buf_h as int,
            color@,
            |px: int, py: int| covers(glyph@, x as int, y as int, scale as int, px, py),
        ),
{
    let ghost image = buf@;
    let ghost w = buf_w as int;
    let ghost h = buf_h as int;
    let ghost whole = |px: int, py: int|
        covers(glyph@, x as int, y as int, scale as int, px, py);
    let ghost done = |px: int, py: int, row: int, col: int|
        covers_before(glyph@, x as int, y as int, scale as int, px, py, row, col);
    assert(buf@ =~= paint(image, w, h, color@, |px: int, py: int| done(px, py, 0, 0))) by {
        assert forall|px: int, py: int| !#[trigger] done(px, py, 0, 0) by {
            if scale > 0 && y <= py {
                lemma_div_pos_is_pos(py - y, scale as int);
            }
            if scale > 0 && x <= px {
                lemma_div_pos_is_pos(px - x, scale as int);
            }
        }
    }
    for row in 0..8usize
        invariant
            is_reachable(glyph@, x as int, y as int, scale as int),
            w == buf_w,
            h == buf_h,
            image == old(buf)@,
            buf@.len() == image.len(),
            whole == (|px: int, py: int|
                covers(glyph@, x as int, y as int, scale as int, px, py)),
            has_room(image.len() as int, w, h, whole),
            done == (|px: int, py: int, row: int, col: int|
                covers_before(glyph@, x as int, y as int, scale as int, px, py, row, col)),
            buf@ == paint(image, w, h, color@, |px: int, py: int| done(px, py, row as int, 0)),
    {
        let byte: u8 = glyph[row];
        for col in 0..8usize
            invariant
                row < 8,
                byte == glyph@[row as int],
                is_reachable(glyph@, x as int, y as int, scale as int),
                w == buf_w,
                h == buf_h,
                buf@.len() == image.len(),
                whole == (|px: int, py: int|
                    covers(glyph@, x as int, y as int, scale as int, px, py)),
                has_room(image.len() as int, w, h, whole),
                done == (|px: int, py: int, row: int, col: int|
                    covers_before(glyph@, x as int, y as int, scale as int, px, py, row, col)),
                buf@ == paint(
                    image,
                    w,
                    h,
                    color@,
                    |px: int, py: int| done(px, py, row as int, col as int),
                ),
        {
            let ghost before = |px: int, py: int| done(px, py, row as int, col as int);
            let ghost after = |px: int, py: int| done(px, py, row as int, col + 1);
            if (byte >> col) & 1 == 0 {
                proof {
                    lemma_paint_same(image, w, h, color@, before, after);
                }
            } else {
                proof {
                    assert(is_lit(glyph@[row as int], col));
                    lemma_mul_nonnegative(col as int, scale as int);
                    lemma_mul_nonnegative(row as int, scale as int);
                    if scale == 0 {
                        assert(col * 0 == 0 && row * 0 == 0);
                    }
                }
                let left: usize = x + col * scale;
                let top: usize = y + row * scale;
                let ghost square = |a: int, b: int|
                    left <= a < left + scale && top <= b < top + scale;
                proof {
                    assert forall|a: int, b: int| #[trigger] square(a, b) implies whole(a, b) by {
                        lemma_enlarged(x as int, scale as int, col as int, a);
                        lemma_enlarged(y as int, scale as int, row as int, b);
                    }
                    assert forall|a: int, b: int|
                        0 <= a < w && 0 <= b < h && #[trigger] square(a, b) implies (b * w + a) * 4
                        + 4 <= buf@.len() by {
                        assert(whole(a, b));
                    }
                }
                fill_square(buf, buf_w, buf_h, left, top, scale, color);
                proof {
                    assert forall|a: int, b: int|
                        0 <= a < w && 0 <= b < h implies (#[trigger] after(a, b) <==> before(a, b)
                        || square(a, b)) by {
                        if scale > 0 {
                            lemma_enlarged(x as int, scale as int, col as int, a);
                            lemma_enlarged(y as int, scale as int, row as int, b);
                        }
                    }
                    lemma_paint_twice(image, w, h, color@, before, square, after);
                }
            }
        }
        proof {
            lemma_paint_same(
                image,
                w,
                h,
                color@,
                |px: int, py: int| done(px, py, row as int, 8),
                |px: int, py: int| done(px, py, row + 1, 0),
            );
        }
    }
    proof {
        lemma_paint_same(
            image,
            w,
            h,
            color@,
            |px: int, py: int| done(px, py, 8, 0),
            whole,
        );
    }
}

/// Columns of the atlas, in glyphs.
pub const ATLAS_COLS: usize = 16;

/// Rows of the atlas, in glyphs.
pub const ATLAS_ROWS: usize = 8;

/// Number of characters that the font has a glyph for.
pub const GLYPH_COUNT: usize = 128;

/// A character of the atlas: its size and advance in pixels, and the edges of its cell in the
/// atlas, in pixels too.
#[derive(Clone, Copy, Debug, PartialEq, Eq, Structural)]
pub struct Glyph {
    pub w: usize,
    pub h: usize,
    pub advance_x: usize,
    pub u0: usize,
    pub u1: usize,
    pub v0: usize,
    pub v1: usize,
}

/// The glyphs of a font in one image, and where to find each.
pub struct FontAtlas {
    pub rgba: Vec<u8>,
    /// In pixels.
    pub w: usize,
    /// In pixels.
    pub h: usize,
    /// By character code.
    pub glyph_map: HashMap<u32, Glyph>,
}

/// The side of a cell in the atlas.
pub open spec fn cell_size(scale: int) -> int {
    GLYPH_SIZE * scale
}

/// Whether the font has a glyph for a character.
pub open spec fn has_glyph(c: char) -> bool {
    (c as u32) < GLYPH_COUNT
}

/// The glyph of a character: cells follow each other by code, from left to right and from top to
/// bottom.
pub open spec fn glyph_at(code: u32, scale: int) -> Glyph {
    let cell = cell_size(scale);
    let x = (code as int % ATLAS_COLS as int) * cell;
    let y = (code as int / ATLAS_COLS as int) * cell;
    Glyph {
        w: cell as usize,
        h: cell as usize,
        advance_x: cell as usize,
        u0: x as usize,
        u1: (x + cell) as usize,
        v0: y as usize,
        v1: (y + cell) as usize,
    }
}

/// The rows of the glyphs of a font.
pub open spec fn rows_of(font: Seq<[u8; 8]>) -> Seq<Seq<u8>> {
    Seq::new(font.len(), |i: int| font[i]@)
}

/// Whether the atlas is lit in a pixel: the glyph of the cell around the pixel is.
pub open spec fn atlas_covers(font: Seq<Seq<u8>>, scale: int, px: int, py: int) -> bool {
    let cell = cell_size(scale);
    let code = (py / cell) * ATLAS_COLS + px / cell;
    &&& scale > 0
    &&& is_lit(font[code][(py % cell) / scale], ((px % cell) / scale) as usize)
}

/// The image of the atlas: white where a glyph is lit, and transparent elsewhere.
pub open spec fn atlas_image(font: Seq<Seq<u8>>, scale: int) -> Seq<u8> {
    let w = ATLAS_COLS * cell_size(scale);
    let h = ATLAS_ROWS * cell_size(scale);
    paint(
        Seq::new((w * h * PIXEL_SIZE) as nat, |k: int| 0u8),
        w,
        h,
        seq![0xffu8, 0xffu8, 0xffu8, 0xffu8],
        |px: int, py: int| atlas_covers(font, scale, px, py),
    )
}

impl FontAtlas {
    /// The glyph of a character.
    pub open spec fn glyph_of(self, c: char) -> Option<Glyph> {
        if self.glyph_map@.contains_key(c as u32) {
            Some(self.glyph_map@[c as u32])
        } else {
            None
        }
    }

    /// This is the atlas of a font at a scale.
    pub open spec fn is_atlas(self, font: Seq<Seq<u8>>, scale: int) -> bool {
        &&& self.w == ATLAS_COLS * cell_size(scale)
        &&& self.h == ATLAS_ROWS * cell_size(scale)
        &&& self.rgba@ == atlas_image(font, scale)
        &&& self.has_glyphs(scale)
    }

    /// The glyphs are those of an atlas at a scale.
    pub open spec fn has_glyphs(self, scale: int) -> bool {
        forall|c: char|
            #[trigger] self.glyph_of(c) == if has_glyph(c) {
                Some(glyph_at(c as u32, scale))
            } else {
                None
            }
    }

    /// The glyph of a character.
    pub fn get_glyph(&self, c: char) -> (glyph: Option<&Glyph>)
        ensures
            match glyph {
                Some(glyph) => self.glyph_of(c) == Some(*glyph),
                None => self.glyph_of(c) is None,
            },
    {
        broadcast use vstd::std_specs::hash::group_hash_axioms;

        self.glyph_map.get(&(c as u32))
    }
}

/// Whether the memory of this machine can hold an atlas.
pub open spec fn atlas_fits(scale: int) -> bool {
    ATLAS_COLS * cell_size(scale) * (ATLAS_ROWS * cell_size(scale)) * PIXEL_SIZE <= isize::MAX
}

/// The numbers of an atlas that fits.
proof fn lemma_atlas_sizes(scale: int)
    requires
        scale >= 0,
        atlas_fits(scale),
    ensures
        ({
            let w = ATLAS_COLS * cell_size(scale);
            let h = ATLAS_ROWS * cell_size(scale);
            &&& 0 <= w * h * 4 <= isize::MAX
            &&& 2 * w <= usize::MAX
            &&& 2 * h <= usize::MAX
        }),
{
    assert(128 * scale * (64 * scale) * 4 == 32768 * (scale * scale)) by (nonlinear_arith);
    assert(scale * scale >= scale) by (nonlinear_arith)
        requires
            scale >= 0,
    ;
    assert(ATLAS_COLS * cell_size(scale) == 128 * scale);
    assert(ATLAS_ROWS * cell_size(scale) == 64 * scale);
}

/// A glyph that is drawn into its cell is what the atlas has there.
proof fn lemma_cell_of(font: Seq<Seq<u8>>, scale: int, code: int, px: int, py: int)
    requires
        scale > 0,
        0 <= code < GLYPH_COUNT,
        0 <= px < ATLAS_COLS * cell_size(scale),
        0 <= py,
    ensures
        ({
            let cell = cell_size(scale);
            covers(
                font[code],
                (code % 16) * cell,
                (code / 16) * cell,
                scale,
                px,
                py,
            ) <==> ((py / cell) * 16 + px / cell == code && atlas_covers(font, scale, px, py))
        }),
{
    let cell = cell_size(scale);
    let x = (code % 16) * cell;
    let y = (code / 16) * cell;
    lemma_within_cell(scale, code % 16, px);
    lemma_within_cell(scale, code / 16, py);
    lemma_div_pos_is_pos(px, cell);
    lemma_div_pos_is_pos(py, cell);
    lemma_cell_index(px, cell, 16);
}

/// A place in a row of `n` cells lies in one of them.
proof fn lemma_cell_index(px: int, cell: int, n: int)
    requires
        0 <= px < n * cell,
        cell > 0,
    ensures
        0 <= px / cell < n,
{
    lemma_fundamental_div_mod(px, cell);
    lemma_mod_bound(px, cell);
    lemma_div_pos_is_pos(px, cell);
    assert(px / cell < n) by (nonlinear_arith)
        requires
            px == cell * (px / cell) + px % cell,
            px % cell >= 0,
            px < n * cell,
            cell > 0,
    ;
}

/// A place lies within eight enlarged columns of a cell exactly when it lies in the cell, and it
/// lies in the same column of either.
proof fn lemma_within_cell(scale: int, n: int, px: int)
    requires
        scale > 0,
        n >= 0,
        px >= 0,
    ensures
        ({
            let cell = cell_size(scale);
            let x = n * cell;
            &&& (x <= px && (px - x) / scale < 8) <==> px / cell == n
            &&& px / cell == n ==> (px - x) / scale == (px % cell) / scale
        }),
{
    let cell = cell_size(scale);
    let x = n * cell;
    lemma_enlarged(0, cell, n, px);
    lemma_fundamental_div_mod(px, cell);
    lemma_mul_is_commutative(cell, px / cell);
    if x <= px {
        lemma_fundamental_div_mod(px - x, scale);
        lemma_mod_bound(px - x, scale);
        let d = (px - x) / scale;
        assert(d < 8 <==> px - x < 8 * scale) by (nonlinear_arith)
            requires
                px - x == scale * d + (px - x) % scale,
                0 <= (px - x) % scale < scale,
        ;
    }
}

/// All pixels of an image have bytes.
proof fn lemma_whole_image_has_room(w: int, h: int, mask: spec_fn(int, int) -> bool)
    requires
        w >= 0,
        h >= 0,
    ensures
        has_room(w * h * 4, w, h, mask),
{
    assert forall|px: int, py: int| 0 <= px < w && 0 <= py < h && #[trigger] mask(px, py) implies (
    py * w + px) * 4 + 4 <= w * h * 4 by {
        assert(py * w + px + 1 <= w * h) by (nonlinear_arith)
            requires
                0 <= px < w,
                0 <= py < h,
        ;
    }
}

/// Draws all glyphs of a font into one image. A scale of 3 makes a glyph 24 pixels high.
pub fn build_atlas(font: &Vec<[u8; 8]>, scale: usize) -> (atlas: FontAtlas)
    requires
        font@.len() == GLYPH_COUNT,
        atlas_fits(scale as int),
    ensures
        atlas.is_atlas(rows_of(font@), scale as int),
{
    broadcast use vstd::std_specs::hash::group_hash_axioms;

    proof {
        lemma_atlas_sizes(scale as int);
    }
    let fg: [u8; 4] = [0xff, 0xff, 0xff, 0xff];
    let cell: usize = GLYPH_SIZE * scale;
    let w: usize = ATLAS_COLS * cell;
    let h: usize = ATLAS_ROWS * cell;
    proof {
        assert(w * h * 4 >= w * h);
    }
    let mut rgba: Vec<u8> = vec![0u8; w * h * PIXEL_SIZE];
    let mut glyph_map: HashMap<u32, Glyph> = HashMap::new();
    let ghost rows = rows_of(font@);
    let ghost blank = rgba@;
    let ghost white = seq![0xffu8, 0xffu8, 0xffu8, 0xffu8];
    let ghost drawn = |px: int, py: int, n: int|
        (py / (cell as int)) * 16 + px / (cell as int) < n && atlas_covers(
            rows,
            scale as int,
            px,
            py,
        );
    proof {
        assert(blank =~= Seq::new((w * h * PIXEL_SIZE) as nat, |k: int| 0u8));
        assert(fg@ =~= white);
        assert forall|px: int, py: int| 0 <= px < w && 0 <= py < h implies !(#[trigger] drawn(
            px,
            py,
            0,
        )) by {
            lemma_div_pos_is_pos(px, cell as int);
            lemma_div_pos_is_pos(py, cell as int);
        }
        lemma_paint_same(
            blank,
            w as int,
            h as int,
            white,
            |px: int, py: int| drawn(px, py, 0),
            |px: int, py: int| false,
        );
        assert(rgba@ =~= paint(blank, w as int, h as int, white, |px: int, py: int| false));
    }
    for code in 0..128u32
        invariant
            font@.len() == GLYPH_COUNT,
            rows == rows_of(font@),
            atlas_fits(scale as int),
            cell == cell_size(scale as int),
            w == ATLAS_COLS * cell,
            h == ATLAS_ROWS * cell,
            blank.len() == w * h * 4,
            white == seq![0xffu8, 0xffu8, 0xffu8, 0xffu8],
            fg@ == white,
            rgba@.len() == blank.len(),
            drawn == (|px: int, py: int, n: int|
                (py / (cell as int)) * 16 + px / (cell as int) < n && atlas_covers(
                    rows,
                    scale as int,
                    px,
                    py,
                )),
            rgba@ == paint(
                blank,
                w as int,
                h as int,
                white,
                |px: int, py: int| drawn(px, py, code as int),
            ),
            forall|k: u32| #[trigger] glyph_map@.contains_key(k) <==> k < code,
            forall|k: u32| k < code ==> #[trigger] glyph_map@[k] == glyph_at(k, scale as int),
    {
        proof {
            lemma_atlas_sizes(scale as int);
            assert((code % 16) * cell <= 15 * cell && (code / 16) * cell <= 7 * cell)
                by (nonlinear_arith)
                requires
                    code < 128,
            ;
        }
        let x: usize = (code as usize % ATLAS_COLS) * cell;
        let y: usize = (code as usize / ATLAS_COLS) * cell;
        let glyph: [u8; 8] = font[code as usize];
        let ghost mask = |px: int, py: int|
            covers(glyph@, x as int, y as int, scale as int, px, py);
        let ghost before = |px: int, py: int| drawn(px, py, code as int);
        let ghost after = |px: int, py: int| drawn(px, py, code + 1);
        proof {
            lemma_whole_image_has_room(w as int, h as int, mask);
            assert forall|row: int, col: usize|
                0 <= row < GLYPH_SIZE && col < GLYPH_SIZE && #[trigger] is_lit(
                    glyph@[row],
                    col,
                ) implies x + col * scale + scale - 1 <= usize::MAX && y + row * scale + scale - 1
                <= usize::MAX by {
                assert(col * scale + scale <= 8 * scale && row * scale + scale <= 8 * scale)
                    by (nonlinear_arith)
                    requires
                        col <= 7,
                        row <= 7,
                        scale >= 0,
                ;
            }
        }
        draw_glyph(rgba.as_mut_slice(), w, h, glyph, x, y, scale, fg);
        proof {
            assert forall|px: int, py: int|
                0 <= px < w && 0 <= py < h implies (#[trigger] after(px, py) <==> before(px, py)
                || mask(px, py)) by {
                if scale > 0 {
                    lemma_cell_of(rows, scale as int, code as int, px, py);
                }
            }
            lemma_paint_twice(blank, w as int, h as int, white, before, mask, after);
        }
        glyph_map.insert(
            code,
            Glyph {
                w: cell,
                h: cell,
                advance_x: cell,
                u0: x,
                u1: x + cell,
                v0: y,
                v1: y + cell,
            },
        );
    }
    proof {
        let whole = |px: int, py: int| atlas_covers(rows, scale as int, px, py);
        assert forall|px: int, py: int| 0 <= px < w && 0 <= py < h implies (#[trigger] drawn(
            px,
            py,
            128,
        ) <==> whole(px, py)) by {
            if scale > 0 {
                lemma_cell_index(px, cell as int, 16);
                lemma_cell_index(py, cell as int, 8);
            }
        }
        lemma_paint_same(
            blank,
            w as int,
            h as int,
            white,
            |px: int, py: int| drawn(px, py, 128),
            whole,
        );
    }
    FontAtlas { rgba, w, h, glyph_map }
}

/// The rows of the font's glyph for a character code.
pub uninterp spec fn font_rows(code: u8) -> Seq<u8>;

/// The table `font8x8::legacy::BASIC_LEGACY`, which has eight rows for each code below 128. What
/// the rows are is left to `font_rows`, a function of the code alone.
#[verifier::external_body]
fn basic_glyph(code: u8) -> (rows: [u8; 8])
    requires
        code < GLYPH_COUNT,
    ensures
        rows@ == font_rows(code),
{
    font8x8::legacy::BASIC_LEGACY[code as usize]
}

/// The rows of all glyphs of the font that the greeter writes with.
pub open spec fn basic_rows() -> Seq<Seq<u8>> {
    Seq::new(GLYPH_COUNT as nat, |i: int| font_rows(i as u8))
}

/// The font that the greeter writes with.
pub fn basic_font() -> (font: Vec<[u8; 8]>)
    ensures
        rows_of(font@) == basic_rows(),
{
    let mut font: Vec<[u8; 8]> = Vec::new();
    for code in 0..128u8
        invariant
            font@.len() == code,
            forall|i: int| 0 <= i < code ==> (#[trigger] font@[i])@ == font_rows(i as u8),
    {
        font.push(basic_glyph(code));
    }
    assert(rows_of(font@) =~= basic_rows());
    font
}

/// Draws all glyphs of the greeter's font into one image. A scale of 3 makes a glyph 24 pixels
/// high.
pub fn create_atlas(scale: usize) -> (atlas: FontAtlas)
    requires
        atlas_fits(scale as int),
    ensures
        atlas.is_atlas(basic_rows(), scale as int),
{
    let font = basic_font();
    assert(rows_of(font@).len() == GLYPH_COUNT);
    build_atlas(&font, scale)
}

/// How much the font is enlarged for a size in pixels.
pub fn font_scale(font_size: usize) -> (scale: usize)
    ensures
        scale == font_size as int / 8,
{
    font_size / GLYPH_SIZE
}

/// A transparent image.
pub fn empty_pixels(w: u32, h: u32) -> (image: Vec<u8>)
    requires
        w * h * PIXEL_SIZE <= isize::MAX,
    ensures
        image@ == Seq::new((w * h * PIXEL_SIZE) as nat, |k: int| 0u8),
{
    proof {
        assert(0 <= w * h) by (nonlinear_arith);
    }
    let image: Vec<u8> = vec![0u8; (w as usize) * (h as usize) * PIXEL_SIZE];
    assert(image@ =~= Seq::new((w * h * PIXEL_SIZE) as nat, |k: int| 0u8));
    image
}

/// Where a text of some width begins so that it is centred; a text that is too wide begins at
/// the edge.
pub fn centred_start(w: u32, width: u32) -> (x: u32)
    ensures
        x == if width < w {
            (w - width) / 2
        } else {
            0
        },
{
    w.saturating_sub(width) / 2
}

/// Space between two lines, in pixels.
pub const LINE_SPACING: usize = 20;

/// A corner of a character on the screen. `x` and `y` count pixels from the top left of the
/// text; `u` and `v` are an edge of the glyph's cell in the atlas, `at_bottom` tells which of
/// the two vertical ones.
#[derive(Clone, Copy, Debug, PartialEq, Eq, Structural)]
pub struct Vertex {
    pub x: usize,
    pub y: usize,
    pub u: usize,
    pub v: usize,
    pub at_bottom: bool,
    pub blink: bool,
}

/// A text in triangles, and its extent.
pub struct TextLayout {
    pub vertices: Vec<Vertex>,
    pub width: usize,
    pub height: usize,
}

/// A character on the screen, by its place in the lines.
pub struct Placed {
    pub c: char,
    pub line: nat,
    pub column: nat,
}

/// The line that a text ends in.
pub open spec fn line_of(text: Seq<char>) -> nat
    decreases text.len(),
{
    if text.len() == 0 {
        0
    } else if text.last() == '\n' {
        line_of(text.drop_last()) + 1
    } else {
        line_of(text.drop_last())
    }
}

/// The column that a text ends in. Characters without a glyph take no room.
pub open spec fn column_of(text: Seq<char>) -> nat
    decreases text.len(),
{
    if text.len() == 0 || text.last() == '\n' {
        0
    } else if has_glyph(text.last()) {
        column_of(text.drop_last()) + 1
    } else {
        column_of(text.drop_last())
    }
}

/// A character at the end of a text.
pub open spec fn place_after(text: Seq<char>, c: char) -> Placed {
    Placed { c, line: line_of(text), column: column_of(text) }
}

/// The characters of a text that are shown, and where.
pub open spec fn placed(text: Seq<char>) -> Seq<Placed>
    decreases text.len(),
{
    if text.len() == 0 {
        Seq::empty()
    } else {
        let before = text.drop_last();
        if text.last() != '\n' && has_glyph(text.last()) {
            placed(before).push(place_after(before, text.last()))
        } else {
            placed(before)
        }
    }
}

/// The number of columns that a text takes.
pub open spec fn columns(text: Seq<char>) -> nat
    decreases text.len(),
{
    if text.len() == 0 {
        0
    } else {
        let before = columns(text.drop_last());
        if before < column_of(text) {
            column_of(text)
        } else {
            before
        }
    }
}

/// The lower edge of the last character that is shown, in pixels.
pub open spec fn bottom(text: Seq<char>, cell: int) -> int {
    let shown = placed(text);
    if shown.len() == 0 {
        0
    } else {
        shown.last().line * (cell + LINE_SPACING) + cell
    }
}

/// A corner of a character on the screen.
pub open spec fn corner(p: Placed, scale: int, right: bool, at_bottom: bool) -> Vertex {
    let cell = cell_size(scale);
    let glyph = glyph_at(p.c as u32, scale);
    let x = p.column * cell;
    let y = p.line * (cell + LINE_SPACING);
    Vertex {
        x: if right {
            (x + cell) as usize
        } else {
            x as usize
        },
        y: if at_bottom {
            (y + cell) as usize
        } else {
            y as usize
        },
        u: if right {
            glyph.u1
        } else {
            glyph.u0
        },
        v: if at_bottom {
            glyph.v1
        } else {
            glyph.v0
        },
        at_bottom,
        blink: p.c == '_',
    }
}

/// The two triangles of a character: the upper left and the lower right one.
pub open spec fn triangles(p: Placed, scale: int) -> Seq<Vertex> {
    seq![
        corner(p, scale, false, false),
        corner(p, scale, true, false),
        corner(p, scale, false, true),
        corner(p, scale, true, false),
        corner(p, scale, true, true),
        corner(p, scale, false, true),
    ]
}

/// The triangles of a row of characters.
pub open spec fn all_triangles(shown: Seq<Placed>, scale: int) -> Seq<Vertex>
    decreases shown.len(),
{
    if shown.len() == 0 {
        Seq::empty()
    } else {
        all_triangles(shown.drop_last(), scale) + triangles(shown.last(), scale)
    }
}

/// Whether the places of a text are machine numbers.
pub open spec fn layout_fits(text: Seq<char>, scale: int) -> bool {
    let cell = cell_size(scale);
    &&& cell + LINE_SPACING <= usize::MAX
    &&& columns(text) * cell <= usize::MAX
    &&& line_of(text) * (cell + LINE_SPACING) <= usize::MAX
    &&& bottom(text, cell) <= usize::MAX
}

/// One character more.
proof fn lemma_next_place(text: Seq<char>, c: char)
    ensures
        line_of(text.push(c)) == if c == '\n' {
            line_of(text) + 1
        } else {
            line_of(text)
        },
        column_of(text.push(c)) == if c == '\n' {
            0
        } else if has_glyph(c) {
            column_of(text) + 1
        } else {
            column_of(text)
        },
        columns(text.push(c)) == if columns(text) < column_of(text.push(c)) {
            column_of(text.push(c))
        } else {
            columns(text)
        },
        placed(text.push(c)) == if c != '\n' && has_glyph(c) {
            placed(text).push(place_after(text, c))
        } else {
            placed(text)
        },
{
    assert(text.push(c).drop_last() =~= text);
}

proof fn lemma_places_are_bounded(text: Seq<char>)
    ensures
        line_of(text) <= text.len(),
        column_of(text) <= columns(text) <= text.len(),
    decreases text.len(),
{
    if text.len() > 0 {
        lemma_places_are_bounded(text.drop_last());
    }
}

/// Where a text can be laid out, so can its beginning.
proof fn lemma_beginning_fits(text: Seq<char>, n: int, scale: int)
    requires
        0 <= n <= text.len(),
        scale >= 0,
        layout_fits(text, scale),
    ensures
        layout_fits(text.take(n), scale),
    decreases text.len() - n,
{
    if n < text.len() {
        lemma_beginning_fits(text, n + 1, scale);
        let now = text.take(n + 1);
        let before = text.take(n);
        let cell = cell_size(scale);
        let line = cell + LINE_SPACING;
        assert(now =~= before.push(text[n]));
        lemma_next_place(before, text[n]);
        lemma_places_go_forward(before);
        lemma_larger_multiple(columns(before) as int, columns(now) as int, cell);
        lemma_larger_multiple(line_of(before) as int, line_of(now) as int, line);
        if placed(before).len() > 0 {
            let last = placed(before)[placed(before).len() - 1];
            assert(last.line <= line_of(before));
            lemma_larger_multiple(last.line as int, line_of(before) as int, line);
        }
    } else {
        assert(text.take(n) =~= text);
    }
}

/// A text can be laid out if each of its characters could have a column and a line of its own.
pub proof fn law_short_texts_fit(text: Seq<char>, scale: int)
    requires
        scale >= 0,
        (text.len() + 1) * (cell_size(scale) + LINE_SPACING) <= usize::MAX,
    ensures
        layout_fits(text, scale),
{
    let cell = cell_size(scale);
    let line = cell + LINE_SPACING;
    let len = text.len() as int;
    lemma_places_are_bounded(text);
    lemma_places_go_forward(text);
    lemma_larger_multiple(columns(text) as int, len, cell);
    lemma_larger_multiple(line_of(text) as int, len, line);
    if placed(text).len() > 0 {
        let last = placed(text)[placed(text).len() - 1];
        assert(last.line <= line_of(text));
        lemma_larger_multiple(last.line as int, len, line);
    }
    assert((len + 1) * line == len * line + line && len * cell <= len * line && 0 <= len * line)
        by (nonlinear_arith)
        requires
            0 <= len,
            0 <= cell <= line,
    ;
}

/// Adds the two triangles of a character at a place on the screen.
fn push_triangles(vertices: &mut Vec<Vertex>, glyph: &Glyph, x0: usize, y0: usize, blink: bool)
    requires
        x0 + glyph.w <= usize::MAX,
        y0 + glyph.h <= usize::MAX,
    ensures
        final(vertices)@ == old(vertices)@ + seq![
            Vertex { x: x0, y: y0, u: glyph.u0, v: glyph.v0, at_bottom: false, blink },
            Vertex {
                x: (x0 + glyph.w) as usize,
                y: y0,
                u: glyph.u1,
                v: glyph.v0,
                at_bottom: false,
                blink,
            },
            Vertex {
                x: x0,
                y: (y0 + glyph.h) as usize,
                u: glyph.u0,
                v: glyph.v1,
                at_bottom: true,
                blink,
            },
            Vertex {
                x: (x0 + glyph.w) as usize,
                y: y0,
                u: glyph.u1,
                v: glyph.v0,
                at_bottom: false,
                blink,
            },
            Vertex {
                x: (x0 + glyph.w) as usize,
                y: (y0 + glyph.h) as usize,
                u: glyph.u1,
                v: glyph.v1,
                at_bottom: true,
                blink,
            },
            Vertex {
                x: x0,
                y: (y0 + glyph.h) as usize,
                u: glyph.u0,
                v: glyph.v1,
                at_bottom: true,
                blink,
            },
        ],
{
    let x1: usize = x0 + glyph.w;
    let y1: usize = y0 + glyph.h;
    let top_left = Vertex { x: x0, y: y0, u: glyph.u0, v: glyph.v0, at_bottom: false, blink };
    let top_right = Vertex { x: x1, y: y0, u: glyph.u1, v: glyph.v0, at_bottom: false, blink };
    let bottom_left = Vertex { x: x0, y: y1, u: glyph.u0, v: glyph.v1, at_bottom: true, blink };
    let bottom_right = Vertex { x: x1, y: y1, u: glyph.u1, v: glyph.v1, at_bottom: true, blink };
    vertices.push(top_left);
    vertices.push(top_right);
    vertices.push(bottom_left);
    vertices.push(top_right);
    vertices.push(bottom_right);
    vertices.push(bottom_left);
    assert(vertices@ =~= old(vertices)@ + seq![
        top_left,
        top_right,
        bottom_left,
        top_right,
        bottom_right,
        bottom_left,
    ]);
}

/// Lays a text out with the glyphs of an atlas: characters stand side by side, and a newline
/// begins a new line.
pub fn layout_text(text: &str, atlas: &FontAtlas, scale: usize) -> (layout: TextLayout)
    requires
        atlas.has_glyphs(scale as int),
        layout_fits(text@, scale as int),
    ensures
        layout.vertices@ == all_triangles(placed(text@), scale as int),
        layout.width == columns(text@) * cell_size(scale as int),
        layout.height == bottom(text@, cell_size(scale as int)),
{
    let ghost chars = text@;
    let ghost cell = cell_size(scale as int);
    let line_height: usize = scale * GLYPH_SIZE + LINE_SPACING;
    let mut vertices: Vec<Vertex> = Vec::new();
    let mut cursor_x: usize = 0;
    let mut cursor_y: usize = 0;
    let mut width: usize = 0;
    let mut height: usize = 0;
    assert(chars.take(0) =~= Seq::empty());
    assert(0 * cell == 0 && 0 * line_height == 0);
    for c in iter: text.chars()
        invariant
            chars == text@,
            iter.seq() == chars,
            cell == cell_size(scale as int),
            line_height == cell + LINE_SPACING,
            atlas.has_glyphs(scale as int),
            layout_fits(chars, scale as int),
            vertices@ == all_triangles(placed(chars.take(iter.index() as int)), scale as int),
            cursor_x == column_of(chars.take(iter.index() as int)) * cell,
            cursor_y == line_of(chars.take(iter.index() as int)) * line_height,
            width == columns(chars.take(iter.index() as int)) * cell,
            height == bottom(chars.take(iter.index() as int), cell),
    {
        let ghost i = iter.index() as int;
        let ghost before = chars.take(i);
        let ghost now = chars.take(i + 1);
        proof {
            assert(now =~= before.push(c));
            lemma_next_place(before, c);
            lemma_beginning_fits(chars, i + 1, scale as int);
            lemma_places_are_bounded(now);
            lemma_next_multiples(column_of(before) as int, cell);
            lemma_next_multiples(line_of(before) as int, cell + LINE_SPACING);
            lemma_larger_multiple(columns(before) as int, column_of(now) as int, cell);
            lemma_larger_multiple(column_of(now) as int, columns(now) as int, cell);
            lemma_larger_multiple(column_of(now) as int, columns(before) as int, cell);
            assert(0 * cell == 0);
            assert(has_glyph(c) && c != '\n' ==> column_of(now) == column_of(before) + 1);
        }
        if c == '\n' {
            cursor_x = 0;
            cursor_y = cursor_y + line_height;
        } else {
            assert(atlas.glyph_of(c) == if has_glyph(c) {
                Some(glyph_at(c as u32, scale as int))
            } else {
                None
            });
            match atlas.get_glyph(c) {
                Some(glyph) => {
                    let ghost place = place_after(before, c);
                    let ghost old_vertices = vertices@;
                    push_triangles(&mut vertices, glyph, cursor_x, cursor_y, c == '_');
                    proof {
                        assert(placed(now).drop_last() =~= placed(before));
                        assert(vertices@ =~= old_vertices + triangles(place, scale as int));
                    }
                    if width < cursor_x + glyph.w {
                        width = cursor_x + glyph.w;
                    }
                    height = cursor_y + glyph.h;
                    cursor_x = cursor_x + glyph.advance_x;
                },
                None => {},
            }
        }
    }
    assert(chars.take(chars.len() as int) =~= chars);
    TextLayout { vertices, width, height }
}

/// Multiples follow each other at the distance of the number.
proof fn lemma_next_multiples(n: int, m: int)
    ensures
        (n + 1) * m == n * m + m,
{
    assert((n + 1) * m == n * m + m) by (nonlinear_arith);
}

/// A larger number has a larger multiple.
proof fn lemma_larger_multiple(a: int, b: int, c: int)
    requires
        c >= 0,
    ensures
        a <= b ==> a * c <= b * c,
{
    if a <= b {
        assert(a * c <= b * c) by (nonlinear_arith)
            requires
                a <= b,
                c >= 0,
        ;
    }
}

/// A glyph stays within the cell that it is drawn to.
pub proof fn law_glyph_stays_in_its_cell(
    glyph: Seq<u8>,
    x: int,
    y: int,
    scale: int,
    px: int,
    py: int,
)
    requires
        covers(glyph, x, y, scale, px, py),
    ensures
        x <= px < x + cell_size(scale),
        y <= py < y + cell_size(scale),
{
    lemma_enlarged(x, scale, (px - x) / scale, px);
    lemma_enlarged(y, scale, (py - y) / scale, py);
    let col = (px - x) / scale;
    let row = (py - y) / scale;
    lemma_div_pos_is_pos(px - x, scale);
    lemma_div_pos_is_pos(py - y, scale);
    assert(col * scale + scale <= 8 * scale && row * scale + scale <= 8 * scale)
        by (nonlinear_arith)
        requires
            0 <= col < 8,
            0 <= row < 8,
            scale > 0,
    ;
}

/// Enlarging turns each pixel of the glyph into a square of the same colour.
pub proof fn law_enlarging(glyph: Seq<u8>, scale: int, px: int, py: int)
    requires
        scale > 0,
        0 <= px,
        0 <= py,
    ensures
        covers(glyph, 0, 0, scale, px, py) == covers(glyph, 0, 0, 1, px / scale, py / scale),
{
    lemma_div_pos_is_pos(px, scale);
    lemma_div_pos_is_pos(py, scale);
}

/// The cells of two characters in the atlas lie apart, and within the image.
pub proof fn law_atlas_cells_lie_apart(a: u32, b: u32, scale: int)
    requires
        a < GLYPH_COUNT,
        b < GLYPH_COUNT,
        a != b,
        scale > 0,
        atlas_fits(scale),
    ensures
        ({
            let one = glyph_at(a, scale);
            let two = glyph_at(b, scale);
            ||| one.u1 <= two.u0
            ||| two.u1 <= one.u0
            ||| one.v1 <= two.v0
            ||| two.v1 <= one.v0
        }),
        glyph_at(a, scale).u1 <= ATLAS_COLS * cell_size(scale),
        glyph_at(a, scale).v1 <= ATLAS_ROWS * cell_size(scale),
{
    lemma_atlas_sizes(scale);
    let cell = cell_size(scale);
    let (ax, ay) = (a as int % 16, a as int / 16);
    let (bx, by) = (b as int % 16, b as int / 16);
    assert(ax != bx || ay != by);
    assert(0 <= ax * cell && ax * cell + cell <= 16 * cell) by (nonlinear_arith)
        requires
            0 <= ax < 16,
            cell > 0,
    ;
    assert(0 <= ay * cell && ay * cell + cell <= 8 * cell) by (nonlinear_arith)
        requires
            0 <= ay < 8,
            cell > 0,
    ;
    assert(0 <= bx * cell && bx * cell + cell <= 16 * cell) by (nonlinear_arith)
        requires
            0 <= bx < 16,
            cell > 0,
    ;
    assert(0 <= by * cell && by * cell + cell <= 8 * cell) by (nonlinear_arith)
        requires
            0 <= by < 8,
            cell > 0,
    ;
    assert((ax < bx ==> ax * cell + cell <= bx * cell) && (bx < ax ==> bx * cell + cell <= ax
        * cell) && (ay < by ==> ay * cell + cell <= by * cell) && (by < ay ==> by * cell + cell
        <= ay * cell)) by (nonlinear_arith)
        requires
            cell > 0,
    ;
}

/// Places go forward in the text.
proof fn lemma_places_go_forward(text: Seq<char>)
    ensures
        forall|i: int|
            0 <= i < placed(text).len() ==> {
                let p = #[trigger] placed(text)[i];
                p.column < columns(text) && (p.line < line_of(text) || (p.line == line_of(text)
                    && p.column < column_of(text)))
            },
        forall|i: int, j: int|
            0 <= i < j < placed(text).len() ==> {
                let p = #[trigger] placed(text)[i];
                let q = #[trigger] placed(text)[j];
                p.line < q.line || (p.line == q.line && p.column < q.column)
            },
    decreases text.len(),
{
    if text.len() > 0 {
        let before = text.drop_last();
        assert(text =~= before.push(text.last()));
        lemma_places_go_forward(before);
        lemma_next_place(before, text.last());
    }
}

/// No two characters of a text are drawn over each other: the later one stands to the right, or
/// on a line below.
pub proof fn law_characters_lie_apart(text: Seq<char>, i: int, j: int, scale: int)
    requires
        0 <= i < j < placed(text).len(),
        scale >= 0,
    ensures
        ({
            let a = placed(text)[i];
            let b = placed(text)[j];
            let cell = cell_size(scale);
            let line = cell + LINE_SPACING;
            ||| a.line == b.line && a.column * cell + cell <= b.column * cell
            ||| a.line * line + cell < b.line * line
        }),
{
    lemma_places_go_forward(text);
    let a = placed(text)[i];
    let b = placed(text)[j];
    let cell = cell_size(scale);
    let line = cell + LINE_SPACING;
    assert((a.column < b.column ==> a.column * cell + cell <= b.column * cell) && (a.line < b.line
        ==> a.line * line + line <= b.line * line)) by (nonlinear_arith)
        requires
            cell >= 0,
            line >= 0,
            a.column >= 0,
            b.column >= 0,
            a.line >= 0,
            b.line >= 0,
    ;
}

/// No character of a text ends to the right of its width.
pub proof fn law_text_keeps_its_width(text: Seq<char>, i: int, scale: int)
    requires
        0 <= i < placed(text).len(),
        scale >= 0,
    ensures
        placed(text)[i].column * cell_size(scale) + cell_size(scale) <= columns(text) * cell_size(
            scale,
        ),
{
    lemma_places_go_forward(text);
    let column = placed(text)[i].column;
    let cell = cell_size(scale);
    assert(column * cell + cell <= columns(text) * cell) by (nonlinear_arith)
        requires
            0 <= column < columns(text),
            cell >= 0,
    ;
}

/// What is shown of a text are its characters that have a glyph, without the newlines and in
/// their order.
pub proof fn law_text_is_shown(text: Seq<char>)
    ensures
        placed(text).map_values(|p: Placed| p.c) == text.filter(
            |c: char| c != '\n' && has_glyph(c),
        ),
    decreases text.len(),
{
    let shown = |c: char| c != '\n' && has_glyph(c);
    reveal(Seq::filter);
    if text.len() > 0 {
        let before = text.drop_last();
        assert(text =~= before.push(text.last()));
        law_text_is_shown(before);
        lemma_next_place(before, text.last());
        assert(placed(text).map_values(|p: Placed| p.c) =~= text.filter(shown));
    } else {
        assert(placed(text).map_values(|p: Placed| p.c) =~= text.filter(shown));
    }
}

/// Every character that a key types has a glyph.
pub proof fn law_typed_characters_are_shown(modifiers: Modifiers, code: u16)
    ensures
        modifiers.login_event(code) matches Some(LoginEvent::Char(c)) ==> has_glyph(c) && c != '\n',
{
    crate::keyboard::law_keys_type_ascii(modifiers, code);
}

/// What a rendering pass reads from or writes to.
#[derive(Clone, Copy, Debug, PartialEq, Eq, Structural)]
pub enum Layer {
    /// The texture of the background.
    Background,
    /// The texture of the background effect.
    Effect,
    /// What the user sees.
    Screen,
}

/// The rendering passes of a frame.
#[derive(Clone, Copy, Debug, PartialEq, Eq, Structural)]
pub enum Pass {
    /// Draws the background.
    Background { to: Layer },
    /// Draws the background again, with an effect.
    Effect { from: Layer, to: Layer },
    /// Draws the text over what is there.
    Text { to: Layer },
    /// Draws what there is on the screen, with the last shader.
    Post { from: Layer, to: Layer },
}

impl Pass {
    /// The layer that a pass reads.
    pub open spec fn reads(self) -> Option<Layer> {
        match self {
            Pass::Background { .. } => None,
            Pass::Effect { from, .. } => Some(from),
            Pass::Text { to } => Some(to),
            Pass::Post { from, .. } => Some(from),
        }
    }

    /// The layer that a pass writes.
    pub open spec fn writes(self) -> Layer {
        match self {
            Pass::Background { to } => to,
            Pass::Effect { to, .. } => to,
            Pass::Text { to } => to,
            Pass::Post { to, .. } => to,
        }
    }
}

/// The passes of a frame, with or without a background effect.
pub open spec fn frame_passes(has_effect: bool) -> Seq<Pass> {
    if has_effect {
        seq![
            Pass::Background { to: Layer::Background },
            Pass::Effect { from: Layer::Background, to: Layer::Effect },
            Pass::Text { to: Layer::Effect },
            Pass::Post { from: Layer::Effect, to: Layer::Screen },
        ]
    } else {
        seq![
            Pass::Background { to: Layer::Background },
            Pass::Text { to: Layer::Background },
            Pass::Post { from: Layer::Background, to: Layer::Screen },
        ]
    }
}

/// The passes of a frame, in order.
pub fn passes(has_effect: bool) -> (passes: Vec<Pass>)
    ensures
        passes@ == frame_passes(has_effect),
{
    let mut passes: Vec<Pass> = Vec::new();
    passes.push(Pass::Background { to: Layer::Background });
    let layer = if has_effect {
        passes.push(Pass::Effect { from: Layer::Background, to: Layer::Effect });
        Layer::Effect
    } else {
        Layer::Background
    };
    passes.push(Pass::Text { to: layer });
    passes.push(Pass::Post { from: layer, to: Layer::Screen });
    assert(passes@ =~= frame_passes(has_effect));
    passes
}

/// Each pass builds on the one before: it reads what that pass wrote. The last one writes to the
/// screen.
pub proof fn law_passes_build_on_each_other(has_effect: bool, i: int)
    requires
        0 < i < frame_passes(has_effect).len(),
    ensures
        frame_passes(has_effect)[i].reads() == Some(frame_passes(has_effect)[i - 1].writes()),
        frame_passes(has_effect)[0].reads() is None,
        frame_passes(has_effect).last().writes() is Screen,
{
}

/// The lowest bit of a row is its first column, and each further column is the next bit.
pub proof fn law_columns_are_bits(row: u8, col: usize)
    ensures
        is_lit(row, 0) <==> row as int % 2 == 1,
        col < 7 ==> is_lit(row, (col + 1) as usize) == is_lit(row / 2, col),
{
    assert((row >> 0usize) & 1 != 0 <==> row % 2 == 1) by (bit_vector);
    if col < 7 {
        let next: usize = (col + 1) as usize;
        assert((row >> next) & 1 == ((row / 2) >> col) & 1) by (bit_vector)
            requires
                next == col + 1,
                col < 7,
        ;
    }
}

/// Drawn in its own size in the corner, a glyph has a pixel where its row has a bit. Drawn elsewhere,
/// it has the same pixels there. Drawn in no size, it has none.
pub proof fn law_glyph_is_drawn_where_asked(
    glyph: Seq<u8>,
    x: int,
    y: int,
    scale: int,
    px: int,
    py: int,
)
    ensures
        covers(glyph, 0, 0, 1, px, py) <==> 0 <= px < 8 && 0 <= py < 8 && is_lit(
            glyph[py],
            px as usize,
        ),
        covers(glyph, x, y, scale, px, py) == covers(glyph, 0, 0, scale, px - x, py - y),
        scale == 0 ==> !covers(glyph, x, y, scale, px, py),
{
}

/// Painting gives each pixel that the mask selects the colour, and leaves each other one as it is.
pub proof fn law_painting_goes_by_pixels(
    image: Seq<u8>,
    w: int,
    h: int,
    color: Seq<u8>,
    mask: spec_fn(int, int) -> bool,
    px: int,
    py: int,
    k: int,
)
    requires
        0 <= px < w,
        0 <= py < h,
        0 <= k < 4,
        (py * w + px) * 4 + k < image.len(),
    ensures
        paint(image, w, h, color, mask).len() == image.len(),
        paint(image, w, h, color, mask)[(py * w + px) * 4 + k] == if mask(px, py) {
            color[k]
        } else {
            image[(py * w + px) * 4 + k]
        },
{
    let p = py * w + px;
    lemma_mul_nonnegative(py, w);
    lemma_pixel_number(w, px, py, p);
    assert((p * 4 + k) / 4 == p && (p * 4 + k) % 4 == k);
}

/// The atlas shows each glyph of the font in its own cell, white on nothing: cells follow each other
/// in rows of sixteen, and have eight times the scale for their sides.
pub proof fn law_atlas_shows_its_font(
    font: Seq<Seq<u8>>,
    scale: int,
    code: int,
    dx: int,
    dy: int,
    k: int,
)
    requires
        scale > 0,
        0 <= code < 128,
        0 <= dx < 8 * scale,
        0 <= dy < 8 * scale,
        0 <= k < 4,
    ensures
        ({
            let px = (code % 16) * (8 * scale) + dx;
            let py = (code / 16) * (8 * scale) + dy;
            atlas_image(font, scale)[(py * (128 * scale) + px) * 4 + k] == if is_lit(
                font[code][dy / scale],
                (dx / scale) as usize,
            ) {
                255u8
            } else {
                0u8
            }
        }),
        atlas_image(font, scale).len() == 128 * scale * (64 * scale) * 4,
{
    let cell = 8 * scale;
    let (col, row) = (code % 16, code / 16);
    let px = col * cell + dx;
    let py = row * cell + dy;
    let w = 128 * scale;
    let h = 64 * scale;
    assert(ATLAS_COLS * cell_size(scale) == w && ATLAS_ROWS * cell_size(scale) == h);
    assert(0 <= px < w && 0 <= py < h) by (nonlinear_arith)
        requires
            px == col * cell + dx,
            py == row * cell + dy,
            0 <= col < 16,
            0 <= row < 8,
            0 <= dx < cell,
            0 <= dy < cell,
            w == 16 * cell,
            h == 8 * cell,
    ;
    assert(0 <= w * h && (py * w + px) * 4 + k < w * h * 4) by (nonlinear_arith)
        requires
            0 <= px < w,
            0 <= py < h,
            0 <= k < 4,
    ;
    lemma_fundamental_div_mod_converse(px, cell, col, dx);
    lemma_fundamental_div_mod_converse(py, cell, row, dy);
    let blank = Seq::new((w * h * PIXEL_SIZE) as nat, |k: int| 0u8);
    law_painting_goes_by_pixels(
        blank,
        w,
        h,
        seq![0xffu8, 0xffu8, 0xffu8, 0xffu8],
        |px: int, py: int| atlas_covers(font, scale, px, py),
        px,
        py,
        k,
    );
    assert((py / cell) * 16 + px / cell == code);
}

/// The glyph of a character is its cell: its sides, and its edges in the atlas. The characters below
/// 128 have one, and no other.
pub proof fn law_glyphs_are_cells(atlas: FontAtlas, font: Seq<Seq<u8>>, scale: int, c: char)
    requires
        scale >= 0,
        atlas_fits(scale),
        atlas.is_atlas(font, scale),
    ensures
        atlas.w == 128 * scale,
        atlas.h == 64 * scale,
        atlas.glyph_of(c) is Some <==> (c as u32) < 128,
        atlas.glyph_of(c) matches Some(glyph) ==> {
            &&& glyph.w == 8 * scale
            &&& glyph.h == 8 * scale
            &&& glyph.advance_x == 8 * scale
            &&& glyph.u0 == (c as int % 16) * (8 * scale)
            &&& glyph.u1 == (c as int % 16) * (8 * scale) + 8 * scale
            &&& glyph.v0 == (c as int / 16) * (8 * scale)
            &&& glyph.v1 == (c as int / 16) * (8 * scale) + 8 * scale
        },
{
    assert(atlas.glyph_of(c) == atlas.glyph_of(c));
    if (c as u32) < 128 {
        lemma_cell_edges(c as int, scale);
    }
}

/// The edges of a cell are machine numbers.
proof fn lemma_cell_edges(code: int, scale: int)
    requires
        0 <= code < 128,
        scale >= 0,
        atlas_fits(scale),
    ensures
        0 <= (code % 16) * (8 * scale),
        0 <= (code / 16) * (8 * scale),
        (code % 16) * (8 * scale) + 8 * scale <= usize::MAX,
        (code / 16) * (8 * scale) + 8 * scale <= usize::MAX,
{
    lemma_atlas_sizes(scale);
    let (col, row, cell) = (code % 16, code / 16, 8 * scale);
    assert(0 <= col * cell && col * cell + cell <= 16 * cell && 0 <= row * cell && row * cell + cell
        <= 8 * cell) by (nonlinear_arith)
        requires
            0 <= col < 16,
            0 <= row < 8,
            cell >= 0,
    ;
}

/// Each character that is shown is two triangles over its place on the screen, textured with its own
/// cell of the atlas, and nothing else: its corners on the screen are the corners of that cell. Only
/// the cursor blinks.
pub proof fn law_characters_show_their_own_cells(text: Seq<char>, scale: int, i: int, k: int)
    requires
        scale >= 0,
        atlas_fits(scale),
        layout_fits(text, scale),
        0 <= i < placed(text).len(),
        0 <= k < 6,
    ensures
        ({
            let vertices = all_triangles(placed(text), scale);
            let p = placed(text)[i];
            let vertex = vertices[6 * i + k];
            let right = if k == 1 || k == 3 || k == 4 {
                8 * scale
            } else {
                0
            };
            let down = if k == 2 || k == 4 || k == 5 {
                8 * scale
            } else {
                0
            };
            &&& vertices.len() == 6 * placed(text).len()
            &&& vertex.x == p.column * (8 * scale) + right
            &&& vertex.y == p.line * (8 * scale + 20) + down
            &&& vertex.u == (p.c as int % 16) * (8 * scale) + right
            &&& vertex.v == (p.c as int / 16) * (8 * scale) + down
            &&& vertex.at_bottom == (k == 2 || k == 4 || k == 5)
            &&& vertex.blink == (p.c == '_')
        }),
{
    let shown = placed(text);
    let p = shown[i];
    let cell = 8 * scale;
    let line = cell + 20;
    lemma_all_triangles(shown, scale, i, k);
    lemma_places_go_forward(text);
    lemma_shown_have_glyphs(text, i);
    lemma_cell_edges(p.c as int, scale);
    lemma_larger_multiple(p.column as int + 1, columns(text) as int, cell);
    lemma_next_multiples(p.column as int, cell);
    lemma_mul_nonnegative(p.column as int, cell);
    lemma_mul_nonnegative(p.line as int, line);
    let last = shown[shown.len() - 1];
    assert(p.line <= last.line);
    lemma_larger_multiple(p.line as int, last.line as int, line);
    assert(bottom(text, cell) == last.line * line + cell);
}

/// What is shown has a glyph.
proof fn lemma_shown_have_glyphs(text: Seq<char>, i: int)
    requires
        0 <= i < placed(text).len(),
    ensures
        (placed(text)[i].c as u32) < 128,
        placed(text)[i].c != '\n',
    decreases text.len(),
{
    if text.len() > 0 {
        let before = text.drop_last();
        assert(text =~= before.push(text.last()));
        lemma_next_place(before, text.last());
        if i < placed(before).len() {
            lemma_shown_have_glyphs(before, i);
        }
    }
}

/// The triangles of a row of characters follow each other, six corners for each.
proof fn lemma_all_triangles(shown: Seq<Placed>, scale: int, i: int, k: int)
    requires
        0 <= i < shown.len(),
        0 <= k < 6,
    ensures
        all_triangles(shown, scale).len() == 6 * shown.len(),
        all_triangles(shown, scale)[6 * i + k] == triangles(shown[i], scale)[k],
    decreases shown.len(),
{
    let before = shown.drop_last();
    if before.len() > 0 {
        if i < before.len() {
            lemma_all_triangles(before, scale, i, k);
        } else {
            lemma_all_triangles(before, scale, 0, 0);
        }
    } else {
        assert(all_triangles(before, scale).len() == 0);
    }
    assert(triangles(shown.last(), scale).len() == 6);
}

/// The place of a character: its line is the number of newlines before it, and its column the number
/// of characters with a glyph since the last newline. What comes behind it does not move it.
pub proof fn law_places_count_what_comes_before(
    head: Seq<char>,
    row: Seq<char>,
    c: char,
    rest: Seq<char>,
)
    requires
        head.len() == 0 || head.last() == '\n',
        !row.contains('\n'),
        c != '\n',
        (c as u32) < 128,
    ensures
        ({
            let before = head + row;
            let p = placed(before.push(c) + rest)[placed(before).len() as int];
            &&& placed(before).len() < placed(before.push(c) + rest).len()
            &&& p.c == c
            &&& p.line == head.filter(|c: char| c == '\n').len()
            &&& p.column == row.filter(|c: char| (c as u32) < 128).len()
        }),
{
    let before = head + row;
    lemma_row(head, row);
    lemma_next_place(before, c);
    lemma_placed_prefix(before.push(c), rest);
}

/// Text behind a text does not change the places in it.
proof fn lemma_placed_prefix(text: Seq<char>, rest: Seq<char>)
    ensures
        placed(text).len() <= placed(text + rest).len(),
        forall|i: int|
            0 <= i < placed(text).len() ==> #[trigger] placed(text + rest)[i] == placed(text)[i],
    decreases rest.len(),
{
    if rest.len() == 0 {
        assert(text + rest =~= text);
    } else {
        let shorter = rest.drop_last();
        lemma_placed_prefix(text, shorter);
        assert(text + rest =~= (text + shorter).push(rest.last()));
        lemma_next_place(text + shorter, rest.last());
    }
}

/// Where a line of a text ends.
proof fn lemma_row(head: Seq<char>, row: Seq<char>)
    requires
        head.len() == 0 || head.last() == '\n',
        !row.contains('\n'),
    ensures
        line_of(head + row) == head.filter(|c: char| c == '\n').len(),
        column_of(head + row) == row.filter(|c: char| (c as u32) < 128).len(),
    decreases row.len(),
{
    reveal(Seq::filter);
    if row.len() == 0 {
        assert(head + row =~= head);
        law_lines_are_counted(head);
    } else {
        let shorter = row.drop_last();
        assert(row[row.len() - 1] == row.last());
        assert(row.last() != '\n');
        assert(!shorter.contains('\n')) by {
            if shorter.contains('\n') {
                let k = choose|k: int| 0 <= k < shorter.len() && shorter[k] == '\n';
                assert(row[k] == '\n');
            }
        }
        lemma_row(head, shorter);
        assert(head + row =~= (head + shorter).push(row.last()));
        lemma_next_place(head + shorter, row.last());
    }
}

/// A text ends in the line that its newlines make.
pub proof fn law_lines_are_counted(text: Seq<char>)
    ensures
        line_of(text) == text.filter(|c: char| c == '\n').len(),
    decreases text.len(),
{
    reveal(Seq::filter);
    if text.len() > 0 {
        law_lines_are_counted(text.drop_last());
    }
}

/// The extent of a text: its width is where some character ends, and its height where its last shown
/// character does. A text that shows nothing has none.
pub proof fn law_extent_is_reached(text: Seq<char>, scale: int)
    ensures
        placed(text).len() == 0 ==> columns(text) == 0 && bottom(text, 8 * scale) == 0,
        placed(text).len() > 0 ==> exists|i: int|
            0 <= i < placed(text).len() && (#[trigger] placed(text)[i]).column + 1 == columns(text),
        placed(text).len() > 0 ==> bottom(text, 8 * scale) == placed(text).last().line * (8 * scale
            + 20) + 8 * scale,
    decreases text.len(),
{
    if text.len() > 0 {
        let before = text.drop_last();
        let c = text.last();
        assert(text =~= before.push(c));
        lemma_next_place(before, c);
        law_extent_is_reached(before, scale);
        lemma_places_are_bounded(before);
        if placed(before).len() > 0 {
            let i = choose|i: int|
                0 <= i < placed(before).len() && (#[trigger] placed(before)[i]).column + 1
                    == columns(before);
            assert(placed(text)[i] == placed(before)[i]);
        }
        if c != '\n' && has_glyph(c) {
            let last = placed(before).len() as int;
            assert(placed(text)[last].column == column_of(before));
        }
    }
}

/// A frame begins with the background and ends on the screen. The text is drawn once, right before
/// the last pass, and the effect is drawn exactly if there is one, right before the text.
pub proof fn law_passes_of_a_frame(has_effect: bool)
    ensures
        ({
            let passes = frame_passes(has_effect);
            let n = passes.len() as int;
            &&& n == if has_effect {
                4int
            } else {
                3
            }
            &&& passes[0] is Background
            &&& has_effect ==> passes[1] is Effect
            &&& passes[n - 2] is Text
            &&& passes[n - 1] is Post
            &&& passes[n - 1].writes() is Screen
            &&& forall|i: int| 0 <= i < n - 1 ==> !((#[trigger] passes[i]).writes() is Screen)
        }),
{
}

/// A font is its glyphs by their codes. The one of the greeter has 128.
pub proof fn law_fonts_are_by_code(font: Seq<[u8; 8]>, code: int)
    ensures
        basic_rows().len() == 128,
        0 <= code < 128 ==> basic_rows()[code] == font_rows(code as u8),
        rows_of(font).len() == font.len(),
        0 <= code < font.len() ==> rows_of(font)[code] == font[code]@,
{
}

/// Fonts of up to two thousand pixels fit into an atlas on every machine.
pub proof fn law_usual_scales_fit(scale: int)
    requires
        0 <= scale <= 255,
    ensures
        atlas_fits(scale),
{
    assert(128 * scale * (64 * scale) * 4 <= 2_130_739_200) by (nonlinear_arith)
        requires
            0 <= scale <= 255,
    ;
    assert(ATLAS_COLS * cell_size(scale) == 128 * scale);
    assert(ATLAS_ROWS * cell_size(scale) == 64 * scale);
}

/// A glyph can be drawn anywhere into a whole image, as long as its cell ends at a machine number.
pub proof fn law_glyphs_can_be_drawn(
    glyph: Seq<u8>,
    x: int,
    y: int,
    scale: int,
    w: int,
    h: int,
    mask: spec_fn(int, int) -> bool,
)
    requires
        0 <= w,
        0 <= h,
        0 <= scale,
        x + 8 * scale <= usize::MAX,
        y + 8 * scale <= usize::MAX,
    ensures
        is_reachable(glyph, x, y, scale),
        has_room(w * h * 4, w, h, mask),
{
    lemma_whole_image_has_room(w, h, mask);
    assert forall|row: int, col: usize|
        0 <= row < GLYPH_SIZE && col < GLYPH_SIZE && #[trigger] is_lit(glyph[row], col) implies x
        + col * scale + scale - 1 <= usize::MAX && y + row * scale + scale - 1 <= usize::MAX by {
        assert(col * scale + scale <= 8 * scale && row * scale + scale <= 8 * scale)
            by (nonlinear_arith)
            requires
                col <= 7,
                row <= 7,
                scale >= 0,
        ;
    }
}

} // verus!
