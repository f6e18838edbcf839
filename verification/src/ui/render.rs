//! Drawing primitives on a framebuffer of packed `0x00RRGGBB` pixels, laid
//! out row by row, `stride` pixels to a row.

use vstd::arithmetic::div_mod::{
    lemma_fundamental_div_mod, lemma_fundamental_div_mod_converse, lemma_mod_bound,
    lemma_multiply_divide_lt,
};
use vstd::prelude::*;

verus! {

/// Background of the window.
pub const BG_COLOR: [u8; 4] = [31, 31, 31, 255];

/// Width of a glyph in cells.
pub const GLYPH_COLS: u32 = 5;

/// Height of a glyph in cells.
pub const GLYPH_ROWS: u32 = 7;

/// Cells from the start of one character to the start of the next.
pub const GLYPH_ADVANCE: u32 = 6;

/// A 5x7 bitmap font for the characters 32 to 127. Each glyph is five
/// columns of seven rows, one byte per column, lowest bit at the top.
pub const FONT_5X7: [[u8; 5]; 96] = [
    [0x00, 0x00, 0x00, 0x00, 0x00],
    [0x00, 0x00, 0x5F, 0x00, 0x00],
    [0x00, 0x07, 0x00, 0x07, 0x00],
    [0x14, 0x7F, 0x14, 0x7F, 0x14],
    [0x24, 0x2A, 0x7F, 0x2A, 0x12],
    [0x23, 0x13, 0x08, 0x64, 0x62],
    [0x36, 0x49, 0x55, 0x22, 0x50],
    [0x00, 0x05, 0x03, 0x00, 0x00],
    [0x00, 0x1C, 0x22, 0x41, 0x00],
    [0x00, 0x41, 0x22, 0x1C, 0x00],
    [0x14, 0x08, 0x3E, 0x08, 0x14],
    [0x08, 0x08, 0x3E, 0x08, 0x08],
    [0x00, 0x50, 0x30, 0x00, 0x00],
    [0x08, 0x08, 0x08, 0x08, 0x08],
    [0x00, 0x60, 0x60, 0x00, 0x00],
    [0x20, 0x10, 0x08, 0x04, 0x02],
    [0x3E, 0x51, 0x49, 0x45, 0x3E],
    [0x00, 0x42, 0x7F, 0x40, 0x00],
    [0x42, 0x61, 0x51, 0x49, 0x46],
    [0x21, 0x41, 0x45, 0x4B, 0x31],
    [0x18, 0x14, 0x12, 0x7F, 0x10],
    [0x27, 0x45, 0x45, 0x45, 0x39],
    [0x3C, 0x4A, 0x49, 0x49, 0x30],
    [0x01, 0x71, 0x09, 0x05, 0x03],
    [0x36, 0x49, 0x49, 0x49, 0x36],
    [0x06, 0x49, 0x49, 0x29, 0x1E],
    [0x00, 0x36, 0x36, 0x00, 0x00],
    [0x00, 0x56, 0x36, 0x00, 0x00],
    [0x08, 0x14, 0x22, 0x41, 0x00],
    [0x14, 0x14, 0x14, 0x14, 0x14],
    [0x00, 0x41, 0x22, 0x14, 0x08],
    [0x02, 0x01, 0x51, 0x09, 0x06],
    [0x3E, 0x41, 0x5D, 0x55, 0x1E],
    [0x7E, 0x11, 0x11, 0x11, 0x7E],
    [0x7F, 0x49, 0x49, 0x49, 0x36],
    [0x3E, 0x41, 0x41, 0x41, 0x22],
    [0x7F, 0x41, 0x41, 0x22, 0x1C],
    [0x7F, 0x49, 0x49, 0x49, 0x41],
    [0x7F, 0x09, 0x09, 0x09, 0x01],
    [0x3E, 0x41, 0x49, 0x49, 0x7A],
    [0x7F, 0x08, 0x08, 0x08, 0x7F],
    [0x00, 0x41, 0x7F, 0x41, 0x00],
    [0x20, 0x40, 0x41, 0x3F, 0x01],
    [0x7F, 0x08, 0x14, 0x22, 0x41],
    [0x7F, 0x40, 0x40, 0x40, 0x40],
    [0x7F, 0x02, 0x0C, 0x02, 0x7F],
    [0x7F, 0x04, 0x08, 0x10, 0x7F],
    [0x3E, 0x41, 0x41, 0x41, 0x3E],
    [0x7F, 0x09, 0x09, 0x09, 0x06],
    [0x3E, 0x41, 0x51, 0x21, 0x5E],
    [0x7F, 0x09, 0x19, 0x29, 0x46],
    [0x46, 0x49, 0x49, 0x49, 0x31],
    [0x01, 0x01, 0x7F, 0x01, 0x01],
    [0x3F, 0x40, 0x40, 0x40, 0x3F],
    [0x1F, 0x20, 0x40, 0x20, 0x1F],
    [0x3F, 0x40, 0x38, 0x40, 0x3F],
    [0x63, 0x14, 0x08, 0x14, 0x63],
    [0x07, 0x08, 0x70, 0x08, 0x07],
    [0x61, 0x51, 0x49, 0x45, 0x43],
    [0x00, 0x7F, 0x41, 0x41, 0x00],
    [0x02, 0x04, 0x08, 0x10, 0x20],
    [0x00, 0x41, 0x41, 0x7F, 0x00],
    [0x04, 0x02, 0x01, 0x02, 0x04],
    [0x40, 0x40, 0x40, 0x40, 0x40],
    [0x00, 0x01, 0x02, 0x04, 0x00],
    [0x20, 0x54, 0x54, 0x54, 0x78],
    [0x7F, 0x48, 0x44, 0x44, 0x38],
    [0x38, 0x44, 0x44, 0x44, 0x20],
    [0x38, 0x44, 0x44, 0x48, 0x7F],
    [0x38, 0x54, 0x54, 0x54, 0x18],
    [0x08, 0x7E, 0x09, 0x01, 0x02],
    [0x0C, 0x52, 0x52, 0x52, 0x3E],
    [0x7F, 0x08, 0x04, 0x04, 0x78],
    [0x00, 0x44, 0x7D, 0x40, 0x00],
    [0x20, 0x40, 0x44, 0x3D, 0x00],
    [0x7F, 0x10, 0x28, 0x44, 0x00],
    [0x00, 0x41, 0x7F, 0x40, 0x00],
    [0x7C, 0x04, 0x18, 0x04, 0x78],
    [0x7C, 0x08, 0x04, 0x04, 0x78],
    [0x38, 0x44, 0x44, 0x44, 0x38],
    [0x7C, 0x14, 0x14, 0x14, 0x08],
    [0x08, 0x14, 0x14, 0x18, 0x7C],
    [0x7C, 0x08, 0x04, 0x04, 0x08],
    [0x48, 0x54, 0x54, 0x54, 0x20],
    [0x04, 0x3F, 0x44, 0x40, 0x20],
    [0x3C, 0x40, 0x40, 0x20, 0x7C],
    [0x1C, 0x20, 0x40, 0x20, 0x1C],
    [0x3C, 0x40, 0x30, 0x40, 0x3C],
    [0x44, 0x28, 0x10, 0x28, 0x44],
    [0x0C, 0x50, 0x50, 0x50, 0x3C],
    [0x44, 0x64, 0x54, 0x4C, 0x44],
    [0x00, 0x08, 0x36, 0x41, 0x00],
    [0x00, 0x00, 0x7F, 0x00, 0x00],
    [0x00, 0x41, 0x36, 0x08, 0x00],
    [0x10, 0x08, 0x08, 0x10, 0x08],
    [0x00, 0x00, 0x00, 0x00, 0x00],
];

/// The pixel `0x00RRGGBB`.
pub open spec fn pack(r: u8, g: u8, b: u8) -> u32 {
    (r as int * 65536 + g as int * 256 + b as int) as u32
}

/// The red, green and blue bytes of a pixel.
pub open spec fn unpack(v: u32) -> (u8, u8, u8) {
    (((v as int / 65536) % 256) as u8, ((v as int / 256) % 256) as u8, (v as int % 256) as u8)
}

/// One channel of `src` laid over `dst` with opacity `alpha` out of 255.
pub open spec fn blend_channel(src: u8, dst: u8, alpha: u8) -> u8 {
    ((src as int * alpha as int + dst as int * (255 - alpha as int)) / 255) as u8
}

/// The pixel that results from laying `color` (red, green, blue, opacity)
/// over the pixel `under`.
pub open spec fn blend(color: (u8, u8, u8, u8), under: u32) -> u32 {
    let (r, g, b) = unpack(under);
    pack(
        blend_channel(color.0, r, color.3),
        blend_channel(color.1, g, color.3),
        blend_channel(color.2, b, color.3),
    )
}

/// Whether offset `i` lies in a frame of `buf_h` rows of `stride` pixels.
pub open spec fn in_frame(i: int, stride: int, buf_h: int) -> bool {
    stride > 0 && 0 <= i < stride * buf_h
}

/// The frame `under` with `color` laid over every pixel of the rectangle
/// that starts at column `x0`, row `y0` and is `w` wide and `h` high. What
/// of the rectangle lies outside the frame is left out.
pub open spec fn painted(
    under: Seq<u32>,
    stride: int,
    buf_h: int,
    x0: int,
    y0: int,
    w: int,
    h: int,
    color: (u8, u8, u8, u8),
) -> Seq<u32> {
    Seq::new(
        under.len(),
        |i: int|
            if in_frame(i, stride, buf_h) && x0 <= i % stride < x0 + w && y0 <= i / stride < y0
                + h {
                blend(color, under[i])
            } else {
                under[i]
            },
    )
}

/// Whether the glyph of `ch` has the cell in column `col`, row `row` set.
/// Characters outside 32 to 127 have no glyph.
pub open spec fn glyph_bit(ch: char, col: int, row: int) -> bool {
    &&& 32 <= (ch as u32) < 128
    &&& 0 <= col < 5
    &&& 0 <= row < 7
    &&& FONT_5X7[(ch as u32) - 32][col] & (1u8 << (row as u8)) != 0
}

/// Whether the glyph of `ch`, drawn with cells of `scale` by `scale` pixels,
/// covers the pixel `u` to the right of and `v` below its top left corner.
pub open spec fn glyph_covers(ch: char, scale: int, u: int, v: int) -> bool {
    &&& scale > 0
    &&& 0 <= u < 5 * scale
    &&& 0 <= v < 7 * scale
    &&& glyph_bit(ch, u / scale, v / scale)
}

/// The frame `under` with `color` laid over every pixel that the glyph of
/// `ch` covers when its top left corner is at column `px`, row `py`.
pub open spec fn char_painted(
    under: Seq<u32>,
    stride: int,
    buf_h: int,
    ch: char,
    px: int,
    py: int,
    scale: int,
    color: (u8, u8, u8, u8),
) -> Seq<u32> {
    Seq::new(
        under.len(),
        |i: int|
            if in_frame(i, stride, buf_h) && glyph_covers(ch, scale, i % stride - px, i / stride - py) {
                blend(color, under[i])
            } else {
                under[i]
            },
    )
}

/// The frame `under` with the characters of `text` drawn one after the
/// other from column `px` on, each `6 * scale` pixels after the one before.
pub open spec fn text_painted(
    under: Seq<u32>,
    stride: int,
    buf_h: int,
    text: Seq<char>,
    px: int,
    py: int,
    scale: int,
    color: (u8, u8, u8, u8),
) -> Seq<u32>
    decreases text.len(),
{
    if text.len() == 0 {
        under
    } else {
        char_painted(
            text_painted(under, stride, buf_h, text.drop_last(), px, py, scale, color),
            stride,
            buf_h,
            text.last(),
            px + (text.len() - 1) * 6 * scale,
            py,
            scale,
            color,
        )
    }
}

/// Packing three bytes and unpacking the pixel gives the bytes back.
pub proof fn lemma_unpack_pack(r: u8, g: u8, b: u8)
    ensures
        unpack(pack(r, g, b)) == (r, g, b),
{
}

/// A blended channel is a byte: the weights `alpha` and `255 - alpha` add up
/// to 255.
pub proof fn lemma_blend_channel_fits(src: u8, dst: u8, alpha: u8)
    ensures
        0 <= (src as int * alpha as int + dst as int * (255 - alpha as int)) / 255 <= 255,
        0 <= src as int * alpha as int + dst as int * (255 - alpha as int) <= 65025,
{
    let s = src as int;
    let d = dst as int;
    let a = alpha as int;
    assert(0 <= s * a <= 255 * a) by (nonlinear_arith)
        requires
            0 <= s <= 255,
            0 <= a,
    ;
    assert(0 <= d * (255 - a) <= 255 * (255 - a)) by (nonlinear_arith)
        requires
            0 <= d <= 255,
            0 <= 255 - a,
    ;
}

/// A colour of full opacity replaces what is under it.
pub proof fn lemma_blend_opaque(color: (u8, u8, u8, u8), under: u32)
    requires
        color.3 == 255,
    ensures
        blend(color, under) == pack(color.0, color.1, color.2),
{
}

/// Row and column of an offset within the frame.
pub proof fn lemma_frame_coords(i: int, stride: int, buf_h: int)
    requires
        in_frame(i, stride, buf_h),
    ensures
        0 <= i % stride < stride,
        0 <= i / stride < buf_h,
        i == (i / stride) * stride + i % stride,
{
    lemma_mod_bound(i, stride);
    lemma_fundamental_div_mod(i, stride);
    lemma_multiply_divide_lt(i, stride, buf_h);
    assert(stride * (i / stride) == (i / stride) * stride) by (nonlinear_arith);
    assert(0 <= i / stride) by (nonlinear_arith)
        requires
            i == stride * (i / stride) + i % stride,
            0 <= i,
            i % stride < stride,
            stride > 0,
    ;
}

/// Offset of the pixel in column `x` of row `y`.
pub proof fn lemma_offset_coords(x: int, y: int, stride: int, buf_h: int)
    requires
        0 <= x < stride,
        0 <= y < buf_h,
    ensures
        in_frame(y * stride + x, stride, buf_h),
        (y * stride + x) / stride == y,
        (y * stride + x) % stride == x,
{
    lemma_fundamental_div_mod_converse(y * stride + x, stride, y, x);
    assert(y * stride + x < stride * buf_h) by (nonlinear_arith)
        requires
            0 <= x < stride,
            0 <= y < buf_h,
    ;
    assert(0 <= y * stride) by (nonlinear_arith)
        requires
            0 <= y,
            0 < stride,
    ;
}

/// The `scale` pixels from `c * scale` on are those of cell `c`.
pub proof fn lemma_cell_of(u: int, scale: int, c: int)
    requires
        scale > 0,
    ensures
        (c * scale <= u < c * scale + scale) <==> u / scale == c,
{
    lemma_fundamental_div_mod(u, scale);
    lemma_mod_bound(u, scale);
    assert((c + 1) * scale == c * scale + scale) by (nonlinear_arith);
    assert(scale * (u / scale) == (u / scale) * scale) by (nonlinear_arith);
    if c * scale <= u < c * scale + scale {
        lemma_fundamental_div_mod_converse(u, scale, c, u - c * scale);
    }
}

/// Whether cell (`c`, `r`) comes before cell (`col`, `row`) when a glyph is
/// drawn column by column.
pub open spec fn cell_before(c: int, r: int, col: int, row: int) -> bool {
    c < col || (c == col && r < row)
}

/// Packs red, green and blue into a pixel `0x00RRGGBB`.
pub fn rgb(r: u8, g: u8, b: u8) -> (v: u32)
    ensures
        v == pack(r, g, b),
{
    assert((r as u32) << 16 | (g as u32) << 8 | (b as u32) == (r as u32) * 65536 + (g as u32) * 256
        + (b as u32)) by (bit_vector);
    (r as u32) << 16 | (g as u32) << 8 | b as u32
}

/// The red, green and blue bytes of a pixel.
pub fn unpack_rgb(v: u32) -> (c: (u8, u8, u8))
    ensures
        c == unpack(v),
{
    assert(((v >> 16) & 0xff) == (v / 65536) % 256) by (bit_vector);
    assert(((v >> 8) & 0xff) == (v / 256) % 256) by (bit_vector);
    assert((v & 0xff) == v % 256) by (bit_vector);
    (((v >> 16) & 0xff) as u8, ((v >> 8) & 0xff) as u8, (v & 0xff) as u8)
}

/// Lays `color` (red, green, blue, opacity) over the pixel `under`.
pub fn blend_pixel(color: (u8, u8, u8, u8), under: u32) -> (v: u32)
    ensures
        v == blend(color, under),
{
    let (dr, dg, db) = unpack_rgb(under);
    let a = color.3 as u32;
    proof {
        lemma_blend_channel_fits(color.0, dr, color.3);
        lemma_blend_channel_fits(color.1, dg, color.3);
        lemma_blend_channel_fits(color.2, db, color.3);
    }
    let r = ((color.0 as u32 * a + dr as u32 * (255 - a)) / 255) as u8;
    let g = ((color.1 as u32 * a + dg as u32 * (255 - a)) / 255) as u8;
    let b = ((color.2 as u32 * a + db as u32 * (255 - a)) / 255) as u8;
    rgb(r, g, b)
}

/// `v` held between 0 and `limit`.
fn clip(v: i64, limit: u32) -> (r: usize)
    ensures
        r == (if v <= 0 {
            0
        } else if v >= limit {
            limit as int
        } else {
            v as int
        }),
{
    if v <= 0 {
        0
    } else if v >= limit as i64 {
        limit as usize
    } else {
        v as usize
    }
}

/// Lays `color` over the part of a rectangle that lies in the frame.
fn blend_block(
    buf: &mut [u32],
    stride: u32,
    buf_h: u32,
    x0: i64,
    y0: i64,
    w: u32,
    h: u32,
    color: (u8, u8, u8, u8),
)
    requires
        stride * buf_h <= old(buf)@.len(),
        -0x100_0000_0000 <= x0 <= 0x100_0000_0000,
        -0x100_0000_0000 <= y0 <= 0x100_0000_0000,
    ensures
        final(buf)@ == painted(
            old(buf)@,
            stride as int,
            buf_h as int,
            x0 as int,
            y0 as int,
            w as int,
            h as int,
            color,
        ),
{
    let ghost under = buf@;
    let len = buf.len();
    let ghost s = stride as int;
    let ghost bh = buf_h as int;
    let xs = clip(x0, stride);
    let xe = clip(x0 + w as i64, stride);
    let ys = clip(y0, buf_h);
    let ye = clip(y0 + h as i64, buf_h);
    let mut y = ys;
    while y < ye
        invariant
            ys <= y <= ye,
            xs <= xe,
            len == under.len(),
            ye <= buf_h,
            xe <= stride,
            s == stride,
            bh == buf_h,
            s * bh <= under.len(),
            buf@.len() == under.len(),
            forall|i: int|
                0 <= i < under.len() ==> #[trigger] buf@[i] == (if in_frame(i, s, bh) && xs <= i
                    % s < xe && ys <= i / s < y {
                    blend(color, under[i])
                } else {
                    under[i]
                }),
        decreases ye - y,
    {
        let mut x = xs;
        while x < xe
            invariant
                xs <= x <= xe,
                len == under.len(),
                ys <= y < ye,
                ye <= buf_h,
                xe <= stride,
                s == stride,
                bh == buf_h,
                s * bh <= under.len(),
                buf@.len() == under.len(),
                forall|i: int|
                    0 <= i < under.len() ==> #[trigger] buf@[i] == (if in_frame(i, s, bh) && xs <= i
                        % s < xe && (ys <= i / s < y || (i / s == y && i % s < x)) {
                        blend(color, under[i])
                    } else {
                        under[i]
                    }),
            decreases xe - x,
        {
            proof {
                lemma_offset_coords(x as int, y as int, s, bh);
                assert(0 <= y * s <= y * s + x) by (nonlinear_arith)
                    requires
                        0 <= y,
                        0 <= s,
                        0 <= x,
                ;
            }
            let off = y * (stride as usize) + x;
            let v = blend_pixel(color, buf[off]);
            buf[off] = v;
            proof {
                assert forall|i: int| 0 <= i < under.len() implies #[trigger] buf@[i] == (if in_frame(
                    i,
                    s,
                    bh,
                ) && xs <= i % s < xe && (ys <= i / s < y || (i / s == y && i % s < x + 1)) {
                    blend(color, under[i])
                } else {
                    under[i]
                }) by {
                    if in_frame(i, s, bh) {
                        lemma_frame_coords(i, s, bh);
                    }
                }
            }
            x = x + 1;
        }
        proof {
            assert forall|i: int| 0 <= i < under.len() implies #[trigger] buf@[i] == (if in_frame(
                i,
                s,
                bh,
            ) && xs <= i % s < xe && ys <= i / s < y + 1 {
                blend(color, under[i])
            } else {
                under[i]
            }) by {
                if in_frame(i, s, bh) {
                    lemma_frame_coords(i, s, bh);
                }
            }
        }
        y = y + 1;
    }
    proof {
        let goal = painted(under, s, bh, x0 as int, y0 as int, w as int, h as int, color);
        assert forall|i: int| 0 <= i < under.len() implies buf@[i] == goal[i] by {
            if in_frame(i, s, bh) {
                lemma_frame_coords(i, s, bh);
            }
        }
        assert(buf@ =~= goal);
    }
}

/// Fills the rectangle that starts at column `rx`, row `ry` and is `rw`
/// wide and `rh` high with `color`, blended over what is there. The buffer
/// holds a frame of `buf_h` rows of `stride` pixels.
pub fn fill_rect(
    buf: &mut [u32],
    stride: u32,
    buf_h: u32,
    rx: i32,
    ry: i32,
    rw: u32,
    rh: u32,
    color: (u8, u8, u8, u8),
)
    requires
        stride * buf_h <= old(buf)@.len(),
    ensures
        final(buf)@ == painted(
            old(buf)@,
            stride as int,
            buf_h as int,
            rx as int,
            ry as int,
            rw as int,
            rh as int,
            color,
        ),
{
    blend_block(buf, stride, buf_h, rx as i64, ry as i64, rw, rh, color);
}

/// Draws the glyph of `ch` with its top left corner at column `px`, row
/// `py`, each cell `scale` by `scale` pixels, in `color` blended over what
/// is there. A character outside 32 to 127 draws nothing.
pub fn draw_char(
    buf: &mut [u32],
    stride: u32,
    buf_h: u32,
    ch: char,
    px: i32,
    py: i32,
    scale: u32,
    color: (u8, u8, u8, u8),
)
    requires
        stride * buf_h <= old(buf)@.len(),
    ensures
        final(buf)@ == char_painted(
            old(buf)@,
            stride as int,
            buf_h as int,
            ch,
            px as int,
            py as int,
            scale as int,
            color,
        ),
{
    let ghost under = buf@;
    let ghost s = stride as int;
    let ghost bh = buf_h as int;
    let ghost sc = scale as int;
    let code = ch as u32;
    if code < 32 || code >= 128 {
        assert(buf@ =~= char_painted(under, s, bh, ch, px as int, py as int, sc, color));
        return ;
    }
    let idx = (code - 32) as usize;
    let mut col: u32 = 0;
    while col < GLYPH_COLS
        invariant
            col <= GLYPH_COLS,
            idx == (ch as u32) - 32,
            32 <= (ch as u32) < 128,
            s == stride,
            bh == buf_h,
            sc == scale,
            s * bh <= under.len(),
            buf@.len() == under.len(),
            forall|i: int|
                0 <= i < under.len() ==> #[trigger] buf@[i] == (if in_frame(i, s, bh)
                    && glyph_covers(ch, sc, i % s - px, i / s - py) && cell_before(
                    (i % s - px) / sc,
                    (i / s - py) / sc,
                    col as int,
                    0,
                ) {
                    blend(color, under[i])
                } else {
                    under[i]
                }),
        decreases GLYPH_COLS - col,
    {
        let bits = FONT_5X7[idx][col as usize];
        let mut row: u32 = 0;
        while row < GLYPH_ROWS
            invariant
                col < GLYPH_COLS,
                row <= GLYPH_ROWS,
                idx == (ch as u32) - 32,
                32 <= (ch as u32) < 128,
                bits == FONT_5X7[idx as int][col as int],
                s == stride,
                bh == buf_h,
                sc == scale,
                s * bh <= under.len(),
                buf@.len() == under.len(),
                forall|i: int|
                    0 <= i < under.len() ==> #[trigger] buf@[i] == (if in_frame(i, s, bh)
                        && glyph_covers(ch, sc, i % s - px, i / s - py) && cell_before(
                        (i % s - px) / sc,
                        (i / s - py) / sc,
                        col as int,
                        row as int,
                    ) {
                        blend(color, under[i])
                    } else {
                        under[i]
                    }),
            decreases GLYPH_ROWS - row,
        {
            let shift = row as u8;
            let set = bits & (1u8 << shift) != 0;
            if set {
                proof {
                    assert(0 <= col * scale <= 4 * 0xffff_ffff && 0 <= row * scale <= 6
                        * 0xffff_ffff) by (nonlinear_arith)
                        requires
                            0 <= col <= 4,
                            0 <= row <= 6,
                            0 <= scale <= 0xffff_ffff,
                    ;
                }
                let x0 = px as i64 + (col as i64) * (scale as i64);
                let y0 = py as i64 + (row as i64) * (scale as i64);
                blend_block(buf, stride, buf_h, x0, y0, scale, scale, color);
            }
            proof {
                assert(set == glyph_bit(ch, col as int, row as int));
                assert forall|i: int| 0 <= i < under.len() implies #[trigger] buf@[i] == (if in_frame(
                    i,
                    s,
                    bh,
                ) && glyph_covers(ch, sc, i % s - px, i / s - py) && cell_before(
                    (i % s - px) / sc,
                    (i / s - py) / sc,
                    col as int,
                    row as int + 1,
                ) {
                    blend(color, under[i])
                } else {
                    under[i]
                }) by {
                    if sc > 0 {
                        lemma_cell_of(i % s - px, sc, col as int);
                        lemma_cell_of(i / s - py, sc, row as int);
                        assert(0 <= col * sc && col * sc + sc <= 5 * sc && 0 <= row * sc && row
                            * sc + sc <= 7 * sc) by (nonlinear_arith)
                            requires
                                0 <= col <= 4,
                                0 <= row <= 6,
                                sc > 0,
                        ;
                    }
                }
            }
            row = row + 1;
        }
        col = col + 1;
    }
    proof {
        assert(buf@ =~= char_painted(under, s, bh, ch, px as int, py as int, sc, color));
    }
}

/// Draws `text` from column `px`, row `py` on, one glyph every `6 * scale`
/// pixels, and returns the column after the last one.
pub fn draw_text(
    buf: &mut [u32],
    stride: u32,
    buf_h: u32,
    text: &str,
    px: i32,
    py: i32,
    scale: u32,
    color: (u8, u8, u8, u8),
) -> (x: i32)
    requires
        stride * buf_h <= old(buf)@.len(),
        px + text@.len() * 6 * scale <= i32::MAX,
    ensures
        x == px + text@.len() * 6 * scale,
        final(buf)@ == text_painted(
            old(buf)@,
            stride as int,
            buf_h as int,
            text@,
            px as int,
            py as int,
            scale as int,
            color,
        ),
{
    broadcast use vstd::string::group_string_axioms;

    let ghost under = buf@;
    let mut x = px;
    for ch in it: text.chars()
        invariant
            it.seq() == text@,
            stride * buf_h <= under.len(),
            buf@.len() == under.len(),
            px + text@.len() * 6 * scale <= i32::MAX,
            x == px + it.index() * 6 * scale,
            buf@ == text_painted(
                under,
                stride as int,
                buf_h as int,
                text@.take(it.index()),
                px as int,
                py as int,
                scale as int,
                color,
            ),
    {
        let ghost k = it.index();
        draw_char(buf, stride, buf_h, ch, x, py, scale, color);
        proof {
            assert(text@.take(k + 1).drop_last() =~= text@.take(k));
            assert(text@.take(k + 1).last() == ch);
            assert((k + 1) * 6 * scale <= text@.len() * 6 * scale) by (nonlinear_arith)
                requires
                    k + 1 <= text@.len(),
                    scale >= 0,
            ;
            assert((k + 1) * 6 * scale == k * 6 * scale + 6 * scale) by (nonlinear_arith);
            assert(k * 6 * scale >= 0) by (nonlinear_arith)
                requires
                    k >= 0,
                    scale >= 0,
            ;
        }
        x = (x as i64 + GLYPH_ADVANCE as i64 * scale as i64) as i32;
    }
    proof {
        assert(text@.take(text@.len() as int) =~= text@);
    }
    x
}

} // verus!
