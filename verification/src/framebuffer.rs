//! A bounds-checked framebuffer over a contiguous buffer of pixel words.
//!
//! [`LtdcFramebuffer`] owns one 16-bit word per pixel, row-major. All drawing
//! primitives clip against the display bounds and never panic: out-of-range
//! geometry is silently dropped, never indexed. The buffer may simultaneously
//! be read by an autonomous scanout engine; every mutation is a single
//! whole-pixel store, so the concurrent reader never observes a torn pixel.

use vstd::prelude::*;

use crate::color::Rgb565;
use crate::geometry::Pixel;
use crate::geometry::Point;
use crate::geometry::Rectangle;
use crate::geometry::Size;
use vstd::arithmetic::div_mod::lemma_fundamental_div_mod;
use vstd::arithmetic::div_mod::lemma_mod_bound;

verus! {

/// Whether `(x, y)` lies in the intersection of `area` with a `width` by
/// `height` display: exactly the pixels a rectangle fill stores to.
pub open spec fn rect_covers(area: Rectangle, width: int, height: int, x: int, y: int) -> bool {
    &&& in_bounds(width, height, x, y)
    &&& area.top_left.x as int <= x < area.top_left.x as int + area.size.width as int
    &&& area.top_left.y as int <= y < area.top_left.y as int + area.size.height as int
}

/// The row-major index of coordinate `(x, y)` in a buffer `width` words wide.
pub open spec fn pixel_index(width: int, x: int, y: int) -> int {
    x + width * y
}

/// Whether `(x, y)` lies inside a `width` by `height` display.
pub open spec fn in_bounds(width: int, height: int, x: int, y: int) -> bool {
    0 <= x < width && 0 <= y < height
}

/// In-bounds coordinates have row-major indices inside the buffer.
pub proof fn lemma_index_in_range(width: int, height: int, x: int, y: int)
    requires
        in_bounds(width, height, x, y),
    ensures
        0 <= pixel_index(width, x, y) < width * height,
{
    assert(x + width * y < width * height) by (nonlinear_arith)
        requires
            0 <= x < width,
            0 <= y < height,
    ;
}

/// Distinct in-bounds coordinates have distinct row-major indices.
pub proof fn lemma_index_injective(width: int, height: int, x1: int, y1: int, x2: int, y2: int)
    requires
        in_bounds(width, height, x1, y1),
        in_bounds(width, height, x2, y2),
        pixel_index(width, x1, y1) == pixel_index(width, x2, y2),
    ensures
        x1 == x2 && y1 == y2,
{
    assert(x1 == x2 && y1 == y2) by (nonlinear_arith)
        requires
            0 <= x1 < width,
            0 <= x2 < width,
            0 <= y1 < height,
            0 <= y2 < height,
            x1 + width * y1 == x2 + width * y2,
    ;
}

/// The buffer after drawing each pixel of `ps` in order, with the same
/// clipped single-pixel store semantics as `LtdcFramebuffer::set_pixel`:
/// in-bounds pixels are stored, out-of-bounds pixels are dropped.
pub open spec fn draw_seq(buf: Seq<u16>, width: int, height: int, ps: Seq<Pixel>) -> Seq<u16>
    decreases ps.len(),
{
    if ps.len() == 0 {
        buf
    } else {
        let p = ps[0];
        let stepped = if in_bounds(width, height, p.position.x as int, p.position.y as int) {
            buf.update(
                pixel_index(width, p.position.x as int, p.position.y as int),
                p.color.spec_storage(),
            )
        } else {
            buf
        };
        draw_seq(stepped, width, height, ps.skip(1))
    }
}

/// Drawing a pixel sequence mutates only the in-bounds coordinates it names:
/// a cell that no pixel of `ps` targets keeps its word, however many
/// out-of-bounds pixels the sequence holds.
pub proof fn lemma_draw_seq_untouched(
    buf: Seq<u16>,
    width: int,
    height: int,
    ps: Seq<Pixel>,
    x: int,
    y: int,
)
    requires
        buf.len() == width * height,
        in_bounds(width, height, x, y),
        forall|k: int|
            0 <= k < ps.len() ==> !(ps[k].position.x == x && ps[k].position.y == y),
    ensures
        draw_seq(buf, width, height, ps).len() == buf.len(),
        draw_seq(buf, width, height, ps)[pixel_index(width, x, y)] == buf[pixel_index(
            width,
            x,
            y,
        )],
    decreases ps.len(),
{
    lemma_index_in_range(width, height, x, y);
    if ps.len() > 0 {
        let p = ps[0];
        let px = p.position.x as int;
        let py = p.position.y as int;
        let stepped = if in_bounds(width, height, px, py) {
            buf.update(pixel_index(width, px, py), p.color.spec_storage())
        } else {
            buf
        };
        if in_bounds(width, height, px, py) {
            lemma_index_in_range(width, height, px, py);
            if pixel_index(width, px, py) == pixel_index(width, x, y) {
                lemma_index_injective(width, height, px, py, x, y);
            }
        }
        assert(stepped.len() == buf.len());
        assert(forall|k: int|
            0 <= k < ps.skip(1).len() ==> !(ps.skip(1)[k].position.x == x && ps.skip(
                1,
            )[k].position.y == y));
        lemma_draw_seq_untouched(stepped, width, height, ps.skip(1), x, y);
    }
}

/// Setting an in-bounds pixel and reading it back yields the written word,
/// and every other in-bounds pixel keeps its word.
pub proof fn lemma_set_pixel_readback(
    before: Seq<u16>,
    width: int,
    height: int,
    x: int,
    y: int,
    word: u16,
)
    requires
        before.len() == width * height,
        in_bounds(width, height, x, y),
    ensures
        before.update(pixel_index(width, x, y), word).len() == before.len(),
        before.update(pixel_index(width, x, y), word)[pixel_index(width, x, y)] == word,
        forall|x2: int, y2: int|
            in_bounds(width, height, x2, y2) && !(x2 == x && y2 == y) ==> before.update(
                pixel_index(width, x, y),
                word,
            )[pixel_index(width, x2, y2)] == before[pixel_index(width, x2, y2)],
{
    lemma_index_in_range(width, height, x, y);
    assert forall|x2: int, y2: int|
        in_bounds(width, height, x2, y2) && !(x2 == x && y2 == y) implies before.update(
        pixel_index(width, x, y),
        word,
    )[pixel_index(width, x2, y2)] == before[pixel_index(width, x2, y2)] by {
        lemma_index_in_range(width, height, x2, y2);
        if pixel_index(width, x2, y2) == pixel_index(width, x, y) {
            lemma_index_injective(width, height, x2, y2, x, y);
        }
    }
}

/// Two buffers that agree on the word of every in-bounds coordinate are the
/// same buffer: each index is the row-major index of exactly one coordinate.
pub proof fn lemma_grid_pointwise_eq(a: Seq<u16>, b: Seq<u16>, width: int, height: int)
    requires
        a.len() == width * height,
        b.len() == a.len(),
        width >= 0,
        height >= 0,
        forall|x: int, y: int|
            in_bounds(width, height, x, y) ==> a[pixel_index(width, x, y)] == b[pixel_index(
                width,
                x,
                y,
            )],
    ensures
        a == b,
{
    assert forall|i: int| 0 <= i < a.len() implies a[i] == b[i] by {
        assert(width > 0) by (nonlinear_arith)
            requires
                0 <= i < width * height,
                width >= 0,
        ;
        let x = i % width;
        let y = i / width;
        lemma_fundamental_div_mod(i, width);
        lemma_mod_bound(i, width);
        assert(y < height) by (nonlinear_arith)
            requires
                width * y + x == i,
                0 <= x < width,
                i < width * height,
        ;
        assert(y >= 0) by (nonlinear_arith)
            requires
                width * y + x == i,
                0 <= x < width,
                0 <= i,
        ;
        assert(pixel_index(width, x, y) == i) by (nonlinear_arith)
            requires
                width * y + x == i,
        ;
        assert(in_bounds(width, height, x, y));
        assert(a[pixel_index(width, x, y)] == b[pixel_index(width, x, y)]);
    }
    assert(a =~= b);
}

/// A rectangle whose intersection with the display bounds is empty fills
/// nothing: the buffer after the fill is the buffer before it.
pub proof fn lemma_fill_solid_noop(
    before: Seq<u16>,
    after: Seq<u16>,
    area: Rectangle,
    width: int,
    height: int,
    word: u16,
)
    requires
        before.len() == width * height,
        after.len() == before.len(),
        width >= 0,
        height >= 0,
        forall|x: int, y: int|
            in_bounds(width, height, x, y) ==> after[pixel_index(width, x, y)] == (if rect_covers(
                area,
                width,
                height,
                x,
                y,
            ) {
                word
            } else {
                before[pixel_index(width, x, y)]
            }),
        forall|x: int, y: int| !rect_covers(area, width, height, x, y),
    ensures
        after == before,
{
    lemma_grid_pointwise_eq(after, before, width, height);
}

/// One row of covered coordinates, `n` pixels from `(x_lo, y)` rightwards,
/// all carrying `c`.
pub open spec fn row_pixels(x_lo: int, n: nat, y: int, c: Rgb565) -> Seq<Pixel> {
    Seq::new(
        n,
        |i: int| Pixel { position: Point { x: (x_lo + i) as i32, y: y as i32 }, color: c },
    )
}

/// The covered coordinates of a clipped rectangle, row-major: `rows` rows
/// of `n` pixels each, starting at `(x_lo, y_lo)`.
pub open spec fn rect_pixels_from(x_lo: int, n: nat, y_lo: int, rows: nat, c: Rgb565) -> Seq<
    Pixel,
>
    decreases rows,
{
    if rows == 0 {
        Seq::empty()
    } else {
        row_pixels(x_lo, n, y_lo, c) + rect_pixels_from(x_lo, n, y_lo + 1, (rows - 1) as nat, c)
    }
}

/// The row-major enumeration of the pixels that `area`, clipped to a
/// `width` by `height` display, covers, all carrying `c`.
pub open spec fn rect_pixels(area: Rectangle, width: int, height: int, c: Rgb565) -> Seq<Pixel> {
    let rx = area.top_left.x as int;
    let ry = area.top_left.y as int;
    let x_lo = if rx < 0 { 0 } else { rx };
    let y_lo = if ry < 0 { 0 } else { ry };
    let x_hi = if rx + area.size.width as int > width { width } else { rx + area.size.width as int };
    let y_hi = if ry + area.size.height as int > height { height } else { ry + area.size.height as int };
    if x_lo < x_hi && y_lo < y_hi {
        rect_pixels_from(x_lo, (x_hi - x_lo) as nat, y_lo, (y_hi - y_lo) as nat, c)
    } else {
        Seq::empty()
    }
}

/// Drawing a pixel sequence in two halves is drawing the first half and
/// then the second on the intermediate buffer.
pub proof fn lemma_draw_seq_concat(buf: Seq<u16>, width: int, height: int, a: Seq<Pixel>, b: Seq<Pixel>)
    ensures
        draw_seq(buf, width, height, a + b) == draw_seq(draw_seq(buf, width, height, a), width, height, b),
    decreases a.len(),
{
    if a.len() == 0 {
        assert(a + b =~= b);
        assert(draw_seq(buf, width, height, a) == buf);
    } else {
        let p = a[0];
        let stepped = if in_bounds(width, height, p.position.x as int, p.position.y as int) {
            buf.update(
                pixel_index(width, p.position.x as int, p.position.y as int),
                p.color.spec_storage(),
            )
        } else {
            buf
        };
        assert((a + b)[0] == p);
        assert((a + b).skip(1) =~= a.skip(1) + b);
        lemma_draw_seq_concat(stepped, width, height, a.skip(1), b);
    }
}

/// Drawing one covered row stores the color's word at its `n` consecutive
/// coordinates and leaves every other pixel unchanged.
proof fn lemma_draw_row(buf: Seq<u16>, width: int, height: int, x_lo: int, n: nat, y: int, c: Rgb565)
    requires
        buf.len() == width * height,
        width <= 0xffff,
        height <= 0xffff,
        0 <= x_lo,
        x_lo + n <= width,
        0 <= y < height,
    ensures
        draw_seq(buf, width, height, row_pixels(x_lo, n, y, c)).len() == buf.len(),
        forall|x2: int, y2: int|
            in_bounds(width, height, x2, y2) ==> draw_seq(
                buf,
                width,
                height,
                row_pixels(x_lo, n, y, c),
            )[pixel_index(width, x2, y2)] == (if y2 == y && x_lo <= x2 < x_lo + n {
                c.spec_storage()
            } else {
                buf[pixel_index(width, x2, y2)]
            }),
    decreases n,
{
    let row = row_pixels(x_lo, n, y, c);
    if n == 0 {
        assert(row.len() == 0);
    } else {
        let p = row[0];
        assert(p.position.x as int == x_lo && p.position.y as int == y);
        assert(in_bounds(width, height, x_lo, y));
        lemma_index_in_range(width, height, x_lo, y);
        let stepped = buf.update(pixel_index(width, x_lo, y), c.spec_storage());
        assert(row.skip(1) =~= row_pixels(x_lo + 1, (n - 1) as nat, y, c));
        lemma_draw_row(stepped, width, height, x_lo + 1, (n - 1) as nat, y, c);
        let out = draw_seq(buf, width, height, row);
        assert forall|x2: int, y2: int|
            in_bounds(width, height, x2, y2) implies out[pixel_index(width, x2, y2)] == (if y2 == y
            && x_lo <= x2 < x_lo + n {
            c.spec_storage()
        } else {
            buf[pixel_index(width, x2, y2)]
        }) by {
            lemma_index_in_range(width, height, x2, y2);
            if pixel_index(width, x2, y2) == pixel_index(width, x_lo, y) {
                lemma_index_injective(width, height, x2, y2, x_lo, y);
            }
        }
    }
}

/// Drawing the covered rows stores the color's word at exactly the window's
/// coordinates and leaves every other pixel unchanged.
proof fn lemma_draw_rect(
    buf: Seq<u16>,
    width: int,
    height: int,
    x_lo: int,
    n: nat,
    y_lo: int,
    rows: nat,
    c: Rgb565,
)
    requires
        buf.len() == width * height,
        width <= 0xffff,
        height <= 0xffff,
        0 <= x_lo,
        x_lo + n <= width,
        0 <= y_lo,
        y_lo + rows <= height,
    ensures
        draw_seq(buf, width, height, rect_pixels_from(x_lo, n, y_lo, rows, c)).len() == buf.len(),
        forall|x2: int, y2: int|
            in_bounds(width, height, x2, y2) ==> draw_seq(
                buf,
                width,
                height,
                rect_pixels_from(x_lo, n, y_lo, rows, c),
            )[pixel_index(width, x2, y2)] == (if x_lo <= x2 < x_lo + n && y_lo <= y2 < y_lo + rows {
                c.spec_storage()
            } else {
                buf[pixel_index(width, x2, y2)]
            }),
    decreases rows,
{
    if rows > 0 {
        let row = row_pixels(x_lo, n, y_lo, c);
        let rest = rect_pixels_from(x_lo, n, y_lo + 1, (rows - 1) as nat, c);
        lemma_draw_seq_concat(buf, width, height, row, rest);
        lemma_draw_row(buf, width, height, x_lo, n, y_lo, c);
        let mid = draw_seq(buf, width, height, row);
        lemma_draw_rect(mid, width, height, x_lo, n, y_lo + 1, (rows - 1) as nat, c);
    }
}

/// Filling a rectangle produces exactly the buffer that storing through
/// `set_pixel` at every covered coordinate produces, taking the covered
/// coordinates row-major.
pub proof fn lemma_fill_solid_is_iterated_set_pixel(
    before: Seq<u16>,
    after: Seq<u16>,
    area: Rectangle,
    width: u16,
    height: u16,
    color: Rgb565,
)
    requires
        before.len() == width as int * height as int,
        after.len() == before.len(),
        forall|x: int, y: int|
            in_bounds(width as int, height as int, x, y) ==> after[pixel_index(
                width as int,
                x,
                y,
            )] == (if rect_covers(area, width as int, height as int, x, y) {
                color.spec_storage()
            } else {
                before[pixel_index(width as int, x, y)]
            }),
    ensures
        after == draw_seq(
            before,
            width as int,
            height as int,
            rect_pixels(area, width as int, height as int, color),
        ),
{
    let w = width as int;
    let h = height as int;
    let rx = area.top_left.x as int;
    let ry = area.top_left.y as int;
    let x_lo = if rx < 0 { 0 } else { rx };
    let y_lo = if ry < 0 { 0 } else { ry };
    let x_hi = if rx + area.size.width as int > w { w } else { rx + area.size.width as int };
    let y_hi = if ry + area.size.height as int > h { h } else { ry + area.size.height as int };
    let drawn = draw_seq(before, w, h, rect_pixels(area, w, h, color));
    if x_lo < x_hi && y_lo < y_hi {
        lemma_draw_rect(before, w, h, x_lo, (x_hi - x_lo) as nat, y_lo, (y_hi - y_lo) as nat, color);
        assert forall|x2: int, y2: int|
            in_bounds(w, h, x2, y2) implies after[pixel_index(w, x2, y2)] == drawn[pixel_index(
            w,
            x2,
            y2,
        )] by {
            lemma_index_in_range(w, h, x2, y2);
        }
        lemma_grid_pointwise_eq(after, drawn, w, h);
    } else {
        assert(drawn == before);
        assert forall|x2: int, y2: int|
            in_bounds(w, h, x2, y2) implies after[pixel_index(w, x2, y2)] == before[pixel_index(
            w,
            x2,
            y2,
        )] by {
            lemma_index_in_range(w, h, x2, y2);
        }
        lemma_grid_pointwise_eq(after, drawn, w, h);
    }
}

/// Clearing the display is the same as filling a rectangle over the full
/// bounds: both store the color's word at every pixel.
pub proof fn lemma_clear_is_full_fill(
    cleared: Seq<u16>,
    filled: Seq<u16>,
    before: Seq<u16>,
    width: u16,
    height: u16,
    word: u16,
)
    requires
        cleared.len() == width as int * height as int,
        filled.len() == cleared.len(),
        before.len() == cleared.len(),
        forall|i: int| 0 <= i < cleared.len() ==> cleared[i] == word,
        forall|x: int, y: int|
            in_bounds(width as int, height as int, x, y) ==> filled[pixel_index(
                width as int,
                x,
                y,
            )] == (if rect_covers(
                (Rectangle {
                    top_left: Point { x: 0, y: 0 },
                    size: Size { width: width as u32, height: height as u32 },
                }),
                width as int,
                height as int,
                x,
                y,
            ) {
                word
            } else {
                before[pixel_index(width as int, x, y)]
            }),
    ensures
        cleared == filled,
{
    assert forall|x: int, y: int|
        in_bounds(width as int, height as int, x, y) implies cleared[pixel_index(
        width as int,
        x,
        y,
    )] == filled[pixel_index(width as int, x, y)] by {
        lemma_index_in_range(width as int, height as int, x, y);
    }
    lemma_grid_pointwise_eq(cleared, filled, width as int, height as int);
}

/// The storage words of a color sequence, in order.
pub open spec fn words_of(cs: Seq<Rgb565>) -> Seq<u16> {
    cs.map(|_k: int, c: Rgb565| c.spec_storage())
}

/// How many words a pixel stream of length `len` contributes to a requested
/// `w` by `h` extent: the stream is cut off at `w * h` words, and a shorter
/// stream just ends early.
pub open spec fn write_limit(len: int, w: int, h: int) -> int {
    if len <= w * h {
        len
    } else {
        w * h
    }
}

/// The buffer after streaming `colors` raster-wise from `(px, py)`: the
/// cursor advances one column per word, wraps to the start of the next row
/// when it reaches the buffer's width, and every word at or below the bottom
/// edge is dropped.
pub open spec fn write_seq(
    buf: Seq<u16>,
    width: int,
    height: int,
    px: int,
    py: int,
    colors: Seq<u16>,
) -> Seq<u16>
    decreases colors.len(),
{
    if colors.len() == 0 || py >= height {
        buf
    } else {
        let stepped = if px < width {
            buf.update(px + width * py, colors[0])
        } else {
            buf
        };
        if px + 1 >= width {
            write_seq(stepped, width, height, 0, py + 1, colors.skip(1))
        } else {
            write_seq(stepped, width, height, px + 1, py, colors.skip(1))
        }
    }
}

/// Streaming from an in-bounds start column is a linear copy: the words land
/// at consecutive row-major indices, truncated at the end of the buffer, and
/// every other cell keeps its word. In particular a stream longer than the
/// remaining extent is cut off safely.
pub proof fn lemma_write_seq_linear(
    buf: Seq<u16>,
    width: int,
    height: int,
    x: int,
    y: int,
    colors: Seq<u16>,
)
    requires
        buf.len() == width * height,
        0 <= x < width,
        0 <= y,
        height >= 0,
    ensures
        write_seq(buf, width, height, x, y, colors).len() == buf.len(),
        forall|i: int|
            0 <= i < buf.len() ==> write_seq(buf, width, height, x, y, colors)[i] == (if x + width
                * y <= i < x + width * y + colors.len() {
                colors[i - (x + width * y)]
            } else {
                buf[i]
            }),
    decreases colors.len(),
{
    let start = x + width * y;
    let out = write_seq(buf, width, height, x, y, colors);
    if colors.len() == 0 {
    } else if y >= height {
        assert(width * y >= width * height) by (nonlinear_arith)
            requires
                y >= height,
                width >= 1,
        ;
    } else {
        lemma_index_in_range(width, height, x, y);
        let stepped = buf.update(start, colors[0]);
        if x + 1 >= width {
            assert(width * (y + 1) == width * y + width) by (nonlinear_arith);
            lemma_write_seq_linear(stepped, width, height, 0, y + 1, colors.skip(1));
        } else {
            lemma_write_seq_linear(stepped, width, height, x + 1, y, colors.skip(1));
        }
        assert forall|i: int|
            0 <= i < buf.len() implies out[i] == (if start <= i < start + colors.len() {
            colors[i - start]
        } else {
            buf[i]
        }) by {
            if start + 1 <= i < start + colors.len() {
                assert(colors.skip(1)[i - start - 1] == colors[i - start]);
            }
        }
    }
}

/// A framebuffer-backed draw target for LTDC displays.
///
/// Wraps a buffer of 16-bit pixel words in Rgb565 format, one word per
/// pixel, rows stored consecutively. The scanout engine reads the same
/// memory autonomously; this type holds the single software owner's view.
pub struct LtdcFramebuffer {
    buffer: Vec<u16>,
    width: u16,
    height: u16,
}

impl LtdcFramebuffer {
    /// The active display width in pixels, as seen by specifications.
    pub closed spec fn spec_width(self) -> u16 {
        self.width
    }

    /// The active display height in pixels, as seen by specifications.
    pub closed spec fn spec_height(self) -> u16 {
        self.height
    }

    /// The stored pixel words, row-major.
    pub closed spec fn pixels(self) -> Seq<u16> {
        self.buffer@
    }

    /// Well-formed: the buffer holds exactly one word per pixel.
    pub open spec fn wf(self) -> bool {
        self.pixels().len() == self.spec_width() as int * self.spec_height() as int
    }

    /// Dimensions are unchanged by a drawing operation.
    pub open spec fn same_dims(self, other: Self) -> bool {
        self.spec_width() == other.spec_width() && self.spec_height() == other.spec_height()
    }

    /// Create a new framebuffer draw target over `buffer`.
    ///
    /// The buffer must hold exactly one word per pixel; a mismatched length
    /// is a fatal construction error that callers rule out up front.
    pub fn new(buffer: Vec<u16>, width: u16, height: u16) -> (fb: Self)
        requires
            buffer@.len() == width as int * height as int,
        ensures
            fb.wf(),
            fb.spec_width() == width,
            fb.spec_height() == height,
            fb.pixels() == buffer@,
    {
        Self { buffer, width, height }
    }

    /// Return the active display width in pixels.
    pub fn width(&self) -> (w: u16)
        ensures
            w == self.spec_width(),
    {
        self.width
    }

    /// Return the active display height in pixels.
    pub fn height(&self) -> (h: u16)
        ensures
            h == self.spec_height(),
    {
        self.height
    }

    /// Borrow the underlying pixel buffer.
    pub fn as_slice(&self) -> (s: &[u16])
        ensures
            s@ == self.pixels(),
    {
        self.buffer.as_slice()
    }

    /// Mutably borrow the underlying pixel buffer.
    ///
    /// Writes through the slice change the stored pixels but never the
    /// dimensions.
    pub fn as_mut_slice(&mut self) -> (s: &mut [u16])
        ensures
            s@ == old(self).pixels(),
            final(self).pixels() == final(s)@,
            old(self).same_dims(*final(self)),
    {
        self.buffer.as_mut_slice()
    }

    /// Write one pixel word if `(x, y)` is in bounds; otherwise do nothing.
    ///
    /// For all in-bounds coordinates the stored word afterwards is exactly
    /// the color's storage word and every other pixel is unchanged; this is
    /// the single point through which all drawing primitives store.
    pub fn set_pixel(&mut self, x: i32, y: i32, color: Rgb565)
        requires
            old(self).wf(),
            color.wf(),
        ensures
            final(self).wf(),
            old(self).same_dims(*final(self)),
            in_bounds(old(self).spec_width() as int, old(self).spec_height() as int, x as int, y as int)
                ==> final(self).pixels() == old(self).pixels().update(
                    pixel_index(old(self).spec_width() as int, x as int, y as int),
                    color.spec_storage(),
                ),
            !in_bounds(old(self).spec_width() as int, old(self).spec_height() as int, x as int, y as int)
                ==> final(self).pixels() == old(self).pixels(),
    {
        let w = self.width as i32;
        let h = self.height as i32;
        if x >= 0 && x < w && y >= 0 && y < h {
            proof {
                lemma_index_in_range(w as int, h as int, x as int, y as int);
                assert((self.width as int) * (self.height as int) < 0x1_0000_0000) by (nonlinear_arith)
                    requires
                        self.width < 0x1_0000,
                        self.height < 0x1_0000,
                ;
            }
            let value = color.into_storage();
            let idx: usize = x as usize + self.width as usize * y as usize;
            self.buffer[idx] = value;
        }
    }

    /// Draw a finite sequence of pixels, one clipped store per entry.
    ///
    /// Each pixel gets `set_pixel` semantics: out-of-range entries are
    /// dropped rather than rejected, because drawing a shape partially off
    /// screen is routine behavior, not an error. The call is infallible.
    #[verifier::loop_isolation(false)]
    pub fn draw_iter(&mut self, pixels: &Vec<Pixel>) -> (r: Result<(), core::convert::Infallible>)
        requires
            old(self).wf(),
            forall|k: int| 0 <= k < pixels@.len() ==> pixels@[k].color.wf(),
        ensures
            final(self).wf(),
            old(self).same_dims(*final(self)),
            final(self).pixels() == draw_seq(
                old(self).pixels(),
                old(self).spec_width() as int,
                old(self).spec_height() as int,
                pixels@,
            ),
            r is Ok,
    {
        let ghost wid = self.spec_width() as int;
        let ghost hei = self.spec_height() as int;
        proof {
            assert(pixels@.skip(0) =~= pixels@);
        }
        let mut k: usize = 0;
        while k < pixels.len()
            invariant
                k <= pixels@.len(),
                self.wf(),
                old(self).same_dims(*self),
                draw_seq(old(self).pixels(), wid, hei, pixels@) == draw_seq(
                    self.pixels(),
                    wid,
                    hei,
                    pixels@.skip(k as int),
                ),
            decreases pixels@.len() - k,
        {
            let p = pixels[k];
            let ghost rest = pixels@.skip(k as int);
            self.set_pixel(p.position.x, p.position.y, p.color);
            proof {
                assert(rest[0] == pixels@[k as int]);
                assert(rest.skip(1) =~= pixels@.skip(k as int + 1));
            }
            k = k + 1;
        }
        proof {
            assert(pixels@.skip(pixels@.len() as int) =~= Seq::<Pixel>::empty());
        }
        Ok(())
    }

    /// Fill a rectangular region with `color`, clipping it to the display.
    ///
    /// Exactly the pixels in the intersection of `area` with the display
    /// bounds are set to the color's storage word; every other pixel is left
    /// untouched, so a degenerate or fully off-screen rectangle writes
    /// nothing. The result is the same as storing through
    /// [`Self::set_pixel`] for every covered coordinate.
    #[verifier::loop_isolation(false)]
    pub fn fill_solid(&mut self, area: &Rectangle, color: Rgb565) -> (r: Result<
        (),
        core::convert::Infallible,
    >)
        requires
            old(self).wf(),
            color.wf(),
        ensures
            final(self).wf(),
            old(self).same_dims(*final(self)),
            final(self).pixels().len() == old(self).pixels().len(),
            forall|x: int, y: int|
                in_bounds(
                    old(self).spec_width() as int,
                    old(self).spec_height() as int,
                    x,
                    y,
                ) ==> final(self).pixels()[pixel_index(old(self).spec_width() as int, x, y)] == (
                if rect_covers(
                    *area,
                    old(self).spec_width() as int,
                    old(self).spec_height() as int,
                    x,
                    y,
                ) {
                    color.spec_storage()
                } else {
                    old(self).pixels()[pixel_index(old(self).spec_width() as int, x, y)]
                }),
            r is Ok,
    {
        let ghost wid = self.spec_width() as int;
        let ghost hei = self.spec_height() as int;
        let value = color.into_storage();
        let w = self.width as i64;
        let h = self.height as i64;
        let rx = area.top_left.x as i64;
        let ry = area.top_left.y as i64;

        // Clamp the rectangle to the display bounds.
        let mut x0: i64 = if rx < 0 { 0 } else { rx };
        if x0 > w {
            x0 = w;
        }
        let mut y0: i64 = if ry < 0 { 0 } else { ry };
        if y0 > h {
            y0 = h;
        }
        let xe = rx + area.size.width as i64;
        let mut x1: i64 = if xe < 0 { 0 } else { xe };
        if x1 > w {
            x1 = w;
        }
        let ye = ry + area.size.height as i64;
        let mut y1: i64 = if ye < 0 { 0 } else { ye };
        if y1 > h {
            y1 = h;
        }

        let stride = self.width as usize;
        let mut cy = y0;
        while cy < y1
            invariant
                y0 <= cy <= y1,
                self.wf(),
                old(self).same_dims(*self),
                forall|xx: int, yy: int|
                    in_bounds(wid, hei, xx, yy) ==> self.pixels()[pixel_index(wid, xx, yy)] == (
                    if rect_covers(*area, wid, hei, xx, yy) && yy < cy {
                        color.spec_storage()
                    } else {
                        old(self).pixels()[pixel_index(wid, xx, yy)]
                    }),
            decreases y1 - cy,
        {
            let mut cx = x0;
            while cx < x1
                invariant
                    x0 <= cx <= x1,
                    y0 <= cy < y1,
                    self.wf(),
                    old(self).same_dims(*self),
                    forall|xx: int, yy: int|
                        in_bounds(wid, hei, xx, yy) ==> self.pixels()[pixel_index(wid, xx, yy)]
                            == (if rect_covers(*area, wid, hei, xx, yy) && (yy < cy || (yy == cy
                            && xx < cx)) {
                            color.spec_storage()
                        } else {
                            old(self).pixels()[pixel_index(wid, xx, yy)]
                        }),
                decreases x1 - cx,
            {
                proof {
                    lemma_index_in_range(wid, hei, cx as int, cy as int);
                    assert((cy as int) * (wid as int) <= 0xffff * 0xffff) by (nonlinear_arith)
                        requires
                            0 <= cy <= 0xffff,
                            0 <= wid <= 0xffff,
                    ;
                }
                let idx: usize = (cy as usize) * stride + (cx as usize);
                assert(idx == pixel_index(wid, cx as int, cy as int)) by {
                    assert((cy as int) * (wid as int) == wid * (cy as int)) by (nonlinear_arith);
                };
                let ghost prev = self.pixels();
                self.buffer[idx] = value;
                proof {
                    assert forall|xx: int, yy: int| in_bounds(wid, hei, xx, yy) implies self.pixels()[pixel_index(wid, xx, yy)]
                        == (if rect_covers(*area, wid, hei, xx, yy) && (yy < cy || (yy == cy && xx
                        < cx + 1)) {
                        color.spec_storage()
                    } else {
                        old(self).pixels()[pixel_index(wid, xx, yy)]
                    }) by {
                        lemma_index_in_range(wid, hei, xx, yy);
                        if pixel_index(wid, xx, yy) == pixel_index(wid, cx as int, cy as int) {
                            lemma_index_injective(wid, hei, xx, yy, cx as int, cy as int);
                        }
                    }
                }
                cx = cx + 1;
            }
            cy = cy + 1;
        }
        Ok(())
    }

    /// Write externally supplied pixel values raster-wise starting at
    /// `(x, y)`.
    ///
    /// Columns advance first and wrap to the next row at the buffer's width
    /// (not at the requested `w`, to match raster scan-out); at most `w * h`
    /// words are taken from the stream, a shorter stream just stops early,
    /// and every destination at or beyond the bottom edge is skipped.
    #[verifier::loop_isolation(false)]
    pub fn write_pixels(&mut self, x: u16, y: u16, w: u16, h: u16, pixels: &[Rgb565]) -> (r:
        Result<(), core::convert::Infallible>)
        requires
            old(self).wf(),
            forall|k: int| 0 <= k < pixels@.len() ==> pixels@[k].wf(),
        ensures
            final(self).wf(),
            old(self).same_dims(*final(self)),
            final(self).pixels() == write_seq(
                old(self).pixels(),
                old(self).spec_width() as int,
                old(self).spec_height() as int,
                x as int,
                y as int,
                words_of(pixels@).take(write_limit(pixels@.len() as int, w as int, h as int)),
            ),
            r is Ok,
    {
        let ghost wid = self.spec_width() as int;
        let ghost hei = self.spec_height() as int;
        proof {
            assert((w as int) * (h as int) <= 0xffff * 0xffff) by (nonlinear_arith)
                requires
                    w <= 0xffff,
                    h <= 0xffff,
            ;
        }
        let extent: usize = (w as usize) * (h as usize);
        let limit: usize = if pixels.len() < extent {
            pixels.len()
        } else {
            extent
        };
        let ghost stream = words_of(pixels@).take(limit as int);
        proof {
            assert(stream.skip(0) =~= stream);
        }

        let width_e = self.width as usize;
        let height_e = self.height as usize;
        let mut px: usize = x as usize;
        let mut py: usize = y as usize;
        let mut k: usize = 0;
        while k < limit && py < height_e
            invariant
                k <= limit,
                px <= 0xffff,
                py <= 0x10000,
                self.wf(),
                old(self).same_dims(*self),
                write_seq(old(self).pixels(), wid, hei, x as int, y as int, stream) == write_seq(
                    self.pixels(),
                    wid,
                    hei,
                    px as int,
                    py as int,
                    stream.skip(k as int),
                ),
            decreases limit - k,
        {
            let ghost rest = stream.skip(k as int);
            proof {
                assert(rest[0] == words_of(pixels@)[k as int]);
                assert(rest.skip(1) =~= stream.skip(k as int + 1));
            }
            if px < width_e {
                proof {
                    lemma_index_in_range(wid, hei, px as int, py as int);
                    assert((py as int) * (wid as int) <= 0xffff * 0xffff) by (nonlinear_arith)
                        requires
                            0 <= py <= 0xffff,
                            0 <= wid <= 0xffff,
                    ;
                    assert((py as int) * (wid as int) == wid * (py as int)) by (nonlinear_arith);
                }
                let word = pixels[k].into_storage();
                let idx: usize = px + width_e * py;
                self.buffer[idx] = word;
            }
            px = px + 1;
            if px >= width_e {
                px = 0;
                py = py + 1;
            }
            k = k + 1;
        }
        proof {
            if k == limit {
                assert(stream.skip(limit as int) =~= Seq::<u16>::empty());
            }
        }
        Ok(())
    }

    /// Return the display dimensions as `(width, height)`.
    pub fn size(&self) -> (r: (u16, u16))
        ensures
            r.0 == self.spec_width(),
            r.1 == self.spec_height(),
    {
        (self.width, self.height)
    }

    /// Fill a rectangle given by unsigned corner and extent, clipped to the
    /// display exactly as [`Self::fill_solid`] clips.
    pub fn fill_rect(&mut self, x: u16, y: u16, w: u16, h: u16, color: Rgb565) -> (r: Result<
        (),
        core::convert::Infallible,
    >)
        requires
            old(self).wf(),
            color.wf(),
        ensures
            final(self).wf(),
            old(self).same_dims(*final(self)),
            final(self).pixels().len() == old(self).pixels().len(),
            forall|xx: int, yy: int|
                in_bounds(
                    old(self).spec_width() as int,
                    old(self).spec_height() as int,
                    xx,
                    yy,
                ) ==> final(self).pixels()[pixel_index(old(self).spec_width() as int, xx, yy)]
                    == (if rect_covers(
                    (Rectangle {
                        top_left: Point { x: x as i32, y: y as i32 },
                        size: Size { width: w as u32, height: h as u32 },
                    }),
                    old(self).spec_width() as int,
                    old(self).spec_height() as int,
                    xx,
                    yy,
                ) {
                    color.spec_storage()
                } else {
                    old(self).pixels()[pixel_index(old(self).spec_width() as int, xx, yy)]
                }),
            r is Ok,
    {
        let area = Rectangle::new(
            Point::new(x as i32, y as i32),
            Size::new(w as u32, h as u32),
        );
        self.fill_solid(&area, color)
    }

    /// Fill the entire display with `color`.
    pub fn clear(&mut self, color: Rgb565)
        requires
            old(self).wf(),
            color.wf(),
        ensures
            final(self).wf(),
            old(self).same_dims(*final(self)),
            final(self).pixels().len() == old(self).pixels().len(),
            forall|i: int|
                0 <= i < final(self).pixels().len() ==> final(self).pixels()[i]
                    == color.spec_storage(),
    {
        let value = color.into_storage();
        let len = self.buffer.len();
        let mut i: usize = 0;
        while i < len
            invariant
                len == self.buffer@.len(),
                self.wf(),
                old(self).same_dims(*self),
                i <= len,
                forall|j: int| 0 <= j < i ==> self.buffer@[j] == value,
                value == color.spec_storage(),
            decreases len - i,
        {
            self.buffer[i] = value;
            i = i + 1;
        }
    }
}

} // verus!
