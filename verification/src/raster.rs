//! Deterministic rasterization of a sample window onto an RGB canvas.
//!
//! The canvas is specified pixel by pixel: a pixel carries the stroke colour
//! exactly when it lies on one of the polyline's segments, and the background
//! colour otherwise. Indices past the end of a short series fall back to the
//! value zero, so the polyline always has exactly `WINDOW` vertices. The
//! vertical mapping divides by the fixed value range, never by a data-derived
//! range, so a constant series cannot produce a zero divisor; out-of-range
//! samples are clamped to the range ends.

use vstd::prelude::*;
use vstd::arithmetic::div_mod::{
    lemma_div_is_ordered, lemma_div_multiples_vanish, lemma_div_pos_is_pos,
    lemma_fundamental_div_mod_converse,
};
use vstd::arithmetic::mul::{lemma_mul_inequality, lemma_mul_nonnegative};
use crate::series::SeriesBuffer;
use crate::{SCALE, WINDOW};

verus! {

/// Margin left around the plot area, when the dimension has room for it.
pub const MARGIN: u32 = 15;

/// Stroke colour (the polyline), as RGB channels.
pub const STROKE_R: u8 = 77;

pub const STROKE_G: u8 = 255;

pub const STROKE_B: u8 = 175;

/// Background colour, as RGB channels.
pub const BACKGROUND_R: u8 = 44;

pub const BACKGROUND_G: u8 = 62;

pub const BACKGROUND_B: u8 = 80;

/// The margin applied along a dimension of `d` pixels: the full margin when
/// at least two drawable pixels remain inside it, none otherwise.
pub open spec fn margin_of(d: int) -> int {
    if d >= 2 * (MARGIN as int) + 2 {
        MARGIN as int
    } else {
        0
    }
}

/// The drawable extent of a dimension of `d` pixels.
pub open spec fn plot_extent(d: int) -> int {
    d - 2 * margin_of(d)
}

/// Samples are clamped to the fixed vertical range `[0, SCALE]`.
pub open spec fn clamp_sample(v: int) -> int {
    if v < 0 {
        0
    } else if v > SCALE {
        SCALE as int
    } else {
        v
    }
}

/// The sample drawn at index `i`: the value zero stands in for any index
/// that a shorter-than-`WINDOW` series does not hold.
pub open spec fn sample_at(s: Seq<i64>, i: int) -> int {
    if 0 <= i < s.len() {
        s[i] as int
    } else {
        0
    }
}

/// Horizontal pixel position of vertex `i`: index `0` maps to the left edge
/// of the plot area and index `WINDOW - 1` to its right edge.
pub open spec fn vertex_x(w: int, i: int) -> int {
    margin_of(w) + (i * (plot_extent(w) - 1)) / (WINDOW as int - 1)
}

/// Vertical pixel position of the value `v`: zero maps to the bottom edge of
/// the plot area, `SCALE` to its top edge (pixel rows grow downward).
pub open spec fn vertex_y(h: int, v: int) -> int {
    margin_of(h) + (plot_extent(h) - 1) - (clamp_sample(v) * (plot_extent(h) - 1)) / (
    SCALE as int)
}

/// Vertical pixel position of vertex `i` of the series `s`.
pub open spec fn vy_of(s: Seq<i64>, h: int, i: int) -> int {
    vertex_y(h, sample_at(s, i))
}

/// Linear interpolation between the endpoints `(x0, y0)` and `(x1, y1)` at
/// column `x`, written so that every division has nonnegative operands.
pub open spec fn interp(x0: int, y0: int, x1: int, y1: int, x: int) -> int {
    if x1 <= x0 {
        y1
    } else if y1 >= y0 {
        y0 + ((x - x0) * (y1 - y0)) / (x1 - x0)
    } else {
        y0 - ((x - x0) * (y0 - y1)) / (x1 - x0)
    }
}

/// Whether `(x, y)` lies on the segment with endpoints `(x0, y0)` and
/// `(x1, y1)`: on the interpolated line through its columns, or at either
/// endpoint.
pub open spec fn hit_spec(x0: int, y0: int, x1: int, y1: int, x: int, y: int) -> bool {
    x0 <= x && x <= x1 && (y == interp(x0, y0, x1, y1, x) || (x == x0 && y == y0) || (x == x1
        && y == y1))
}

/// Whether `(x, y)` lies on segment `k` of the polyline of `s`.
pub open spec fn on_segment(s: Seq<i64>, w: int, h: int, k: int, x: int, y: int) -> bool {
    hit_spec(
        vertex_x(w, k),
        vy_of(s, h, k),
        vertex_x(w, k + 1),
        vy_of(s, h, k + 1),
        x,
        y,
    )
}

/// Whether `(x, y)` lies on any segment of the polyline of `s`.
pub open spec fn on_polyline(s: Seq<i64>, w: int, h: int, x: int, y: int) -> bool {
    exists|k: int| 0 <= k < WINDOW as int - 1 && on_segment(s, w, h, k, x, y)
}

/// Channel `c` (red, green, blue in order) of the pixel at `(x, y)`.
pub open spec fn channel_at(s: Seq<i64>, w: int, h: int, x: int, y: int, c: int) -> u8 {
    if on_polyline(s, w, h, x, y) {
        if c == 0 {
            STROKE_R
        } else if c == 1 {
            STROKE_G
        } else {
            STROKE_B
        }
    } else {
        if c == 0 {
            BACKGROUND_R
        } else if c == 1 {
            BACKGROUND_G
        } else {
            BACKGROUND_B
        }
    }
}

/// Byte `j` of the row-major RGB pixel buffer.
pub open spec fn byte_at(s: Seq<i64>, w: int, h: int, j: int) -> u8 {
    channel_at(s, w, h, (j / 3) % w, (j / 3) / w, j % 3)
}

/// The whole pixel buffer of the chart of `s` on a `w` by `h` canvas.
pub open spec fn canvas_spec(s: Seq<i64>, w: int, h: int) -> Seq<u8> {
    Seq::new((3 * w * h) as nat, |j: int| byte_at(s, w, h, j))
}

/// A raw RGB canvas: `pixels` holds the rows top to bottom, three bytes per
/// pixel.
pub struct Canvas {
    pub width: u32,
    pub height: u32,
    pub pixels: Vec<u8>,
}

impl Canvas {
    /// Both dimensions are positive and the buffer holds exactly three bytes
    /// per pixel.
    pub open spec fn wf(&self) -> bool {
        &&& self.width >= 1
        &&& self.height >= 1
        &&& self.pixels@.len() == 3 * (self.width as int) * (self.height as int)
    }

    /// Byte index of channel `c` of the pixel at `(x, y)`.
    pub open spec fn index_of(&self, x: int, y: int, c: int) -> int {
        3 * (y * (self.width as int) + x) + c
    }

    /// The RGB channels of the pixel at `(x, y)`.
    pub fn pixel(&self, x: u32, y: u32) -> (r: (u8, u8, u8))
        requires
            self.wf(),
            x < self.width,
            y < self.height,
        ensures
            r.0 == self.pixels@[self.index_of(x as int, y as int, 0)],
            r.1 == self.pixels@[self.index_of(x as int, y as int, 1)],
            r.2 == self.pixels@[self.index_of(x as int, y as int, 2)],
    {
        proof {
            lemma_pixel_index_in_range(
                self.width as int,
                self.height as int,
                x as int,
                y as int,
            );
            assert(vstd::std_specs::vec::spec_vec_len(&self.pixels) == self.pixels@.len());
        }
        let base: usize = 3 * ((y as usize) * (self.width as usize) + (x as usize));
        (self.pixels[base], self.pixels[base + 1], self.pixels[base + 2])
    }
}

/// The byte indices of a pixel inside the canvas lie inside the buffer.
pub proof fn lemma_pixel_index_in_range(w: int, h: int, x: int, y: int)
    requires
        w >= 1,
        h >= 1,
        0 <= x < w,
        0 <= y < h,
    ensures
        0 <= 3 * (y * w + x),
        3 * (y * w + x) + 2 < 3 * w * h,
{
    assert(y * w + x >= 0) by (nonlinear_arith)
        requires
            0 <= x,
            0 <= y,
            w >= 1,
    ;
    assert(3 * (y * w + x) + 2 < 3 * w * h) by (nonlinear_arith)
        requires
            0 <= x < w,
            0 <= y < h,
    ;
}

/// `(a * b) / c` lies between `0` and `b` when `0 <= a <= c` and `b >= 0`.
pub proof fn lemma_scaled_div_bounds(a: int, b: int, c: int)
    requires
        0 <= a,
        a <= c,
        0 <= b,
        0 < c,
    ensures
        0 <= (a * b) / c,
        (a * b) / c <= b,
{
    lemma_mul_nonnegative(a, b);
    lemma_div_pos_is_pos(a * b, c);
    lemma_mul_inequality(a, c, b);
    lemma_div_is_ordered(a * b, c * b, c);
    lemma_div_multiples_vanish(b, c);
}

/// Every vertex column lies inside the canvas, at or right of the margin.
pub proof fn lemma_vertex_x_bounds(w: int, i: int)
    requires
        w >= 1,
        0 <= i < WINDOW,
    ensures
        margin_of(w) <= vertex_x(w, i) < w,
{
    lemma_scaled_div_bounds(i, plot_extent(w) - 1, WINDOW as int - 1);
}

/// Vertex columns never decrease with the index.
pub proof fn lemma_vertex_x_monotone(w: int, i: int)
    requires
        w >= 1,
        0 <= i,
    ensures
        vertex_x(w, i) <= vertex_x(w, i + 1),
{
    lemma_mul_inequality(i, i + 1, plot_extent(w) - 1);
    lemma_div_is_ordered(
        i * (plot_extent(w) - 1),
        (i + 1) * (plot_extent(w) - 1),
        WINDOW as int - 1,
    );
}

/// Every vertex row lies inside the canvas, whatever the sample value.
pub proof fn lemma_vertex_y_bounds(h: int, v: int)
    requires
        h >= 1,
    ensures
        margin_of(h) <= vertex_y(h, v) < h,
{
    lemma_scaled_div_bounds(clamp_sample(v), plot_extent(h) - 1, SCALE as int);
}

/// The margin applied along a dimension of `d` pixels.
fn margin_dim(d: u32) -> (r: u32)
    requires
        d >= 1,
    ensures
        r as int == margin_of(d as int),
        2 * r < d,
{
    if d >= 2 * MARGIN + 2 {
        MARGIN
    } else {
        0
    }
}

/// Horizontal pixel position of vertex `i`.
fn vertex_x_at(w: u32, i: usize) -> (r: u32)
    requires
        w >= 1,
        i < WINDOW,
    ensures
        r as int == vertex_x(w as int, i as int),
        r < w,
{
    proof {
        lemma_vertex_x_bounds(w as int, i as int);
        lemma_scaled_div_bounds(i as int, plot_extent(w as int) - 1, WINDOW as int - 1);
    }
    let m = margin_dim(w);
    let pw = w - 2 * m;
    let q = ((i as u64) * ((pw - 1) as u64)) / ((WINDOW - 1) as u64);
    m + (q as u32)
}

/// Vertical pixel position of the (clamped) sample value `v`.
fn vertex_y_at(h: u32, v: i64) -> (r: u32)
    requires
        h >= 1,
    ensures
        r as int == vertex_y(h as int, v as int),
        r < h,
{
    proof {
        lemma_vertex_y_bounds(h as int, v as int);
        lemma_scaled_div_bounds(clamp_sample(v as int), plot_extent(h as int) - 1, SCALE as int);
    }
    let m = margin_dim(h);
    let ph = h - 2 * m;
    let c: u64 = if v < 0 {
        0
    } else if v > SCALE {
        SCALE as u64
    } else {
        v as u64
    };
    let q = (c * ((ph - 1) as u64)) / (SCALE as u64);
    m + (ph - 1) - (q as u32)
}

/// Whether `(x, y)` lies on the segment from `(x0, y0)` to `(x1, y1)`.
fn seg_hit(x0: u32, y0: u32, x1: u32, y1: u32, x: u32, y: u32) -> (r: bool)
    requires
        x0 <= x1,
    ensures
        r == hit_spec(x0 as int, y0 as int, x1 as int, y1 as int, x as int, y as int),
{
    if x < x0 || x > x1 {
        return false;
    }
    if x == x0 && y == y0 {
        return true;
    }
    if x == x1 && y == y1 {
        return true;
    }
    if x0 == x1 {
        return false;
    }
    let d = (x1 - x0) as u64;
    let dx = (x - x0) as u64;
    let yy: u64 = if y1 >= y0 {
        proof {
            lemma_scaled_div_bounds(dx as int, y1 as int - y0 as int, d as int);
            assert((dx as int) * (y1 as int - y0 as int) <= 0xffff_ffff * 0xffff_ffff)
                by (nonlinear_arith)
                requires
                    0 <= dx as int <= 0xffff_ffff,
                    0 <= y1 as int - y0 as int <= 0xffff_ffff,
            ;
        }
        (y0 as u64) + (dx * ((y1 - y0) as u64)) / d
    } else {
        proof {
            lemma_scaled_div_bounds(dx as int, y0 as int - y1 as int, d as int);
            assert((dx as int) * (y0 as int - y1 as int) <= 0xffff_ffff * 0xffff_ffff)
                by (nonlinear_arith)
                requires
                    0 <= dx as int <= 0xffff_ffff,
                    0 <= y0 as int - y1 as int <= 0xffff_ffff,
            ;
        }
        (y0 as u64) - (dx * ((y0 - y1) as u64)) / d
    };
    yy == (y as u64)
}

/// Whether `(x, y)` lies on any segment of the polyline whose vertices are
/// tabulated in `xs` and `ys`.
fn polyline_hit(
    xs: &Vec<u32>,
    ys: &Vec<u32>,
    x: u32,
    y: u32,
    Ghost(s): Ghost<Seq<i64>>,
    Ghost(w): Ghost<int>,
    Ghost(h): Ghost<int>,
) -> (r: bool)
    requires
        xs@.len() == WINDOW,
        ys@.len() == WINDOW,
        forall|i: int| 0 <= i < WINDOW ==> #[trigger] xs@[i] as int == vertex_x(w, i),
        forall|i: int| 0 <= i < WINDOW ==> #[trigger] ys@[i] as int == vy_of(s, h, i),
        forall|i: int| 0 <= i < WINDOW as int - 1 ==> #[trigger] xs@[i] <= xs@[i + 1],
    ensures
        r == on_polyline(s, w, h, x as int, y as int),
{
    let mut k: usize = 0;
    while k < WINDOW - 1
        invariant
            k <= WINDOW - 1,
            xs@.len() == WINDOW,
            ys@.len() == WINDOW,
            forall|i: int| 0 <= i < WINDOW ==> #[trigger] xs@[i] as int == vertex_x(w, i),
            forall|i: int| 0 <= i < WINDOW ==> #[trigger] ys@[i] as int == vy_of(s, h, i),
            forall|i: int| 0 <= i < WINDOW as int - 1 ==> #[trigger] xs@[i] <= xs@[i + 1],
            forall|j: int| 0 <= j < k ==> !on_segment(s, w, h, j, x as int, y as int),
        decreases WINDOW - k,
    {
        if seg_hit(xs[k], ys[k], xs[k + 1], ys[k + 1], x, y) {
            proof {
                assert(on_segment(s, w, h, k as int, x as int, y as int));
            }
            return true;
        }
        k += 1;
    }
    proof {
        assert(!on_polyline(s, w, h, x as int, y as int));
    }
    false
}

/// Draw the chart of `series` on a fresh `width` by `height` canvas: the
/// background colour everywhere except on the polyline through the `WINDOW`
/// vertices, which carries the stroke colour.
pub fn rasterize(series: &SeriesBuffer, width: u32, height: u32) -> (r: Canvas)
    requires
        series.wf(),
        width >= 1,
        height >= 1,
        3 * (width as int) * (height as int) <= u32::MAX as int,
    ensures
        r.width == width,
        r.height == height,
        r.pixels@ == canvas_spec(series@, width as int, height as int),
        r.wf(),
{
    let ghost s = series@;
    let ghost w = width as int;
    let ghost h = height as int;
    let mut xs: Vec<u32> = Vec::new();
    let mut i: usize = 0;
    while i < WINDOW
        invariant
            i <= WINDOW,
            width >= 1,
            w == width as int,
            xs@.len() == i,
            forall|j: int| 0 <= j < i ==> #[trigger] xs@[j] as int == vertex_x(w, j),
        decreases WINDOW - i,
    {
        xs.push(vertex_x_at(width, i));
        i += 1;
    }
    proof {
        assert forall|j: int| 0 <= j < WINDOW as int - 1 implies #[trigger] xs@[j] <= xs@[j
            + 1] by {
            lemma_vertex_x_monotone(w, j);
        };
    }
    let mut ys: Vec<u32> = Vec::new();
    let mut i2: usize = 0;
    while i2 < WINDOW
        invariant
            i2 <= WINDOW,
            height >= 1,
            h == height as int,
            s == series@,
            series.wf(),
            ys@.len() == i2,
            forall|j: int| 0 <= j < i2 ==> #[trigger] ys@[j] as int == vy_of(s, h, j),
        decreases WINDOW - i2,
    {
        let v: i64 = if i2 < series.len() {
            series.get(i2)
        } else {
            0
        };
        ys.push(vertex_y_at(height, v));
        i2 += 1;
    }
    let mut pix: Vec<u8> = Vec::new();
    let mut yy: u32 = 0;
    while yy < height
        invariant
            yy <= height,
            width >= 1,
            height >= 1,
            w == width as int,
            h == height as int,
            3 * w * h <= u32::MAX as int,
            xs@.len() == WINDOW,
            ys@.len() == WINDOW,
            forall|j: int| 0 <= j < WINDOW ==> #[trigger] xs@[j] as int == vertex_x(w, j),
            forall|j: int| 0 <= j < WINDOW ==> #[trigger] ys@[j] as int == vy_of(s, h, j),
            forall|j: int| 0 <= j < WINDOW as int - 1 ==> #[trigger] xs@[j] <= xs@[j + 1],
            pix@.len() == 3 * ((yy as int) * w),
            forall|j: int| 0 <= j < pix@.len() ==> #[trigger] pix@[j] == byte_at(s, w, h, j),
        decreases height - yy,
    {
        let mut xx: u32 = 0;
        while xx < width
            invariant
                xx <= width,
                yy < height,
                width >= 1,
                height >= 1,
                w == width as int,
                h == height as int,
                3 * w * h <= u32::MAX as int,
                xs@.len() == WINDOW,
                ys@.len() == WINDOW,
                forall|j: int| 0 <= j < WINDOW ==> #[trigger] xs@[j] as int == vertex_x(w, j),
                forall|j: int| 0 <= j < WINDOW ==> #[trigger] ys@[j] as int == vy_of(s, h, j),
                forall|j: int| 0 <= j < WINDOW as int - 1 ==> #[trigger] xs@[j] <= xs@[j + 1],
                pix@.len() == 3 * ((yy as int) * w + xx as int),
                forall|j: int| 0 <= j < pix@.len() ==> #[trigger] pix@[j] == byte_at(s, w, h, j),
            decreases width - xx,
        {
            let hit = polyline_hit(&xs, &ys, xx, yy, Ghost(s), Ghost(w), Ghost(h));
            proof {
                lemma_pixel_index_in_range(w, h, xx as int, yy as int);
                lemma_pixel_index_decomposes(w, xx as int, yy as int, 0);
                lemma_pixel_index_decomposes(w, xx as int, yy as int, 1);
                lemma_pixel_index_decomposes(w, xx as int, yy as int, 2);
            }
            if hit {
                pix.push(STROKE_R);
                pix.push(STROKE_G);
                pix.push(STROKE_B);
            } else {
                pix.push(BACKGROUND_R);
                pix.push(BACKGROUND_G);
                pix.push(BACKGROUND_B);
            }
            xx += 1;
        }
        proof {
            assert((yy as int) * w + w == (yy as int + 1) * w) by (nonlinear_arith);
        }
        yy += 1;
    }
    proof {
        assert(3 * ((height as int) * w) == 3 * w * h) by (nonlinear_arith)
            requires
                w == width as int,
                h == height as int,
        ;
        assert(pix@ =~= canvas_spec(s, w, h));
    }
    Canvas { width, height, pixels: pix }
}

/// The pixel position of vertex `i` of the chart of `series` on a `width`
/// by `height` canvas; the value zero stands in for an index the series
/// does not hold.
pub fn vertex_position(series: &SeriesBuffer, width: u32, height: u32, i: usize) -> (r: (
    u32,
    u32,
))
    requires
        series.wf(),
        width >= 1,
        height >= 1,
        i < WINDOW,
    ensures
        r.0 as int == vertex_x(width as int, i as int),
        r.1 as int == vy_of(series@, height as int, i as int),
        r.0 < width,
        r.1 < height,
{
    let v: i64 = if i < series.len() {
        series.get(i)
    } else {
        0
    };
    (vertex_x_at(width, i), vertex_y_at(height, v))
}

/// The polyline passes through each of its `WINDOW` vertices: the vertex
/// itself lies on an adjacent segment.
pub proof fn lemma_vertex_on_polyline(s: Seq<i64>, w: int, h: int, i: int)
    requires
        w >= 1,
        h >= 1,
        0 <= i < WINDOW,
    ensures
        on_polyline(s, w, h, vertex_x(w, i), vy_of(s, h, i)),
{
    if i < WINDOW as int - 1 {
        lemma_vertex_x_monotone(w, i);
        assert(on_segment(s, w, h, i, vertex_x(w, i), vy_of(s, h, i)));
    } else {
        lemma_vertex_x_monotone(w, i - 1);
        assert(on_segment(s, w, h, i - 1, vertex_x(w, i), vy_of(s, h, i)));
    }
}

/// The chart draws exactly `WINDOW` vertices: for every index up to
/// `WINDOW`, present in the series or filled with the value zero, the canvas
/// carries the stroke colour at that vertex's pixel.
pub proof fn lemma_vertex_drawn(s: Seq<i64>, w: int, h: int, i: int)
    requires
        w >= 1,
        h >= 1,
        0 <= i < WINDOW,
    ensures
        ({
            let x = vertex_x(w, i);
            let y = vy_of(s, h, i);
            &&& 0 <= x < w
            &&& 0 <= y < h
            &&& canvas_spec(s, w, h)[3 * (y * w + x) + 0] == STROKE_R
            &&& canvas_spec(s, w, h)[3 * (y * w + x) + 1] == STROKE_G
            &&& canvas_spec(s, w, h)[3 * (y * w + x) + 2] == STROKE_B
        }),
{
    let x = vertex_x(w, i);
    let y = vy_of(s, h, i);
    lemma_vertex_x_bounds(w, i);
    lemma_vertex_y_bounds(h, sample_at(s, i));
    lemma_pixel_index_in_range(w, h, x, y);
    lemma_pixel_index_decomposes(w, x, y, 0);
    lemma_pixel_index_decomposes(w, x, y, 1);
    lemma_pixel_index_decomposes(w, x, y, 2);
    lemma_vertex_on_polyline(s, w, h, i);
}

/// A series whose drawn vertices all carry one value — a full window of
/// one repeated sample, or a shorter series whose fallback zeros share it —
/// rasterizes to nothing but a single horizontal line: every polyline pixel
/// lies on the row of that value. The fixed vertical range keeps the
/// mapping total here; an equal minimum and maximum of the data never
/// reach a divisor.
pub proof fn lemma_flat_line(s: Seq<i64>, w: int, h: int, v: i64, x: int, y: int)
    requires
        w >= 1,
        h >= 1,
        forall|i: int| 0 <= i < WINDOW ==> sample_at(s, i) == v as int,
        on_polyline(s, w, h, x, y),
    ensures
        y == vertex_y(h, v as int),
{
    let k = choose|k: int|
        0 <= k < WINDOW as int - 1 && on_segment(s, w, h, k, x, y);
    assert(vy_of(s, h, k) == vertex_y(h, v as int));
    assert(vy_of(s, h, k + 1) == vertex_y(h, v as int));
    let x0 = vertex_x(w, k);
    let x1 = vertex_x(w, k + 1);
    let y0 = vy_of(s, h, k);
    if x1 > x0 {
        assert((x - x0) * (y0 - y0) == 0) by (nonlinear_arith);
        lemma_div_pos_is_pos(0, x1 - x0);
        lemma_div_is_ordered(0, 0, x1 - x0);
        assert(0int / (x1 - x0) == 0) by {
            lemma_div_multiples_vanish(0, x1 - x0);
        };
        assert(interp(x0, y0, x1, y0, x) == y0);
    }
}

/// Every vertex of a constant series lies on the one row of its value, at
/// whatever length the series has.
pub proof fn lemma_constant_vertices(s: Seq<i64>, h: int, v: i64, i: int)
    requires
        h >= 1,
        0 <= i < s.len(),
        forall|j: int| 0 <= j < s.len() ==> s[j] == v,
    ensures
        vy_of(s, h, i) == vertex_y(h, v as int),
{
}

/// Bytes of a pixel decompose back to its coordinates and channel.
pub proof fn lemma_pixel_index_decomposes(w: int, x: int, y: int, c: int)
    requires
        w >= 1,
        0 <= x < w,
        0 <= y,
        0 <= c < 3,
    ensures
        (3 * (y * w + x) + c) / 3 == y * w + x,
        (3 * (y * w + x) + c) % 3 == c,
        (y * w + x) % w == x,
        (y * w + x) / w == y,
{
    assert(y * w + x >= 0) by (nonlinear_arith)
        requires
            0 <= x,
            0 <= y,
            w >= 1,
    ;
    lemma_fundamental_div_mod_converse(3 * (y * w + x) + c, 3, y * w + x, c);
    lemma_fundamental_div_mod_converse(y * w + x, w, y, x);
}

} // verus!
