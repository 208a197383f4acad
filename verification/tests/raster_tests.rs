use chartline::raster::{rasterize, vertex_position};
use chartline::series::SeriesBuffer;
use chartline::{SCALE, WINDOW};

const STROKE: (u8, u8, u8) = (77, 255, 175);
const BACKGROUND: (u8, u8, u8) = (44, 62, 80);

#[test]
fn canvas_has_requested_dimensions_and_a_full_buffer() {
    let buf = SeriesBuffer::new();
    let c = rasterize(&buf, 64, 48);
    assert_eq!(c.width, 64);
    assert_eq!(c.height, 48);
    assert_eq!(c.pixels.len(), 64 * 48 * 3);
}

#[test]
fn empty_series_still_draws_all_window_vertices_at_zero() {
    let buf = SeriesBuffer::new();
    let c = rasterize(&buf, 64, 48);
    for i in 0..WINDOW {
        let (x, y) = vertex_position(&buf, 64, 48, i);
        // fallback value 0 maps to the bottom edge of the plot area
        assert_eq!(y, 48 - 15 - 1);
        assert_eq!(c.pixel(x, y), STROKE);
    }
    assert_eq!(c.pixel(0, 0), BACKGROUND);
}

#[test]
fn short_series_uses_zero_for_missing_vertices() {
    let mut buf = SeriesBuffer::new();
    for _ in 0..5 {
        buf.append(SCALE);
    }
    let c = rasterize(&buf, 64, 48);
    // present samples sit at the top edge of the plot area
    let (x0, y0) = vertex_position(&buf, 64, 48, 0);
    assert_eq!(y0, 15);
    assert_eq!(c.pixel(x0, y0), STROKE);
    // vertices past the series length fall back to value zero
    let (xl, yl) = vertex_position(&buf, 64, 48, WINDOW - 1);
    assert_eq!(yl, 48 - 15 - 1);
    assert_eq!(c.pixel(xl, yl), STROKE);
}

#[test]
fn constant_half_series_hits_the_mid_canvas_row() {
    let mut buf = SeriesBuffer::new();
    for _ in 0..3 {
        buf.append(SCALE / 2);
    }
    let c = rasterize(&buf, 600, 400);
    for i in 0..3 {
        let (x, y) = vertex_position(&buf, 600, 400, i);
        assert_eq!(y, 200);
        assert_eq!(c.pixel(x, y), STROKE);
    }
}

#[test]
fn full_constant_window_rasterizes_to_one_horizontal_row() {
    let mut buf = SeriesBuffer::new();
    for _ in 0..WINDOW {
        buf.append(SCALE / 2);
    }
    let c = rasterize(&buf, 64, 48);
    let (x0, expected_row) = vertex_position(&buf, 64, 48, 0);
    assert_eq!(c.pixel(x0, expected_row), STROKE);
    for y in 0..48u32 {
        for x in 0..64u32 {
            if c.pixel(x, y) == STROKE {
                assert_eq!(y, expected_row);
            }
        }
    }
}

#[test]
fn out_of_range_samples_are_clamped_to_the_plot_edges() {
    let mut buf = SeriesBuffer::new();
    buf.append(-3 * SCALE);
    buf.append(10 * SCALE);
    let (_, y_low) = vertex_position(&buf, 64, 48, 0);
    let (_, y_high) = vertex_position(&buf, 64, 48, 1);
    assert_eq!(y_low, 48 - 15 - 1);
    assert_eq!(y_high, 15);
}
