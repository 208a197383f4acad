use chartline::codec::decode_chart;
use chartline::pipeline::render;
use chartline::raster::vertex_position;
use chartline::series::SeriesBuffer;
use chartline::{SCALE, WINDOW};

#[test]
fn zero_window_draws_a_bottom_line_and_a_spike_moves_the_last_vertex_up() {
    let mut buf = SeriesBuffer::new();
    for _ in 0..WINDOW {
        buf.append(0);
    }
    let uri = render(&buf, 600, 400).unwrap();
    let (w, h, pixels) = decode_chart(&uri).unwrap();
    assert_eq!((w, h), (600, 400));
    // a horizontal line near the bottom of the plot area: row 384
    for x in [15usize, 300, 584] {
        let i = 3 * (384 * 600 + x);
        assert_eq!(&pixels[i..i + 3], &[77, 255, 175]);
    }
    // mid canvas is background
    let i = 3 * (200 * 600 + 300);
    assert_eq!(&pixels[i..i + 3], &[44, 62, 80]);

    // append a full-scale value, evicting the oldest zero
    buf.append(SCALE);
    assert_eq!(buf.len(), WINDOW);
    let uri2 = render(&buf, 600, 400).unwrap();
    let (w2, h2, pixels2) = decode_chart(&uri2).unwrap();
    assert_eq!((w2, h2), (600, 400));
    // the rightmost vertex sits near the top of the plot area
    let (xr, yr) = vertex_position(&buf, 600, 400, WINDOW - 1);
    assert_eq!((xr, yr), (584, 15));
    let i = 3 * (15 * 600 + 584);
    assert_eq!(&pixels2[i..i + 3], &[77, 255, 175]);
    // the leftmost vertex still shows a zero sample on the bottom row
    let (xl, yl) = vertex_position(&buf, 600, 400, 0);
    assert_eq!((xl, yl), (15, 384));
    let i = 3 * (384 * 600 + 15);
    assert_eq!(&pixels2[i..i + 3], &[77, 255, 175]);
}
