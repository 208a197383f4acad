use chartline::codec::{decode_chart, encode, package, EncodeError};
use chartline::raster::{rasterize, Canvas};
use chartline::series::SeriesBuffer;
use chartline::SCALE;

#[test]
fn encode_rejects_a_buffer_that_does_not_match_its_dimensions() {
    let canvas = Canvas { width: 4, height: 4, pixels: vec![0u8; 10] };
    assert_eq!(encode(&canvas), Err(EncodeError::DimensionMismatch));
}

#[test]
fn encode_rejects_a_zero_dimension() {
    let canvas = Canvas { width: 0, height: 4, pixels: Vec::new() };
    assert_eq!(encode(&canvas), Err(EncodeError::DimensionMismatch));
}

#[test]
fn packaged_chart_decodes_back_to_the_canvas() {
    let mut buf = SeriesBuffer::new();
    buf.append(SCALE / 4);
    buf.append(SCALE / 2);
    buf.append(3 * (SCALE / 4));
    let c = rasterize(&buf, 40, 36);
    let bytes = encode(&c).unwrap();
    let uri = package(&bytes, "image/png");
    assert!(uri.starts_with("data:image/png;base64,"));
    let (w, h, pixels) = decode_chart(&uri).unwrap();
    assert_eq!(w, 40);
    assert_eq!(h, 36);
    assert_eq!(pixels, c.pixels);
}

#[test]
fn payload_is_standard_base64_of_the_png_bytes() {
    let mut buf = SeriesBuffer::new();
    buf.append(SCALE);
    let c = rasterize(&buf, 40, 36);
    let bytes = encode(&c).unwrap();
    let uri = package(&bytes, "image/png");
    let payload = &uri["data:image/png;base64,".len()..];
    let decoded =
        base64::Engine::decode(&base64::engine::general_purpose::STANDARD, payload).unwrap();
    assert_eq!(decoded, bytes);
    // a standard image decoder accepts the bytes and reports the size
    let img = image::load_from_memory(&decoded).unwrap();
    assert_eq!(img.width(), 40);
    assert_eq!(img.height(), 36);
}

#[test]
fn package_wraps_any_mime_type() {
    let bytes = vec![1u8, 2, 3];
    let uri = package(&bytes, "application/octet-stream");
    assert_eq!(uri, "data:application/octet-stream;base64,AQID");
}

#[test]
fn decode_chart_returns_none_on_garbage() {
    assert!(decode_chart(&String::from("hello")).is_none());
    assert!(decode_chart(&String::from("data:image/png;base64,!!!!")).is_none());
    assert!(decode_chart(&String::new()).is_none());
}
