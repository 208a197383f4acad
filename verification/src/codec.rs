//! Lossless PNG encoding of a canvas and base64 data-URI packaging, with a
//! verified decoder of packaged charts.
//!
//! The outside encoders are deterministic, so their output is specified as
//! an uninterpreted function of the input, and decoding is specified to
//! invert encoding.

use vstd::prelude::*;
use crate::raster::Canvas;
use vstd::string::{StrSliceExecFns, StringExecFns};

verus! {

/// The bytes of the PNG image that losslessly encodes a row-major RGB
/// pixel buffer of `3 * w * h` bytes. The encoder is deterministic, so its
/// output is a function of the pixels and dimensions alone; the bytes
/// themselves have no short description, so they only carry this name.
pub uninterp spec fn png_of(pixels: Seq<u8>, w: u32, h: u32) -> Seq<u8>;

/// The standard-alphabet, padded base64 rendering of a byte sequence.
pub uninterp spec fn b64_of(bytes: Seq<u8>) -> Seq<char>;

/// An encoding request that was rejected: the canvas buffer does not match
/// its dimensions, or a dimension is zero.
#[derive(Clone, Copy, Debug, PartialEq, Eq)]
pub enum EncodeError {
    DimensionMismatch,
}

/// Relies on `image::codecs::png::PngEncoder::new` and its `ImageEncoder::
/// write_image`: writing an RGB8 buffer of exactly `3 * w * h` bytes with
/// positive dimensions into a vector succeeds, and the PNG bytes written
/// are a deterministic function of the buffer and the dimensions.
#[verifier::external_body]
fn encode_png_raw(pixels: &Vec<u8>, w: u32, h: u32) -> (r: Vec<u8>)
    requires
        pixels@.len() == 3 * (w as int) * (h as int),
        w >= 1,
        h >= 1,
    ensures
        r@ == png_of(pixels@, w, h),
{
    let mut out: Vec<u8> = Vec::new();
    let enc = image::codecs::png::PngEncoder::new(&mut out);
    image::ImageEncoder::write_image(
        enc,
        pixels.as_slice(),
        w,
        h,
        image::ExtendedColorType::Rgb8,
    ).unwrap();
    out
}

/// Relies on `image::ImageReader` (`new`, `no_limits`,
/// `with_guessed_format`, `decode`) and `DynamicImage::to_rgb8`: with the
/// reader's allocation limits lifted, decoding has no size policy of its
/// own, and PNG is lossless, so decoding the bytes the PNG encoder
/// produced for an RGB8 buffer recovers that buffer and its dimensions
/// exactly; on malformed input the decoder returns an error rather than
/// failing.
#[verifier::external_body]
fn decode_image_raw(bytes: &Vec<u8>) -> (r: Option<(u32, u32, Vec<u8>)>)
    ensures
        forall|p: Seq<u8>, w: u32, h: u32|
            bytes@ == #[trigger] png_of(p, w, h) ==> r is Some && (r->0).0 == w && (r->0).1 == h
                && (r->0).2@ == p,
{
    let mut reader = image::ImageReader::new(std::io::Cursor::new(bytes.as_slice()));
    reader.no_limits();
    let img = match reader.with_guessed_format() {
        Ok(rd) => match rd.decode() {
            Ok(img) => img,
            Err(_) => return None,
        },
        Err(_) => return None,
    };
    let rgb = img.to_rgb8();
    let (w, h) = (rgb.width(), rgb.height());
    Some((w, h, rgb.into_raw()))
}

/// Relies on `base64::Engine::encode` with the `STANDARD` engine: base64
/// over the standard alphabet with padding, a function of the input bytes
/// alone; it allocates the output and never fails when the encoded length
/// fits the address space.
#[verifier::external_body]
fn b64_encode(bytes: &Vec<u8>) -> (r: String)
    requires
        4 * bytes@.len() <= usize::MAX,
    ensures
        r@ == b64_of(bytes@),
{
    base64::Engine::encode(&base64::engine::general_purpose::STANDARD, bytes.as_slice())
}

/// Relies on `base64::Engine::decode` with the same engine: decoding is
/// total (malformed input is an `Err`, not a failure) and inverts encoding,
/// so input that is exactly the encoding of some bytes yields those bytes.
#[verifier::external_body]
fn b64_decode(s: &str) -> (r: Option<Vec<u8>>)
    ensures
        forall|b: Seq<u8>| s@ == #[trigger] b64_of(b) ==> r is Some && r->0@ == b,
{
    match base64::Engine::decode(&base64::engine::general_purpose::STANDARD, s) {
        Ok(v) => Some(v),
        Err(_) => None,
    }
}

/// The `data:` URI wrapping a mime type and a base64 payload.
pub open spec fn data_uri_spec(mime: Seq<char>, payload: Seq<char>) -> Seq<char> {
    "data:"@ + mime + ";base64,"@ + payload
}

/// The pieces of a PNG data URI's head spell the one literal the decoder
/// strips off.
proof fn lemma_png_uri_prefix()
    ensures
        "data:"@ + "image/png"@ + ";base64,"@ == "data:image/png;base64,"@,
        ("data:image/png;base64,"@).len() == 22,
{
    reveal_strlit("data:image/png;base64,");
    reveal_strlit("data:");
    reveal_strlit("image/png");
    reveal_strlit(";base64,");
    assert("data:"@ + "image/png"@ + ";base64,"@ =~= "data:image/png;base64,"@);
}

/// Compress a canvas into PNG bytes. Succeeds exactly when the canvas is
/// well formed; a buffer that does not match its dimensions is rejected.
pub fn encode(canvas: &Canvas) -> (r: Result<Vec<u8>, EncodeError>)
    ensures
        r is Ok <==> canvas.wf(),
        r matches Ok(b) ==> b@ == png_of(canvas.pixels@, canvas.width, canvas.height),
        r matches Err(e) ==> e == EncodeError::DimensionMismatch,
{
    proof {
        assert(3 * (canvas.width as int) * (canvas.height as int) <= 3 * 0xffff_ffff
            * 0xffff_ffff) by (nonlinear_arith)
            requires
                0 <= canvas.width as int <= 0xffff_ffff,
                0 <= canvas.height as int <= 0xffff_ffff,
        ;
    }
    let expected: u128 = 3 * (canvas.width as u128) * (canvas.height as u128);
    if canvas.width >= 1 && canvas.height >= 1 && (canvas.pixels.len() as u128) == expected {
        Ok(encode_png_raw(&canvas.pixels, canvas.width, canvas.height))
    } else {
        Err(EncodeError::DimensionMismatch)
    }
}

/// Package image bytes as a `data:<mime>;base64,<payload>` string.
pub fn package(bytes: &Vec<u8>, mime: &str) -> (r: String)
    requires
        4 * bytes@.len() <= usize::MAX,
    ensures
        r@ == data_uri_spec(mime@, b64_of(bytes@)),
{
    let payload = b64_encode(bytes);
    let s = String::from_str("data:");
    let s = s.concat(mime);
    let s = s.concat(";base64,");
    let s = s.concat(payload.as_str());
    proof {
        assert(s@ =~= data_uri_spec(mime@, b64_of(bytes@)));
    }
    s
}

/// Decode a packaged PNG chart URI back to its dimensions and pixels.
/// Any URI packaged from PNG-encoded pixels comes back exactly as the
/// dimensions and buffer that were encoded; other inputs may yield `None`.
pub fn decode_chart(uri: &String) -> (r: Option<(u32, u32, Vec<u8>)>)
    ensures
        forall|p: Seq<u8>, w: u32, h: u32|
            uri@ == data_uri_spec("image/png"@, b64_of(#[trigger] png_of(p, w, h))) ==> (
            r matches Some(t) && t.0 == w && t.1 == h && t.2@ == p),
{
    let prefix: &str = "data:image/png;base64,";
    proof {
        lemma_png_uri_prefix();
        reveal_strlit("data:image/png;base64,");
    }
    let n = uri.as_str().unicode_len();
    if n < 22 {
        proof {
            assert forall|p: Seq<u8>, w: u32, h: u32|
                uri@ == data_uri_spec("image/png"@, b64_of(#[trigger] png_of(p, w, h)))
                implies false by {
                lemma_png_uri_prefix();
                assert(uri@ == "data:image/png;base64,"@ + b64_of(png_of(p, w, h)));
            };
        }
        return None;
    }
    let mut k: usize = 0;
    while k < 22
        invariant
            k <= 22,
            n == uri@.len(),
            n >= 22,
            prefix@ == "data:image/png;base64,"@,
            prefix@.len() == 22,
        decreases 22 - k,
    {
        if uri.as_str().get_char(k) != prefix.get_char(k) {
            proof {
                assert forall|p: Seq<u8>, w: u32, h: u32|
                    uri@ == data_uri_spec("image/png"@, b64_of(#[trigger] png_of(p, w, h)))
                    implies false by {
                    lemma_png_uri_prefix();
                    assert(uri@ == "data:image/png;base64,"@ + b64_of(png_of(p, w, h)));
                    assert(uri@[k as int] == prefix@[k as int]);
                };
            }
            return None;
        }
        k += 1;
    }
    let payload = uri.as_str().substring_char(22, n);
    let bytes = match b64_decode(payload) {
        Some(b) => b,
        None => {
            proof {
                assert forall|p: Seq<u8>, w: u32, h: u32|
                    uri@ == data_uri_spec("image/png"@, b64_of(#[trigger] png_of(p, w, h)))
                    implies false by {
                    lemma_png_uri_prefix();
                    assert(uri@ == "data:image/png;base64,"@ + b64_of(png_of(p, w, h)));
                    assert(payload@ =~= b64_of(png_of(p, w, h)));
                };
            }
            return None;
        },
    };
    let r = decode_image_raw(&bytes);
    proof {
        assert forall|p: Seq<u8>, w: u32, h: u32|
            uri@ == data_uri_spec("image/png"@, b64_of(#[trigger] png_of(p, w, h))) implies (
        r matches Some(t) && t.0 == w && t.1 == h && t.2@ == p) by {
            lemma_png_uri_prefix();
            assert(uri@ == "data:image/png;base64,"@ + b64_of(png_of(p, w, h)));
            assert(payload@ =~= b64_of(png_of(p, w, h)));
            assert(bytes@ == png_of(p, w, h));
        };
    }
    r
}

} // verus!
