//! Mirroring an image left-to-right: decoding and JPEG encoding by way of the
//! `image` crate, the mirroring itself on 8-bit RGB pixels.
use vstd::prelude::*;

use image::ImageEncoder;

use vstd::arithmetic::div_mod::{
    lemma_fundamental_div_mod, lemma_fundamental_div_mod_converse, lemma_mod_pos_bound,
};

verus! {

/// An image as 8-bit RGB pixels, row by row, three bytes per pixel.
pub struct RgbPixels {
    pub width: u32,
    pub height: u32,
    pub data: Vec<u8>,
}

/// The 8-bit RGB pixels of the image encoded in `bytes`, with its width and
/// height, or `None` when the bytes do not decode.
pub uninterp spec fn decoded_rgb8(bytes: Seq<u8>) -> Option<(u32, u32, Seq<u8>)>;

/// The JPEG encoding, at `quality`, of a `width`×`height` image of 8-bit RGB
/// pixels, or `None` when the encoder refuses it.
pub uninterp spec fn jpeg_encoded(width: u32, height: u32, rgb: Seq<u8>, quality: u8) -> Option<
    Seq<u8>,
>;

/// `image::load_from_memory` (format guessed from the bytes), then
/// `DynamicImage::into_rgb8`, then the buffer's dimensions and raw bytes. An
/// `ImageBuffer` always holds at least width × height × 3 bytes for RGB pixels.
/// The error's text is not stated.
#[verifier::external_body]
fn decode_rgb8(bytes: &[u8]) -> (r: Result<RgbPixels, String>)
    ensures
        r is Ok <==> decoded_rgb8(bytes@) is Some,
        r matches Ok(img) ==> decoded_rgb8(bytes@) == Some((img.width, img.height, img.data@)) && 3
            * img.width * img.height <= img.data@.len(),
{
    match image::load_from_memory(bytes) {
        Ok(img) => {
            let rgb = img.into_rgb8();
            let (width, height) = rgb.dimensions();
            Ok(RgbPixels { width, height, data: rgb.into_raw() })
        },
        Err(e) => Err(e.to_string()),
    }
}

/// `JpegEncoder::new_with_quality(.., quality).write_image(rgb, width, height,
/// ExtendedColorType::Rgb8)` into a new buffer. `write_image` panics unless the
/// buffer holds exactly width × height × 3 bytes; a `Vec<u8>` never holds more
/// than `isize::MAX` bytes. The error's text is not stated.
#[verifier::external_body]
fn encode_jpeg(width: u32, height: u32, rgb: &[u8], quality: u8) -> (r: Result<Vec<u8>, String>)
    requires
        1 <= quality <= 100,
        rgb@.len() == 3 * width * height,
    ensures
        r is Ok <==> jpeg_encoded(width, height, rgb@, quality) is Some,
        r matches Ok(v) ==> jpeg_encoded(width, height, rgb@, quality) == Some(v@) && v@.len()
            <= isize::MAX,
{
    let mut out: Vec<u8> = Vec::new();
    let encoder = image::codecs::jpeg::JpegEncoder::new_with_quality(&mut out, quality);
    match encoder.write_image(rgb, width, height, image::ExtendedColorType::Rgb8) {
        Ok(()) => Ok(out),
        Err(e) => Err(e.to_string()),
    }
}

/// Where byte `i` of an image `w` pixels wide, mirrored left-to-right, comes from.
pub open spec fn mirror_source(w: int, i: int) -> int {
    let p = i / 3;
    3 * ((p / w) * w + (w - 1 - p % w)) + i % 3
}

/// The first `w`×`h` RGB pixels of `px`, each row mirrored left-to-right
/// (`DynamicImage::fliph`).
pub open spec fn mirrored(w: nat, h: nat, px: Seq<u8>) -> Seq<u8> {
    Seq::new(3 * w * h, |i: int| px[mirror_source(w as int, i)])
}

/// Byte `c` of pixel `x` in row `y` of the mirrored image comes from pixel
/// `w - 1 - x` of that row.
pub proof fn lemma_mirror_source(w: int, y: int, x: int, c: int)
    requires
        w > 0,
        y >= 0,
        0 <= x < w,
        0 <= c < 3,
    ensures
        mirror_source(w, 3 * (y * w + x) + c) == 3 * (y * w + (w - 1 - x)) + c,
{
    let p = y * w + x;
    lemma_fundamental_div_mod_converse(3 * p + c, 3, p, c);
    lemma_fundamental_div_mod_converse(p, w, y, x);
}

/// Mirroring twice gives back the pixels mirrored: flipping an image twice
/// leaves it as it was.
pub proof fn lemma_mirror_twice(w: nat, h: nat, px: Seq<u8>)
    requires
        3 * w * h <= px.len(),
    ensures
        mirrored(w, h, mirrored(w, h, px)) == px.take((3 * w * h) as int),
{
    let m = mirrored(w, h, px);
    assert forall|i: int| 0 <= i < 3 * w * h implies #[trigger] mirrored(w, h, m)[i] == px[i] by {
        let wi = w as int;
        assert(w > 0) by (nonlinear_arith)
            requires
                0 <= i < 3 * w * h,
        ;
        let p = i / 3;
        let c = i % 3;
        lemma_fundamental_div_mod(i, 3);
        lemma_mod_pos_bound(i, 3);
        let y = p / wi;
        let x = p % wi;
        lemma_fundamental_div_mod(p, wi);
        lemma_mod_pos_bound(p, wi);
        assert(p >= 0);
        assert(y >= 0) by (nonlinear_arith)
            requires
                p >= 0,
                wi > 0,
                y == p / wi,
        ;
        assert(i == 3 * (y * wi + x) + c) by (nonlinear_arith)
            requires
                i == 3 * p + c,
                p == wi * y + x,
        ;
        lemma_mirror_source(wi, y, x, c);
        lemma_mirror_source(wi, y, wi - 1 - x, c);
        let j = mirror_source(wi, i);
        assert(0 <= j < 3 * w * h) by {
            assert(y < h as int) by (nonlinear_arith)
                requires
                    i < 3 * w * h,
                    i == 3 * (y * wi + x) + c,
                    0 <= x < wi,
                    0 <= c < 3,
                    wi == w,
            ;
            lemma_row_in_image(wi, h as int, y, x);
        }
    }
    assert(mirrored(w, h, m) =~= px.take((3 * w * h) as int));
}

/// The pixels of row `y` lie inside a `w`×`h` image.
pub proof fn lemma_row_in_image(w: int, h: int, y: int, x: int)
    requires
        0 <= y < h,
        0 <= x < w,
    ensures
        3 * (y * w + x) + 3 <= 3 * w * h,
        0 <= 3 * (y * w + (w - 1 - x)),
        3 * (y * w + (w - 1 - x)) + 3 <= 3 * w * h,
{
    assert(y * w + w <= h * w) by (nonlinear_arith)
        requires
            0 <= y < h,
            0 <= w,
    ;
    assert(0 <= y * w) by (nonlinear_arith)
        requires
            0 <= y,
            0 <= w,
    ;
    assert(h * w == w * h) by (nonlinear_arith);
    assert(3 * w * h == 3 * (w * h)) by (nonlinear_arith);
}

/// The first `width`×`height` pixels of `px`, each row mirrored left-to-right.
pub fn mirror_rgb(width: u32, height: u32, px: &Vec<u8>) -> (r: Vec<u8>)
    requires
        3 * width * height <= px@.len(),
    ensures
        r@ == mirrored(width as nat, height as nat, px@),
{
    let ghost w = width as int;
    let ghost h = height as int;
    let w = width as usize;
    let h = height as usize;
    let n = px.len();
    let mut out: Vec<u8> = Vec::new();
    let mut y: usize = 0;
    while y < h
        invariant
            n == px@.len(),
            w == width,
            h == height,
            3 * w * h <= px@.len(),
            y <= h,
            out@.len() == 3 * (y * w),
            forall|i: int| 0 <= i < out@.len() ==> out@[i] == px@[mirror_source(w as int, i)],
        decreases h - y,
    {
        let mut x: usize = 0;
        while x < w
            invariant
                n == px@.len(),
                w == width,
                h == height,
                3 * w * h <= px@.len(),
                y < h,
                x <= w,
                out@.len() == 3 * (y * w + x),
                forall|i: int| 0 <= i < out@.len() ==> out@[i] == px@[mirror_source(w as int, i)],
            decreases w - x,
        {
            proof {
                lemma_row_in_image(w as int, h as int, y as int, x as int);
                lemma_mirror_source(w as int, y as int, x as int, 0);
                lemma_mirror_source(w as int, y as int, x as int, 1);
                lemma_mirror_source(w as int, y as int, x as int, 2);
            }
            let src = 3 * (y * w + (w - 1 - x));
            out.push(px[src]);
            out.push(px[src + 1]);
            out.push(px[src + 2]);
            x = x + 1;
        }
        assert(3 * (y * w + w) == 3 * ((y + 1) * w)) by (nonlinear_arith);
        y = y + 1;
    }
    assert(out@ =~= mirrored(width as nat, height as nat, px@)) by {
        assert(3 * (h as int * w as int) == 3 * width * height) by (nonlinear_arith)
            requires
                h == height,
                w == width,
        ;
    }
    out
}

/// The JPEG (quality 90) of the image in `bytes` mirrored left-to-right, or
/// `None` when it does not decode or does not encode.
pub open spec fn flipped_jpeg(bytes: Seq<u8>) -> Option<Seq<u8>> {
    match decoded_rgb8(bytes) {
        Some((w, h, px)) => jpeg_encoded(w, h, mirrored(w as nat, h as nat, px), 90),
        None => None,
    }
}

/// Mirror an image left-to-right and encode it as a JPEG of quality 90; the
/// error's text when the bytes do not decode or the result does not encode.
pub fn flip_to_jpeg(bytes: &[u8]) -> (r: Result<Vec<u8>, String>)
    ensures
        r is Ok <==> flipped_jpeg(bytes@) is Some,
        r matches Ok(v) ==> flipped_jpeg(bytes@) == Some(v@) && v@.len() <= isize::MAX,
{
    let img = match decode_rgb8(bytes) {
        Ok(img) => img,
        Err(e) => {
            return Err(e);
        },
    };
    let flipped = mirror_rgb(img.width, img.height, &img.data);
    encode_jpeg(img.width, img.height, flipped.as_slice(), 90)
}

} // verus!
