//! Thumbnails: a decoded image scaled down so that its longer edge is at most
//! a fixed bound, keeping its aspect ratio.
use vstd::prelude::*;
use crate::error::PipelineError;

verus! {

/// The bound on a thumbnail's longer edge, in pixels.
pub const TARGET_SIZE: u32 = 480;

/// The size of the image that `b` holds, or `None` where the decoder cannot
/// read it.
pub uninterp spec fn decoded_size_of(b: Seq<u8>) -> Option<(u32, u32)>;

/// The JPEG encoding of the image in `b` resized to `width` x `height` with
/// the nearest-neighbour filter, or `None` where decoding or encoding fails.
pub uninterp spec fn scaled_jpeg_of(b: Seq<u8>, width: u32, height: u32) -> Option<Seq<u8>>;

/// Relies on `image::load_from_memory` with `DynamicImage::width` and
/// `DynamicImage::height`: the size of the decoded image, which depends on
/// the bytes alone. Data that does not decode comes back as an error, which
/// `ok()` turns into `None`.
#[verifier::external_body]
fn decode_size(b: &[u8]) -> (r: Option<(u32, u32)>)
    ensures
        r == decoded_size_of(b@),
{
    image::load_from_memory(b).ok().map(|img| (img.width(), img.height()))
}

/// Relies on `image::load_from_memory`, `DynamicImage::resize_exact` with the
/// nearest-neighbour filter, and `DynamicImage::write_to` as JPEG into
/// memory: the result depends on the bytes and the size alone. A JPEG
/// encoding of a `width` x `height` image decodes to that size.
#[verifier::external_body]
fn scaled_jpeg(b: &[u8], width: u32, height: u32) -> (r: Option<Vec<u8>>)
    requires
        1 <= width <= TARGET_SIZE,
        1 <= height <= TARGET_SIZE,
    ensures
        r.is_some() == scaled_jpeg_of(b@, width, height).is_some(),
        r.is_some() ==> r.unwrap()@ == scaled_jpeg_of(b@, width, height).unwrap(),
        r.is_some() ==> decoded_size_of(r.unwrap()@) == Some((width, height)),
{
    let img = image::load_from_memory(b).ok()?;
    let resized = img.resize_exact(width, height, image::imageops::FilterType::Nearest);
    let mut out = std::io::Cursor::new(Vec::new());
    resized.write_to(&mut out, image::ImageFormat::Jpeg).ok()?;
    Some(out.into_inner())
}

/// `x * TARGET_SIZE / longer`, rounded to the nearest integer (halves up),
/// and at least 1.
pub open spec fn scaled_edge(x: int, longer: int) -> int {
    let q = (2 * x * TARGET_SIZE + longer) / (2 * longer);
    if q < 1 {
        1
    } else {
        q
    }
}

/// The size of the thumbnail of a `width` x `height` image: the same size
/// where both edges are within the bound; otherwise the longer edge becomes
/// the bound and the other is scaled by the same ratio.
pub open spec fn thumb_size_of(width: int, height: int) -> (int, int) {
    if width <= TARGET_SIZE && height <= TARGET_SIZE {
        (width, height)
    } else if width > height {
        (TARGET_SIZE as int, scaled_edge(height, width))
    } else {
        (scaled_edge(width, height), TARGET_SIZE as int)
    }
}

proof fn lemma_scaled_edge(x: int, longer: int)
    requires
        0 <= x <= longer,
        longer > TARGET_SIZE,
    ensures
        1 <= scaled_edge(x, longer) <= TARGET_SIZE,
        -longer <= TARGET_SIZE * x - scaled_edge(x, longer) * longer <= longer,
{
    let t = TARGET_SIZE as int;
    let q = (2 * x * t + longer) / (2 * longer);
    assert(q * (2 * longer) <= 2 * x * t + longer < (q + 1) * (2 * longer)) by (nonlinear_arith)
        requires
            q == (2 * x * t + longer) / (2 * longer),
            longer > 0,
            x >= 0,
    ;
    assert(2 * x * t + longer <= 2 * longer * t + longer) by (nonlinear_arith)
        requires
            0 <= x <= longer,
            t > 0,
    ;
    assert(q <= t) by (nonlinear_arith)
        requires
            q * (2 * longer) <= 2 * longer * t + longer,
            longer > 0,
    ;
    if q < 1 {
        assert(q == 0) by (nonlinear_arith)
            requires
                q < 1,
                q * (2 * longer) + 2 * longer > 0,
                longer > 0,
        ;
        assert(2 * x * t + longer < 2 * longer) by (nonlinear_arith)
            requires
                q == 0,
                2 * x * t + longer < (q + 1) * (2 * longer),
        ;
    } else {
        assert(-longer <= t * x - q * longer <= longer) by (nonlinear_arith)
            requires
                q * (2 * longer) <= 2 * x * t + longer < (q + 1) * (2 * longer),
        ;
    }
}

/// Thumbnail bound and aspect ratio: the thumbnail's longer edge is at most
/// the bound; an image within the bound keeps its size; and the thumbnail's
/// edges keep the image's width/height ratio up to one pixel of rounding in
/// the edge that was scaled (`|tw * h - th * w| <= max(w, h)`).
pub proof fn lemma_thumb_size(width: int, height: int)
    requires
        width >= 0,
        height >= 0,
    ensures
        thumb_size_of(width, height).0 <= TARGET_SIZE,
        thumb_size_of(width, height).1 <= TARGET_SIZE,
        width <= TARGET_SIZE && height <= TARGET_SIZE ==> thumb_size_of(width, height) == (
        width,
        height,
        ),
        !(width <= TARGET_SIZE && height <= TARGET_SIZE) ==> thumb_size_of(width, height).0 >= 1
            && thumb_size_of(width, height).1 >= 1,
        ({
            let (tw, th) = thumb_size_of(width, height);
            let longer = if width > height {
                width
            } else {
                height
            };
            -longer <= tw * height - th * width <= longer
        }),
{
    let (tw, th) = thumb_size_of(width, height);
    if width <= TARGET_SIZE && height <= TARGET_SIZE {
        assert(tw * height - th * width == 0) by (nonlinear_arith)
            requires
                tw == width,
                th == height,
        ;
    } else if width > height {
        lemma_scaled_edge(height, width);
    } else {
        lemma_scaled_edge(width, height);
    }
}

/// The size of the thumbnail of a `width` x `height` image.
pub fn thumbnail_size(width: u32, height: u32) -> (r: (u32, u32))
    ensures
        (r.0 as int, r.1 as int) == thumb_size_of(width as int, height as int),
        r.0 <= TARGET_SIZE,
        r.1 <= TARGET_SIZE,
{
    proof {
        lemma_thumb_size(width as int, height as int);
    }
    if width <= TARGET_SIZE && height <= TARGET_SIZE {
        (width, height)
    } else if width > height {
        proof {
            lemma_scaled_edge(height as int, width as int);
        }
        (TARGET_SIZE, scale_edge(height, width))
    } else {
        proof {
            lemma_scaled_edge(width as int, height as int);
        }
        (scale_edge(width, height), TARGET_SIZE)
    }
}

fn scale_edge(x: u32, longer: u32) -> (r: u32)
    requires
        x <= longer,
        longer > TARGET_SIZE,
    ensures
        r as int == scaled_edge(x as int, longer as int),
{
    proof {
        lemma_scaled_edge(x as int, longer as int);
    }
    let num: u64 = 2 * (x as u64) * (TARGET_SIZE as u64) + longer as u64;
    let q: u64 = num / (2 * longer as u64);
    if q < 1 {
        1
    } else {
        q as u32
    }
}

/// A thumbnail, JPEG-encoded, with its size and that of its source image.
pub struct Thumbnail {
    pub bytes: Vec<u8>,
    pub width: u32,
    pub height: u32,
    pub source_width: u32,
    pub source_height: u32,
}

/// The bytes of the thumbnail of the image in `src`: `src` itself where both
/// edges are within the bound, else the image scaled to `thumb_size_of`;
/// `Decode` where `src` does not decode, `Io` where the scaled image cannot
/// be encoded.
pub open spec fn thumb_result(src: Seq<u8>) -> Result<Seq<u8>, PipelineError> {
    match decoded_size_of(src) {
        None => Err(PipelineError::Decode),
        Some((w, h)) => if w <= TARGET_SIZE && h <= TARGET_SIZE {
            Ok(src)
        } else {
            let (tw, th) = thumb_size_of(w as int, h as int);
            match scaled_jpeg_of(src, tw as u32, th as u32) {
                Some(b) => Ok(b),
                None => Err(PipelineError::Io),
            }
        },
    }
}

/// `t` is the thumbnail of the image in `src`.
pub open spec fn thumb_matches(t: Thumbnail, src: Seq<u8>) -> bool {
    &&& thumb_result(src) == Ok::<Seq<u8>, PipelineError>(t.bytes@)
    &&& decoded_size_of(src) == Some((t.source_width, t.source_height))
    &&& (t.width as int, t.height as int) == thumb_size_of(
        t.source_width as int,
        t.source_height as int,
    )
    &&& decoded_size_of(t.bytes@) == Some((t.width, t.height))
    &&& t.width <= TARGET_SIZE && t.height <= TARGET_SIZE
}

/// Makes the thumbnail of the image in `source` (see `thumb_result`): the
/// bytes themselves where both edges are within the bound, else the image
/// scaled with the nearest-neighbour filter to `thumbnail_size` and encoded
/// as JPEG. The stored thumbnail decodes to its recorded size.
pub fn create_thumb(source: &Vec<u8>) -> (r: Result<Thumbnail, PipelineError>)
    ensures
        r.is_ok() == thumb_result(source@).is_ok(),
        r.is_err() ==> r == Err::<Thumbnail, PipelineError>(thumb_result(source@)->Err_0),
        r.is_ok() ==> thumb_matches(r.unwrap(), source@),
{
    let (source_width, source_height) = match decode_size(source.as_slice()) {
        Some(size) => size,
        None => return Err(PipelineError::Decode),
    };
    let (width, height) = thumbnail_size(source_width, source_height);
    proof {
        lemma_thumb_size(source_width as int, source_height as int);
    }
    if source_width <= TARGET_SIZE && source_height <= TARGET_SIZE {
        let bytes = source.clone();
        return Ok(Thumbnail { bytes, width, height, source_width, source_height });
    }
    match scaled_jpeg(source.as_slice(), width, height) {
        Some(bytes) => Ok(Thumbnail { bytes, width, height, source_width, source_height }),
        None => Err(PipelineError::Io),
    }
}

} // verus!
