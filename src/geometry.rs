use vstd::prelude::*;

use crate::buffer::{lemma_index_as_offset, lemma_offset_in_range, offset, PixelBuffer, RgbBuffer};
use crate::error::QualityError;

verus! {

/// A dimension scaled to `percent` of itself, rounded down.
pub open spec fn scaled(d: int, percent: int) -> int {
    d * percent / 100
}

/// Where a centred crop to `percent` of a dimension `d` starts.
pub open spec fn crop_origin(d: int, percent: int) -> int {
    (d - scaled(d, percent)) / 2
}

/// `c` is the `w` by `h` rectangle of the frame `src` (of the given width)
/// whose top left pixel is `(left, top)`.
pub open spec fn is_region(
    c: &PixelBuffer,
    src_width: int,
    src: Seq<u8>,
    left: int,
    top: int,
    w: int,
    h: int,
) -> bool {
    &&& c.wf()
    &&& c.width == w
    &&& c.height == h
    &&& forall|x: int, y: int|
        0 <= x < w && 0 <= y < h ==> #[trigger] c.at(x, y) == src[offset(
            src_width,
            left + x,
            top + y,
        )]
}

/// `c` is the centred crop to `percent` of a `width` by `height` frame
/// holding `src`.
pub open spec fn is_centered_crop(
    c: &PixelBuffer,
    width: int,
    height: int,
    src: Seq<u8>,
    percent: int,
) -> bool {
    is_region(
        c,
        width,
        src,
        crop_origin(width, percent),
        crop_origin(height, percent),
        scaled(width, percent),
        scaled(height, percent),
    )
}

/// The outcome owed by a centred crop to `percent` of a `width` by `height`
/// frame holding `src`.
pub open spec fn crop_outcome(
    r: Result<PixelBuffer, QualityError>,
    width: int,
    height: int,
    src: Seq<u8>,
    percent: int,
) -> bool {
    &&& r is Ok <==> (1 <= percent <= 100 && scaled(width, percent) > 0 && scaled(
        height,
        percent,
    ) > 0)
    &&& r is Err ==> r == Err::<PixelBuffer, QualityError>(QualityError::InvalidDimensions)
    &&& r matches Ok(c) ==> is_centered_crop(&c, width, height, src, percent)
}

/// Relies on image::imageops::crop_imm and SubImage::to_image: for a
/// rectangle inside the frame, an owned copy of exactly its pixels.
#[verifier::external_body]
fn crop_gray_region(buf: &PixelBuffer, left: u32, top: u32, width: u32, height: u32) -> (r:
    PixelBuffer)
    requires
        buf.wf(),
        width > 0,
        height > 0,
        left + width <= buf.width,
        top + height <= buf.height,
    ensures
        is_region(
            &r,
            buf.width as int,
            buf.pixels@,
            left as int,
            top as int,
            width as int,
            height as int,
        ),
{
    let img = image::GrayImage::from_raw(buf.width, buf.height, buf.pixels.clone()).unwrap();
    let out = image::imageops::crop_imm(&img, left, top, width, height).to_image();
    PixelBuffer { width: out.width(), height: out.height(), pixels: out.into_raw() }
}

/// The crop rectangle of a dimension: its size and origin, which keep it
/// inside the dimension.
fn crop_span(d: u32, percent: u32) -> (r: (u32, u32))
    requires
        1 <= percent <= 100,
    ensures
        r.0 == scaled(d as int, percent as int),
        r.1 == crop_origin(d as int, percent as int),
        r.0 <= d,
        r.1 + r.0 <= d,
        percent == 100 ==> r.0 == d && r.1 == 0,
{
    assert(d * percent <= 0xffff_ffff * 100) by (nonlinear_arith)
        requires
            d <= 0xffff_ffff,
            percent <= 100,
    ;
    let size = (d as u64 * percent as u64 / 100) as u32;
    assert(d * percent / 100 <= d) by (nonlinear_arith)
        requires
            percent <= 100,
    ;
    assert(percent == 100 ==> d * percent / 100 == d) by (nonlinear_arith);
    (size, (d - size) / 2)
}

/// Crops a frame to `percent` (1 to 100) of its width and height, keeping
/// the centre: a new frame of `width * percent / 100` by
/// `height * percent / 100` pixels, the same on both sides up to one pixel.
/// Removes vignetting before analysis. Fails with `InvalidDimensions` on a
/// percent outside `1..=100` and on a crop that would leave no pixel; at 100
/// the frame is copied unchanged.
pub fn crop_gray_to_percent(raw_img: &PixelBuffer, percent: u32) -> (r: Result<
    PixelBuffer,
    QualityError,
>)
    requires
        raw_img.wf(),
    ensures
        crop_outcome(r, raw_img.width as int, raw_img.height as int, raw_img.pixels@, percent as int),
        percent == 100 ==> (r matches Ok(c) && c.width == raw_img.width && c.height
            == raw_img.height && c.pixels@ == raw_img.pixels@),
{
    if percent == 0 || percent > 100 {
        return Err(QualityError::InvalidDimensions);
    }
    let (new_width, left) = crop_span(raw_img.width, percent);
    let (new_height, top) = crop_span(raw_img.height, percent);
    if new_width == 0 || new_height == 0 {
        return Err(QualityError::InvalidDimensions);
    }
    let c = crop_gray_region(raw_img, left, top, new_width, new_height);
    proof {
        if percent == 100 {
            lemma_whole_region(&c, raw_img);
        }
    }
    Ok(c)
}

/// A region as large as its frame, starting at its corner, is the frame.
proof fn lemma_whole_region(c: &PixelBuffer, src: &PixelBuffer)
    requires
        src.wf(),
        is_region(c, src.width as int, src.pixels@, 0, 0, src.width as int, src.height as int),
    ensures
        c.pixels@ == src.pixels@,
{
    let w = src.width as int;
    let h = src.height as int;
    assert forall|i: int| 0 <= i < c.pixels@.len() implies c.pixels@[i] == src.pixels@[i] by {
        lemma_index_as_offset(w, h, i);
        assert(c.at(i % w, i / w) == src.pixels@[offset(w, 0 + i % w, 0 + i / w)]);
    }
    assert(c.pixels@ =~= src.pixels@);
}

/// `c` is the `w` by `h` rectangle of the RGB frame `src` whose top left
/// pixel is `(left, top)`.
pub open spec fn is_rgb_region(
    c: &RgbBuffer,
    src: &RgbBuffer,
    left: int,
    top: int,
    w: int,
    h: int,
) -> bool {
    &&& c.wf()
    &&& c.width == w
    &&& c.height == h
    &&& forall|x: int, y: int, ch: int|
        0 <= x < w && 0 <= y < h && 0 <= ch < 3 ==> #[trigger] c.sample(offset(w, x, y), ch)
            == src.sample(offset(src.width as int, left + x, top + y), ch)
}

/// Relies on image::imageops::crop_imm and SubImage::to_image: for a
/// rectangle inside the frame, an owned copy of exactly its pixels.
#[verifier::external_body]
fn crop_rgb_region(buf: &RgbBuffer, left: u32, top: u32, width: u32, height: u32) -> (r:
    RgbBuffer)
    requires
        buf.wf(),
        width > 0,
        height > 0,
        left + width <= buf.width,
        top + height <= buf.height,
    ensures
        is_rgb_region(&r, buf, left as int, top as int, width as int, height as int),
{
    let img = image::RgbImage::from_raw(buf.width, buf.height, buf.samples.clone()).unwrap();
    let out = image::imageops::crop_imm(&img, left, top, width, height).to_image();
    RgbBuffer { width: out.width(), height: out.height(), samples: out.into_raw() }
}

/// Crops an RGB frame to `percent` (1 to 100) of its width and height,
/// keeping the centre, as `crop_gray_to_percent` does.
pub fn crop_rgb_to_percent(raw_img: &RgbBuffer, percent: u32) -> (r: Result<
    RgbBuffer,
    QualityError,
>)
    requires
        raw_img.wf(),
    ensures
        r is Ok <==> (1 <= percent <= 100 && scaled(raw_img.width as int, percent as int) > 0
            && scaled(raw_img.height as int, percent as int) > 0),
        r is Err ==> r == Err::<RgbBuffer, QualityError>(QualityError::InvalidDimensions),
        r matches Ok(c) ==> is_rgb_region(
            &c,
            raw_img,
            crop_origin(raw_img.width as int, percent as int),
            crop_origin(raw_img.height as int, percent as int),
            scaled(raw_img.width as int, percent as int),
            scaled(raw_img.height as int, percent as int),
        ),
{
    if percent == 0 || percent > 100 {
        return Err(QualityError::InvalidDimensions);
    }
    let (new_width, left) = crop_span(raw_img.width, percent);
    let (new_height, top) = crop_span(raw_img.height, percent);
    if new_width == 0 || new_height == 0 {
        return Err(QualityError::InvalidDimensions);
    }
    Ok(crop_rgb_region(raw_img, left, top, new_width, new_height))
}

} // verus!
