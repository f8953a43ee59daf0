use vstd::prelude::*;

use crate::buffer::{is_flat, PixelBuffer};
use crate::error::QualityError;

verus! {

/// The intensity threshold of the corner detectors unless told otherwise.
pub const DEFAULT_CORNER_THRESHOLD: u8 = 32;

/// The border, in pixels, inside which the FAST detectors find no corner.
pub const DETECTOR_BORDER: u32 = 3;

/// The number of FAST-12 corners that imageproc finds in a frame.
pub uninterp spec fn fast12_corners_of(width: nat, height: nat, pixels: Seq<u8>, threshold: u8) -> nat;

/// The number of FAST-9 corners that imageproc finds in a frame.
pub uninterp spec fn fast9_corners_of(width: nat, height: nat, pixels: Seq<u8>, threshold: u8) -> nat;

/// The number of pixels at least `DETECTOR_BORDER` away from every edge: the
/// only pixels that can be corners.
pub open spec fn detector_interior(width: int, height: int) -> int {
    if width > 2 * DETECTOR_BORDER && height > 2 * DETECTOR_BORDER {
        (width - 2 * DETECTOR_BORDER) * (height - 2 * DETECTOR_BORDER)
    } else {
        0
    }
}

/// Relies on imageproc::corners::corners_fast12, of which only the number of
/// corners is kept. It tests each pixel once, and only pixels with three
/// pixels of border on every side; a pixel is a corner only if pixels of its
/// circle are all brighter than its intensity plus the threshold, or all
/// darker than it minus the threshold, which no pixel of a flat frame is.
#[verifier::external_body]
fn fast12_corner_total(buf: &PixelBuffer, threshold: u8) -> (r: usize)
    requires
        buf.wf(),
    ensures
        r == fast12_corners_of(buf.width as nat, buf.height as nat, buf.pixels@, threshold),
        r <= detector_interior(buf.width as int, buf.height as int),
        is_flat(buf.pixels@) ==> r == 0,
{
    let img = image::GrayImage::from_raw(buf.width, buf.height, buf.pixels.clone()).unwrap();
    imageproc::corners::corners_fast12(&img, threshold).len()
}

/// Relies on imageproc::corners::corners_fast9, of which only the number of
/// corners is kept. It tests each pixel once, and only pixels with three
/// pixels of border on every side; a pixel is a corner only if pixels of its
/// circle are all brighter than its intensity plus the threshold, or all
/// darker than it minus the threshold, which no pixel of a flat frame is.
/// Every FAST-12 corner passes the FAST-9 quick test on the same circle and
/// thresholds, and a run of twelve holds a run of nine, so there are at
/// least as many FAST-9 corners as FAST-12 corners.
#[verifier::external_body]
fn fast9_corner_total(buf: &PixelBuffer, threshold: u8) -> (r: usize)
    requires
        buf.wf(),
    ensures
        r == fast9_corners_of(buf.width as nat, buf.height as nat, buf.pixels@, threshold),
        r >= fast12_corners_of(buf.width as nat, buf.height as nat, buf.pixels@, threshold),
        r <= detector_interior(buf.width as int, buf.height as int),
        is_flat(buf.pixels@) ==> r == 0,
{
    let img = image::GrayImage::from_raw(buf.width, buf.height, buf.pixels.clone()).unwrap();
    imageproc::corners::corners_fast9(&img, threshold).len()
}

/// The two FAST detectors: the length of the contiguous arc of the 16-pixel
/// circle that must differ from the centre. The shorter arc is more
/// permissive.
#[derive(Debug, Clone, Copy, PartialEq, Eq, Structural)]
pub enum FastVariant {
    Nine,
    Twelve,
}

/// The number of corners that the given detector finds.
pub open spec fn corner_count_of(buf: &PixelBuffer, threshold: u8, variant: FastVariant) -> nat {
    match variant {
        FastVariant::Nine => fast9_corners_of(
            buf.width as nat,
            buf.height as nat,
            buf.pixels@,
            threshold,
        ),
        FastVariant::Twelve => fast12_corners_of(
            buf.width as nat,
            buf.height as nat,
            buf.pixels@,
            threshold,
        ),
    }
}

/// The interior of a frame is no larger than the frame.
proof fn lemma_interior_within_area(width: int, height: int)
    requires
        width > 0,
        height > 0,
    ensures
        0 <= detector_interior(width, height) <= width * height,
{
    if width > 6 && height > 6 {
        assert(0 <= (width - 6) * (height - 6) <= width * height) by (nonlinear_arith)
            requires
                width > 6,
                height > 6,
        ;
    }
}

/// Counts the corners that a FAST detector finds at the given intensity
/// threshold; the corners' positions are not kept, only their density
/// matters. The shorter arc finds at least as many corners as the longer.
pub fn count_corners(img: &PixelBuffer, threshold: u8, variant: FastVariant) -> (r: u32)
    requires
        img.wf(),
    ensures
        r == corner_count_of(img, threshold, variant),
        variant == FastVariant::Nine ==> r >= corner_count_of(img, threshold, FastVariant::Twelve),
        r <= detector_interior(img.width as int, img.height as int),
        is_flat(img.pixels@) ==> r == 0,
{
    proof {
        lemma_interior_within_area(img.width as int, img.height as int);
    }
    let total = match variant {
        FastVariant::Nine => fast9_corner_total(img, threshold),
        FastVariant::Twelve => fast12_corner_total(img, threshold),
    };
    total as u32
}

/// Counts the FAST-12 corners at the default threshold.
pub fn count_corners_fast12(img: &PixelBuffer) -> (r: u32)
    requires
        img.wf(),
    ensures
        r == corner_count_of(img, DEFAULT_CORNER_THRESHOLD, FastVariant::Twelve),
        r <= detector_interior(img.width as int, img.height as int),
        is_flat(img.pixels@) ==> r == 0,
{
    count_corners(img, DEFAULT_CORNER_THRESHOLD, FastVariant::Twelve)
}

/// Counts the FAST-9 corners at the default threshold.
pub fn count_corners_fast9(img: &PixelBuffer) -> (r: u32)
    requires
        img.wf(),
    ensures
        r == corner_count_of(img, DEFAULT_CORNER_THRESHOLD, FastVariant::Nine),
        r >= corner_count_of(img, DEFAULT_CORNER_THRESHOLD, FastVariant::Twelve),
        r <= detector_interior(img.width as int, img.height as int),
        is_flat(img.pixels@) ==> r == 0,
{
    count_corners(img, DEFAULT_CORNER_THRESHOLD, FastVariant::Nine)
}

/// The most FAST-12 corners expected in a frame of the given dimensions,
/// where `density` is the ratio of all pixels to corner pixels (say 25):
/// the detector's interior divided by `density`. Fails when `density` is 0
/// or the frame leaves no interior.
pub fn estimate_max_corners_fast12(width: u32, height: u32, density: u32) -> (r: Result<
    u64,
    QualityError,
>)
    ensures
        r is Ok <==> (density > 0 && width > 2 * DETECTOR_BORDER && height > 2 * DETECTOR_BORDER),
        r matches Ok(n) ==> n == detector_interior(width as int, height as int) / density as int,
        r matches Err(e) ==> e == QualityError::InvalidDimensions,
{
    if density == 0 || width <= 2 * DETECTOR_BORDER || height <= 2 * DETECTOR_BORDER {
        return Err(QualityError::InvalidDimensions);
    }
    let w = (width - 2 * DETECTOR_BORDER) as u64;
    let h = (height - 2 * DETECTOR_BORDER) as u64;
    assert(w * h <= 0xffff_ffff * 0xffff_ffff) by (nonlinear_arith)
        requires
            w <= 0xffff_ffff,
            h <= 0xffff_ffff,
    ;
    Ok(w * h / density as u64)
}

} // verus!
