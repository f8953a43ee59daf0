use vstd::prelude::*;

use crate::buffer::{PixelBuffer, RgbBuffer};
use crate::error::QualityError;
use crate::geometry::{crop_gray_to_percent, crop_outcome};

verus! {

/// The share of each dimension that preprocessing keeps, cutting away the
/// vignetted edges.
pub const VIGNETTE_CROP_PERCENT: u32 = 80;

/// The gray value `(red + 3 * green) / 4` of an RGB pixel: a rough luma that
/// ignores blue.
pub open spec fn red_green_luma(red: u8, green: u8) -> u8 {
    ((red + 3 * green) / 4) as u8
}

/// The red-green luma of every pixel of an RGB frame.
pub open spec fn red_green_pixels(input: &RgbBuffer) -> Seq<u8> {
    Seq::new(input.area(), |i: int| red_green_luma(input.sample(i, 0), input.sample(i, 1)))
}

/// Extracts one channel (0 red, 1 green, 2 blue) of an RGB frame as a gray
/// frame of the same dimensions.
pub fn mono_as_grey(input: &RgbBuffer, channel: usize) -> (r: PixelBuffer)
    requires
        input.wf(),
        channel < 3,
    ensures
        r.wf(),
        r.width == input.width,
        r.height == input.height,
        forall|i: int| 0 <= i < r.pixels@.len() ==> r.pixels@[i] == input.sample(i, channel as int),
{
    let n = (input.width as u64 * input.height as u64) as usize;
    let mut pixels: Vec<u8> = Vec::new();
    let mut i: usize = 0;
    while i < n
        invariant
            input.wf(),
            channel < 3,
            n == input.area(),
            3 * n == input.samples.len(),
            i <= n,
            pixels@.len() == i,
            forall|j: int| 0 <= j < i ==> pixels@[j] == input.sample(j, channel as int),
        decreases n - i,
    {
        pixels.push(input.samples[3 * i + channel]);
        i = i + 1;
    }
    PixelBuffer { width: input.width, height: input.height, pixels }
}

/// Combines the red and green channels of an RGB frame into a gray frame:
/// each pixel becomes `(red + 3 * green) / 4`.
pub fn red_green_as_grey(input: &RgbBuffer) -> (r: PixelBuffer)
    requires
        input.wf(),
    ensures
        r.wf(),
        r.width == input.width,
        r.height == input.height,
        r.pixels@ == red_green_pixels(input),
{
    let n = (input.width as u64 * input.height as u64) as usize;
    let mut pixels: Vec<u8> = Vec::new();
    let mut i: usize = 0;
    while i < n
        invariant
            input.wf(),
            n == input.area(),
            3 * n == input.samples.len(),
            i <= n,
            pixels@.len() == i,
            forall|j: int|
                0 <= j < i ==> pixels@[j] == red_green_luma(input.sample(j, 0), input.sample(j, 1)),
        decreases n - i,
    {
        let red = input.samples[3 * i] as u16;
        let green = input.samples[3 * i + 1] as u16;
        pixels.push(((red + 3 * green) / 4) as u8);
        i = i + 1;
    }
    assert(pixels@ =~= red_green_pixels(input));
    PixelBuffer { width: input.width, height: input.height, pixels }
}

/// Prepares a decoded RGB frame for analysis: the red-green luma, cropped to
/// `VIGNETTE_CROP_PERCENT` of each dimension around the centre.
pub fn preprocess_rgb_to_gray(input: &RgbBuffer) -> (r: Result<PixelBuffer, QualityError>)
    requires
        input.wf(),
    ensures
        crop_outcome(
            r,
            input.width as int,
            input.height as int,
            red_green_pixels(input),
            VIGNETTE_CROP_PERCENT as int,
        ),
{
    let work_img = red_green_as_grey(input);
    crop_gray_to_percent(&work_img, VIGNETTE_CROP_PERCENT)
}

} // verus!
