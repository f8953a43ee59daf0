use vstd::prelude::*;

use crate::error::QualityError;

verus! {

/// A width by height frame of 8-bit grayscale samples, row-major, no padding.
#[derive(Debug)]
pub struct PixelBuffer {
    pub width: u32,
    pub height: u32,
    pub pixels: Vec<u8>,
}

/// A width by height frame of 8-bit RGB samples, three per pixel, row-major.
#[derive(Debug)]
pub struct RgbBuffer {
    pub width: u32,
    pub height: u32,
    pub samples: Vec<u8>,
}

/// The dimensions that a frame of this library may have: at least one pixel,
/// and a pixel count that fits in `u32`.
pub open spec fn valid_dimensions(width: int, height: int) -> bool {
    &&& width > 0
    &&& height > 0
    &&& width * height <= u32::MAX
}

/// The index of pixel `(x, y)` in a row-major frame of the given width.
pub open spec fn offset(width: int, x: int, y: int) -> int {
    y * width + x
}

/// Every sample of `px` equals the first.
pub open spec fn is_flat(px: Seq<u8>) -> bool {
    forall|i: int| 0 <= i < px.len() ==> #[trigger] px[i] == px[0]
}

/// A pixel inside the frame has its index inside the sample sequence.
pub proof fn lemma_offset_in_range(width: int, height: int, x: int, y: int)
    requires
        0 <= x < width,
        0 <= y < height,
    ensures
        0 <= offset(width, x, y) < width * height,
{
    assert(0 <= y * width + x < width * height) by (nonlinear_arith)
        requires
            0 <= x < width,
            0 <= y < height,
    ;
}

/// Every index of a frame is the offset of one of its pixels.
pub proof fn lemma_index_as_offset(width: int, height: int, i: int)
    requires
        width > 0,
        0 <= i < width * height,
    ensures
        0 <= i % width < width,
        0 <= i / width < height,
        i == offset(width, i % width, i / width),
{
    assert(0 <= i % width < width && 0 <= i / width < height && i == (i / width) * width + i
        % width) by (nonlinear_arith)
        requires
            width > 0,
            0 <= i < width * height,
    ;
}

/// Two `u32` dimensions multiply without overflow in `u64`.
pub proof fn lemma_area_fits_u64(width: u32, height: u32)
    ensures
        width * height <= 0xffff_fffe_0000_0001,
{
    assert(width * height <= 0xffff_ffff * 0xffff_ffff) by (nonlinear_arith)
        requires
            width <= 0xffff_ffff,
            height <= 0xffff_ffff,
    ;
}

/// Valid dimensions leave at least one pixel.
pub proof fn lemma_area_positive(width: int, height: int)
    requires
        valid_dimensions(width, height),
    ensures
        width * height > 0,
{
    assert(width * height > 0) by (nonlinear_arith)
        requires
            width > 0,
            height > 0,
    ;
}

impl PixelBuffer {
    pub open spec fn wf(&self) -> bool {
        &&& valid_dimensions(self.width as int, self.height as int)
        &&& self.pixels@.len() == self.width * self.height
    }

    /// The number of pixels in the frame.
    pub open spec fn area(&self) -> nat {
        (self.width * self.height) as nat
    }

    /// A well-formed frame holds at least one pixel and at most `u32::MAX`.
    pub proof fn lemma_nonempty(&self)
        requires
            self.wf(),
        ensures
            0 < self.pixels@.len() <= u32::MAX,
    {
        lemma_area_positive(self.width as int, self.height as int);
    }

    /// The sample at column `x`, row `y`.
    pub open spec fn at(&self, x: int, y: int) -> u8 {
        self.pixels@[offset(self.width as int, x, y)]
    }

    /// Builds a frame from its row-major samples; fails when a dimension is
    /// zero, the pixel count overflows `u32`, or the samples do not fill the
    /// frame exactly.
    pub fn new(width: u32, height: u32, pixels: Vec<u8>) -> (r: Result<PixelBuffer, QualityError>)
        ensures
            r is Ok <==> (valid_dimensions(width as int, height as int) && pixels@.len()
                == width * height),
            r matches Ok(b) ==> b.wf() && b.width == width && b.height == height && b.pixels@
                == pixels@,
            r matches Err(e) ==> e == QualityError::InvalidDimensions,
    {
        if width == 0 || height == 0 {
            return Err(QualityError::InvalidDimensions);
        }
        proof {
            lemma_area_fits_u64(width, height);
        }
        let area = width as u64 * height as u64;
        if area > u32::MAX as u64 || pixels.len() as u64 != area {
            return Err(QualityError::InvalidDimensions);
        }
        Ok(PixelBuffer { width, height, pixels })
    }

    /// A frame whose every sample is `value`.
    pub fn filled(width: u32, height: u32, value: u8) -> (r: Result<PixelBuffer, QualityError>)
        ensures
            r is Ok <==> valid_dimensions(width as int, height as int),
            r matches Ok(b) ==> b.wf() && b.width == width && b.height == height && (forall|i: int|
                0 <= i < b.pixels@.len() ==> b.pixels@[i] == value),
            r matches Err(e) ==> e == QualityError::InvalidDimensions,
    {
        if width == 0 || height == 0 {
            return Err(QualityError::InvalidDimensions);
        }
        proof {
            lemma_area_fits_u64(width, height);
        }
        let area = width as u64 * height as u64;
        if area > u32::MAX as u64 {
            return Err(QualityError::InvalidDimensions);
        }
        let n = area as usize;
        let mut pixels: Vec<u8> = Vec::new();
        while pixels.len() < n
            invariant
                pixels@.len() <= n,
                forall|i: int| 0 <= i < pixels@.len() ==> pixels@[i] == value,
            decreases n - pixels@.len(),
        {
            pixels.push(value);
        }
        Ok(PixelBuffer { width, height, pixels })
    }
}

impl RgbBuffer {
    pub open spec fn wf(&self) -> bool {
        &&& valid_dimensions(self.width as int, self.height as int)
        &&& self.samples@.len() == 3 * (self.width * self.height)
    }

    /// The number of pixels in the frame.
    pub open spec fn area(&self) -> nat {
        (self.width * self.height) as nat
    }

    /// Sample `channel` (0 red, 1 green, 2 blue) of the pixel at `index`.
    pub open spec fn sample(&self, index: int, channel: int) -> u8 {
        self.samples@[3 * index + channel]
    }

    /// Builds a frame from its row-major RGB samples; fails when a dimension
    /// is zero, the pixel count overflows `u32`, or the samples do not fill
    /// the frame exactly.
    pub fn new(width: u32, height: u32, samples: Vec<u8>) -> (r: Result<RgbBuffer, QualityError>)
        ensures
            r is Ok <==> (valid_dimensions(width as int, height as int) && samples@.len() == 3 * (
            width * height)),
            r matches Ok(b) ==> b.wf() && b.width == width && b.height == height && b.samples@
                == samples@,
            r matches Err(e) ==> e == QualityError::InvalidDimensions,
    {
        if width == 0 || height == 0 {
            return Err(QualityError::InvalidDimensions);
        }
        proof {
            lemma_area_fits_u64(width, height);
        }
        let area = width as u64 * height as u64;
        if area > u32::MAX as u64 || samples.len() as u64 != 3 * area {
            return Err(QualityError::InvalidDimensions);
        }
        Ok(RgbBuffer { width, height, samples })
    }
}

} // verus!
