use vstd::prelude::*;

use crate::buffer::PixelBuffer;
use crate::error::QualityError;

verus! {

/// `sum((a_i - b_i)^2)` over the pixel pairs of two equally long frames.
pub open spec fn squared_error_sum(a: Seq<u8>, b: Seq<u8>) -> int
    decreases a.len(),
{
    if a.len() == 0 || b.len() == 0 {
        0
    } else {
        squared_error_sum(a.drop_last(), b.drop_last()) + (a.last() - b.last()) * (a.last()
            - b.last())
    }
}

/// The pixel-wise part of a comparison of two frames of equal dimensions:
/// the root-mean-squared error is `sqrt(squared_error_sum / pixel_count)`.
#[derive(Debug, Clone, Copy, PartialEq, Eq, Structural)]
pub struct ImgComparison {
    pub pixel_count: u32,
    pub squared_error_sum: u64,
}

/// A frame compared with itself has no error.
pub proof fn lemma_self_comparison_exact(px: Seq<u8>)
    ensures
        squared_error_sum(px, px) == 0,
    decreases px.len(),
{
    if px.len() > 0 {
        lemma_self_comparison_exact(px.drop_last());
    }
}

/// The error sum grows by at most `255^2` per pixel pair.
proof fn lemma_squared_error_bounded(a: Seq<u8>, b: Seq<u8>)
    ensures
        0 <= squared_error_sum(a, b) <= 65025 * a.len(),
    decreases a.len(),
{
    if a.len() > 0 && b.len() > 0 {
        lemma_squared_error_bounded(a.drop_last(), b.drop_last());
        let d = a.last() - b.last();
        assert(0 <= d * d <= 65025) by (nonlinear_arith)
            requires
                -255 <= d <= 255,
        ;
    }
}

/// Compares two frames pixel by pixel: fails unless both have the same
/// width and height, and otherwise sums the squared differences of
/// corresponding samples. A frame compared with itself has no error.
pub fn compare_images(img1: &PixelBuffer, img2: &PixelBuffer) -> (r: Result<
    ImgComparison,
    QualityError,
>)
    requires
        img1.wf(),
        img2.wf(),
    ensures
        r is Ok <==> (img1.width == img2.width && img1.height == img2.height),
        r matches Err(e) ==> e == QualityError::DimensionMismatch,
        r matches Ok(c) ==> c.pixel_count == img1.pixels@.len() && c.squared_error_sum
            == squared_error_sum(img1.pixels@, img2.pixels@),
        (img1.width == img2.width && img1.height == img2.height && img1.pixels@
            == img2.pixels@) ==> (r matches Ok(c) && c.squared_error_sum == 0),
{
    if img1.width != img2.width || img1.height != img2.height {
        return Err(QualityError::DimensionMismatch);
    }
    let ghost a = img1.pixels@;
    let ghost b = img2.pixels@;
    proof {
        img1.lemma_nonempty();
    }
    let n = img1.pixels.len();
    let mut sum: u64 = 0;
    let mut i: usize = 0;
    while i < n
        invariant
            i <= n,
            n == a.len(),
            n == b.len(),
            n <= u32::MAX,
            a == img1.pixels@,
            b == img2.pixels@,
            sum == squared_error_sum(a.subrange(0, i as int), b.subrange(0, i as int)),
        decreases n - i,
    {
        let x = img1.pixels[i];
        let y = img2.pixels[i];
        let d: u64 = if x >= y {
            (x - y) as u64
        } else {
            (y - x) as u64
        };
        proof {
            let pa = a.subrange(0, i as int);
            let pb = b.subrange(0, i as int);
            assert(a.subrange(0, i + 1).drop_last() =~= pa);
            assert(b.subrange(0, i + 1).drop_last() =~= pb);
            lemma_squared_error_bounded(pa, pb);
            assert(d * d == (x - y) * (x - y)) by (nonlinear_arith)
                requires
                    d == x - y || d == y - x,
            ;
            assert(d * d <= 65025) by (nonlinear_arith)
                requires
                    d <= 255,
            ;
            assert(65025 * i <= 65025 * 0xffff_ffffu64) by (nonlinear_arith)
                requires
                    i <= 0xffff_ffffu64,
            ;
        }
        sum = sum + d * d;
        i = i + 1;
    }
    proof {
        assert(a.subrange(0, n as int) =~= a);
        assert(b.subrange(0, n as int) =~= b);
        if a == b {
            lemma_self_comparison_exact(a);
        }
    }
    Ok(ImgComparison { pixel_count: n as u32, squared_error_sum: sum })
}

} // verus!
