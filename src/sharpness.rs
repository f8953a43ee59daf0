use vstd::prelude::*;

use crate::buffer::{is_flat, lemma_index_as_offset, lemma_offset_in_range, PixelBuffer};
use crate::histogram::pixel_sum;

verus! {

/// Kernel entries that keep a 3x3 correlation of 8-bit samples inside `i32`.
pub const KERNEL_LIMIT: i32 = 100_000;

/// `i` moved into `0..n`: the nearest edge sample stands for samples beyond
/// the border.
pub open spec fn clamp_index(i: int, n: int) -> int {
    if i < 0 {
        0
    } else if i >= n {
        n - 1
    } else {
        i
    }
}

/// `v` clamped to the range of `u8`.
pub open spec fn clamp_sample(v: int) -> u8 {
    if v < 0 {
        0
    } else if v > 255 {
        255
    } else {
        v as u8
    }
}

/// One term of the correlation at `(x, y)`: kernel entry `(kx, ky)` times
/// the sample under it, the frame padded by continuity.
pub open spec fn tap(buf: &PixelBuffer, kernel: Seq<i32>, x: int, y: int, kx: int, ky: int) -> int {
    kernel[3 * ky + kx] * buf.at(
        clamp_index(x + kx - 1, buf.width as int),
        clamp_index(y + ky - 1, buf.height as int),
    ) as int
}

/// The correlation of the frame with a row-major 3x3 kernel centred on
/// `(x, y)`.
pub open spec fn correlation_at(buf: &PixelBuffer, kernel: Seq<i32>, x: int, y: int) -> int {
    tap(buf, kernel, x, y, 0, 0) + tap(buf, kernel, x, y, 1, 0) + tap(buf, kernel, x, y, 2, 0)
        + tap(buf, kernel, x, y, 0, 1) + tap(buf, kernel, x, y, 1, 1) + tap(buf, kernel, x, y, 2, 1)
        + tap(buf, kernel, x, y, 0, 2) + tap(buf, kernel, x, y, 1, 2) + tap(buf, kernel, x, y, 2, 2)
}

/// `out` is the frame `buf` correlated with `kernel`, each result clamped to
/// `0..=255`.
pub open spec fn is_correlation(out: &PixelBuffer, buf: &PixelBuffer, kernel: Seq<i32>) -> bool {
    &&& out.wf()
    &&& out.width == buf.width
    &&& out.height == buf.height
    &&& forall|x: int, y: int|
        0 <= x < buf.width && 0 <= y < buf.height ==> #[trigger] out.at(x, y) == clamp_sample(
            correlation_at(buf, kernel, x, y),
        )
}

/// Relies on imageproc::filter::filter_clamped: the 2d correlation of the
/// frame with a row-major 3x3 kernel, accumulated in `i32` with coordinates
/// clamped to the frame (padding by continuity), each result clamped to
/// `0..=255`.
#[verifier::external_body]
fn correlate3x3(buf: &PixelBuffer, kernel: &[i32; 9]) -> (r: PixelBuffer)
    requires
        buf.wf(),
        forall|i: int| 0 <= i < 9 ==> -KERNEL_LIMIT <= #[trigger] kernel@[i] <= KERNEL_LIMIT,
    ensures
        is_correlation(&r, buf, kernel@),
{
    let img = image::GrayImage::from_raw(buf.width, buf.height, buf.pixels.clone()).unwrap();
    let out: image::GrayImage = imageproc::filter::filter_clamped::<image::Luma<u8>, i32, u8>(
        &img,
        imageproc::kernel::Kernel::new(kernel, 3, 3),
    );
    PixelBuffer { width: out.width(), height: out.height(), pixels: out.into_raw() }
}

/// The sum of the squares of the samples in `s`.
pub open spec fn square_sum(s: Seq<u8>) -> int
    decreases s.len(),
{
    if s.len() == 0 {
        0
    } else {
        square_sum(s.drop_last()) + s.last() * s.last()
    }
}

/// `n * sum(x^2) - (sum x)^2`: the population variance of `s` times `n^2`.
pub open spec fn variance_numerator(s: Seq<u8>) -> int {
    s.len() * square_sum(s) - pixel_sum(s) * pixel_sum(s)
}

/// A population variance held exactly, as `numerator / denominator`.
#[derive(Debug, Clone, Copy, PartialEq, Eq, Structural)]
pub struct Variance {
    pub numerator: u128,
    pub denominator: u128,
}

impl Variance {
    /// The variance of `s`, as `variance_numerator(s) / n^2`.
    pub open spec fn of(&self, s: Seq<u8>) -> bool {
        &&& self.numerator == variance_numerator(s)
        &&& self.denominator == s.len() * s.len()
    }

    /// The variance of nothing measured: `0 / 1`.
    pub open spec fn zero_spec() -> Variance {
        Variance { numerator: 0, denominator: 1 }
    }

    /// The variance of nothing measured: `0 / 1`.
    pub fn zero() -> (r: Variance)
        ensures
            r == Variance::zero_spec(),
    {
        Variance { numerator: 0, denominator: 1 }
    }
}

/// `sum((x - y)^2) >= 0`, written out as `Q - 2yS + ny^2`.
proof fn lemma_squared_deviation(s: Seq<u8>, y: int)
    ensures
        square_sum(s) - 2 * y * pixel_sum(s) + s.len() * y * y >= 0,
    decreases s.len(),
{
    if s.len() > 0 {
        let q = s.drop_last();
        let z = s.last() as int;
        lemma_squared_deviation(q, y);
        let a = square_sum(q);
        let b = pixel_sum(q);
        let n = q.len() as int;
        assert((a + z * z) - 2 * y * (b + z) + (n + 1) * y * y == (a - 2 * y * b + n * y * y) + (z
            - y) * (z - y)) by (nonlinear_arith);
        assert((z - y) * (z - y) >= 0) by (nonlinear_arith);
    }
}

/// The variance numerator is never negative: `n * sum(x^2) >= (sum x)^2`.
pub proof fn lemma_variance_nonnegative(s: Seq<u8>)
    ensures
        variance_numerator(s) >= 0,
    decreases s.len(),
{
    if s.len() > 0 {
        let q = s.drop_last();
        let y = s.last() as int;
        lemma_variance_nonnegative(q);
        lemma_squared_deviation(q, y);
        let a = square_sum(q);
        let b = pixel_sum(q);
        let n = q.len() as int;
        assert((n + 1) * (a + y * y) - (b + y) * (b + y) == (n * a - b * b) + (a - 2 * y * b + n * y
            * y)) by (nonlinear_arith);
    }
}

/// Sums of samples and of their squares stay within `255` and `255^2` per
/// sample.
proof fn lemma_sums_bounded(s: Seq<u8>)
    ensures
        0 <= pixel_sum(s) <= 255 * s.len(),
        0 <= square_sum(s) <= 65025 * s.len(),
    decreases s.len(),
{
    if s.len() > 0 {
        lemma_sums_bounded(s.drop_last());
        let z = s.last() as int;
        assert(0 <= z * z <= 65025) by (nonlinear_arith)
            requires
                0 <= z <= 255,
        ;
    }
}

/// The exact population variance of the samples of a frame.
fn sample_variance(buf: &PixelBuffer) -> (r: Variance)
    requires
        buf.wf(),
    ensures
        r.of(buf.pixels@),
{
    let ghost px = buf.pixels@;
    proof {
        buf.lemma_nonempty();
    }
    let n = buf.pixels.len();
    let mut sum: u64 = 0;
    let mut squares: u64 = 0;
    let mut i: usize = 0;
    while i < n
        invariant
            i <= n,
            n == px.len(),
            px == buf.pixels@,
            n <= u32::MAX,
            sum == pixel_sum(px.subrange(0, i as int)),
            squares == square_sum(px.subrange(0, i as int)),
        decreases n - i,
    {
        let v = buf.pixels[i] as u64;
        proof {
            let pre = px.subrange(0, i as int);
            let post = px.subrange(0, i + 1);
            assert(post.drop_last() =~= pre);
            lemma_sums_bounded(pre);
            assert(i * 65025 <= 65025 * 0xffff_ffffu64) by (nonlinear_arith)
                requires
                    i <= 0xffff_ffffu64,
            ;
            assert(v * v <= 65025) by (nonlinear_arith)
                requires
                    v <= 255,
            ;
        }
        sum = sum + v;
        squares = squares + v * v;
        i = i + 1;
    }
    proof {
        assert(px.subrange(0, n as int) =~= px);
        lemma_sums_bounded(px);
        lemma_variance_nonnegative(px);
        let nn = n as int;
        assert(nn * squares <= 0xffff_ffff * (65025 * 0xffff_ffff)) by (nonlinear_arith)
            requires
                nn <= 0xffff_ffff,
                squares <= 65025 * nn,
        ;
        assert(sum * sum <= (255 * 0xffff_ffff) * (255 * 0xffff_ffff)) by (nonlinear_arith)
            requires
                0 <= sum <= 255 * nn,
                nn <= 0xffff_ffff,
        ;
        assert(nn * nn <= 0xffff_ffff * 0xffff_ffff) by (nonlinear_arith)
            requires
                0 <= nn <= 0xffff_ffff,
        ;
    }
    let numerator = (n as u128) * (squares as u128) - (sum as u128) * (sum as u128);
    Variance { numerator, denominator: (n as u128) * (n as u128) }
}

/// The Laplacian kernel: zero-sum and edge-detecting.
pub open spec fn laplacian_kernel() -> Seq<i32> {
    seq![0i32, -1i32, 0i32, -1i32, 4i32, -1i32, 0i32, -1i32, 0i32]
}

/// The Laplacian response of every pixel, clamped to 8 bits, row-major.
pub open spec fn laplacian_response(img: &PixelBuffer) -> Seq<u8> {
    Seq::new(
        img.area(),
        |i: int|
            clamp_sample(
                correlation_at(img, laplacian_kernel(), i % img.width as int, i / img.width as int),
            ),
    )
}

/// A filtered frame holds, row-major, the correlation at each pixel.
proof fn lemma_correlation_samples(out: &PixelBuffer, img: &PixelBuffer)
    requires
        img.wf(),
        is_correlation(out, img, laplacian_kernel()),
    ensures
        out.pixels@ == laplacian_response(img),
{
    let w = img.width as int;
    let h = img.height as int;
    assert forall|i: int| 0 <= i < out.pixels@.len() implies out.pixels@[i] == laplacian_response(
        img,
    )[i] by {
        lemma_index_as_offset(w, h, i);
        assert(out.at(i % w, i / w) == out.pixels@[i]);
    }
    assert(out.pixels@ =~= laplacian_response(img));
}

/// Filters the frame with the Laplacian kernel (results clamped to 8 bits)
/// and returns the filtered frame with the population variance of its
/// samples: higher for sharper frames, near zero for blurred ones.
pub fn laplacian_variance(image: &PixelBuffer) -> (r: (PixelBuffer, Variance))
    requires
        image.wf(),
    ensures
        is_correlation(&r.0, image, laplacian_kernel()),
        r.0.pixels@ == laplacian_response(image),
        r.1.of(laplacian_response(image)),
        is_flat(image.pixels@) ==> r.1.numerator == 0,
{
    let kernel: [i32; 9] = [0, -1, 0, -1, 4, -1, 0, -1, 0];
    assert(kernel@ =~= laplacian_kernel());
    let filtered = correlate3x3(image, &kernel);
    let score = sample_variance(&filtered);
    proof {
        lemma_correlation_samples(&filtered, image);
        if is_flat(image.pixels@) {
            lemma_flat_filters_to_zero(image, &filtered);
        }
    }
    (filtered, score)
}

/// The sharpness score alone: the variance of the Laplacian response.
pub fn calculate_laplacian_variance(image: &PixelBuffer) -> (r: Variance)
    requires
        image.wf(),
    ensures
        r.of(laplacian_response(image)),
        is_flat(image.pixels@) ==> r.numerator == 0,
{
    let (filtered, score) = laplacian_variance(image);
    score
}

/// A flat frame has a Laplacian response of zero everywhere, hence no
/// variance.
proof fn lemma_flat_filters_to_zero(image: &PixelBuffer, out: &PixelBuffer)
    requires
        image.wf(),
        is_flat(image.pixels@),
        is_correlation(out, image, laplacian_kernel()),
    ensures
        variance_numerator(out.pixels@) == 0,
{
    let w = image.width as int;
    let h = image.height as int;
    image.lemma_nonempty();
    let c = image.pixels@[0];
    assert forall|i: int| 0 <= i < out.pixels@.len() implies out.pixels@[i] == 0 by {
        let x = i % w;
        let y = i / w;
        assert(0 <= x < w && 0 <= y < h && i == y * w + x) by (nonlinear_arith)
            requires
                0 <= i < w * h,
                w > 0,
                x == i % w,
                y == i / w,
        ;
        let k = laplacian_kernel();
        assert(k[1] == -1 && k[3] == -1 && k[4] == 4 && k[5] == -1 && k[7] == -1 && k[0] == 0
            && k[2] == 0 && k[6] == 0 && k[8] == 0);
        let ci = c as int;
        lemma_flat_tap(image, k, x, y, 0, 0);
        assert((k[0] as int) * ci == 0 * ci) by (nonlinear_arith)
            requires
                k[0] == 0,
        ;
        lemma_flat_tap(image, k, x, y, 1, 0);
        assert((k[1] as int) * ci == -1 * ci) by (nonlinear_arith)
            requires
                k[1] == -1,
        ;
        lemma_flat_tap(image, k, x, y, 2, 0);
        assert((k[2] as int) * ci == 0 * ci) by (nonlinear_arith)
            requires
                k[2] == 0,
        ;
        lemma_flat_tap(image, k, x, y, 0, 1);
        assert((k[3] as int) * ci == -1 * ci) by (nonlinear_arith)
            requires
                k[3] == -1,
        ;
        lemma_flat_tap(image, k, x, y, 1, 1);
        assert((k[4] as int) * ci == 4 * ci) by (nonlinear_arith)
            requires
                k[4] == 4,
        ;
        lemma_flat_tap(image, k, x, y, 2, 1);
        assert((k[5] as int) * ci == -1 * ci) by (nonlinear_arith)
            requires
                k[5] == -1,
        ;
        lemma_flat_tap(image, k, x, y, 0, 2);
        assert((k[6] as int) * ci == 0 * ci) by (nonlinear_arith)
            requires
                k[6] == 0,
        ;
        lemma_flat_tap(image, k, x, y, 1, 2);
        assert((k[7] as int) * ci == -1 * ci) by (nonlinear_arith)
            requires
                k[7] == -1,
        ;
        lemma_flat_tap(image, k, x, y, 2, 2);
        assert((k[8] as int) * ci == 0 * ci) by (nonlinear_arith)
            requires
                k[8] == 0,
        ;
        assert(correlation_at(image, k, x, y) == 0);
        assert(out.at(x, y) == 0);
    }
    lemma_zero_sums(out.pixels@);
}

/// In a flat frame each tap is the kernel entry times the one sample value.
proof fn lemma_flat_tap(image: &PixelBuffer, k: Seq<i32>, x: int, y: int, kx: int, ky: int)
    requires
        image.wf(),
        is_flat(image.pixels@),
        0 <= x < image.width,
        0 <= y < image.height,
        0 <= kx < 3,
        0 <= ky < 3,
    ensures
        tap(image, k, x, y, kx, ky) == (k[3 * ky + kx] as int) * (image.pixels@[0] as int),
{
    let w = image.width as int;
    let h = image.height as int;
    let cx = clamp_index(x + kx - 1, w);
    let cy = clamp_index(y + ky - 1, h);
    lemma_offset_in_range(w, h, cx, cy);
    assert(image.at(cx, cy) == image.pixels@[0]);
}

/// Samples that are all zero have zero sums.
proof fn lemma_zero_sums(s: Seq<u8>)
    requires
        forall|i: int| 0 <= i < s.len() ==> s[i] == 0,
    ensures
        pixel_sum(s) == 0,
        square_sum(s) == 0,
    decreases s.len(),
{
    if s.len() > 0 {
        lemma_zero_sums(s.drop_last());
    }
}

} // verus!
