use vstd::prelude::*;

use crate::buffer::{is_flat, PixelBuffer};

verus! {

/// Samples below this intensity count as dark: one standard deviation
/// (255 / 6) above black, for a mid-gray Gaussian distribution of samples.
pub const DARK_LIMIT: u8 = 43;

/// Samples above this intensity count as bright: `255 - DARK_LIMIT`.
pub const BRIGHT_LIMIT: u8 = 212;

/// The number of samples in `px` equal to `v`.
pub open spec fn count_value(px: Seq<u8>, v: int) -> nat
    decreases px.len(),
{
    if px.len() == 0 {
        0
    } else {
        count_value(px.drop_last(), v) + if px.last() == v {
            1nat
        } else {
            0nat
        }
    }
}

/// The number of samples in `px` at most `v`.
pub open spec fn count_at_most(px: Seq<u8>, v: int) -> nat
    decreases px.len(),
{
    if px.len() == 0 {
        0
    } else {
        count_at_most(px.drop_last(), v) + if px.last() <= v {
            1nat
        } else {
            0nat
        }
    }
}

/// The sum of all samples in `px`.
pub open spec fn pixel_sum(px: Seq<u8>) -> int
    decreases px.len(),
{
    if px.len() == 0 {
        0
    } else {
        pixel_sum(px.drop_last()) + px.last()
    }
}

/// `sum(v * count(v))` over the buckets `v < k` of the histogram of `px`.
pub open spec fn weighted_count(px: Seq<u8>, k: int) -> int
    decreases k,
{
    if k <= 0 {
        0
    } else {
        weighted_count(px, k - 1) + (k - 1) * count_value(px, k - 1)
    }
}

/// `a / n` rounded to the nearest integer, halves rounded up.
pub open spec fn rounded_quotient(a: int, n: int) -> int {
    (2 * a + n) / (2 * n)
}

/// The mean intensity: the weighted average of the histogram, rounded.
pub open spec fn mean_intensity_of(px: Seq<u8>) -> int {
    rounded_quotient(weighted_count(px, 256), px.len() as int)
}

/// Bucket `v` is populated and holds, with the buckets below it, at least
/// `target` samples.
pub open spec fn reaches(px: Seq<u8>, target: int, v: int) -> bool {
    count_value(px, v) > 0 && count_at_most(px, v) >= target
}

/// The first bucket at or above `v` that reaches `target`; 256 if none does.
pub open spec fn first_reaching_from(px: Seq<u8>, target: int, v: int) -> int
    decreases 256 - v,
{
    if v >= 256 {
        256
    } else if reaches(px, target, v) {
        v
    } else {
        first_reaching_from(px, target, v + 1)
    }
}

/// The first bucket whose cumulative count reaches `target`.
pub open spec fn quantile_bucket(px: Seq<u8>, target: int) -> int {
    first_reaching_from(px, target, 0)
}

/// The bucket of the first quartile: cumulative count at least `n / 4`.
pub open spec fn first_quartile_of(px: Seq<u8>) -> int {
    quantile_bucket(px, px.len() as int / 4)
}

/// The bucket of the third quartile: cumulative count at least `3n / 4`.
pub open spec fn third_quartile_of(px: Seq<u8>) -> int {
    quantile_bucket(px, 3 * px.len() as int / 4)
}

/// The number of samples below `DARK_LIMIT`.
pub open spec fn dark_count(px: Seq<u8>) -> int {
    count_at_most(px, DARK_LIMIT - 1) as int
}

/// The number of samples above `BRIGHT_LIMIT`.
pub open spec fn bright_count(px: Seq<u8>) -> int {
    px.len() - count_at_most(px, BRIGHT_LIMIT as int)
}

/// The count of the nearest populated bucket below `v`; 0 if there is none.
pub open spec fn previous_populated(px: Seq<u8>, v: int) -> nat
    decreases v,
{
    if v <= 0 {
        0
    } else if count_value(px, v - 1) > 0 {
        count_value(px, v - 1)
    } else {
        previous_populated(px, v - 1)
    }
}

/// Bucket `v` is populated and exceeds the previous populated bucket by more
/// than a tenth of all samples.
pub open spec fn is_spike(px: Seq<u8>, v: int) -> bool {
    count_value(px, v) > 0 && 10 * (count_value(px, v) - previous_populated(px, v)) > px.len()
}

/// The number of spikes among the buckets below `k`.
pub open spec fn spikes_below(px: Seq<u8>, k: int) -> nat
    decreases k,
{
    if k <= 0 {
        0
    } else {
        spikes_below(px, k - 1) + if is_spike(px, k - 1) {
            1nat
        } else {
            0nat
        }
    }
}

/// The number of spikes in the whole histogram.
pub open spec fn spike_count(px: Seq<u8>) -> int {
    spikes_below(px, 256) as int
}

/// Counting the samples at most `v` adds the samples equal to `v` to those
/// at most `v - 1`.
pub proof fn lemma_count_at_most_step(px: Seq<u8>, v: int)
    ensures
        count_at_most(px, v) == count_at_most(px, v - 1) + count_value(px, v),
    decreases px.len(),
{
    if px.len() > 0 {
        lemma_count_at_most_step(px.drop_last(), v);
    }
}

/// No sample is below 0, and every sample is at most 255.
pub proof fn lemma_count_at_most_bounds(px: Seq<u8>, v: int)
    ensures
        count_at_most(px, v) <= px.len(),
        v < 0 ==> count_at_most(px, v) == 0,
        v >= 255 ==> count_at_most(px, v) == px.len(),
    decreases px.len(),
{
    if px.len() > 0 {
        lemma_count_at_most_bounds(px.drop_last(), v);
    }
}

/// A populated bucket at or above `v` that holds the target exists, so the
/// search from `v` ends on a bucket.
proof fn lemma_quantile_found(px: Seq<u8>, target: int, v: int)
    requires
        0 <= v <= 256,
        target <= px.len(),
        count_at_most(px, v - 1) < px.len(),
    ensures
        v <= first_reaching_from(px, target, v) < 256,
        reaches(px, target, first_reaching_from(px, target, v)),
    decreases 256 - v,
{
    lemma_count_at_most_bounds(px, v - 1);
    if v < 256 && !reaches(px, target, v) {
        lemma_count_at_most_step(px, v);
        lemma_count_at_most_bounds(px, v);
        lemma_quantile_found(px, target, v + 1);
    }
}

/// The search result never lies below its start, and a smaller target is
/// reached no later than a larger one.
pub proof fn lemma_quantile_monotone(px: Seq<u8>, t1: int, t2: int, v: int)
    requires
        t1 <= t2,
    ensures
        first_reaching_from(px, t1, v) <= first_reaching_from(px, t2, v),
        v <= 256 ==> v <= first_reaching_from(px, t1, v),
    decreases 256 - v,
{
    if v < 256 {
        lemma_quantile_monotone(px, t1, t2, v + 1);
    }
}

/// Appending the last sample to the rest adds it to the buckets above it.
proof fn lemma_weighted_count_last(px: Seq<u8>, k: int)
    requires
        px.len() > 0,
    ensures
        weighted_count(px, k) == weighted_count(px.drop_last(), k) + if px.last() < k {
            px.last() as int
        } else {
            0
        },
    decreases k,
{
    if k > 0 {
        lemma_weighted_count_last(px, k - 1);
        let q = px.drop_last();
        let a = count_value(q, k - 1) as int;
        let b: int = if px.last() == k - 1 {
            1
        } else {
            0
        };
        assert((k - 1) * (a + b) == (k - 1) * a + (k - 1) * b) by (nonlinear_arith);
    }
}

/// The mean intensity is the same whether it is taken from the histogram or
/// from the samples: `sum(v * count(v))` over the buckets equals the sum of
/// the samples, so rebuilding the histogram and averaging it gives the
/// rounded average of the samples.
pub proof fn lemma_mean_matches_samples(px: Seq<u8>)
    ensures
        weighted_count(px, 256) == pixel_sum(px),
        mean_intensity_of(px) == rounded_quotient(pixel_sum(px), px.len() as int),
    decreases px.len(),
{
    if px.len() > 0 {
        lemma_mean_matches_samples(px.drop_last());
        lemma_weighted_count_last(px, 256);
    } else {
        lemma_weighted_count_empty(px, 256);
    }
}

/// An empty frame has an empty histogram.
proof fn lemma_weighted_count_empty(px: Seq<u8>, k: int)
    requires
        px.len() == 0,
    ensures
        weighted_count(px, k) == 0,
    decreases k,
{
    if k > 0 {
        lemma_weighted_count_empty(px, k - 1);
        assert(count_value(px, k - 1) == 0);
    }
}

/// No sample lies outside `0..=255`.
proof fn lemma_count_value_range(px: Seq<u8>, v: int)
    requires
        v < 0 || v > 255,
    ensures
        count_value(px, v) == 0,
    decreases px.len(),
{
    if px.len() > 0 {
        lemma_count_value_range(px.drop_last(), v);
    }
}

/// Shifting every sample by `k` shifts every count by `k`.
proof fn lemma_shifted_counts(px: Seq<u8>, shifted: Seq<u8>, k: int, v: int)
    requires
        shifted.len() == px.len(),
        forall|i: int| 0 <= i < px.len() ==> shifted[i] == px[i] + k,
    ensures
        count_value(shifted, v) == count_value(px, v - k),
        count_at_most(shifted, v) == count_at_most(px, v - k),
    decreases px.len(),
{
    if px.len() > 0 {
        let p = px.drop_last();
        let s = shifted.drop_last();
        assert forall|i: int| 0 <= i < p.len() implies s[i] == p[i] + k by {
            assert(s[i] == shifted[i] && p[i] == px[i]);
        }
        lemma_shifted_counts(p, s, k, v);
    }
}

/// Every bucket that the search from `v` passes over fails to reach the
/// target, and a bucket where it stops reaches it.
proof fn lemma_first_reaching_minimal(px: Seq<u8>, target: int, v: int)
    requires
        0 <= v <= 256,
    ensures
        v <= first_reaching_from(px, target, v) <= 256,
        first_reaching_from(px, target, v) < 256 ==> reaches(
            px,
            target,
            first_reaching_from(px, target, v),
        ),
        forall|u: int|
            v <= u < first_reaching_from(px, target, v) ==> !#[trigger] reaches(px, target, u),
    decreases 256 - v,
{
    if v < 256 && !reaches(px, target, v) {
        lemma_first_reaching_minimal(px, target, v + 1);
    }
}

/// A bucket that reaches the target, with none below it that does, is the
/// quantile bucket.
proof fn lemma_quantile_unique(px: Seq<u8>, target: int, v: int)
    requires
        0 <= v < 256,
        reaches(px, target, v),
        forall|u: int| 0 <= u < v ==> !#[trigger] reaches(px, target, u),
    ensures
        quantile_bucket(px, target) == v,
{
    lemma_first_reaching_minimal(px, target, 0);
}

/// Shifting every sample by the same `k` without clipping moves each
/// quantile bucket by exactly `k`.
pub proof fn lemma_quantile_shift(px: Seq<u8>, shifted: Seq<u8>, k: int, target: int)
    requires
        px.len() > 0,
        target <= px.len(),
        shifted.len() == px.len(),
        forall|i: int| 0 <= i < px.len() ==> shifted[i] == px[i] + k,
    ensures
        quantile_bucket(shifted, target) == quantile_bucket(px, target) + k,
{
    lemma_count_at_most_bounds(px, -1);
    lemma_quantile_found(px, target, 0);
    lemma_first_reaching_minimal(px, target, 0);
    let q = quantile_bucket(px, target);
    lemma_shifted_counts(px, shifted, k, q + k);
    if q + k < 0 || q + k > 255 {
        lemma_count_value_range(shifted, q + k);
    }
    assert forall|u: int| 0 <= u < q + k implies !#[trigger] reaches(shifted, target, u) by {
        lemma_shifted_counts(px, shifted, k, u);
        if u - k < 0 {
            lemma_count_value_range(px, u - k);
        } else {
            assert(!reaches(px, target, u - k));
        }
    }
    lemma_quantile_unique(shifted, target, q + k);
}

/// The histogram spread `(Q3 - Q1) / 255` does not change when every sample
/// is shifted by the same `k` without clipping: the histogram keeps its
/// shape, and both quartile buckets move by `k`.
pub proof fn lemma_spread_shift_invariant(px: Seq<u8>, shifted: Seq<u8>, k: int)
    requires
        px.len() > 0,
        shifted.len() == px.len(),
        forall|i: int| 0 <= i < px.len() ==> shifted[i] == px[i] + k,
    ensures
        third_quartile_of(shifted) - first_quartile_of(shifted) == third_quartile_of(px)
            - first_quartile_of(px),
{
    lemma_quantile_shift(px, shifted, k, px.len() as int / 4);
    lemma_quantile_shift(px, shifted, k, 3 * px.len() as int / 4);
}

/// The counts of a flat frame: every sample sits in the bucket of the first.
proof fn lemma_flat_counts(px: Seq<u8>, v: int)
    requires
        px.len() > 0,
        is_flat(px),
    ensures
        count_value(px, v) == if v == px[0] {
            px.len()
        } else {
            0
        },
        count_at_most(px, v) == if v >= px[0] {
            px.len()
        } else {
            0
        },
    decreases px.len(),
{
    if px.len() > 1 {
        let q = px.drop_last();
        assert(q[0] == px[0]);
        assert forall|i: int| 0 <= i < q.len() implies #[trigger] q[i] == q[0] by {
            assert(q[i] == px[i]);
        }
        lemma_flat_counts(q, v);
    } else {
        assert(count_value(px.drop_last(), v) == 0);
        assert(count_at_most(px.drop_last(), v) == 0);
    }
    assert(px[px.len() - 1] == px[0]);
    assert(px.last() == px[0]);
}

/// A flat frame, all of whose samples equal `c`, populates the single
/// histogram bucket `c` with all its samples (so its entropy is 0), and both
/// of its quartile buckets are `c` (so its histogram spread is 0).
pub proof fn lemma_flat_frame_statistics(px: Seq<u8>)
    requires
        px.len() > 0,
        is_flat(px),
    ensures
        forall|v: int|
            0 <= v < 256 ==> #[trigger] count_value(px, v) == if v == px[0] {
                px.len()
            } else {
                0
            },
        first_quartile_of(px) == px[0],
        third_quartile_of(px) == px[0],
{
    assert forall|v: int| 0 <= v < 256 implies #[trigger] count_value(px, v) == if v == px[0] {
        px.len()
    } else {
        0
    } by {
        lemma_flat_counts(px, v);
    }
    let c = px[0] as int;
    lemma_flat_counts(px, c);
    assert forall|u: int| 0 <= u < c implies !#[trigger] reaches(px, px.len() as int / 4, u) by {
        lemma_flat_counts(px, u);
    }
    assert forall|u: int| 0 <= u < c implies !#[trigger] reaches(
        px,
        3 * px.len() as int / 4,
        u,
    ) by {
        lemma_flat_counts(px, u);
    }
    lemma_quantile_unique(px, px.len() as int / 4, c);
    lemma_quantile_unique(px, 3 * px.len() as int / 4, c);
}

/// Relies on imageproc::stats::histogram: for a one-channel image, bucket `v`
/// of its single channel counts the pixels whose sample is `v`.
#[verifier::external_body]
fn intensity_histogram(buf: &PixelBuffer) -> (r: Vec<u32>)
    requires
        buf.wf(),
    ensures
        r@.len() == 256,
        forall|v: int| 0 <= v < 256 ==> r@[v] == count_value(buf.pixels@, v),
{
    let img = image::GrayImage::from_raw(buf.width, buf.height, buf.pixels.clone()).unwrap();
    imageproc::stats::histogram(&img).channels[0].to_vec()
}

/// `hist` is the histogram of the frame `buf`.
pub open spec fn is_histogram_of(hist: Seq<u32>, buf: &PixelBuffer) -> bool {
    &&& hist.len() == 256
    &&& forall|v: int| 0 <= v < 256 ==> hist[v] == count_value(buf.pixels@, v)
}

/// The number of samples at most `v`, summed over the histogram.
fn cumulative_count(buf: &PixelBuffer, hist: &Vec<u32>, v: u8) -> (r: u32)
    requires
        buf.wf(),
        is_histogram_of(hist@, buf),
    ensures
        r == count_at_most(buf.pixels@, v as int),
{
    let ghost px = buf.pixels@;
    let mut cum: u32 = 0;
    let mut i: usize = 0;
    proof {
        lemma_count_at_most_bounds(px, -1);
    }
    while i <= v as usize
        invariant
            i <= v + 1,
            is_histogram_of(hist@, buf),
            px == buf.pixels@,
            buf.wf(),
            cum == count_at_most(px, i - 1),
        decreases v + 1 - i,
    {
        proof {
            lemma_count_at_most_step(px, i as int);
            lemma_count_at_most_bounds(px, i as int);
        }
        cum = cum + hist[i];
        i = i + 1;
    }
    cum
}

/// The first populated bucket whose cumulative count reaches `target`.
fn quantile_of(buf: &PixelBuffer, hist: &Vec<u32>, target: u32) -> (r: u8)
    requires
        buf.wf(),
        is_histogram_of(hist@, buf),
        target <= buf.pixels@.len(),
    ensures
        r == quantile_bucket(buf.pixels@, target as int),
{
    let ghost px = buf.pixels@;
    proof {
        buf.lemma_nonempty();
        lemma_count_at_most_bounds(px, -1);
        lemma_quantile_found(px, target as int, 0);
    }
    let mut cum: u32 = 0;
    let mut i: usize = 0;
    while i < 256
        invariant
            i <= 256,
            is_histogram_of(hist@, buf),
            px == buf.pixels@,
            buf.wf(),
            target <= px.len(),
            cum == count_at_most(px, i - 1),
            quantile_bucket(px, target as int) == first_reaching_from(px, target as int, i as int),
            quantile_bucket(px, target as int) < 256,
        decreases 256 - i,
    {
        proof {
            lemma_count_at_most_step(px, i as int);
            lemma_count_at_most_bounds(px, i as int);
        }
        cum = cum + hist[i];
        if hist[i] > 0 && cum >= target {
            return i as u8;
        }
        i = i + 1;
    }
    0
}

/// `sum(v * hist[v])` over all buckets, with the bound that keeps it in `u64`.
fn weighted_histogram_sum(buf: &PixelBuffer, hist: &Vec<u32>) -> (r: u64)
    requires
        buf.wf(),
        is_histogram_of(hist@, buf),
    ensures
        r == weighted_count(buf.pixels@, 256),
        r <= 255 * buf.pixels@.len(),
{
    let ghost px = buf.pixels@;
    let mut total: u64 = 0;
    let mut i: usize = 0;
    proof {
        lemma_count_at_most_bounds(px, -1);
    }
    while i < 256
        invariant
            i <= 256,
            is_histogram_of(hist@, buf),
            px == buf.pixels@,
            buf.wf(),
            total == weighted_count(px, i as int),
            total <= 255 * count_at_most(px, i - 1),
        decreases 256 - i,
    {
        proof {
            lemma_count_at_most_step(px, i as int);
            lemma_count_at_most_bounds(px, i as int);
            let c = hist@[i as int] as int;
            assert(i * c <= 255 * c) by (nonlinear_arith)
                requires
                    i < 256,
                    c >= 0,
            ;
        }
        total = total + (i as u64) * (hist[i] as u64);
        i = i + 1;
    }
    proof {
        lemma_count_at_most_bounds(px, 255);
    }
    total
}

/// The number of spike buckets, scanning upward with the last populated
/// count as the baseline.
fn count_spikes(buf: &PixelBuffer, hist: &Vec<u32>) -> (r: u32)
    requires
        buf.wf(),
        is_histogram_of(hist@, buf),
    ensures
        r == spike_count(buf.pixels@),
{
    let ghost px = buf.pixels@;
    let n = buf.pixels.len() as u64;
    let mut spikes: u32 = 0;
    let mut prev: u32 = 0;
    let mut i: usize = 0;
    while i < 256
        invariant
            i <= 256,
            is_histogram_of(hist@, buf),
            px == buf.pixels@,
            n == px.len(),
            spikes == spikes_below(px, i as int),
            spikes <= i,
            prev == previous_populated(px, i as int),
        decreases 256 - i,
    {
        let c = hist[i];
        if c > 0 {
            if c > prev && 10 * ((c - prev) as u64) > n {
                spikes = spikes + 1;
            }
            prev = c;
        }
        i = i + 1;
    }
    spikes
}

/// The largest sample of `px`; 0 for no samples.
pub open spec fn max_sample(px: Seq<u8>) -> int
    decreases px.len(),
{
    if px.len() == 0 {
        0
    } else if px.last() as int > max_sample(px.drop_last()) {
        px.last() as int
    } else {
        max_sample(px.drop_last())
    }
}

/// The smallest sample of `px`; 255 for no samples.
pub open spec fn min_sample(px: Seq<u8>) -> int
    decreases px.len(),
{
    if px.len() == 0 {
        255
    } else if (px.last() as int) < min_sample(px.drop_last()) {
        px.last() as int
    } else {
        min_sample(px.drop_last())
    }
}

/// Extremes of samples lie within `0..=255`, and for a non-empty sequence
/// the smallest is at most the largest.
proof fn lemma_extremes(px: Seq<u8>)
    ensures
        0 <= max_sample(px) <= 255,
        0 <= min_sample(px) <= 255,
        px.len() > 0 ==> min_sample(px) <= max_sample(px),
        0 <= pixel_sum(px) <= 255 * px.len(),
    decreases px.len(),
{
    if px.len() > 0 {
        lemma_extremes(px.drop_last());
    }
}

/// The average intensity of a frame, rounded down, and its contrast: the
/// largest sample minus the smallest.
pub fn mean_intensity_and_contrast(image: &PixelBuffer) -> (r: (u8, u8))
    requires
        image.wf(),
    ensures
        r.0 == pixel_sum(image.pixels@) / image.pixels@.len() as int,
        r.1 == max_sample(image.pixels@) - min_sample(image.pixels@),
{
    let ghost px = image.pixels@;
    proof {
        image.lemma_nonempty();
    }
    let n = image.pixels.len();
    let mut max_intensity: u8 = 0;
    let mut min_intensity: u8 = 255;
    let mut total: u64 = 0;
    let mut i: usize = 0;
    while i < n
        invariant
            i <= n,
            n == px.len(),
            n <= u32::MAX,
            px == image.pixels@,
            max_intensity == max_sample(px.subrange(0, i as int)),
            min_intensity == min_sample(px.subrange(0, i as int)),
            total == pixel_sum(px.subrange(0, i as int)),
        decreases n - i,
    {
        let intensity = image.pixels[i];
        proof {
            let pre = px.subrange(0, i as int);
            assert(px.subrange(0, i + 1).drop_last() =~= pre);
            lemma_extremes(pre);
            assert(255 * i <= 255 * 0xffff_ffffu64) by (nonlinear_arith)
                requires
                    i <= 0xffff_ffffu64,
            ;
        }
        total = total + intensity as u64;
        if intensity > max_intensity {
            max_intensity = intensity;
        }
        if intensity < min_intensity {
            min_intensity = intensity;
        }
        i = i + 1;
    }
    proof {
        assert(px.subrange(0, n as int) =~= px);
        lemma_extremes(px);
        assert(total as int / (n as int) <= 255) by (nonlinear_arith)
            requires
                total <= 255 * n,
                n > 0,
        ;
    }
    ((total / n as u64) as u8, max_intensity - min_intensity)
}

/// What the histogram engine reports of one frame.
#[derive(Debug)]
pub struct HistogramStats {
    /// The 256-bucket intensity histogram.
    pub histogram: Vec<u32>,
    /// The rounded weighted average of the histogram.
    pub mean_intensity: u8,
    /// First bucket whose cumulative count reaches a quarter of the samples.
    pub first_quartile: u8,
    /// First bucket whose cumulative count reaches three quarters of them.
    pub third_quartile: u8,
    /// Samples below `DARK_LIMIT`.
    pub dark_pixel_count: u32,
    /// Samples above `BRIGHT_LIMIT`.
    pub bright_pixel_count: u32,
    /// Buckets that rise above the previous populated bucket by more than a
    /// tenth of all samples.
    pub hist_spike_count: u32,
}

impl HistogramStats {
    /// These are the statistics of the samples `px`.
    pub open spec fn describes(&self, px: Seq<u8>) -> bool {
        &&& self.histogram@.len() == 256
        &&& forall|v: int| 0 <= v < 256 ==> self.histogram@[v] == count_value(px, v)
        &&& self.mean_intensity == mean_intensity_of(px)
        &&& self.first_quartile == first_quartile_of(px)
        &&& self.third_quartile == third_quartile_of(px)
        &&& self.first_quartile <= self.third_quartile
        &&& self.dark_pixel_count == dark_count(px)
        &&& self.bright_pixel_count == bright_count(px)
        &&& self.hist_spike_count == spike_count(px)
    }
}

/// Builds the intensity histogram of a frame and derives its mean, quartile
/// buckets, dark and bright counts and spike count.
pub fn histogram_stats(buf: &PixelBuffer) -> (r: HistogramStats)
    requires
        buf.wf(),
    ensures
        r.describes(buf.pixels@),
{
    let ghost px = buf.pixels@;
    proof {
        buf.lemma_nonempty();
    }
    let hist = intensity_histogram(buf);
    let n = buf.pixels.len() as u32;
    let total = weighted_histogram_sum(buf, &hist);
    let mean = (2 * total + n as u64) / (2 * n as u64);
    assert(mean <= 255) by (nonlinear_arith)
        requires
            total <= 255 * n,
            n > 0,
            mean == (2 * total + n) / (2 * n),
    ;
    let q1 = quantile_of(buf, &hist, n / 4);
    let q3 = quantile_of(buf, &hist, (3 * (n as u64) / 4) as u32);
    proof {
        lemma_quantile_monotone(px, n as int / 4, 3 * n as int / 4, 0);
    }
    let below_dark = cumulative_count(buf, &hist, DARK_LIMIT - 1);
    let up_to_bright = cumulative_count(buf, &hist, BRIGHT_LIMIT);
    proof {
        lemma_count_at_most_bounds(px, BRIGHT_LIMIT as int);
    }
    let spikes = count_spikes(buf, &hist);
    HistogramStats {
        histogram: hist,
        mean_intensity: mean as u8,
        first_quartile: q1,
        third_quartile: q3,
        dark_pixel_count: below_dark,
        bright_pixel_count: n - up_to_bright,
        hist_spike_count: spikes,
    }
}

} // verus!
