use vstd::prelude::*;

use crate::buffer::{is_flat, PixelBuffer};
use crate::corners::{
    corner_count_of,
    count_corners_fast12,
    count_corners_fast9,
    FastVariant,
    DEFAULT_CORNER_THRESHOLD,
};
use crate::histogram::{
    bright_count,
    count_value,
    dark_count,
    first_quartile_of,
    histogram_stats,
    lemma_flat_frame_statistics,
    mean_intensity_of,
    spike_count,
    third_quartile_of,
};
use crate::sharpness::{laplacian_response, laplacian_variance, Variance};

verus! {

/// Which metrics an analysis computes.
#[derive(Debug, Clone, Copy, PartialEq, Eq, Structural)]
pub enum AnalysisMode {
    /// Sharpness, every histogram statistic with the histogram itself (the
    /// source of the flatness), and both corner counts.
    Full,
    /// For scanning every frame: the histogram statistics but not the
    /// histogram, and FAST-12 corners only; sharpness stays zero.
    Fast,
}

/// The no-reference quality attributes of one grayscale frame.
#[derive(Debug)]
pub struct MonoImageQAttributes {
    pub width: u32,
    pub height: u32,
    /// Variance of the Laplacian response; `0 / 1` when not measured.
    pub sharpness: Variance,
    /// The rounded weighted average of the histogram.
    pub mean_intensity: u8,
    /// The quartile buckets: the histogram spread is
    /// `(third_quartile - first_quartile) / 255`, within `0..=1`.
    pub first_quartile: u8,
    pub third_quartile: u8,
    /// The 256-bucket histogram over which the flatness (Shannon entropy in
    /// bits, within `0..=8`) is taken; empty, for a flatness of 0, when the
    /// flatness is not measured.
    pub histogram: Vec<u32>,
    /// Samples below `DARK_LIMIT`; the dark share is this over the pixel
    /// count.
    pub dark_pixel_count: u32,
    /// Samples above `BRIGHT_LIMIT`; the bright share is this over the
    /// pixel count.
    pub bright_pixel_count: u32,
    /// Histogram buckets that rise above the previous populated bucket by
    /// more than a tenth of all samples.
    pub hist_spike_count: u32,
    /// FAST-12 corners at the default threshold.
    pub corner_count_f12: u32,
    /// FAST-9 corners at the default threshold.
    pub corner_count_f9: u32,
}

impl MonoImageQAttributes {
    /// A record for a frame of the given dimensions with nothing measured.
    pub fn new(width: u32, height: u32) -> (r: MonoImageQAttributes)
        ensures
            r.width == width,
            r.height == height,
            r.sharpness == Variance::zero_spec(),
            r.mean_intensity == 0,
            r.first_quartile == 0,
            r.third_quartile == 0,
            r.histogram@.len() == 0,
            r.dark_pixel_count == 0,
            r.bright_pixel_count == 0,
            r.hist_spike_count == 0,
            r.corner_count_f12 == 0,
            r.corner_count_f9 == 0,
    {
        MonoImageQAttributes {
            width,
            height,
            sharpness: Variance::zero(),
            mean_intensity: 0,
            first_quartile: 0,
            third_quartile: 0,
            histogram: Vec::new(),
            dark_pixel_count: 0,
            bright_pixel_count: 0,
            hist_spike_count: 0,
            corner_count_f12: 0,
            corner_count_f9: 0,
        }
    }

    /// The histogram statistics of this record are those of `px`.
    pub open spec fn has_histogram_statistics(&self, px: Seq<u8>) -> bool {
        &&& self.mean_intensity == mean_intensity_of(px)
        &&& self.first_quartile == first_quartile_of(px)
        &&& self.third_quartile == third_quartile_of(px)
        &&& self.first_quartile <= self.third_quartile
        &&& self.dark_pixel_count == dark_count(px)
        &&& self.bright_pixel_count == bright_count(px)
        &&& self.hist_spike_count == spike_count(px)
    }

    /// This record holds the histogram of `px`.
    pub open spec fn has_histogram(&self, px: Seq<u8>) -> bool {
        &&& self.histogram@.len() == 256
        &&& forall|v: int| 0 <= v < 256 ==> self.histogram@[v] == count_value(px, v)
    }

    /// This record is what `analyze` owes for `img` in `mode`.
    pub open spec fn is_analysis_of(&self, img: &PixelBuffer, mode: AnalysisMode) -> bool {
        &&& self.width == img.width
        &&& self.height == img.height
        &&& self.has_histogram_statistics(img.pixels@)
        &&& self.corner_count_f12 == corner_count_of(
            img,
            DEFAULT_CORNER_THRESHOLD,
            FastVariant::Twelve,
        )
        &&& match mode {
            AnalysisMode::Full => {
                &&& self.has_histogram(img.pixels@)
                &&& self.sharpness.of(laplacian_response(img))
                &&& self.corner_count_f9 == corner_count_of(
                    img,
                    DEFAULT_CORNER_THRESHOLD,
                    FastVariant::Nine,
                )
            },
            AnalysisMode::Fast => {
                &&& self.histogram@.len() == 0
                &&& self.sharpness == Variance::zero_spec()
                &&& self.corner_count_f9 == 0
            },
        }
    }
}

/// Fills in the mean intensity, the quartile buckets of the spread and the
/// histogram of the flatness; the other fields are left as they were.
pub fn hist_mean_spread_flatness(image: &PixelBuffer, qattrs: &mut MonoImageQAttributes)
    requires
        image.wf(),
    ensures
        final(qattrs).mean_intensity == mean_intensity_of(image.pixels@),
        final(qattrs).first_quartile == first_quartile_of(image.pixels@),
        final(qattrs).third_quartile == third_quartile_of(image.pixels@),
        final(qattrs).first_quartile <= final(qattrs).third_quartile,
        final(qattrs).has_histogram(image.pixels@),
        final(qattrs).width == old(qattrs).width,
        final(qattrs).height == old(qattrs).height,
        final(qattrs).sharpness == old(qattrs).sharpness,
        final(qattrs).dark_pixel_count == old(qattrs).dark_pixel_count,
        final(qattrs).bright_pixel_count == old(qattrs).bright_pixel_count,
        final(qattrs).hist_spike_count == old(qattrs).hist_spike_count,
        final(qattrs).corner_count_f12 == old(qattrs).corner_count_f12,
        final(qattrs).corner_count_f9 == old(qattrs).corner_count_f9,
{
    let stats = histogram_stats(image);
    qattrs.mean_intensity = stats.mean_intensity;
    qattrs.first_quartile = stats.first_quartile;
    qattrs.third_quartile = stats.third_quartile;
    qattrs.histogram = stats.histogram;
}

/// Fills in every histogram statistic but the histogram itself: mean
/// intensity, quartile buckets, dark and bright counts and spike count; the
/// other fields are left as they were.
pub fn fast_histogram_analysis(image: &PixelBuffer, qattrs: &mut MonoImageQAttributes)
    requires
        image.wf(),
    ensures
        final(qattrs).has_histogram_statistics(image.pixels@),
        final(qattrs).width == old(qattrs).width,
        final(qattrs).height == old(qattrs).height,
        final(qattrs).sharpness == old(qattrs).sharpness,
        final(qattrs).histogram@ == old(qattrs).histogram@,
        final(qattrs).corner_count_f12 == old(qattrs).corner_count_f12,
        final(qattrs).corner_count_f9 == old(qattrs).corner_count_f9,
{
    let stats = histogram_stats(image);
    qattrs.mean_intensity = stats.mean_intensity;
    qattrs.first_quartile = stats.first_quartile;
    qattrs.third_quartile = stats.third_quartile;
    qattrs.dark_pixel_count = stats.dark_pixel_count;
    qattrs.bright_pixel_count = stats.bright_pixel_count;
    qattrs.hist_spike_count = stats.hist_spike_count;
}

/// A flat frame shows no sharpness, no histogram spread and no corners.
pub open spec fn flat_frame_attributes(q: &MonoImageQAttributes, img: &PixelBuffer) -> bool {
    &&& q.sharpness.numerator == 0
    &&& q.first_quartile == img.pixels@[0]
    &&& q.third_quartile == img.pixels@[0]
    &&& q.corner_count_f12 == 0
    &&& q.corner_count_f9 == 0
}

/// Measures the no-reference quality attributes of a frame in the given
/// mode. The result depends on the frame alone.
pub fn analyze(img: &PixelBuffer, mode: AnalysisMode) -> (r: MonoImageQAttributes)
    requires
        img.wf(),
    ensures
        r.is_analysis_of(img, mode),
        is_flat(img.pixels@) ==> flat_frame_attributes(&r, img),
{
    proof {
        img.lemma_nonempty();
        if is_flat(img.pixels@) {
            lemma_flat_frame_statistics(img.pixels@);
        }
    }
    let mut qattrs = MonoImageQAttributes::new(img.width, img.height);
    let stats = histogram_stats(img);
    qattrs.mean_intensity = stats.mean_intensity;
    qattrs.first_quartile = stats.first_quartile;
    qattrs.third_quartile = stats.third_quartile;
    qattrs.dark_pixel_count = stats.dark_pixel_count;
    qattrs.bright_pixel_count = stats.bright_pixel_count;
    qattrs.hist_spike_count = stats.hist_spike_count;
    qattrs.corner_count_f12 = count_corners_fast12(img);
    match mode {
        AnalysisMode::Full => {
            let (_filtered, sharpness) = laplacian_variance(img);
            qattrs.sharpness = sharpness;
            qattrs.histogram = stats.histogram;
            qattrs.corner_count_f9 = count_corners_fast9(img);
        },
        AnalysisMode::Fast => {},
    }
    qattrs
}

/// Measures every quality attribute of a frame.
pub fn analyze_image(img: &PixelBuffer) -> (r: MonoImageQAttributes)
    requires
        img.wf(),
    ensures
        r.is_analysis_of(img, AnalysisMode::Full),
        is_flat(img.pixels@) ==> flat_frame_attributes(&r, img),
{
    analyze(img, AnalysisMode::Full)
}

/// Measures the key quality attributes of a frame, fast enough for every
/// frame of a video.
pub fn fast_analyze_image(img: &PixelBuffer) -> (r: MonoImageQAttributes)
    requires
        img.wf(),
    ensures
        r.is_analysis_of(img, AnalysisMode::Fast),
        is_flat(img.pixels@) ==> flat_frame_attributes(&r, img),
{
    analyze(img, AnalysisMode::Fast)
}

} // verus!
