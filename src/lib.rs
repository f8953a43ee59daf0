//! No-reference quality metrics and pairwise comparison of 8-bit grayscale
//! video frames: histogram statistics, Laplacian sharpness, FAST corner
//! density, center cropping and per-pixel squared error.

pub mod analysis;
pub mod buffer;
pub mod channels;
pub mod compare;
pub mod corners;
pub mod error;
pub mod geometry;
pub mod histogram;
pub mod nominal;
pub mod peaks;
pub mod segments;
pub mod sharpness;
pub mod timing;

pub use analysis::{
    analyze, analyze_image, fast_analyze_image, fast_histogram_analysis, hist_mean_spread_flatness,
    AnalysisMode, MonoImageQAttributes,
};
pub use buffer::{PixelBuffer, RgbBuffer};
pub use channels::{mono_as_grey, preprocess_rgb_to_gray, red_green_as_grey};
pub use compare::{compare_images, ImgComparison};
pub use corners::{
    count_corners, count_corners_fast12, count_corners_fast9, estimate_max_corners_fast12,
    FastVariant,
};
pub use error::QualityError;
pub use geometry::{crop_gray_to_percent, crop_rgb_to_percent};
pub use histogram::{histogram_stats, mean_intensity_and_contrast, HistogramStats};
pub use nominal::{is_nominal, zscore_within_stddev};
pub use peaks::find_peaks_in_histogram;
pub use segments::validated_frame;
pub use sharpness::{calculate_laplacian_variance, laplacian_variance, Variance};
pub use timing::{timest, timex};
