use vstd::prelude::*;

use crate::analysis::MonoImageQAttributes;

verus! {

/// Expected mean intensity of a usable frame, and its standard deviation.
pub const INTENSITY_MEAN: i64 = 117;
pub const INTENSITY_STDDEV: i64 = 9;

/// Expected histogram spread `(Q3 - Q1) / 255` of a usable frame (0.5) and
/// its standard deviation (0.09), both in units of `1 / SPREAD_SCALE`.
pub const SPREAD_SCALE: i64 = 25500;
pub const HSPREAD_MEAN: i64 = 12750;
pub const HSPREAD_STDDEV: i64 = 2295;

/// Expected FAST-12 corner count of a usable frame, and its standard
/// deviation.
pub const F12_CORNERS_MEAN: i64 = 4000;
pub const F12_CORNERS_STDEV: i64 = 1000;

/// `val` lies within two standard deviations of `mean`: its z-score
/// `(val - mean) / stddev` is defined and within `-2..=2`. With a zero
/// deviation no z-score is, so no value lies within.
pub open spec fn within_two_stddev(mean: int, stddev: int, val: int) -> bool {
    let spread = if stddev < 0 {
        -stddev
    } else {
        stddev
    };
    stddev != 0 && -2 * spread <= val - mean <= 2 * spread
}

/// Whether the z-score of `val` against `mean` and `stddev` (all in the same
/// units) lies within `-2..=2`; never for a zero `stddev`.
pub fn zscore_within_stddev(mean: i64, stddev: i64, val: i64) -> (r: bool)
    ensures
        r == within_two_stddev(mean as int, stddev as int, val as int),
{
    let d = val as i128 - mean as i128;
    let spread: i128 = if stddev < 0 {
        -(stddev as i128)
    } else {
        stddev as i128
    };
    let bound = 2 * spread;
    stddev != 0 && -bound <= d && d <= bound
}

/// A frame is nominal when its mean intensity, histogram spread and FAST-12
/// corner count each lie within two standard deviations of what a usable
/// frame shows.
pub open spec fn nominal(q: &MonoImageQAttributes) -> bool {
    &&& within_two_stddev(INTENSITY_MEAN as int, INTENSITY_STDDEV as int, q.mean_intensity as int)
    &&& within_two_stddev(
        HSPREAD_MEAN as int,
        HSPREAD_STDDEV as int,
        (q.third_quartile - q.first_quartile) * (SPREAD_SCALE / 255),
    )
    &&& within_two_stddev(
        F12_CORNERS_MEAN as int,
        F12_CORNERS_STDEV as int,
        q.corner_count_f12 as int,
    )
}

/// Whether the attributes of a frame are nominal: mean intensity, histogram
/// spread and FAST-12 corner count all within two standard deviations of
/// the expected values.
pub fn is_nominal(qattrs: &MonoImageQAttributes) -> (r: bool)
    ensures
        r == nominal(qattrs),
{
    let intensity_ok = zscore_within_stddev(
        INTENSITY_MEAN,
        INTENSITY_STDDEV,
        qattrs.mean_intensity as i64,
    );
    let spread = (qattrs.third_quartile as i64 - qattrs.first_quartile as i64) * (SPREAD_SCALE
        / 255);
    let spread_ok = zscore_within_stddev(HSPREAD_MEAN, HSPREAD_STDDEV, spread);
    let corners_ok = zscore_within_stddev(
        F12_CORNERS_MEAN,
        F12_CORNERS_STDEV,
        qattrs.corner_count_f12 as i64,
    );
    intensity_ok && spread_ok && corners_ok
}

} // verus!
