use vorgon::{
    analyze_image, fast_analyze_image, find_peaks_in_histogram, histogram_stats, is_nominal,
    mean_intensity_and_contrast, zscore_within_stddev, MonoImageQAttributes, PixelBuffer,
};

fn gray(width: u32, height: u32, pixels: Vec<u8>) -> PixelBuffer {
    PixelBuffer::new(width, height, pixels).unwrap()
}

fn entropy_bits(histogram: &[u32]) -> f64 {
    let total: u32 = histogram.iter().sum();
    let mut h = 0.0;
    for &c in histogram {
        if c > 0 {
            let p = c as f64 / total as f64;
            h -= p * p.log2();
        }
    }
    h
}

#[test]
fn constant_gray_full_analysis() {
    let img = PixelBuffer::filled(100, 100, 128).unwrap();
    let q = analyze_image(&img);
    assert_eq!((q.width, q.height), (100, 100));
    assert_eq!(q.sharpness.numerator, 0);
    assert_eq!(q.mean_intensity, 128);
    assert_eq!(q.first_quartile, 128);
    assert_eq!(q.third_quartile, 128);
    assert_eq!(q.histogram.len(), 256);
    assert_eq!(q.histogram[128], 10000);
    assert_eq!(q.histogram.iter().filter(|&&c| c > 0).count(), 1);
    assert_eq!(entropy_bits(&q.histogram), 0.0);
    assert_eq!(q.corner_count_f12, 0);
    assert_eq!(q.corner_count_f9, 0);
    assert_eq!(q.dark_pixel_count, 0);
    assert_eq!(q.bright_pixel_count, 0);
}

#[test]
fn uniform_histogram_has_eight_bits_of_flatness() {
    let img = gray(16, 16, (0..=255u8).collect());
    let q = analyze_image(&img);
    assert!(q.histogram.iter().all(|&c| c == 1));
    assert_eq!(entropy_bits(&q.histogram), 8.0);
    assert_eq!(q.first_quartile, 63);
    assert_eq!(q.third_quartile, 191);
    assert_eq!(q.mean_intensity, 128);
}

#[test]
fn fast_mode_skips_histogram_sharpness_and_fast9() {
    let img = gray(16, 16, (0..=255u8).collect());
    let q = fast_analyze_image(&img);
    assert!(q.histogram.is_empty());
    assert_eq!(q.sharpness.numerator, 0);
    assert_eq!(q.sharpness.denominator, 1);
    assert_eq!(q.corner_count_f9, 0);
    assert_eq!(q.first_quartile, 63);
    assert_eq!(q.third_quartile, 191);
    assert_eq!(q.dark_pixel_count, 43);
    assert_eq!(q.bright_pixel_count, 43);
}

#[test]
fn mean_rounds_half_up() {
    let s = histogram_stats(&gray(2, 1, vec![0, 1]));
    assert_eq!(s.mean_intensity, 1);
    let s = histogram_stats(&gray(3, 1, vec![0, 0, 1]));
    assert_eq!(s.mean_intensity, 0);
    let s = histogram_stats(&gray(2, 2, vec![255, 255, 255, 254]));
    assert_eq!(s.mean_intensity, 255);
}

#[test]
fn mean_matches_recomputed_average() {
    let pixels: Vec<u8> = (0..60u32).map(|i| ((i * 37 + 11) % 256) as u8).collect();
    let sum: u32 = pixels.iter().map(|&p| p as u32).sum();
    let s = histogram_stats(&gray(10, 6, pixels));
    let weighted: u32 = s.histogram.iter().enumerate().map(|(v, &c)| v as u32 * c).sum();
    assert_eq!(weighted, sum);
    assert_eq!(s.mean_intensity as u32, (2 * sum + 60) / 120);
}

#[test]
fn spread_survives_unclipped_shift() {
    let pixels: Vec<u8> = vec![10, 20, 20, 30, 40, 40, 40, 90, 100, 120, 5, 7];
    let shifted: Vec<u8> = pixels.iter().map(|&p| p + 100).collect();
    let a = histogram_stats(&gray(4, 3, pixels));
    let b = histogram_stats(&gray(4, 3, shifted));
    assert_eq!(b.first_quartile, a.first_quartile + 100);
    assert_eq!(b.third_quartile, a.third_quartile + 100);
    assert_eq!(
        b.third_quartile - b.first_quartile,
        a.third_quartile - a.first_quartile
    );
}

#[test]
fn quartiles_of_small_frames() {
    let s = histogram_stats(&gray(1, 1, vec![77]));
    assert_eq!((s.first_quartile, s.third_quartile), (77, 77));
    let s = histogram_stats(&gray(2, 1, vec![3, 200]));
    assert_eq!((s.first_quartile, s.third_quartile), (3, 3));
    let s = histogram_stats(&gray(2, 2, vec![0, 0, 0, 250]));
    assert_eq!((s.first_quartile, s.third_quartile), (0, 0));
    let s = histogram_stats(&gray(2, 2, vec![0, 10, 20, 30]));
    assert_eq!((s.first_quartile, s.third_quartile), (0, 20));
}

#[test]
fn dark_and_bright_thresholds() {
    let s = histogram_stats(&gray(3, 2, vec![0, 42, 43, 212, 213, 255]));
    assert_eq!(s.dark_pixel_count, 2);
    assert_eq!(s.bright_pixel_count, 2);
}

#[test]
fn spikes_against_previous_populated_bucket() {
    let s = histogram_stats(&gray(2, 2, vec![10, 10, 10, 20]));
    assert_eq!(s.hist_spike_count, 1);
    let s = histogram_stats(&gray(5, 2, vec![1, 2, 2, 3, 3, 3, 4, 4, 4, 4]));
    assert_eq!(s.hist_spike_count, 0);
    let s = histogram_stats(&gray(5, 2, vec![1, 5, 5, 5, 9, 9, 9, 9, 9, 9]));
    assert_eq!(s.hist_spike_count, 2);
    let s = histogram_stats(&gray(5, 2, vec![9, 9, 9, 9, 9, 9, 9, 9, 9, 9]));
    assert_eq!(s.hist_spike_count, 1);
    let s = histogram_stats(&gray(16, 16, (0..=255u8).collect()));
    assert_eq!(s.hist_spike_count, 0);
}

#[test]
fn mean_and_contrast() {
    assert_eq!(
        mean_intensity_and_contrast(&gray(2, 2, vec![10, 20, 30, 41])),
        (25, 31)
    );
    assert_eq!(mean_intensity_and_contrast(&gray(1, 1, vec![9])), (9, 0));
}

#[test]
fn peaks_above_the_mean_peak() {
    let mut h = [0u32; 256];
    h[10] = 100;
    h[50] = 10;
    h[200] = 300;
    assert_eq!(find_peaks_in_histogram(&h), vec![(200, 300)]);
}

#[test]
fn strong_peaks_largest_first() {
    let mut h = [0u32; 256];
    for (i, v) in [(0usize, 50u32), (20, 90), (40, 90), (60, 70), (80, 80), (100, 60), (120, 55), (255, 1)] {
        h[i] = v;
    }
    assert_eq!(
        find_peaks_in_histogram(&h),
        vec![(20, 90), (40, 90), (80, 80), (60, 70)]
    );
}

#[test]
fn at_most_five_peaks() {
    let mut h = [0u32; 256];
    for k in 1..=7usize {
        h[10 * k] = 100 + k as u32;
    }
    h[255] = 1;
    assert_eq!(
        find_peaks_in_histogram(&h),
        vec![(70, 107), (60, 106), (50, 105), (40, 104), (30, 103)]
    );
}

#[test]
fn no_peaks_in_a_flat_histogram() {
    let h = [7u32; 256];
    assert!(find_peaks_in_histogram(&h).is_empty());
}

#[test]
fn nominal_bounds() {
    let mut q = MonoImageQAttributes::new(10, 10);
    q.mean_intensity = 117;
    q.first_quartile = 50;
    q.third_quartile = 178;
    q.corner_count_f12 = 4000;
    assert!(is_nominal(&q));
    q.mean_intensity = 98;
    assert!(!is_nominal(&q));
    q.mean_intensity = 99;
    assert!(is_nominal(&q));
    q.third_quartile = 50 + 81;
    assert!(!is_nominal(&q));
    q.third_quartile = 50 + 82;
    assert!(is_nominal(&q));
    q.corner_count_f12 = 6000;
    assert!(is_nominal(&q));
    q.corner_count_f12 = 6001;
    assert!(!is_nominal(&q));
    assert!(zscore_within_stddev(0, 5, -10));
    assert!(!zscore_within_stddev(0, 5, -11));
    assert!(zscore_within_stddev(0, -5, 10));
    assert!(!zscore_within_stddev(7, 0, 7));
    assert!(!zscore_within_stddev(i64::MIN, i64::MAX, i64::MAX));
    assert!(zscore_within_stddev(i64::MIN, i64::MAX, i64::MAX - 1));
}
