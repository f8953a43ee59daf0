use vorgon::{calculate_laplacian_variance, laplacian_variance, PixelBuffer};

#[test]
fn laplacian_of_a_single_bright_pixel() {
    let img = PixelBuffer::new(3, 3, vec![0, 0, 0, 0, 10, 0, 0, 0, 0]).unwrap();
    let (filtered, v) = laplacian_variance(&img);
    assert_eq!(filtered.pixels, vec![0, 0, 0, 0, 40, 0, 0, 0, 0]);
    assert_eq!(v.numerator, 9 * 1600 - 40 * 40);
    assert_eq!(v.denominator, 81);
}

#[test]
fn laplacian_clamps_and_pads_by_continuity() {
    let img = PixelBuffer::new(3, 1, vec![100, 0, 100]).unwrap();
    let (filtered, _) = laplacian_variance(&img);
    assert_eq!(filtered.pixels, vec![100, 0, 100]);
    let img = PixelBuffer::new(2, 1, vec![0, 100]).unwrap();
    let (filtered, _) = laplacian_variance(&img);
    assert_eq!(filtered.pixels, vec![0, 100]);
}

#[test]
fn flat_frame_has_no_sharpness() {
    let img = PixelBuffer::filled(20, 9, 77).unwrap();
    let v = calculate_laplacian_variance(&img);
    assert_eq!(v.numerator, 0);
    assert_eq!(v.denominator, 180 * 180);
}
