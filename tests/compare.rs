use vorgon::{compare_images, validated_frame, PixelBuffer, QualityError};

#[test]
fn self_comparison_has_no_error() {
    let img = PixelBuffer::new(3, 2, vec![1, 50, 99, 200, 3, 255]).unwrap();
    let c = compare_images(&img, &img).unwrap();
    assert_eq!(c.pixel_count, 6);
    assert_eq!(c.squared_error_sum, 0);
}

#[test]
fn different_dimensions_are_a_mismatch() {
    let a = PixelBuffer::filled(64, 64, 10).unwrap();
    let b = PixelBuffer::filled(64, 32, 10).unwrap();
    assert_eq!(compare_images(&a, &b).unwrap_err(), QualityError::DimensionMismatch);
    assert_eq!(compare_images(&b, &a).unwrap_err(), QualityError::DimensionMismatch);
}

#[test]
fn squared_error_sum() {
    let a = PixelBuffer::new(2, 2, vec![0, 10, 255, 7]).unwrap();
    let b = PixelBuffer::new(2, 2, vec![3, 6, 0, 7]).unwrap();
    let c = compare_images(&a, &b).unwrap();
    assert_eq!(c.squared_error_sum, 9 + 16 + 65025);
    assert_eq!(c.pixel_count, 4);
}

#[test]
fn validated_frame_prefers_keypoints() {
    assert_eq!(validated_frame(true, Some(3), Some(4)), None);
    assert_eq!(validated_frame(false, Some(3), Some(4)), Some(3));
    assert_eq!(validated_frame(false, None, Some(4)), Some(4));
    assert_eq!(validated_frame(false, None, None), None);
}
