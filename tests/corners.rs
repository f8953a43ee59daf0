use vorgon::{
    count_corners, count_corners_fast12, count_corners_fast9, estimate_max_corners_fast12,
    FastVariant, PixelBuffer, QualityError,
};

fn dot(size: u32) -> PixelBuffer {
    let mut pixels = vec![0u8; (size * size) as usize];
    let c = size / 2;
    pixels[(c * size + c) as usize] = 255;
    PixelBuffer::new(size, size, pixels).unwrap()
}

#[test]
fn flat_frame_has_no_corners() {
    let img = PixelBuffer::filled(40, 30, 128).unwrap();
    assert_eq!(count_corners_fast12(&img), 0);
    assert_eq!(count_corners_fast9(&img), 0);
    assert_eq!(count_corners(&img, 0, FastVariant::Nine), 0);
}

#[test]
fn isolated_bright_pixel_is_a_corner() {
    let img = dot(7);
    assert_eq!(count_corners_fast12(&img), 1);
    assert_eq!(count_corners_fast9(&img), 1);
    assert_eq!(count_corners(&img, 254, FastVariant::Twelve), 1);
    assert_eq!(count_corners(&img, 255, FastVariant::Twelve), 0);
}

#[test]
fn frames_without_interior_have_no_corners() {
    assert_eq!(count_corners_fast9(&dot(6)), 0);
}

#[test]
fn corner_estimate() {
    assert_eq!(estimate_max_corners_fast12(100, 100, 25), Ok(353));
    assert_eq!(estimate_max_corners_fast12(7, 7, 1), Ok(1));
    assert_eq!(estimate_max_corners_fast12(100, 100, 0), Err(QualityError::InvalidDimensions));
    assert_eq!(estimate_max_corners_fast12(6, 100, 1), Err(QualityError::InvalidDimensions));
    assert_eq!(
        estimate_max_corners_fast12(u32::MAX, u32::MAX, 1),
        Ok((u32::MAX as u64 - 6) * (u32::MAX as u64 - 6))
    );
}

#[test]
fn shorter_arc_finds_at_least_as_many_corners() {
    let size: u32 = 40;
    let pixels = (0..size * size)
        .map(|i| {
            let (x, y) = (i % size, i / size);
            if (x / 5 + y / 7) % 2 == 0 { 30 } else { 220 }
        })
        .collect();
    let img = PixelBuffer::new(size, size, pixels).unwrap();
    let f9 = count_corners_fast9(&img);
    let f12 = count_corners_fast12(&img);
    assert!(f9 >= f12);
    assert!(f9 > 0);
    for t in [0u8, 10, 50, 100] {
        assert!(count_corners(&img, t, FastVariant::Nine) >= count_corners(&img, t, FastVariant::Twelve));
    }
}
