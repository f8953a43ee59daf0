use vorgon::{
    crop_gray_to_percent, crop_rgb_to_percent, mono_as_grey, preprocess_rgb_to_gray,
    red_green_as_grey, PixelBuffer, QualityError, RgbBuffer,
};

fn ramp(width: u32, height: u32) -> PixelBuffer {
    let pixels = (0..width * height).map(|i| (i % 251) as u8).collect();
    PixelBuffer::new(width, height, pixels).unwrap()
}

#[test]
fn full_percent_crop_is_identity() {
    let img = ramp(13, 7);
    let c = crop_gray_to_percent(&img, 100).unwrap();
    assert_eq!((c.width, c.height), (13, 7));
    assert_eq!(c.pixels, img.pixels);
}

#[test]
fn crop_keeps_the_centre() {
    let img = ramp(10, 10);
    let c = crop_gray_to_percent(&img, 80).unwrap();
    assert_eq!((c.width, c.height), (8, 8));
    assert_eq!(c.pixels[0], img.pixels[11]);
    assert_eq!(c.pixels[63], img.pixels[88]);
    let c = crop_gray_to_percent(&ramp(11, 5), 50).unwrap();
    assert_eq!((c.width, c.height), (5, 2));
    assert_eq!(c.pixels[0], 11 + 3);
}

#[test]
fn crop_rejects_bad_percent_and_empty_results() {
    let img = ramp(10, 10);
    assert_eq!(crop_gray_to_percent(&img, 0).unwrap_err(), QualityError::InvalidDimensions);
    assert_eq!(crop_gray_to_percent(&img, 101).unwrap_err(), QualityError::InvalidDimensions);
    assert_eq!(crop_gray_to_percent(&img, 5).unwrap_err(), QualityError::InvalidDimensions);
}

#[test]
fn buffer_rejects_bad_dimensions() {
    assert_eq!(PixelBuffer::new(0, 3, vec![]).unwrap_err(), QualityError::InvalidDimensions);
    assert_eq!(PixelBuffer::new(2, 2, vec![1, 2, 3]).unwrap_err(), QualityError::InvalidDimensions);
    assert_eq!(RgbBuffer::new(1, 1, vec![1, 2]).unwrap_err(), QualityError::InvalidDimensions);
    assert!(PixelBuffer::filled(0, 1, 5).is_err());
}

fn rgb_ramp(width: u32, height: u32) -> RgbBuffer {
    let samples = (0..3 * width * height).map(|i| (i % 256) as u8).collect();
    RgbBuffer::new(width, height, samples).unwrap()
}

#[test]
fn rgb_crop_keeps_the_centre() {
    let img = rgb_ramp(5, 5);
    let c = crop_rgb_to_percent(&img, 60).unwrap();
    assert_eq!((c.width, c.height), (3, 3));
    assert_eq!(&c.samples[0..3], &img.samples[18..21]);
    assert_eq!(crop_rgb_to_percent(&img, 0).unwrap_err(), QualityError::InvalidDimensions);
}

#[test]
fn single_channel_extraction() {
    let img = RgbBuffer::new(2, 1, vec![1, 2, 3, 4, 5, 6]).unwrap();
    assert_eq!(mono_as_grey(&img, 0).pixels, vec![1, 4]);
    assert_eq!(mono_as_grey(&img, 2).pixels, vec![3, 6]);
}

#[test]
fn red_green_luma() {
    let img = RgbBuffer::new(2, 1, vec![255, 255, 0, 100, 0, 77]).unwrap();
    let g = red_green_as_grey(&img);
    assert_eq!((g.width, g.height), (2, 1));
    assert_eq!(g.pixels, vec![255, 25]);
}

#[test]
fn preprocess_crops_to_eighty_percent() {
    let img = rgb_ramp(10, 5);
    let g = preprocess_rgb_to_gray(&img).unwrap();
    assert_eq!((g.width, g.height), (8, 4));
    let full = red_green_as_grey(&img);
    assert_eq!(g.pixels[0], full.pixels[1]);
    assert!(preprocess_rgb_to_gray(&rgb_ramp(1, 1)).is_err());
}
