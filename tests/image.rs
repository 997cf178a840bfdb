use pathtracer::image::{
    decimal_digits, encode_ppm, pack_pixels, pixel_position, ppm_header, ImageError, Rgb8,
};

fn px(r: u8, g: u8, b: u8) -> Rgb8 {
    Rgb8 { r, g, b }
}

#[test]
fn pixel_position_first_pixel_is_top_left() {
    assert_eq!(pixel_position(0, 4, 3), (0, 2));
}

#[test]
fn pixel_position_last_pixel_is_bottom_right() {
    assert_eq!(pixel_position(11, 4, 3), (3, 0));
}

#[test]
fn pixel_position_middle_row() {
    assert_eq!(pixel_position(5, 4, 3), (1, 1));
    assert_eq!(pixel_position(1279, 1280, 720), (1279, 719));
    assert_eq!(pixel_position(1280, 1280, 720), (0, 718));
}

#[test]
fn pack_pixels_interleaves_channels_in_order() {
    let pixels = vec![px(1, 2, 3), px(250, 0, 128)];
    assert_eq!(pack_pixels(&pixels), vec![1, 2, 3, 250, 0, 128]);
}

#[test]
fn pack_pixels_of_nothing_is_empty() {
    assert_eq!(pack_pixels(&Vec::new()), Vec::<u8>::new());
}

#[test]
fn decimal_digits_of_zero() {
    assert_eq!(decimal_digits(0), b"0".to_vec());
}

#[test]
fn decimal_digits_of_numbers() {
    assert_eq!(decimal_digits(7), b"7".to_vec());
    assert_eq!(decimal_digits(10), b"10".to_vec());
    assert_eq!(decimal_digits(1280), b"1280".to_vec());
    assert_eq!(decimal_digits(usize::MAX), usize::MAX.to_string().into_bytes());
}

#[test]
fn ppm_header_has_three_ascii_lines() {
    assert_eq!(ppm_header(1280, 720), b"P6\n1280 720\n255\n".to_vec());
    assert_eq!(ppm_header(400, 225), b"P6\n400 225\n255\n".to_vec());
}

#[test]
fn encode_ppm_writes_header_then_raw_bytes() {
    let pixels = vec![px(255, 0, 0), px(0, 255, 0), px(0, 0, 255), px(128, 128, 128)];
    let mut expected = b"P6\n2 2\n255\n".to_vec();
    expected.extend_from_slice(&[255, 0, 0, 0, 255, 0, 0, 0, 255, 128, 128, 128]);
    assert_eq!(encode_ppm(2, 2, &pixels), Ok(expected));
}

#[test]
fn encode_ppm_of_empty_image() {
    assert_eq!(encode_ppm(0, 5, &Vec::new()), Ok(b"P6\n0 5\n255\n".to_vec()));
}

#[test]
fn encode_ppm_rejects_wrong_pixel_count() {
    let pixels = vec![px(1, 1, 1); 3];
    assert_eq!(encode_ppm(2, 2, &pixels), Err(ImageError::PixelCountMismatch));
    assert_eq!(encode_ppm(1, 2, &pixels), Err(ImageError::PixelCountMismatch));
}

#[test]
fn encode_ppm_rejects_size_that_overflows() {
    let pixels = vec![px(1, 1, 1); 2];
    assert_eq!(
        encode_ppm(usize::MAX, 2, &pixels),
        Err(ImageError::PixelCountMismatch)
    );
}
