use image::codecs::png::PngDecoder;
use image::{ColorType, ImageDecoder, ImageError};
use mandelbrot::color::Color;
use mandelbrot::encode::{colors_to_u8s, encode_png, encoded, EncodeError};
use std::io::Cursor;

const PNG_SIGNATURE: [u8; 8] = [137, 80, 78, 71, 13, 10, 26, 10];

#[test]
fn bytes_are_three_per_pixel_in_order() {
    let pixels = [
        Color { r: 1, g: 2, b: 3 },
        Color { r: 40, g: 50, b: 60 },
        Color { r: 255, g: 0, b: 128 },
    ];
    assert_eq!(
        colors_to_u8s(&pixels),
        vec![1u8, 2, 3, 40, 50, 60, 255, 0, 128]
    );
    assert_eq!(colors_to_u8s(&[]), Vec::<u8>::new());
}

#[test]
fn encoded_image_is_a_png_of_the_same_pixels() {
    let pixels = [
        Color { r: 1, g: 2, b: 3 },
        Color { r: 40, g: 50, b: 60 },
        Color { r: 255, g: 0, b: 128 },
        Color { r: 0, g: 0, b: 0 },
        Color { r: 50, g: 60, b: 50 },
        Color { r: 10, g: 20, b: 54 },
    ];
    let stream = encode_png(&pixels, (3, 2)).unwrap();
    assert_eq!(stream[..8], PNG_SIGNATURE);
    assert_ne!(stream, colors_to_u8s(&pixels));

    let decoder = PngDecoder::new(Cursor::new(stream)).unwrap();
    assert_eq!(decoder.dimensions(), (3, 2));
    assert_eq!(decoder.color_type(), ColorType::Rgb8);
    let mut decoded = vec![0u8; decoder.total_bytes() as usize];
    decoder.read_image(&mut decoded).unwrap();
    assert_eq!(decoded, colors_to_u8s(&pixels));
}

#[test]
fn encoding_twice_gives_the_same_file() {
    let pixels = vec![Color { r: 50, g: 60, b: 50 }; 12];
    assert_eq!(encode_png(&pixels, (4, 3)), encode_png(&pixels, (4, 3)));
    assert_ne!(encode_png(&pixels, (4, 3)), encode_png(&pixels, (3, 4)));
}

#[test]
fn single_black_pixel_encodes() {
    let stream = encode_png(&[Color { r: 0, g: 0, b: 0 }], (1, 1)).unwrap();
    let decoder = PngDecoder::new(Cursor::new(stream)).unwrap();
    assert_eq!(decoder.dimensions(), (1, 1));
    let mut decoded = vec![9u8; 3];
    decoder.read_image(&mut decoded).unwrap();
    assert_eq!(decoded, vec![0u8, 0, 0]);
}

#[test]
fn empty_image_is_refused() {
    assert_eq!(encode_png(&[], (0, 0)), Err(EncodeError::EmptyImage));
    assert_eq!(encode_png(&[], (0, 5)), Err(EncodeError::EmptyImage));
    assert_eq!(encode_png(&[], (5, 0)), Err(EncodeError::EmptyImage));
}

#[test]
fn image_wider_than_a_png_header_is_refused() {
    let too_wide = u32::MAX as usize + 1;
    assert_eq!(encode_png(&[], (too_wide, 0)), Err(EncodeError::TooLarge));
    assert_eq!(encode_png(&[], (0, too_wide)), Err(EncodeError::TooLarge));
    assert_eq!(encode_png(&[], (usize::MAX, 0)), Err(EncodeError::TooLarge));
}

#[test]
fn encoder_error_becomes_rejected() {
    let failure = ImageError::IoError(std::io::Error::new(
        std::io::ErrorKind::Other,
        "no room",
    ));
    assert_eq!(encoded(Err(failure)), Err(EncodeError::Rejected));
    assert_eq!(encoded(Ok(vec![1u8, 2, 3])), Ok(vec![1u8, 2, 3]));
    assert_eq!(encoded(Ok(Vec::new())), Ok(Vec::new()));
}
