//! Tests of the decoder.

use img4avif::decoder::{decode, Pixels};
use img4avif::Error;

fn png_with_pixel(width: u32, height: u32, pixel: [u8; 4]) -> Vec<u8> {
    let img = image::RgbaImage::from_pixel(width, height, image::Rgba(pixel));
    let mut buf = Vec::new();
    img.write_to(&mut std::io::Cursor::new(&mut buf), image::ImageFormat::Png)
        .unwrap();
    buf
}

#[test]
fn decode_png_gives_rgba8_pixels() {
    let png = png_with_pixel(3, 2, [10, 20, 30, 40]);
    let raw = decode(&png, u64::MAX).expect("decode failed");
    assert_eq!((raw.width, raw.height), (3, 2));
    match raw.pixels {
        Pixels::Rgba8(px) => {
            assert_eq!(px.len(), 3 * 2 * 4);
            assert_eq!(&px[0..4], &[10, 20, 30, 40]);
            assert_ne!(px, png);
        }
        Pixels::Rgba16(_) => panic!("an 8-bit PNG decodes to 8-bit samples"),
    }
}

#[test]
fn decode_16bit_png_keeps_16_bit_samples() {
    let img: image::ImageBuffer<image::Rgb<u16>, Vec<u16>> =
        image::ImageBuffer::from_pixel(2, 2, image::Rgb([65535u16, 0, 65535]));
    let mut buf = Vec::new();
    image::DynamicImage::ImageRgb16(img)
        .write_to(&mut std::io::Cursor::new(&mut buf), image::ImageFormat::Png)
        .unwrap();
    let raw = decode(&buf, 1000).expect("decode failed");
    assert_eq!((raw.width, raw.height), (2, 2));
    match raw.pixels {
        Pixels::Rgba16(px) => {
            assert_eq!(px.len(), 2 * 2 * 4);
            assert_eq!(&px[0..4], &[65535, 0, 65535, 65535]);
        }
        Pixels::Rgba8(_) => panic!("a 16-bit PNG keeps 16-bit samples"),
    }
}

#[test]
fn decode_rejects_too_many_pixels_before_decoding() {
    let png = png_with_pixel(5, 4, [0, 0, 0, 255]);
    match decode(&png, 19) {
        Err(Error::InputTooLarge { width, height, max_pixels }) => {
            assert_eq!((width, height, max_pixels), (5, 4, 19));
        }
        other => panic!("expected InputTooLarge, got {other:?}"),
    }
    assert!(decode(&png, 20).is_ok());
}

#[test]
fn decode_reports_unknown_and_unsupported_formats() {
    assert!(matches!(decode(b"garbage bytes", 100), Err(Error::Decode(_))));
    assert!(matches!(decode(b"GIF89a0000000000", 100), Err(Error::UnsupportedFormat(_))));
    assert!(matches!(decode(&[], 100), Err(Error::Decode(_))));
}

#[test]
fn decode_truncated_png_is_a_decode_error() {
    let png = png_with_pixel(8, 8, [1, 2, 3, 4]);
    assert!(matches!(decode(&png[..png.len() / 2], u64::MAX), Err(Error::Decode(_))));
}
