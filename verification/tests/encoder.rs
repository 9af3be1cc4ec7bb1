//! Tests of the AVIF encoder and of the structural check of its output.

use img4avif::decoder::{Pixels, RawImage};
use img4avif::encoder::rav1e_wrapper::MIN_AVIF_BYTES;
use img4avif::encoder::{encode_avif, validate_avif_output};
use img4avif::Error;

fn solid_rgba8(width: u32, height: u32, r: u8, g: u8, b: u8, a: u8) -> RawImage {
    let pixel = [r, g, b, a];
    RawImage {
        width,
        height,
        pixels: Pixels::Rgba8(pixel.repeat(width as usize * height as usize)),
    }
}

fn solid_rgba16(width: u32, height: u32, pixel: [u16; 4]) -> RawImage {
    RawImage {
        width,
        height,
        pixels: Pixels::Rgba16(pixel.repeat(width as usize * height as usize)),
    }
}

/// 10-bit BT.601 full-range YCbCr planes of a 16-bit image, as a host
/// computes them.
fn ycbcr_planes(img: &RawImage) -> Vec<[u16; 3]> {
    let Pixels::Rgba16(px) = &img.pixels else {
        panic!("expected 16-bit samples")
    };
    let scale = 1023.0f32 / 65535.0;
    px.chunks_exact(4)
        .map(|p| {
            let (r, g, b) = (f32::from(p[0]), f32::from(p[1]), f32::from(p[2]));
            let y = scale * (0.299 * r + 0.587 * g + 0.114 * b);
            let cb = (scale * b - y) * (0.5 / (1.0 - 0.114)) + 512.0;
            let cr = (scale * r - y) * (0.5 / (1.0 - 0.299)) + 512.0;
            let clamp10 = |v: f32| v.round().clamp(0.0, 1023.0) as u16;
            [clamp10(y), clamp10(cb), clamp10(cr)]
        })
        .collect()
}

#[test]
fn encode_and_validate_small_image() {
    let img = solid_rgba8(8, 8, 255, 0, 0, 255);
    let avif = encode_avif(&img, 80, 6, 80, &[]).expect("encode failed");
    assert!(avif.len() >= MIN_AVIF_BYTES);
    assert_eq!(&avif[4..8], b"ftyp");
}

#[test]
fn validate_rejects_empty() {
    let err = validate_avif_output(&[], 4, 4).unwrap_err();
    assert!(matches!(err, Error::Encode(_)));
}

#[test]
fn validate_rejects_too_short() {
    let err = validate_avif_output(&[0u8; 10], 4, 4).unwrap_err();
    assert!(matches!(err, Error::Encode(_)));
}

#[test]
fn validate_rejects_missing_ftyp() {
    let mut fake = vec![0u8; 20];
    fake[4..8].copy_from_slice(b"moov");
    let err = validate_avif_output(&fake, 4, 4).unwrap_err();
    assert!(matches!(err, Error::Encode(ref msg) if msg.contains("ftyp")));
}

#[test]
fn validate_accepts_valid_ftyp() {
    let mut valid = vec![0u8; 24];
    valid[0..4].copy_from_slice(&24u32.to_be_bytes());
    valid[4..8].copy_from_slice(b"ftyp");
    valid[8..12].copy_from_slice(b"avif");
    assert!(validate_avif_output(&valid, 4, 4).is_ok());
}

#[test]
fn validate_rejects_invalid_major_brand() {
    let mut fake = vec![0u8; 24];
    fake[0..4].copy_from_slice(&24u32.to_be_bytes());
    fake[4..8].copy_from_slice(b"ftyp");
    fake[8..12].copy_from_slice(b"mp41");
    let err = validate_avif_output(&fake, 4, 4).unwrap_err();
    assert!(matches!(err, Error::Encode(ref msg) if msg.contains("major brand")));
}

#[test]
fn validate_rejects_invalid_box_size() {
    let mut fake = vec![0u8; 24];
    fake[0..4].copy_from_slice(&5u32.to_be_bytes());
    fake[4..8].copy_from_slice(b"ftyp");
    fake[8..12].copy_from_slice(b"avif");
    let err = validate_avif_output(&fake, 4, 4).unwrap_err();
    assert!(matches!(err, Error::Encode(ref msg) if msg.contains("box size")));
}

#[test]
fn validate_accepts_avis_brand() {
    let mut valid = vec![0u8; 24];
    valid[0..4].copy_from_slice(&24u32.to_be_bytes());
    valid[4..8].copy_from_slice(b"ftyp");
    valid[8..12].copy_from_slice(b"avis");
    assert!(validate_avif_output(&valid, 4, 4).is_ok());
}

#[test]
fn validate_rejects_box_size_beyond_output() {
    let mut fake = vec![0u8; 24];
    fake[0..4].copy_from_slice(&25u32.to_be_bytes());
    fake[4..8].copy_from_slice(b"ftyp");
    fake[8..12].copy_from_slice(b"avif");
    let err = validate_avif_output(&fake, 4, 4).unwrap_err();
    assert!(matches!(err, Error::Encode(ref msg) if msg.contains("box size")));
}

#[test]
fn validate_accepts_box_size_of_twenty_in_longer_output() {
    let mut valid = vec![0u8; 40];
    valid[0..4].copy_from_slice(&20u32.to_be_bytes());
    valid[4..8].copy_from_slice(b"ftyp");
    valid[8..12].copy_from_slice(b"avif");
    assert!(validate_avif_output(&valid, 4, 4).is_ok());
}

#[test]
fn encoded_output_passes_validation_and_is_not_the_input() {
    let img = solid_rgba8(4, 4, 10, 20, 30, 255);
    let avif = encode_avif(&img, 8, 10, 8, &[]).expect("encode failed");
    assert!(validate_avif_output(&avif, 4, 4).is_ok());
    let Pixels::Rgba8(px) = &img.pixels else { unreachable!() };
    assert_ne!(&avif, px);
    assert_eq!(&avif[8..12], b"avif");
}

#[test]
fn encode_is_deterministic_and_alpha_quality_is_noop_when_opaque() {
    let img = solid_rgba8(4, 4, 200, 100, 50, 255);
    let a = encode_avif(&img, 5, 10, 1, &[]).expect("encode failed");
    let b = encode_avif(&img, 5, 10, 10, &[]).expect("encode failed");
    assert_eq!(a, b);
}

#[test]
fn encode_translucent_image() {
    let img = solid_rgba8(4, 4, 200, 100, 50, 128);
    assert!(img.has_transparency());
    let avif = encode_avif(&img, 5, 10, 10, &[]).expect("encode failed");
    assert!(validate_avif_output(&avif, 4, 4).is_ok());
}

#[test]
fn transparency_detection() {
    assert!(!solid_rgba8(3, 3, 0, 0, 0, 255).has_transparency());
    let mut img = solid_rgba8(3, 3, 0, 0, 0, 255);
    if let Pixels::Rgba8(px) = &mut img.pixels {
        px[4 * 8 + 3] = 254;
    }
    assert!(img.has_transparency());
    assert!(!solid_rgba8(0, 0, 0, 0, 0, 0).has_transparency());
}

fn encode_message(result: Result<(), Error>) -> String {
    match result {
        Err(Error::Encode(msg)) => msg,
        other => panic!("expected an encode error, got {other:?}"),
    }
}

#[test]
fn validate_messages_name_the_failed_check() {
    assert_eq!(
        encode_message(validate_avif_output(&[], 1, 1)),
        "AVIF encoder produced empty output — this is a bug; please report it"
    );
    assert_eq!(
        encode_message(validate_avif_output(&[0u8; 10], 1, 1)),
        "AVIF encoder produced truncated output (10 bytes, minimum valid AVIF is 20 bytes)"
    );
    let mut moov = vec![0u8; 20];
    moov[4..8].copy_from_slice(b"moov");
    assert_eq!(
        encode_message(validate_avif_output(&moov, 1, 1)),
        "AVIF encoder produced invalid container: expected ISOBMFF 'ftyp' box at offset 4, got [6d, 6f, 6f, 76]"
    );
    let mut brand = vec![0u8; 24];
    brand[0..4].copy_from_slice(&24u32.to_be_bytes());
    brand[4..8].copy_from_slice(b"ftyp");
    brand[8..12].copy_from_slice(b"mp41");
    assert_eq!(
        encode_message(validate_avif_output(&brand, 1, 1)),
        "AVIF major brand invalid: expected 'avif' or 'avis', got [6d, 70, 34, 31]"
    );
    let mut size = brand.clone();
    size[8..12].copy_from_slice(b"avif");
    size[0..4].copy_from_slice(&5u32.to_be_bytes());
    assert_eq!(
        encode_message(validate_avif_output(&size, 1, 1)),
        "AVIF ftyp box size invalid: box_size=5, output length=24"
    );
    assert_eq!(
        encode_message(validate_avif_output(&size, 4000, 3000)),
        encode_message(validate_avif_output(&size, 1, 1))
    );
}

#[test]
fn encode_of_zero_height_is_an_encode_error() {
    let img = RawImage { width: 4, height: 0, pixels: Pixels::Rgba8(Vec::new()) };
    assert!(matches!(encode_avif(&img, 8, 6, 8, &[]), Err(Error::Encode(_))));
}

#[test]
fn encode_bytes_do_not_depend_on_the_thread_pool() {
    let img = solid_rgba8(64, 64, 10, 200, 30, 255);
    let first = encode_avif(&img, 8, 10, 8, &[]).expect("encode");
    let pool = rayon::ThreadPoolBuilder::new().num_threads(3).build().expect("pool");
    let second = pool.install(|| encode_avif(&img, 8, 10, 8, &[]).expect("encode"));
    assert_eq!(first, second);
}

#[test]
fn encode_16bit_image_as_10bit_avif() {
    let img = solid_rgba16(8, 8, [48_000, 20_000, 5_000, 65535]);
    let planes = ycbcr_planes(&img);
    let avif = encode_avif(&img, 8, 10, 8, &planes).expect("encode failed");
    assert!(validate_avif_output(&avif, 8, 8).is_ok());
    let as_8_bit = solid_rgba8(8, 8, 187, 78, 19, 255);
    assert_ne!(avif, encode_avif(&as_8_bit, 8, 10, 8, &[]).expect("encode failed"));
}

#[test]
fn sixteen_bit_transparency_and_alpha_quality() {
    let opaque = solid_rgba16(4, 4, [1000, 2000, 3000, 65535]);
    assert!(!opaque.has_transparency());
    let planes = ycbcr_planes(&opaque);
    assert_eq!(
        encode_avif(&opaque, 6, 10, 1, &planes).expect("encode"),
        encode_avif(&opaque, 6, 10, 10, &planes).expect("encode")
    );
    let translucent = solid_rgba16(4, 4, [1000, 2000, 3000, 65534]);
    assert!(translucent.has_transparency());
    let planes = ycbcr_planes(&translucent);
    assert!(encode_avif(&translucent, 6, 10, 3, &planes).is_ok());
}

#[test]
fn sixteen_bit_encode_of_zero_height_is_an_encode_error() {
    let img = RawImage { width: 4, height: 0, pixels: Pixels::Rgba16(Vec::new()) };
    assert!(matches!(encode_avif(&img, 8, 6, 8, &[]), Err(Error::Encode(_))));
}
