//! Tests of output resolution control.

use img4avif::decoder::{Pixels, RawImage};
use img4avif::resize::resize_raw_image;
use img4avif::OutputResolution;

fn solid_rgba8(width: u32, height: u32) -> RawImage {
    let pixel = [255u8, 128, 64, 255];
    RawImage {
        width,
        height,
        pixels: Pixels::Rgba8(pixel.repeat(width as usize * height as usize)),
    }
}

fn rgba8_of(raw: &RawImage) -> &Vec<u8> {
    match &raw.pixels {
        Pixels::Rgba8(px) => px,
        Pixels::Rgba16(_) => panic!("expected 8-bit samples"),
    }
}

#[test]
fn original_is_unchanged() {
    let raw = solid_rgba8(4000, 3000);
    let out = resize_raw_image(raw, OutputResolution::Original);
    assert_eq!(out.width, 4000);
    assert_eq!(out.height, 3000);
}

#[test]
fn no_upscale_when_already_small() {
    let raw = solid_rgba8(640, 480);
    let out2560 = resize_raw_image(raw.clone(), OutputResolution::Width2560);
    assert_eq!(out2560.width, 640);
    assert_eq!(out2560.height, 480);

    let out1080 = resize_raw_image(raw, OutputResolution::Width1080);
    assert_eq!(out1080.width, 640);
    assert_eq!(out1080.height, 480);
}

#[test]
fn downscales_to_2560() {
    let raw = solid_rgba8(5120, 2880);
    let out = resize_raw_image(raw, OutputResolution::Width2560);
    assert_eq!(out.width, 2560);
    assert_eq!(out.height, 1440);
}

#[test]
fn downscales_to_1080() {
    let raw = solid_rgba8(1920, 1080);
    let out = resize_raw_image(raw, OutputResolution::Width1080);
    assert_eq!(out.width, 1080);
    assert_eq!(out.height, 608);
}

#[test]
fn aspect_ratio_preserved_portrait() {
    let raw = solid_rgba8(4320, 6480);
    let out = resize_raw_image(raw, OutputResolution::Width2560);
    assert_eq!(out.width, 2560);
    assert_eq!(out.height, 3840);
}

#[test]
fn exact_target_width_is_not_resized() {
    let raw = solid_rgba8(2560, 1440);
    let out = resize_raw_image(raw, OutputResolution::Width2560);
    assert_eq!(out.width, 2560);
    assert_eq!(out.height, 1440);
}

#[test]
fn output_resolution_max_width() {
    assert_eq!(OutputResolution::Original.max_width(), None);
    assert_eq!(OutputResolution::Width2560.max_width(), Some(2560));
    assert_eq!(OutputResolution::Width1080.max_width(), Some(1080));
}

#[test]
fn flat_image_keeps_height_of_one() {
    let raw = solid_rgba8(2000, 1);
    let out = resize_raw_image(raw, OutputResolution::Width1080);
    assert_eq!(out.width, 1080);
    assert_eq!(out.height, 1);
    assert_eq!(rgba8_of(&out).len(), 1080 * 4);
}

#[test]
fn resized_pixels_fill_the_new_size_and_keep_a_solid_colour() {
    let raw = solid_rgba8(1200, 30);
    let out = resize_raw_image(raw, OutputResolution::Width1080);
    assert_eq!(out.width, 1080);
    assert_eq!(out.height, 27);
    assert_eq!(rgba8_of(&out).len(), 1080 * 27 * 4);
    assert_eq!(&rgba8_of(&out)[0..4], &[255, 128, 64, 255]);
}

#[test]
fn unchanged_image_keeps_its_pixels() {
    let mut raw = solid_rgba8(3, 2);
    if let Pixels::Rgba8(px) = &mut raw.pixels {
        px[0] = 7;
    }
    let out = resize_raw_image(raw, OutputResolution::Width1080);
    assert_eq!(rgba8_of(&out)[0], 7);
    assert_eq!(rgba8_of(&out).len(), 3 * 2 * 4);
}

#[test]
fn sixteen_bit_images_are_resized_at_full_depth() {
    let pixel = [60000u16, 30000, 1000, 65535];
    let raw = RawImage {
        width: 1200,
        height: 20,
        pixels: Pixels::Rgba16(pixel.repeat(1200 * 20)),
    };
    let out = resize_raw_image(raw, OutputResolution::Width1080);
    assert_eq!((out.width, out.height), (1080, 18));
    match out.pixels {
        Pixels::Rgba16(px) => {
            assert_eq!(px.len(), 1080 * 18 * 4);
            assert_eq!(&px[0..4], &pixel);
        }
        Pixels::Rgba8(_) => panic!("resizing keeps the sample depth"),
    }
}
