//! End-to-end conversion tests. All images are generated in memory.
//!
//! A conversion asks for the resident set size at its checkpoints; these
//! tests answer `None` (not available), under which the memory guard lets
//! every conversion through, unless a test is about the guard. A 16-bit
//! image also asks for its 10-bit YCbCr planes, which the tests compute as
//! a host would.

use img4avif::decoder::{Pixels, RawImage};
use img4avif::{
    BatchConversion, Config, Conversion, ConversionOutput, Converter, Error, OutputResolution,
};

/// 10-bit BT.601 full-range YCbCr of a 16-bit RGB triplet.
fn bt601_10bit(r: u16, g: u16, b: u16) -> [u16; 3] {
    let scale = 1023.0f32 / 65535.0;
    let (rf, gf, bf) = (f32::from(r), f32::from(g), f32::from(b));
    let y = scale * (0.299 * rf + 0.587 * gf + 0.114 * bf);
    let cb = (scale * bf - y) * (0.5 / (1.0 - 0.114)) + 512.0;
    let cr = (scale * rf - y) * (0.5 / (1.0 - 0.299)) + 512.0;
    let clamp10 = |v: f32| v.round().clamp(0.0, 1023.0) as u16;
    [clamp10(y), clamp10(cb), clamp10(cr)]
}

fn ycbcr_planes(img: &RawImage) -> Vec<[u16; 3]> {
    match &img.pixels {
        Pixels::Rgba16(px) => px.chunks_exact(4).map(|p| bt601_10bit(p[0], p[1], p[2])).collect(),
        Pixels::Rgba8(_) => panic!("planes asked for an 8-bit image"),
    }
}

/// Take the conversion one step: supply planes when it asks for them, else
/// hand it `rss`. Returns whether the reading was used.
fn advance(conversion: &mut Conversion, rss: Option<u64>) -> bool {
    let planes = conversion.ycbcr_request().map(ycbcr_planes);
    match planes {
        Some(p) => {
            conversion.supply_ycbcr(p);
            false
        }
        None => {
            conversion.resume(rss);
            true
        }
    }
}

fn run_batch(batch: &mut BatchConversion) {
    while !batch.is_finished() {
        let planes = batch.ycbcr_request().map(ycbcr_planes);
        match planes {
            Some(p) => batch.supply_ycbcr(p),
            None => batch.resume(None),
        }
    }
}

fn run(mut conversion: Conversion) -> Result<Vec<u8>, Error> {
    while !conversion.is_finished() {
        advance(&mut conversion, None);
    }
    conversion.into_avif()
}

fn run_multi(mut conversion: Conversion) -> Result<Vec<ConversionOutput>, Error> {
    while !conversion.is_finished() {
        advance(&mut conversion, None);
    }
    conversion.into_outputs()
}

fn run_with_readings(mut conversion: Conversion, readings: &[Option<u64>]) -> Result<Vec<u8>, Error> {
    let mut next = 0;
    while !conversion.is_finished() {
        if advance(&mut conversion, readings[next]) {
            next += 1;
        }
    }
    conversion.into_avif()
}

fn make_png(width: u32, height: u32) -> Vec<u8> {
    let img = image::RgbaImage::new(width, height);
    let mut buf = Vec::new();
    img.write_to(&mut std::io::Cursor::new(&mut buf), image::ImageFormat::Png)
        .unwrap();
    buf
}

fn make_jpeg(width: u32, height: u32) -> Vec<u8> {
    let img = image::RgbImage::new(width, height);
    let mut buf = Vec::new();
    img.write_to(&mut std::io::Cursor::new(&mut buf), image::ImageFormat::Jpeg)
        .unwrap();
    buf
}

fn make_webp(width: u32, height: u32) -> Vec<u8> {
    let img = image::RgbaImage::from_pixel(width, height, image::Rgba([100u8, 150, 200, 255]));
    let mut buf = Vec::new();
    img.write_to(&mut std::io::Cursor::new(&mut buf), image::ImageFormat::WebP)
        .unwrap();
    buf
}

fn make_png_16bit(width: u32, height: u32, channel_value: u16) -> Vec<u8> {
    let img: image::ImageBuffer<image::Rgb<u16>, Vec<u16>> =
        image::ImageBuffer::from_pixel(width, height, image::Rgb([channel_value; 3]));
    let mut buf = Vec::new();
    image::DynamicImage::ImageRgb16(img)
        .write_to(&mut std::io::Cursor::new(&mut buf), image::ImageFormat::Png)
        .unwrap();
    buf
}

const FAKE_HEIC: [u8; 20] = [
    0x00, 0x00, 0x00, 0x14, 0x66, 0x74, 0x79, 0x70, 0x68, 0x65, 0x69, 0x63, 0x00, 0x00, 0x00,
    0x00, 0x68, 0x65, 0x69, 0x63,
];

#[test]
fn round_trip_png() {
    let png = make_png(4, 4);
    let converter = Converter::new(Config::default()).unwrap();
    let avif = run(converter.convert(&png)).expect("conversion failed");
    assert!(!avif.is_empty());
}

#[test]
fn rejects_input_too_large() {
    let png = make_png(4, 4);
    let config = Config::default().max_pixels(1);
    let converter = Converter::new(config).unwrap();
    let err = run(converter.convert(&png)).unwrap_err();
    assert!(matches!(err, Error::InputTooLarge { .. }));
}

#[test]
fn rejects_garbage_input() {
    let garbage = b"this is not an image";
    let converter = Converter::new(Config::default()).unwrap();
    let err = run(converter.convert(garbage)).unwrap_err();
    assert!(matches!(
        err,
        Error::Decode(_) | Error::UnsupportedFormat(_) | Error::MemoryExceeded { .. }
    ));
}

#[test]
fn convert_batch_processes_multiple_images() {
    let png1 = make_png(8, 8);
    let png2 = make_png(12, 12);
    let png3 = make_png(16, 16);
    let inputs = vec![png1.as_slice(), png2.as_slice(), png3.as_slice()];
    let converter = Converter::new(Config::default()).unwrap();
    let mut batch = converter.convert_batch(&inputs);
    run_batch(&mut batch);
    let results = batch.into_results();
    assert_eq!(results.len(), 3);
    assert!(results[0].is_ok());
    assert!(results[1].is_ok());
    assert!(results[2].is_ok());
}

#[test]
fn convert_batch_handles_mixed_success_and_failure() {
    let png = make_png(8, 8);
    let garbage = b"not an image";
    let inputs = vec![png.as_slice(), garbage.as_slice(), png.as_slice()];
    let converter = Converter::new(Config::default()).unwrap();
    let mut batch = converter.convert_batch(&inputs);
    run_batch(&mut batch);
    let results = batch.into_results();
    assert_eq!(results.len(), 3);
    assert!(results[0].is_ok());
    assert!(results[1].is_err());
    assert!(results[2].is_ok());
}

#[test]
fn convert_batch_empty_input() {
    let inputs: Vec<&[u8]> = vec![];
    let converter = Converter::new(Config::default()).unwrap();
    let batch = converter.convert_batch(&inputs);
    assert!(batch.is_finished());
    let results = batch.into_results();
    assert_eq!(results.len(), 0);
}

#[test]
fn convert_original_resolution_unchanged() {
    let png = make_png(16, 16);
    let config = Config::default().output_resolutions(vec![OutputResolution::Original]);
    let converter = Converter::new(config).unwrap();
    let avif = run(converter.convert(&png)).expect("conversion failed");
    assert!(!avif.is_empty());
}

#[test]
fn convert_width1080_small_image_not_upscaled() {
    let png = make_png(4, 4);
    let config = Config::default().output_resolutions(vec![OutputResolution::Width1080]);
    let converter = Converter::new(config).unwrap();
    let avif = run(converter.convert(&png)).expect("conversion failed");
    assert!(!avif.is_empty());
}

#[test]
fn convert_empty_output_resolutions_defaults_to_original() {
    let png = make_png(4, 4);
    let config = Config::default().output_resolutions(vec![]);
    let converter = Converter::new(config).unwrap();
    let avif = run(converter.convert(&png)).expect("conversion failed");
    assert!(!avif.is_empty());
}

#[test]
fn convert_multi_single_resolution() {
    let png = make_png(4, 4);
    let config = Config::default().output_resolutions(vec![OutputResolution::Original]);
    let converter = Converter::new(config).unwrap();
    let outputs = run_multi(converter.convert_multi(&png)).expect("convert_multi failed");
    assert_eq!(outputs.len(), 1);
    assert_eq!(outputs[0].resolution, OutputResolution::Original);
    assert!(!outputs[0].data.is_empty());
}

#[test]
fn convert_multi_all_resolutions() {
    let png = make_png(8, 8);
    let config = Config::default().output_resolutions(vec![
        OutputResolution::Original,
        OutputResolution::Width2560,
        OutputResolution::Width1080,
    ]);
    let converter = Converter::new(config).unwrap();
    let outputs = run_multi(converter.convert_multi(&png)).expect("convert_multi failed");
    assert_eq!(outputs.len(), 3);
    assert_eq!(outputs[0].resolution, OutputResolution::Original);
    assert_eq!(outputs[1].resolution, OutputResolution::Width2560);
    assert_eq!(outputs[2].resolution, OutputResolution::Width1080);
    for out in &outputs {
        assert!(
            !out.data.is_empty(),
            "{:?} produced empty output",
            out.resolution
        );
    }
}

#[test]
fn convert_multi_deduplicates_repeated_resolutions() {
    let png = make_png(12, 8);
    let config = Config::default().output_resolutions(vec![
        OutputResolution::Original,
        OutputResolution::Width1080,
        OutputResolution::Width1080,
        OutputResolution::Original,
    ]);
    let converter = Converter::new(config).unwrap();
    let outputs = run_multi(converter.convert_multi(&png)).expect("convert_multi failed");
    assert_eq!(outputs.len(), 4);
    assert_eq!(outputs[0].resolution, OutputResolution::Original);
    assert_eq!(outputs[1].resolution, OutputResolution::Width1080);
    assert_eq!(outputs[2].resolution, OutputResolution::Width1080);
    assert_eq!(outputs[3].resolution, OutputResolution::Original);
    assert_eq!(outputs[1].data, outputs[2].data);
    assert_eq!(outputs[0].data, outputs[3].data);
}

#[test]
fn convert_multi_empty_resolutions_defaults_to_original() {
    let png = make_png(4, 4);
    let config = Config::default().output_resolutions(vec![]);
    let converter = Converter::new(config).unwrap();
    let outputs = run_multi(converter.convert_multi(&png)).expect("convert_multi failed");
    assert_eq!(outputs.len(), 1);
    assert_eq!(outputs[0].resolution, OutputResolution::Original);
}

#[test]
fn convert_multi_propagates_decode_error() {
    let config = Config::default().output_resolutions(vec![
        OutputResolution::Original,
        OutputResolution::Width1080,
    ]);
    let converter = Converter::new(config).unwrap();
    let err = run_multi(converter.convert_multi(b"not an image")).unwrap_err();
    assert!(matches!(
        err,
        Error::Decode(_) | Error::UnsupportedFormat(_) | Error::MemoryExceeded { .. }
    ));
}

#[test]
fn png_converts_to_avif() {
    let converter = Converter::new(Config::default()).unwrap();
    let avif = run(converter.convert(&make_png(64, 64))).expect("PNG → AVIF");
    assert!(!avif.is_empty());
}

#[test]
fn jpeg_converts_to_avif() {
    let converter = Converter::new(Config::default()).unwrap();
    let avif = run(converter.convert(&make_jpeg(64, 64))).expect("JPEG → AVIF");
    assert!(!avif.is_empty());
}

#[test]
fn quality_extremes_round_trip() {
    for q in [1u8, 100] {
        let cfg = Config::default().quality(q).speed(10);
        let converter = Converter::new(cfg).unwrap();
        let avif = run(converter.convert(&make_png(16, 16))).unwrap();
        assert!(!avif.is_empty(), "quality {q} produced empty output");
    }
}

#[test]
fn lambda_cost_preset_works() {
    let converter = Converter::new(Config::lambda_cost_optimized()).unwrap();
    let avif = run(converter.convert(&make_png(32, 32))).unwrap();
    assert!(!avif.is_empty());
}

#[test]
fn preserve_metadata_succeeds_with_warning() {
    let cfg = Config::default().strip_exif(false);
    let converter = Converter::new(cfg).unwrap();
    assert!(!run(converter.convert(&make_png(8, 8))).unwrap().is_empty());
}

#[test]
fn rejects_input_exceeding_byte_limit() {
    let png = make_png(64, 64);
    let cfg = Config::default().max_input_bytes(1);
    let converter = Converter::new(cfg).unwrap();
    let err = run(converter.convert(&png)).unwrap_err();
    assert!(matches!(err, Error::Decode(_)), "got: {err:?}");
}

#[test]
fn rejects_image_exceeding_pixel_limit() {
    let png = make_png(32, 32);
    let cfg = Config::default().max_pixels(100);
    let converter = Converter::new(cfg).unwrap();
    let err = run(converter.convert(&png)).unwrap_err();
    assert!(matches!(err, Error::InputTooLarge { .. }), "got: {err:?}");
}

#[test]
fn garbage_input_never_panics() {
    let converter = Converter::new(Config::default()).unwrap();
    for garbage in &[
        vec![0xDE, 0xAD, 0xBE, 0xEF],
        vec![0x00],
        vec![0xFF; 1024],
        b"not an image".to_vec(),
    ] {
        assert!(run(converter.convert(garbage)).is_err());
    }
}

#[test]
fn empty_input_returns_error() {
    let converter = Converter::new(Config::default()).unwrap();
    assert!(run(converter.convert(&[])).is_err());
}

#[test]
fn png_16bit_produces_avif() {
    let png16 = make_png_16bit(32, 32, 48_000);
    let converter = Converter::new(Config::default()).unwrap();
    let avif = run(converter.convert(&png16)).expect("16-bit PNG → AVIF conversion failed");
    assert!(!avif.is_empty(), "16-bit PNG produced empty AVIF output");
}

#[test]
fn png_16bit_dark_and_bright_both_succeed() {
    for value in [0u16, 32768, 65535] {
        let png = make_png_16bit(8, 8, value);
        let converter = Converter::new(Config::default()).unwrap();
        let avif = run(converter.convert(&png))
            .unwrap_or_else(|e| panic!("16-bit PNG (value={value}) failed: {e:?}"));
        assert!(!avif.is_empty(), "value={value} produced empty output");
    }
}

#[test]
fn alpha_quality_setting_is_accepted() {
    let cfg = Config::default().quality(8).alpha_quality(10);
    assert_eq!(cfg.alpha_quality, 10);
    let converter = Converter::new(cfg).unwrap();
    let avif = run(converter.convert(&make_png(16, 16))).expect("alpha_quality=10 conversion failed");
    assert!(!avif.is_empty());
}

#[test]
fn heic_without_feature_returns_unsupported_format() {
    let converter = Converter::new(Config::default()).unwrap();
    let err = run(converter.convert(&FAKE_HEIC)).unwrap_err();
    assert!(
        matches!(err, Error::UnsupportedFormat(_) | Error::Decode(_)),
        "expected UnsupportedFormat or Decode, got: {err:?}"
    );
    if let Error::UnsupportedFormat(msg) = &err {
        assert!(
            msg.contains("heic-experimental") || msg.contains("strip_exif"),
            "UnsupportedFormat message should mention 'heic-experimental' or 'strip_exif', got: {msg}"
        );
    }
}

#[test]
fn strip_exif_true_with_unsupported_format_returns_error() {
    let converter = Converter::new(Config::default()).unwrap();
    let err = run(converter.convert(&FAKE_HEIC)).unwrap_err();
    assert!(
        matches!(err, Error::UnsupportedFormat(_) | Error::Decode(_)),
        "expected UnsupportedFormat or Decode for HEIC with strip_exif=true, got: {err:?}"
    );
}

#[test]
fn strip_exif_false_with_heic_format_does_not_error_at_strip_step() {
    let converter = Converter::new(Config::default().strip_exif(false)).unwrap();
    let err = run(converter.convert(&FAKE_HEIC)).unwrap_err();
    assert!(
        matches!(err, Error::UnsupportedFormat(_) | Error::Decode(_)),
        "expected UnsupportedFormat or Decode, got: {err:?}"
    );
    if let Error::UnsupportedFormat(msg) = &err {
        assert!(
            !msg.contains("strip_exif"),
            "error should not mention strip_exif when stripping is disabled, got: {msg}"
        );
    }
}

#[test]
fn webp_converts_to_avif() {
    let converter = Converter::new(Config::default()).unwrap();
    let avif = run(converter.convert(&make_webp(32, 32))).expect("WebP → AVIF");
    assert!(!avif.is_empty());
}

#[test]
fn webp_strip_exif_true_does_not_error() {
    let converter = Converter::new(Config::default().strip_exif(true)).unwrap();
    let avif = run(converter.convert(&make_webp(16, 16))).expect("WebP strip_exif=true → AVIF");
    assert!(!avif.is_empty());
}

#[test]
fn one_by_one_pixel_converts() {
    let converter = Converter::new(Config::default()).unwrap();
    let avif = run(converter.convert(&make_png(1, 1))).expect("1×1 PNG → AVIF");
    assert!(!avif.is_empty());
}

#[test]
fn one_pixel_wide_tall_image() {
    let converter = Converter::new(Config::default()).unwrap();
    let avif = run(converter.convert(&make_png(1, 512))).expect("1×512 PNG → AVIF");
    assert!(!avif.is_empty());
}

#[test]
fn one_pixel_tall_wide_image() {
    let converter = Converter::new(Config::default()).unwrap();
    let avif = run(converter.convert(&make_png(512, 1))).expect("512×1 PNG → AVIF");
    assert!(!avif.is_empty());
}

#[test]
fn width1080_on_wide_flat_image_preserves_height_of_one() {
    let cfg = Config::default().output_resolutions(vec![OutputResolution::Width1080]);
    let converter = Converter::new(cfg).unwrap();
    let avif = run(converter.convert(&make_png(2000, 1))).expect("2000×1 PNG → 1080 AVIF");
    assert!(!avif.is_empty());
}

#[test]
fn quality_zero_via_direct_field_still_encodes() {
    let cfg = Config {
        quality: 0,
        ..Config::default()
    };
    let converter = Converter::new(cfg).unwrap();
    let avif = run(converter.convert(&make_png(8, 8))).expect("quality=0 should not panic");
    assert!(!avif.is_empty());
}

#[test]
fn speed_zero_via_direct_field_still_encodes() {
    let cfg = Config {
        speed: 0,
        ..Config::default()
    };
    let converter = Converter::new(cfg).unwrap();
    let avif = run(converter.convert(&make_png(8, 8))).expect("speed=0 should not panic");
    assert!(!avif.is_empty());
}

#[test]
fn alpha_quality_zero_via_direct_field_still_encodes() {
    let cfg = Config {
        alpha_quality: 0,
        ..Config::default()
    };
    let converter = Converter::new(cfg).unwrap();
    let avif = run(converter.convert(&make_png(8, 8))).expect("alpha_quality=0 should not panic");
    assert!(!avif.is_empty());
}

#[test]
fn truncated_webp_returns_error() {
    let truncated: &[u8] = b"RIFF\x00\x00\x00\x00WEBP";
    let converter = Converter::new(Config::default()).unwrap();
    assert!(run(converter.convert(truncated)).is_err());
}

#[test]
fn convert_multi_returns_error_on_bad_input() {
    let cfg = Config::default().output_resolutions(vec![
        OutputResolution::Original,
        OutputResolution::Width1080,
    ]);
    let converter = Converter::new(cfg).unwrap();
    let err = run_multi(converter.convert_multi(b"garbage")).unwrap_err();
    assert!(matches!(err, Error::Decode(_) | Error::UnsupportedFormat(_)));
}

// ---------------------------------------------------------------------------
// Memory checkpoints
// ---------------------------------------------------------------------------

const MIB: u64 = 1024 * 1024;

#[test]
fn oversized_input_is_rejected_before_any_reading() {
    let png = make_png(8, 8);
    let converter = Converter::new(Config::default().max_input_bytes(10)).unwrap();
    let conversion = converter.convert(&png);
    assert!(conversion.is_finished());
    assert!(matches!(conversion.into_avif(), Err(Error::Decode(_))));
}

#[test]
fn convert_takes_three_readings() {
    let png = make_png(8, 8);
    let converter = Converter::new(Config::default()).unwrap();
    let mut conversion = converter.convert(&png);
    let mut count = 0;
    while !conversion.is_finished() {
        if advance(&mut conversion, Some(100 * MIB)) {
            count += 1;
        }
    }
    assert_eq!(count, 3);
    assert!(conversion.into_avif().is_ok());
}

#[test]
fn growth_before_decoding_aborts() {
    let png = make_png(8, 8);
    let converter = Converter::new(Config::default().memory_limit_bytes(10 * MIB)).unwrap();
    let err = run_with_readings(
        converter.convert(&png),
        &[Some(100 * MIB), Some(120 * MIB), Some(120 * MIB)],
    )
    .unwrap_err();
    assert!(matches!(err, Error::MemoryExceeded { used_mb: 20, limit_mb: 10 }), "got {err:?}");
}

#[test]
fn growth_after_decoding_aborts() {
    let png = make_png(8, 8);
    let converter = Converter::new(Config::default().memory_limit_bytes(10 * MIB)).unwrap();
    let err = run_with_readings(
        converter.convert(&png),
        &[Some(100 * MIB), Some(101 * MIB), Some(130 * MIB)],
    )
    .unwrap_err();
    assert!(matches!(err, Error::MemoryExceeded { used_mb: 30, limit_mb: 10 }), "got {err:?}");
}

#[test]
fn memory_guard_checks_come_before_format_errors() {
    let converter = Converter::new(Config::default().memory_limit_bytes(0)).unwrap();
    let err = run_with_readings(converter.convert(b"garbage"), &[Some(5), Some(5), Some(5)])
        .unwrap_err();
    assert!(matches!(err, Error::MemoryExceeded { .. }), "got {err:?}");
}

#[test]
fn convert_multi_takes_two_readings_per_distinct_resolution() {
    let png = make_png(8, 8);
    let cfg = Config::default().output_resolutions(vec![
        OutputResolution::Original,
        OutputResolution::Width1080,
        OutputResolution::Original,
    ]);
    let converter = Converter::new(cfg).unwrap();
    let mut conversion = converter.convert_multi(&png);
    let mut count = 0;
    while !conversion.is_finished() {
        if advance(&mut conversion, Some(50 * MIB)) {
            count += 1;
        }
    }
    assert_eq!(count, 4 + 2 * 2);
    assert_eq!(conversion.into_outputs().unwrap().len(), 3);
}

#[test]
fn multi_output_matches_single_conversion() {
    let png = make_png(12, 8);
    let cfg = Config::default().output_resolutions(vec![
        OutputResolution::Width1080,
        OutputResolution::Original,
    ]);
    let converter = Converter::new(cfg).unwrap();
    let outputs = run_multi(converter.convert_multi(&png)).unwrap();
    let single = Converter::new(Config::default().output_resolutions(vec![OutputResolution::Original]))
        .unwrap();
    let avif = run(single.convert(&png)).unwrap();
    assert_eq!(outputs[1].data, avif);
}

#[test]
fn unstrippable_format_error_mentions_strip_exif() {
    let converter = Converter::new(Config::default()).unwrap();
    match run(converter.convert(b"GIF89a0000000000")) {
        Err(Error::UnsupportedFormat(msg)) => assert!(msg.contains("strip_exif")),
        other => panic!("expected UnsupportedFormat, got {other:?}"),
    }
}

#[test]
fn recognised_but_undecoded_format_is_unsupported() {
    let converter = Converter::new(Config::default().strip_exif(false)).unwrap();
    match run(converter.convert(b"GIF89a0000000000")) {
        Err(Error::UnsupportedFormat(msg)) => assert!(msg.contains("Gif")),
        other => panic!("expected UnsupportedFormat, got {other:?}"),
    }
}

#[test]
fn unknown_format_without_stripping_is_a_decode_error() {
    let converter = Converter::new(Config::default().strip_exif(false)).unwrap();
    match run(converter.convert(b"this is not an image")) {
        Err(Error::Decode(msg)) => assert!(msg.starts_with("unknown format: ")),
        other => panic!("expected Decode, got {other:?}"),
    }
}

#[test]
fn input_too_large_message_gives_both_sizes() {
    let c = Converter::new(Config::default().max_input_bytes(3).memory_limit_bytes(u64::MAX)).unwrap();
    match run(c.convert(b"abcd")) {
        Err(Error::Decode(m)) => assert_eq!(m, "input too large: 4 bytes exceeds the 3-byte limit"),
        other => panic!("expected a decode error, got {other:?}"),
    }
    assert!(matches!(run(c.convert(b"abc")), Err(Error::UnsupportedFormat(_))));
}

#[test]
fn unstrippable_format_message_is_exact() {
    let c = Converter::new(Config::default()).unwrap();
    match run(c.convert(b"not an image at all")) {
        Err(Error::UnsupportedFormat(m)) => assert_eq!(
            m,
            "EXIF stripping is not supported for this image format; use strip_exif(false) to convert without stripping metadata"
        ),
        other => panic!("expected UnsupportedFormat, got {other:?}"),
    }
}

#[test]
fn garbage_multi_conversion_fails_at_the_format_step() {
    let cfg = Config::default()
        .output_resolutions(vec![OutputResolution::Original, OutputResolution::Width1080]);
    let c = Converter::new(cfg).unwrap();
    let mut conversion = c.convert_multi(b"garbage");
    let mut readings = 0;
    while !conversion.is_finished() {
        if advance(&mut conversion, None) {
            readings += 1;
        }
    }
    assert_eq!(readings, 2);
    assert!(matches!(
        conversion.into_outputs(),
        Err(Error::Decode(_) | Error::UnsupportedFormat(_))
    ));
}

#[test]
fn png_16bit_conversion_asks_for_the_planes_of_the_decoded_image() {
    let png = make_png_16bit(6, 4, 40_000);
    let converter = Converter::new(Config::default()).unwrap();
    let mut conversion = converter.convert(&png);
    let mut asked = 0;
    while !conversion.is_finished() {
        if let Some(img) = conversion.ycbcr_request() {
            assert_eq!((img.width, img.height), (6, 4));
            match &img.pixels {
                Pixels::Rgba16(px) => assert_eq!(&px[0..4], &[40_000, 40_000, 40_000, 65535]),
                Pixels::Rgba8(_) => panic!("a 16-bit PNG keeps 16-bit samples"),
            }
            asked += 1;
        }
        assert_eq!(conversion.wants_ycbcr(), conversion.ycbcr_request().is_some());
        advance(&mut conversion, None);
    }
    assert_eq!(asked, 1);
    assert!(conversion.into_avif().is_ok());
}

#[test]
fn eight_bit_conversion_never_asks_for_planes() {
    let png = make_png(6, 4);
    let converter = Converter::new(Config::default()).unwrap();
    let mut conversion = converter.convert(&png);
    while !conversion.is_finished() {
        assert!(!conversion.wants_ycbcr());
        conversion.resume(None);
    }
    assert!(conversion.into_avif().is_ok());
}

#[test]
fn png_16bit_multi_output_asks_planes_per_distinct_resolution() {
    let png = make_png_16bit(10, 6, 12_345);
    let cfg = Config::default().output_resolutions(vec![
        OutputResolution::Original,
        OutputResolution::Width1080,
        OutputResolution::Original,
    ]);
    let converter = Converter::new(cfg).unwrap();
    let mut conversion = converter.convert_multi(&png);
    let mut asked = 0;
    while !conversion.is_finished() {
        if !advance(&mut conversion, None) {
            asked += 1;
        }
    }
    assert_eq!(asked, 2);
    let outputs = conversion.into_outputs().unwrap();
    assert_eq!(outputs.len(), 3);
    assert_eq!(outputs[0].data, outputs[2].data);
    let single = Converter::new(Config::default()).unwrap();
    assert_eq!(run(single.convert(&png)).unwrap(), outputs[0].data);
}

#[test]
fn png_16bit_in_a_batch_converts() {
    let png16 = make_png_16bit(8, 8, 50_000);
    let png8 = make_png(8, 8);
    let inputs = vec![png16.as_slice(), png8.as_slice()];
    let converter = Converter::new(Config::default()).unwrap();
    let mut batch = converter.convert_batch(&inputs);
    run_batch(&mut batch);
    let results = batch.into_results();
    assert_eq!(results.len(), 2);
    assert_eq!(results[0].as_ref().unwrap(), &run(converter.convert(&png16)).unwrap());
    assert!(results[1].is_ok());
}
