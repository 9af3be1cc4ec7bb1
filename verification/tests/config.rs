//! Tests of the configuration builder.

use img4avif::config::{DEFAULT_MAX_INPUT_BYTES, DEFAULT_MAX_PIXELS, DEFAULT_MEMORY_LIMIT_BYTES};
use img4avif::{Config, Converter, OutputResolution};

#[test]
fn config_builder_clamps_values() {
    let cfg = Config::default().quality(200).alpha_quality(200).speed(99);
    assert_eq!(cfg.quality, 10);
    assert_eq!(cfg.alpha_quality, 10);
    assert_eq!(cfg.speed, 10);
    let cfg_low = Config::default().quality(0).alpha_quality(0);
    assert_eq!(cfg_low.quality, 1);
    assert_eq!(cfg_low.alpha_quality, 1);
}

#[test]
fn config_accessor() {
    let cfg = Config::default().quality(5);
    let converter = Converter::new(cfg).unwrap();
    assert_eq!(converter.config().quality, 5);
}

#[test]
fn strip_exif_default_is_true() {
    assert!(Config::default().strip_exif);
}

#[test]
fn config_quality_clamped() {
    assert_eq!(Config::default().quality(0).quality, 1);
    assert_eq!(Config::default().quality(200).quality, 10);
}

#[test]
fn config_speed_clamped() {
    assert_eq!(Config::default().speed(0).speed, 1);
    assert_eq!(Config::default().speed(99).speed, 10);
}

#[test]
fn config_is_clone() {
    let a = Config::default().quality(5);
    assert_eq!(a.clone().quality, 5);
}

#[test]
fn config_alpha_quality_clamped() {
    assert_eq!(Config::default().alpha_quality(0).alpha_quality, 1);
    assert_eq!(Config::default().alpha_quality(200).alpha_quality, 10);
}

#[test]
fn converter_exposes_config() {
    let cfg = Config::default().quality(8);
    assert_eq!(Converter::new(cfg).unwrap().config().quality, 8);
}

#[test]
fn config_defaults() {
    let cfg = Config::default();
    assert_eq!(cfg.quality, 8);
    assert_eq!(cfg.alpha_quality, 8);
    assert_eq!(cfg.speed, 6);
    assert_eq!(cfg.max_input_bytes, 100 * 1024 * 1024);
    assert_eq!(cfg.max_input_bytes, DEFAULT_MAX_INPUT_BYTES);
    assert_eq!(cfg.max_pixels, 16_384 * 16_384);
    assert_eq!(cfg.max_pixels, DEFAULT_MAX_PIXELS);
    assert_eq!(cfg.memory_limit_bytes, 512 * 1024 * 1024);
    assert_eq!(cfg.memory_limit_bytes, DEFAULT_MEMORY_LIMIT_BYTES);
    assert_eq!(cfg.output_resolutions, vec![OutputResolution::Original]);
}

#[test]
fn lambda_preset_values() {
    let cfg = Config::lambda_cost_optimized();
    assert_eq!(cfg.quality, 8);
    assert_eq!(cfg.alpha_quality, 8);
    assert_eq!(cfg.speed, 10);
    assert!(cfg.strip_exif);
    assert_eq!(cfg.max_input_bytes, 50 * 1024 * 1024);
    assert_eq!(cfg.max_pixels, 16_384 * 16_384);
    assert_eq!(cfg.memory_limit_bytes, 512 * 1024 * 1024);
    assert_eq!(cfg.output_resolutions, vec![OutputResolution::Original]);
}

#[test]
fn setters_change_only_their_field() {
    let cfg = Config::default()
        .strip_exif(false)
        .max_input_bytes(7)
        .max_pixels(9)
        .memory_limit_bytes(11)
        .quality(3)
        .alpha_quality(4)
        .speed(5)
        .output_resolutions(vec![OutputResolution::Width1080, OutputResolution::Width2560]);
    assert!(!cfg.strip_exif);
    assert_eq!(cfg.max_input_bytes, 7);
    assert_eq!(cfg.max_pixels, 9);
    assert_eq!(cfg.memory_limit_bytes, 11);
    assert_eq!((cfg.quality, cfg.alpha_quality, cfg.speed), (3, 4, 5));
    assert_eq!(
        cfg.output_resolutions,
        vec![OutputResolution::Width1080, OutputResolution::Width2560]
    );
}

#[test]
fn converter_from_config() {
    let converter = Converter::from(Config::default().speed(9));
    assert_eq!(converter.config().speed, 9);
    let converter: Converter = Config::default().quality(2).into();
    assert_eq!(converter.config().quality, 2);
}
