//! Conversion settings.

use vstd::prelude::*;

use crate::resize::OutputResolution;

verus! {

/// `v` brought into `lo ..= hi` (requires `lo <= hi`).
pub open spec fn clamp_spec(v: u8, lo: u8, hi: u8) -> u8 {
    if v < lo {
        lo
    } else if v > hi {
        hi
    } else {
        v
    }
}

/// Clamp a setting into `lo ..= hi`.
pub fn clamp_u8(v: u8, lo: u8, hi: u8) -> (r: u8)
    requires
        lo <= hi,
    ensures
        r == clamp_spec(v, lo, hi),
        lo <= r <= hi,
{
    if v < lo {
        lo
    } else if v > hi {
        hi
    } else {
        v
    }
}

/// One mebibyte.
pub const MIB: u64 = 1048576;

/// Default cap on the raw input size: 100 MiB.
pub const DEFAULT_MAX_INPUT_BYTES: u64 = 104857600;

/// Default cap on the decoded pixel count: 16 384 × 16 384.
pub const DEFAULT_MAX_PIXELS: u64 = 268435456;

/// Default budget for the growth of the resident set: 512 MiB.
pub const DEFAULT_MEMORY_LIMIT_BYTES: u64 = 536870912;

/// Input cap of the Lambda preset: 50 MiB.
pub const LAMBDA_MAX_INPUT_BYTES: u64 = 52428800;

/// Configuration for the AVIF converter.
///
/// | Field | Default |
/// |-------|---------|
/// | `quality` | `8` |
/// | `alpha_quality` | `8` |
/// | `speed` | `6` |
/// | `strip_exif` | `true` |
/// | `max_input_bytes` | 100 MiB |
/// | `max_pixels` | 16 384 × 16 384 |
/// | `memory_limit_bytes` | 512 MiB |
/// | `output_resolutions` | `[Original]` |
#[derive(Debug, Clone, PartialEq, Eq)]
pub struct Config {
    /// Encoding quality 1 – 10 (higher = better quality, larger file).
    pub quality: u8,
    /// Alpha-channel encoding quality 1 – 10.
    pub alpha_quality: u8,
    /// Encoder speed 1 – 10 (higher = faster, slightly larger file).
    pub speed: u8,
    /// Strip EXIF, ICC, IPTC and XMP metadata before decoding.
    pub strip_exif: bool,
    /// Maximum raw input size in bytes (`u64::MAX` disables the check).
    pub max_input_bytes: u64,
    /// Maximum decoded pixel count, width × height (`u64::MAX` disables it).
    pub max_pixels: u64,
    /// Budget for the growth of the resident set, in bytes (`u64::MAX` disables it).
    pub memory_limit_bytes: u64,
    /// Which output resolution(s) to produce: `convert` uses the first
    /// (`Original` when empty), `convert_multi` all of them.
    pub output_resolutions: Vec<OutputResolution>,
}

impl Config {
    /// The configuration's fields other than the resolution list, as a tuple:
    /// quality, alpha quality, speed, strip flag, input cap, pixel cap, memory budget.
    pub open spec fn scalars(&self) -> (u8, u8, u8, bool, u64, u64, u64) {
        (
            self.quality,
            self.alpha_quality,
            self.speed,
            self.strip_exif,
            self.max_input_bytes,
            self.max_pixels,
            self.memory_limit_bytes,
        )
    }

    /// The settings of `Config::default()`.
    pub open spec fn is_default(&self) -> bool {
        &&& self.scalars() == (8u8, 8u8, 6u8, true, DEFAULT_MAX_INPUT_BYTES, DEFAULT_MAX_PIXELS,
            DEFAULT_MEMORY_LIMIT_BYTES)
        &&& self.output_resolutions@ == seq![OutputResolution::Original]
    }

    /// Set the colour-channel encoding quality, clamped into 1 – 10.
    pub fn quality(self, q: u8) -> (r: Self)
        ensures
            r.quality == clamp_spec(q, 1, 10),
            1 <= r.quality <= 10,
            r == (Config { quality: r.quality, ..self }),
    {
        Config { quality: clamp_u8(q, 1, 10), ..self }
    }

    /// Set the alpha-channel encoding quality, clamped into 1 – 10.
    pub fn alpha_quality(self, q: u8) -> (r: Self)
        ensures
            r.alpha_quality == clamp_spec(q, 1, 10),
            1 <= r.alpha_quality <= 10,
            r == (Config { alpha_quality: r.alpha_quality, ..self }),
    {
        Config { alpha_quality: clamp_u8(q, 1, 10), ..self }
    }

    /// Set the encoder speed, clamped into 1 – 10.
    pub fn speed(self, s: u8) -> (r: Self)
        ensures
            r.speed == clamp_spec(s, 1, 10),
            1 <= r.speed <= 10,
            r == (Config { speed: r.speed, ..self }),
    {
        Config { speed: clamp_u8(s, 1, 10), ..self }
    }

    /// Strip (`true`) or keep (`false`) metadata.
    pub fn strip_exif(self, strip: bool) -> (r: Self)
        ensures
            r == (Config { strip_exif: strip, ..self }),
    {
        Config { strip_exif: strip, ..self }
    }

    /// Maximum input size in bytes.
    pub fn max_input_bytes(self, bytes: u64) -> (r: Self)
        ensures
            r == (Config { max_input_bytes: bytes, ..self }),
    {
        Config { max_input_bytes: bytes, ..self }
    }

    /// Maximum decoded pixel count.
    pub fn max_pixels(self, p: u64) -> (r: Self)
        ensures
            r == (Config { max_pixels: p, ..self }),
    {
        Config { max_pixels: p, ..self }
    }

    /// Budget for the growth of the resident set, in bytes.
    pub fn memory_limit_bytes(self, bytes: u64) -> (r: Self)
        ensures
            r == (Config { memory_limit_bytes: bytes, ..self }),
    {
        Config { memory_limit_bytes: bytes, ..self }
    }

    /// Set which output resolution(s) to produce.
    pub fn output_resolutions(self, resolutions: Vec<OutputResolution>) -> (r: Self)
        ensures
            r.scalars() == self.scalars(),
            r.output_resolutions@ == resolutions@,
    {
        Config { output_resolutions: resolutions, ..self }
    }

    /// Preset for minimum Lambda cost: speed 10, quality 8, metadata
    /// stripped, 50 MiB input cap, 512 MiB memory budget.
    pub fn lambda_cost_optimized() -> (r: Self)
        ensures
            r.scalars() == (8u8, 8u8, 10u8, true, LAMBDA_MAX_INPUT_BYTES, DEFAULT_MAX_PIXELS,
                DEFAULT_MEMORY_LIMIT_BYTES),
            r.output_resolutions@ == seq![OutputResolution::Original],
    {
        Config {
            quality: 8,
            alpha_quality: 8,
            speed: 10,
            strip_exif: true,
            max_input_bytes: LAMBDA_MAX_INPUT_BYTES,
            max_pixels: DEFAULT_MAX_PIXELS,
            memory_limit_bytes: DEFAULT_MEMORY_LIMIT_BYTES,
            output_resolutions: vec![OutputResolution::Original],
        }
    }
}

impl Default for Config {
    fn default() -> (r: Self)
        ensures
            r.is_default(),
    {
        let r = Config {
            quality: 8,
            alpha_quality: 8,
            speed: 6,
            strip_exif: true,
            max_input_bytes: DEFAULT_MAX_INPUT_BYTES,
            max_pixels: DEFAULT_MAX_PIXELS,
            memory_limit_bytes: DEFAULT_MEMORY_LIMIT_BYTES,
            output_resolutions: vec![OutputResolution::Original],
        };
        assert(r.output_resolutions@ == seq![OutputResolution::Original]);
        r
    }
}

/// Clamping into `lo ..= hi` leaves a value in the range as it is, and
/// sends one below it to `lo` and one above it to `hi`: a builder given 0
/// stores 1, one given 11 or more stores 10, and one given 1 – 10 stores
/// that value.
pub proof fn lemma_clamp_keeps_values_in_range(v: u8, lo: u8, hi: u8)
    requires
        lo <= hi,
    ensures
        lo <= v <= hi ==> clamp_spec(v, lo, hi) == v,
        v < lo ==> clamp_spec(v, lo, hi) == lo,
        v > hi ==> clamp_spec(v, lo, hi) == hi,
{
}

} // verus!
