//! # img4avif
//!
//! Converts JPEG, PNG and WebP images to AVIF with the `rav1e` AV1 encoder,
//! with guards against oversized input, decompression bombs and memory
//! exhaustion.
//!
//! A conversion is driven step by step: [`Converter::convert`] returns a
//! [`pipeline::Conversion`] that asks, at each memory checkpoint, for the
//! current resident set size; the caller reads it (or passes `None` where
//! it cannot be read) and resumes the conversion until it is finished.
//!
//! ## Security model
//!
//! - **Input-size cap** ([`Config::max_input_bytes`]): rejected before any
//!   byte is decompressed.
//! - **Decompression-bomb protection** ([`Config::max_pixels`]): dimensions
//!   are read from the header and checked first; the decoder may allocate
//!   at most `max_pixels × 8 + 64 MiB`.
//! - **Memory guard** ([`Config::memory_limit_bytes`]): the growth of the
//!   resident set is checked before and after decoding.

pub mod config;
pub mod decoder;
pub mod encoder;
pub mod error;
pub mod memory_guard;
pub mod metadata;
pub mod pipeline;
pub mod resize;
pub mod rss;

pub use config::Config;
pub use error::Error;
pub use memory_guard::MemoryGuard;
pub use pipeline::{BatchConversion, Conversion, ConversionOutput, Converter};
pub use resize::OutputResolution;
