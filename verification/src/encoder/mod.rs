//! AVIF encoding.

pub mod rav1e_wrapper;

pub use rav1e_wrapper::{encode_avif, validate_avif_output};
