//! PNG decoder handle.

use vstd::prelude::*;

verus! {

/// PNG-specific decoder handle: a named extension point for PNG-specific
/// pre-processing. All decoding goes through [`super::decode`] today.
pub struct PngDecoder;

} // verus!
