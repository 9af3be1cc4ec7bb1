//! WEBP decoder handle.

use vstd::prelude::*;

verus! {

/// WEBP-specific decoder handle: a named extension point for WEBP-specific
/// pre-processing. All decoding goes through [`super::decode`] today.
pub struct WebpDecoder;

} // verus!
