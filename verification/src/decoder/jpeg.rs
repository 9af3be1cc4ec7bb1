//! JPEG decoder handle.

use vstd::prelude::*;

verus! {

/// JPEG-specific decoder handle: a named extension point for JPEG-specific
/// pre-processing. All decoding goes through [`super::decode`] today.
pub struct JpegDecoder;

} // verus!
