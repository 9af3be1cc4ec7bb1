//! Image decoding: raw bytes → [`RawImage`].
//!
//! The format is sniffed from magic bytes, never from a file name.

use vstd::prelude::*;

use vstd::string::StringExecFns;

use image::DynamicImage::{ImageLuma16, ImageLumaA16, ImageRgb16, ImageRgba16};
use image::{ImageFormat, ImageReader, Limits};
use std::io::Cursor;

use crate::config::MIB;
use crate::error::{Error, ErrorKind};

pub mod jpeg;
pub mod png;
pub mod webp;

verus! {

/// The samples of a decoded image, row-major RGBA.
#[derive(Debug, Clone)]
pub enum Pixels {
    /// 8 bits per channel.
    Rgba8(Vec<u8>),
    /// 16 bits per channel, from 16-bit sources such as 16-bit PNG.
    Rgba16(Vec<u16>),
}

/// The samples of an image as values.
pub enum PixelData {
    /// 8 bits per channel.
    Rgba8(Seq<u8>),
    /// 16 bits per channel.
    Rgba16(Seq<u16>),
}

impl View for Pixels {
    type V = PixelData;

    open spec fn view(&self) -> PixelData {
        match self {
            Pixels::Rgba8(v) => PixelData::Rgba8(v@),
            Pixels::Rgba16(v) => PixelData::Rgba16(v@),
        }
    }
}

/// The number of samples (four per pixel).
pub open spec fn sample_count(px: PixelData) -> int {
    match px {
        PixelData::Rgba8(s) => s.len() as int,
        PixelData::Rgba16(s) => s.len() as int,
    }
}

/// A decoded image: row-major RGBA, 8 or 16 bits per channel.
#[derive(Debug, Clone)]
pub struct RawImage {
    /// Width in pixels.
    pub width: u32,
    /// Height in pixels.
    pub height: u32,
    /// Pixel data: `width × height × 4` samples, row-major RGBA.
    pub pixels: Pixels,
}

/// An image as a value: width, height and RGBA samples.
pub type ImageView = (u32, u32, PixelData);

/// Whether `(width, height, pixels)` holds exactly `width × height` RGBA pixels.
pub open spec fn image_wf(img: ImageView) -> bool {
    sample_count(img.2) == img.0 as int * img.1 as int * 4
}

/// Some pixel of the RGBA bytes `px` has an alpha value other than 255.
pub open spec fn rgba_has_transparency(px: Seq<u8>) -> bool {
    exists|k: int| 0 <= k && 4 * k + 3 < px.len() && #[trigger] px[4 * k + 3] != 255
}

/// Some pixel of the 16-bit RGBA samples `px` has an alpha value other than
/// 65535.
pub open spec fn rgba16_has_transparency(px: Seq<u16>) -> bool {
    exists|k: int| 0 <= k && 4 * k + 3 < px.len() && #[trigger] px[4 * k + 3] != 65535
}

/// Some pixel is not fully opaque.
pub open spec fn has_transparent_pixel(px: PixelData) -> bool {
    match px {
        PixelData::Rgba8(s) => rgba_has_transparency(s),
        PixelData::Rgba16(s) => rgba16_has_transparency(s),
    }
}

impl View for RawImage {
    type V = ImageView;

    open spec fn view(&self) -> ImageView {
        (self.width, self.height, self.pixels@)
    }
}

/// Whether some alpha sample of `px` is not 255.
fn rgba8_has_transparency(px: &Vec<u8>) -> (r: bool)
    ensures
        r == rgba_has_transparency(px@),
{
    let len = px.len();
    let mut i: usize = 3;
    while i < len
        invariant
            len == px@.len(),
            i >= 3,
            i <= len + 3,
            (i - 3) % 4 == 0,
            forall|k: int| 0 <= k && 4 * k + 3 < i ==> #[trigger] px@[4 * k + 3] == 255,
        decreases len + 3 - i,
    {
        if px[i] != 255 {
            assert(px@[4 * ((i - 3) / 4) + 3] != 255);
            return true;
        }
        if i > usize::MAX - 4 {
            assert forall|k: int| 0 <= k && 4 * k + 3 < len implies #[trigger] px@[4 * k + 3] == 255 by {
                assert(4 * k + 3 <= i);
            }
            return false;
        }
        i = i + 4;
    }
    false
}

/// Whether some alpha sample of `px` is not 65535.
fn rgba16_samples_have_transparency(px: &Vec<u16>) -> (r: bool)
    ensures
        r == rgba16_has_transparency(px@),
{
    let len = px.len();
    let mut i: usize = 3;
    while i < len
        invariant
            len == px@.len(),
            i >= 3,
            i <= len + 3,
            (i - 3) % 4 == 0,
            forall|k: int| 0 <= k && 4 * k + 3 < i ==> #[trigger] px@[4 * k + 3] == 65535,
        decreases len + 3 - i,
    {
        if px[i] != 65535 {
            assert(px@[4 * ((i - 3) / 4) + 3] != 65535);
            return true;
        }
        if i > usize::MAX - 4 {
            assert forall|k: int| 0 <= k && 4 * k + 3 < len implies #[trigger] px@[4 * k + 3] == 65535 by {
                assert(4 * k + 3 <= i);
            }
            return false;
        }
        i = i + 4;
    }
    false
}

impl RawImage {
    /// The pixel buffer holds exactly `width × height` RGBA pixels.
    pub open spec fn wf(&self) -> bool {
        image_wf(self@)
    }

    /// Whether any pixel is not fully opaque (alpha below the maximum of its
    /// depth: 255, or 65535 for 16-bit samples).
    pub fn has_transparency(&self) -> (r: bool)
        ensures
            r == has_transparent_pixel(self.pixels@),
    {
        match &self.pixels {
            Pixels::Rgba8(px) => rgba8_has_transparency(px),
            Pixels::Rgba16(px) => rgba16_samples_have_transparency(px),
        }
    }
}

/// A decoder for one format.
///
/// Every format goes through [`decode`] today; this trait is the extension
/// point for format-specific pre-processing.
pub trait Decoder {
    /// Decode `data` into a [`RawImage`].
    fn decode(&self, data: &[u8]) -> Result<RawImage, crate::error::Error>;
}

/// The formats that `decode` hands to the `image` crate's decoders.
#[derive(Debug, Clone, Copy, PartialEq, Eq, Structural)]
pub enum DecodableFormat {
    /// JPEG.
    Jpeg,
    /// PNG (8- and 16-bit).
    Png,
    /// WebP.
    WebP,
}

/// What `image::guess_format` finds in `data`: `None` when no format
/// matches its magic bytes, `Some(None)` for a format that is recognised
/// but not decoded here (HEIC/AVIF, GIF, …), `Some(Some(f))` otherwise.
pub uninterp spec fn image_guess_format(data: Seq<u8>) -> Option<Option<DecodableFormat>>;

/// The width and height that the `image` decoder for `format` reads from
/// the header of `data`, or `None` when it fails.
pub uninterp spec fn image_header_dimensions(data: Seq<u8>, format: DecodableFormat) -> Option<
    (u32, u32),
>;

/// The image that the `image` decoder for `format` produces from `data`
/// with the allocation limit `max_alloc`, as RGBA with 16-bit samples for a
/// 16-bit source and 8-bit samples otherwise; `None` when it fails.
pub uninterp spec fn image_decode_pixels(data: Seq<u8>, format: DecodableFormat, max_alloc: u64) -> Option<
    ImageView,
>;

/// Calls `image::guess_format`. Claimed: the result is the named
/// `image_guess_format` of `data`. The `String` beside a recognised
/// format that is not decoded here is its `Debug` name; an error becomes
/// its `Display` text.
#[verifier::external_body]
fn guess_format(data: &[u8]) -> (r: Result<Result<DecodableFormat, String>, String>)
    ensures
        match r {
            Ok(Ok(f)) => image_guess_format(data@) == Some(Some(f)),
            Ok(Err(_)) => image_guess_format(data@) == Some(None::<DecodableFormat>),
            Err(_) => image_guess_format(data@) is None,
        },
{
    match image::guess_format(data) {
        Ok(ImageFormat::Jpeg) => Ok(Ok(DecodableFormat::Jpeg)),
        Ok(ImageFormat::Png) => Ok(Ok(DecodableFormat::Png)),
        Ok(ImageFormat::WebP) => Ok(Ok(DecodableFormat::WebP)),
        Ok(other) => Ok(Err(format!("{other:?}"))),
        Err(e) => Err(e.to_string()),
    }
}

/// Calls `image::ImageReader::into_dimensions` on a reader made with
/// `ImageReader::with_format` over `data`. Claimed: the result is the named
/// `image_header_dimensions` of the arguments; an error becomes its
/// `Display` text.
#[verifier::external_body]
fn read_dimensions(data: &[u8], format: DecodableFormat) -> (r: Result<(u32, u32), String>)
    ensures
        r is Ok <==> image_header_dimensions(data@, format) is Some,
        r matches Ok(d) ==> image_header_dimensions(data@, format) == Some(d),
{
    let format = match format {
        DecodableFormat::Jpeg => ImageFormat::Jpeg,
        DecodableFormat::Png => ImageFormat::Png,
        DecodableFormat::WebP => ImageFormat::WebP,
    };
    ImageReader::with_format(Cursor::new(data), format)
        .into_dimensions()
        .map_err(|e| e.to_string())
}

/// Calls `image::ImageReader::decode` on a reader made with
/// `ImageReader::with_format` over `data`, whose `Limits` allow `max_alloc`
/// bytes of allocation, and converts the result with `into_rgba16` when it
/// holds 16-bit samples (`ImageLuma16`, `ImageLumaA16`, `ImageRgb16`,
/// `ImageRgba16`), with `into_rgba8` otherwise. Claimed: the image is the
/// named `image_decode_pixels` of the arguments, and its buffer holds
/// `width × height` RGBA pixels, as an `ImageBuffer` does. An error becomes
/// its `Display` text.
#[verifier::external_body]
fn decode_pixels(data: &[u8], format: DecodableFormat, max_alloc: u64) -> (r: Result<RawImage, String>)
    ensures
        r is Ok <==> image_decode_pixels(data@, format, max_alloc) is Some,
        r matches Ok(img) ==> image_decode_pixels(data@, format, max_alloc) == Some(img@) && img.wf(),
{
    let format = match format {
        DecodableFormat::Jpeg => ImageFormat::Jpeg,
        DecodableFormat::Png => ImageFormat::Png,
        DecodableFormat::WebP => ImageFormat::WebP,
    };
    let mut reader = ImageReader::with_format(Cursor::new(data), format);
    let mut limits = Limits::default();
    limits.max_alloc = Some(max_alloc);
    reader.limits(limits);
    let img = reader.decode().map_err(|e| e.to_string())?;
    let (width, height) = (img.width(), img.height());
    Ok(RawImage { width, height, pixels: match img {
        ImageLuma16(_) | ImageLumaA16(_) | ImageRgb16(_) | ImageRgba16(_) => Pixels::Rgba16(img.into_rgba16().into_raw()),
        other => Pixels::Rgba8(other.into_rgba8().into_raw()),
    } })
}

/// Allocation budget of the decoder: `max_pixels × 8 + 64 MiB`, saturating.
pub open spec fn decode_alloc_budget(max_pixels: u64) -> u64 {
    if max_pixels as int * 8 + 64 * MIB > u64::MAX {
        u64::MAX
    } else {
        (max_pixels * 8 + 64 * MIB) as u64
    }
}

/// What [`decode`] gives for `data` under the pixel limit `max_pixels`.
pub open spec fn spec_decode(data: Seq<u8>, max_pixels: u64) -> Result<ImageView, ErrorKind> {
    match image_guess_format(data) {
        None => Err(ErrorKind::Decode),
        Some(None) => Err(ErrorKind::UnsupportedFormat),
        Some(Some(format)) => match image_header_dimensions(data, format) {
            None => Err(ErrorKind::Decode),
            Some((w, h)) => if w as int * h as int > max_pixels {
                Err(ErrorKind::InputTooLarge { width: w, height: h, max_pixels })
            } else {
                match image_decode_pixels(data, format, decode_alloc_budget(max_pixels)) {
                    None => Err(ErrorKind::Decode),
                    Some(img) => if img.0 as int * img.1 as int > max_pixels {
                        Err(ErrorKind::InputTooLarge { width: img.0, height: img.1, max_pixels })
                    } else {
                        Ok(img)
                    },
                }
            },
        },
    }
}

/// Decode `data` into a [`RawImage`], sniffing the format from magic bytes.
///
/// Supported formats: JPEG, PNG, WebP; 16-bit sources keep 16-bit samples.
/// The dimensions are read from the
/// header first: an image of more than `max_pixels` pixels is rejected with
/// [`Error::InputTooLarge`] before its pixels are decoded, and the decoder
/// may allocate at most `max_pixels × 8 + 64 MiB` bytes. The decoded image
/// is held to the same cap.
///
/// # Errors
///
/// - [`Error::Decode`]: no supported format matches, or the decoder fails;
/// - [`Error::UnsupportedFormat`]: the format is recognised but not decoded here;
/// - [`Error::InputTooLarge`]: more than `max_pixels` pixels.
pub fn decode(data: &[u8], max_pixels: u64) -> (r: Result<RawImage, Error>)
    ensures
        match r {
            Ok(img) => img.wf() && spec_decode(data@, max_pixels) == Ok::<ImageView, ErrorKind>(img@)
                && img.width as int * img.height as int <= max_pixels,
            Err(e) => spec_decode(data@, max_pixels) == Err::<ImageView, ErrorKind>(e.kind()),
        },
        image_guess_format(data@) is None ==> (r matches Err(Error::Decode(m))
            && "unknown format: "@.is_prefix_of(m@)),
{
    let format = match guess_format(data) {
        Err(text) => {
            let message = String::from_str("unknown format: ").concat(text.as_str());
            assert("unknown format: "@.is_prefix_of(message@)) by {
                assert(message@.subrange(0, "unknown format: "@.len() as int) =~= "unknown format: "@);
            }
            return Err(Error::Decode(message));
        },
        Ok(Err(name)) => {
            return Err(Error::UnsupportedFormat(name));
        },
        Ok(Ok(f)) => f,
    };
    let (width, height) = match read_dimensions(data, format) {
        Err(text) => {
            return Err(Error::Decode(text));
        },
        Ok(d) => d,
    };
    assert(width as int * height as int <= u32::MAX as int * u32::MAX as int) by (nonlinear_arith)
        requires
            width <= u32::MAX,
            height <= u32::MAX,
    ;
    if width as u64 * height as u64 > max_pixels {
        return Err(Error::InputTooLarge { width, height, max_pixels });
    }
    let budget: u64 = if max_pixels > (u64::MAX - 64 * MIB) / 8 {
        u64::MAX
    } else {
        max_pixels * 8 + 64 * MIB
    };
    match decode_pixels(data, format, budget) {
        Err(text) => Err(Error::Decode(text)),
        Ok(img) => {
            assert(img.width as int * img.height as int <= u32::MAX as int * u32::MAX as int)
                by (nonlinear_arith)
                requires
                    img.width <= u32::MAX,
                    img.height <= u32::MAX,
            ;
            if img.width as u64 * img.height as u64 > max_pixels {
                Err(Error::InputTooLarge { width: img.width, height: img.height, max_pixels })
            } else {
                Ok(img)
            }
        },
    }
}

/// The pixel cap is checked on the header before decoding, and again on
/// the decoded size: an image of more than `max_pixels` pixels is refused
/// with its size; one within the cap is decoded with an allocation budget
/// of `max_pixels × 8` bytes plus 64 MiB (at most `u64::MAX`).
pub proof fn lemma_decode_checks_pixel_cap(data: Seq<u8>, max_pixels: u64)
    requires
        image_guess_format(data) matches Some(Some(f)) && image_header_dimensions(data, f) is Some,
    ensures
        ({
            let f = image_guess_format(data)->Some_0->Some_0;
            let (w, h) = image_header_dimensions(data, f)->Some_0;
            let budget: u64 = if max_pixels * 8 + 67108864 > u64::MAX {
                u64::MAX
            } else {
                (max_pixels * 8 + 67108864) as u64
            };
            if w * h > max_pixels {
                spec_decode(data, max_pixels) == Err::<ImageView, ErrorKind>(
                    ErrorKind::InputTooLarge { width: w, height: h, max_pixels },
                )
            } else {
                spec_decode(data, max_pixels) == match image_decode_pixels(data, f, budget) {
                    None => Err(ErrorKind::Decode),
                    Some(img) => if img.0 * img.1 > max_pixels {
                        Err(ErrorKind::InputTooLarge { width: img.0, height: img.1, max_pixels })
                    } else {
                        Ok(img)
                    },
                }
            }
        }),
{
}

} // verus!
