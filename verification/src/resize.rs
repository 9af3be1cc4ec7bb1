//! Output resolution control and image resizing.
//!
//! - **Only downscales**: an image already at or below the target width is
//!   returned unchanged.
//! - **Preserves aspect ratio**: the height is scaled proportionally.

use vstd::prelude::*;

use crate::decoder::{ImageView, PixelData, Pixels, RawImage};

verus! {

/// Controls the output resolution applied before AVIF encoding.
#[derive(Debug, Clone, Copy, PartialEq, Eq, Hash, Structural)]
pub enum OutputResolution {
    /// Keep the original dimensions (no resize).
    Original,
    /// Shrink so the width is at most 2560 pixels.
    Width2560,
    /// Shrink so the width is at most 1080 pixels.
    Width1080,
}

impl OutputResolution {
    /// The width limit of a variant; `None` for `Original`.
    pub open spec fn spec_max_width(self) -> Option<u32> {
        match self {
            OutputResolution::Original => None,
            OutputResolution::Width2560 => Some(2560u32),
            OutputResolution::Width1080 => Some(1080u32),
        }
    }

    /// Returns the maximum permitted width for this variant, or `None` for
    /// [`OutputResolution::Original`] (no limit).
    pub fn max_width(self) -> (r: Option<u32>)
        ensures
            r == self.spec_max_width(),
    {
        match self {
            OutputResolution::Original => None,
            OutputResolution::Width2560 => Some(2560),
            OutputResolution::Width1080 => Some(1080),
        }
    }
}

/// The height that keeps the aspect ratio when a `width × height` image is
/// narrowed to `target` pixels: `height × target / width`, rounded to the
/// nearest integer, and at least 1.
pub open spec fn scaled_height(width: u32, height: u32, target: u32) -> int {
    let h = (height as int * target as int + width as int / 2) / width as int;
    if h < 1 {
        1
    } else {
        h
    }
}

/// The pixels that `image`'s Lanczos-3 `resize` produces when the RGBA8
/// image `(width, height, pixels)` is scaled to `new_width × new_height`.
pub uninterp spec fn lanczos3_resize_rgba8(
    width: u32,
    height: u32,
    pixels: Seq<u8>,
    new_width: u32,
    new_height: u32,
) -> Seq<u8>;

/// The samples that `image`'s Lanczos-3 `resize` produces when the 16-bit
/// RGBA image `(width, height, pixels)` is scaled to `new_width × new_height`.
pub uninterp spec fn lanczos3_resize_rgba16(
    width: u32,
    height: u32,
    pixels: Seq<u16>,
    new_width: u32,
    new_height: u32,
) -> Seq<u16>;

/// The image that [`resize_raw_image`] makes of `img` for `resolution`;
/// the samples keep their depth.
pub open spec fn spec_resize(img: ImageView, resolution: OutputResolution) -> ImageView {
    match resolution.spec_max_width() {
        None => img,
        Some(target) => if img.0 <= target {
            img
        } else {
            let nh = scaled_height(img.0, img.1, target) as u32;
            (
                target,
                nh,
                match img.2 {
                    PixelData::Rgba8(p) => PixelData::Rgba8(
                        lanczos3_resize_rgba8(img.0, img.1, p, target, nh),
                    ),
                    PixelData::Rgba16(p) => PixelData::Rgba16(
                        lanczos3_resize_rgba16(img.0, img.1, p, target, nh),
                    ),
                },
            )
        },
    }
}

/// Scales a 16-bit RGBA image with `image::imageops::resize` and the
/// Lanczos-3 filter, from a buffer made by `ImageBuffer::<Rgba<u16>, _>::from_raw`.
/// Claimed: the samples are the named `lanczos3_resize_rgba16` of the
/// arguments, and the buffer holds `new_width × new_height` RGBA pixels. The
/// `requires` keeps out the buffers that `from_raw` rejects.
#[verifier::external_body]
fn resize_rgba16(width: u32, height: u32, pixels: Vec<u16>, new_width: u32, new_height: u32) -> (r:
    Vec<u16>)
    requires
        pixels@.len() == width as int * height as int * 4,
        new_width > 0,
        new_height > 0,
    ensures
        r@ == lanczos3_resize_rgba16(width, height, pixels@, new_width, new_height),
        r@.len() == new_width as int * new_height as int * 4,
{
    let buffer = image::ImageBuffer::<image::Rgba<u16>, Vec<u16>>::from_raw(width, height, pixels)
        .expect("RGBA16 buffer holds width × height pixels");
    image::imageops::resize(&buffer, new_width, new_height, image::imageops::FilterType::Lanczos3)
        .into_raw()
}

/// Scales an RGBA8 image with `image::imageops::resize` and the Lanczos-3
/// filter, from a buffer made by `image::RgbaImage::from_raw`. Claimed: the
/// pixels are the named `lanczos3_resize_rgba8` of the arguments, and the
/// buffer holds `new_width × new_height` RGBA pixels, as the `ImageBuffer`
/// returned by `resize` does. The `requires` keeps out the buffers that
/// `from_raw` rejects (the `expect` would panic).
#[verifier::external_body]
fn resize_rgba8(width: u32, height: u32, pixels: Vec<u8>, new_width: u32, new_height: u32) -> (r:
    Vec<u8>)
    requires
        pixels@.len() == width as int * height as int * 4,
        new_width > 0,
        new_height > 0,
    ensures
        r@ == lanczos3_resize_rgba8(width, height, pixels@, new_width, new_height),
        r@.len() == new_width as int * new_height as int * 4,
{
    let buffer = image::RgbaImage::from_raw(width, height, pixels).expect(
        "RGBA8 buffer holds width × height pixels",
    );
    image::imageops::resize(&buffer, new_width, new_height, image::imageops::FilterType::Lanczos3)
        .into_raw()
}

/// The rounded proportional height fits in a `u32` and lies in `1 ..= height`
/// (for a non-empty image that is being narrowed).
proof fn lemma_scaled_height_bounds(width: u32, height: u32, target: u32)
    requires
        0 < target < width,
        height > 0,
    ensures
        1 <= scaled_height(width, height, target) <= height,
{
    let w = width as int;
    let h = height as int;
    let t = target as int;
    assert(h * t + w / 2 < (h + 1) * w) by (nonlinear_arith)
        requires
            0 < t < w,
            h > 0,
    ;
    assert((h * t + w / 2) / w <= h) by (nonlinear_arith)
        requires
            h * t + w / 2 < (h + 1) * w,
            w > 0,
            h * t + w / 2 >= 0,
    ;
}

/// Resizing keeps the aspect ratio: an image wider than the target comes
/// out exactly `target` wide, and its height is `height × target / width`
/// rounded to the nearest pixel (`nh × width` is within half a width of
/// `height × target`), except that it never drops below 1.
pub proof fn lemma_resize_keeps_aspect_ratio(img: ImageView, resolution: OutputResolution)
    requires
        resolution.spec_max_width() matches Some(t) && img.0 > t,
    ensures
        ({
            let t = resolution.spec_max_width()->Some_0;
            let out = spec_resize(img, resolution);
            let (w, h) = (img.0 as int, img.1 as int);
            &&& out.0 == t
            &&& out.1 >= 1
            &&& (h * t + w / 2 >= w ==> out.1 * w <= h * t + w / 2 < out.1 * w + w)
            &&& (h * t + w / 2 < w ==> out.1 == 1)
        }),
{
    let t = resolution.spec_max_width()->Some_0;
    let (w, h) = (img.0 as int, img.1 as int);
    let q = (h * t + w / 2) / w;
    assert(q * w <= h * t + w / 2 < q * w + w) by (nonlinear_arith)
        requires
            w > 0,
            h * t + w / 2 >= 0,
            q == (h * t + w / 2) / w,
    ;
    if h * t + w / 2 >= w {
        assert(q >= 1) by (nonlinear_arith)
            requires
                w > 0,
                h * t + w / 2 >= w,
                q == (h * t + w / 2) / w,
        ;
    } else {
        assert(q == 0) by (nonlinear_arith)
            requires
                w > 0,
                0 <= h * t + w / 2 < w,
                q == (h * t + w / 2) / w,
        ;
    }
    if h > 0 {
        lemma_scaled_height_bounds(img.0, img.1, t);
    }
}

/// An image at or below the target width, or any image at `Original`, comes
/// back unchanged: resizing never upscales.
pub proof fn lemma_resize_never_upscales(img: ImageView, resolution: OutputResolution)
    requires
        resolution.spec_max_width() matches Some(t) ==> img.0 <= t,
    ensures
        spec_resize(img, resolution) == img,
{
}

/// Resize `raw` to fit within `resolution`, preserving the aspect ratio.
///
/// **Only downscales**: if the width is already at or below the target
/// width, the image is returned unchanged (its pixels are not copied).
/// The new height is `height × target / width`, rounded, and at least 1.
/// Uses the Lanczos-3 filter; 16-bit samples stay 16-bit.
pub fn resize_raw_image(raw: RawImage, resolution: OutputResolution) -> (r: RawImage)
    requires
        raw.wf(),
    ensures
        r@ == spec_resize(raw@, resolution),
        r.wf(),
        r.width <= raw.width,
        raw.height > 0 ==> r.height <= raw.height,
        resolution.spec_max_width() matches Some(t) ==> r.width == if raw.width <= t {
            raw.width
        } else {
            t
        },
{
    let target_width = match resolution.max_width() {
        None => return raw,
        Some(t) => t,
    };
    if raw.width <= target_width {
        return raw;
    }
    let RawImage { width, height, pixels } = raw;
    let new_width = target_width;
    proof {
        if height > 0 {
            lemma_scaled_height_bounds(width, height, new_width);
        } else {
            assert((width as int / 2) / (width as int) == 0) by (nonlinear_arith)
                requires
                    width > 0,
            ;
        }
    }
    let rounded: u64 = (height as u64 * new_width as u64 + width as u64 / 2) / width as u64;
    let new_height: u32 = if rounded < 1 {
        1
    } else {
        rounded as u32
    };
    let resized = match pixels {
        Pixels::Rgba8(px) => Pixels::Rgba8(resize_rgba8(width, height, px, new_width, new_height)),
        Pixels::Rgba16(px) => Pixels::Rgba16(resize_rgba16(width, height, px, new_width, new_height)),
    };
    RawImage { width: new_width, height: new_height, pixels: resized }
}

/// What resizing gives, stated on the resolution itself: `Original`, or a
/// limit (2560 for `Width2560`, 1080 for `Width1080`) that the width does
/// not exceed, leaves the image as it is; otherwise the result is `limit`
/// pixels wide and `height × limit / width` high (rounded to the nearest
/// integer, at least 1), and its samples, of the same depth, are the
/// Lanczos-3 resize of the image to exactly that width and that height.
pub proof fn lemma_resize_result_is_lanczos3_at_its_size(img: ImageView, resolution: OutputResolution)
    ensures
        ({
            let r = spec_resize(img, resolution);
            let limit: u32 = match resolution {
                OutputResolution::Original => 0,
                OutputResolution::Width2560 => 2560,
                OutputResolution::Width1080 => 1080,
            };
            if resolution == OutputResolution::Original || img.0 <= limit {
                r == img
            } else {
                let h = (img.1 as int * limit as int + img.0 as int / 2) / img.0 as int;
                &&& r.0 == limit
                &&& r.1 as int == (if h < 1 {
                    1
                } else {
                    h
                })
                &&& r.2 == match img.2 {
                    PixelData::Rgba8(p) => PixelData::Rgba8(
                        lanczos3_resize_rgba8(img.0, img.1, p, r.0, r.1),
                    ),
                    PixelData::Rgba16(p) => PixelData::Rgba16(
                        lanczos3_resize_rgba16(img.0, img.1, p, r.0, r.1),
                    ),
                }
            }
        }),
{
    if resolution != OutputResolution::Original && img.0 > resolution.spec_max_width()->Some_0 {
        let t = resolution.spec_max_width()->Some_0;
        if img.1 > 0 {
            lemma_scaled_height_bounds(img.0, img.1, t);
        } else {
            let w = img.0 as int;
            assert((w / 2) / w == 0) by (nonlinear_arith)
                requires
                    w > 0,
            ;
        }
        assert(scaled_height(img.0, img.1, t) as u32 as int == scaled_height(img.0, img.1, t));
    }
}

} // verus!
