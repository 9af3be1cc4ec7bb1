//! AVIF encoding with the `ravif` / `rav1e` AV1 encoder, and the
//! structural check of what it produces.
//!
//! Quality settings of the crate use a 1 – 10 scale; `ravif` takes 1 – 100,
//! so they are multiplied by 10. When the image has no transparent pixel,
//! the alpha quality is a no-op and the colour quality is used for it.
//!
//! The encoded bytes must pass [`validate_avif_output`]:
//!
//! 1. non-empty;
//! 2. at least 20 bytes (the smallest ISOBMFF `ftyp` box);
//! 3. bytes 4–7 are `ftyp`;
//! 4. bytes 8–11 are the AVIF major brand `avif` or `avis`;
//! 5. bytes 0–3 hold a big-endian box size in `20 ..= length`.

use vstd::prelude::*;

use crate::config::{clamp_spec, clamp_u8};
use crate::decoder::{has_transparent_pixel, ImageView, PixelData, Pixels, RawImage};
use crate::error::{decimal_text, hex_list_text, Error, ErrorKind};
use vstd::string::StringExecFns;

verus! {

/// Minimum byte length of a structurally valid AVIF file: the `ftyp` box
/// (size, type, major brand, minor version, one compatible brand).
pub const MIN_AVIF_BYTES: usize = 20;

/// The big-endian `u32` held in bytes `i .. i + 4` of `b`.
pub open spec fn be_u32_at(b: Seq<u8>, i: int) -> int {
    b[i] as int * 16777216 + b[i + 1] as int * 65536 + b[i + 2] as int * 256 + b[i + 3] as int
}

/// Bytes 4–7 of `b` are `ftyp`.
pub open spec fn has_ftyp(b: Seq<u8>) -> bool {
    b[4] == 0x66u8 && b[5] == 0x74u8 && b[6] == 0x79u8 && b[7] == 0x70u8
}

/// Bytes 8–11 of `b` are `avif` or `avis`.
pub open spec fn has_avif_brand(b: Seq<u8>) -> bool {
    b[8] == 0x61u8 && b[9] == 0x76u8 && b[10] == 0x69u8 && (b[11] == 0x66u8 || b[11] == 0x73u8)
}

/// `b` passes the structural AVIF check.
pub open spec fn is_valid_avif(b: Seq<u8>) -> bool {
    &&& b.len() >= MIN_AVIF_BYTES
    &&& has_ftyp(b)
    &&& has_avif_brand(b)
    &&& MIN_AVIF_BYTES <= be_u32_at(b, 0) <= b.len()
}

/// A quality on the crate's 1 – 10 scale as `ravif` takes it (1 – 100).
pub open spec fn ravif_quality(q: u8) -> u8 {
    (clamp_spec(q, 1, 10) * 10) as u8
}

/// What `ravif` returns for an RGBA8 image encoded on one thread with the
/// given quality, alpha quality and speed: the AVIF file, or `None` when it
/// fails.
pub uninterp spec fn ravif_encode_rgba(
    width: u32,
    height: u32,
    pixels: Seq<u8>,
    quality: u8,
    alpha_quality: u8,
    speed: u8,
) -> Option<Seq<u8>>;

/// What `ravif` returns for 10-bit YCbCr planes (BT.601, full range) and a
/// 10-bit alpha plane encoded on one thread with the given quality, alpha
/// quality and speed: the AVIF file, or `None` when it fails.
pub uninterp spec fn ravif_encode_planes10(
    width: u32,
    height: u32,
    planes: Seq<[u16; 3]>,
    alpha: Seq<u16>,
    quality: u8,
    alpha_quality: u8,
    speed: u8,
) -> Option<Seq<u8>>;

/// The alpha samples of 16-bit RGBA samples, scaled to 10 bits (`>> 6`).
pub open spec fn alpha_10_bit(px: Seq<u16>) -> Seq<u16> {
    Seq::new((px.len() / 4) as nat, |i: int| (px[4 * i + 3] / 64) as u16)
}

/// Every sample of `planes` is a 10-bit value.
pub open spec fn planes_are_10_bit(planes: Seq<[u16; 3]>) -> bool {
    forall|i: int, j: int| 0 <= i < planes.len() && 0 <= j < 3 ==> #[trigger] planes[i][j] <= 1023
}

/// What [`encode_avif`] gives for the image `img`, the given settings, and,
/// for 16-bit samples, the 10-bit BT.601 YCbCr planes `ycbcr` of its pixels.
pub open spec fn spec_encode(
    img: ImageView,
    quality: u8,
    speed: u8,
    alpha_quality: u8,
    ycbcr: Seq<[u16; 3]>,
) -> Result<Seq<u8>, ErrorKind> {
    let q = ravif_quality(quality);
    let aq = if has_transparent_pixel(img.2) {
        ravif_quality(alpha_quality)
    } else {
        q
    };
    let sp = clamp_spec(speed, 1, 10);
    let encoded = match img.2 {
        PixelData::Rgba8(p) => ravif_encode_rgba(img.0, img.1, p, q, aq, sp),
        PixelData::Rgba16(p) => ravif_encode_planes10(img.0, img.1, ycbcr, alpha_10_bit(p), q, aq, sp),
    };
    match encoded {
        None => Err(ErrorKind::Encode),
        Some(avif) => if is_valid_avif(avif) {
            Ok(avif)
        } else {
            Err(ErrorKind::Encode)
        },
    }
}

/// Encodes RGBA8 pixels with `ravif::Encoder::encode_rgba`, built with
/// `with_quality`, `with_alpha_quality`, `with_speed` and
/// `with_num_threads(Some(1))`, and returns the `avif_file` of the result; a
/// `ravif::Error` becomes its `Display` text (the crate's own error type is
/// also named `Error`, so the outside one is not declared here). One thread
/// fixes the tile layout, which `ravif` otherwise derives from the thread
/// pool's size, so the bytes depend on the arguments alone (the encoder is
/// built without its assembly and threading features). Claimed: the result
/// is the named `ravif_encode_rgba` of the arguments, and an image of height
/// 0 is refused (`rav1e` rejects it with `InvalidHeight`). The `requires`
/// keeps out the inputs on which `ravif` (quality and speed asserts) or
/// `imgref` (zero width) panic.
#[verifier::external_body]
fn ravif_encode_rgba8(
    width: u32,
    height: u32,
    pixels: &[u8],
    quality: u8,
    alpha_quality: u8,
    speed: u8,
) -> (r: Result<Vec<u8>, String>)
    requires
        width > 0,
        pixels@.len() == width as int * height as int * 4,
        1 <= quality <= 100,
        1 <= alpha_quality <= 100,
        1 <= speed <= 10,
    ensures
        r is Ok <==> ravif_encode_rgba(width, height, pixels@, quality, alpha_quality, speed) is Some,
        r matches Ok(avif) ==> ravif_encode_rgba(width, height, pixels@, quality, alpha_quality, speed)
            == Some(avif@),
        height == 0 ==> r is Err,
{
    ravif::Encoder::new()
        .with_quality(quality.into())
        .with_alpha_quality(alpha_quality.into())
        .with_speed(speed)
        .with_num_threads(Some(1))
        .encode_rgba(ravif::Img::new(rgb::FromSlice::as_rgba(pixels), width as usize, height as usize))
        .map(|encoded| encoded.avif_file)
        .map_err(|e| e.to_string())
}

/// Encodes 10-bit YCbCr planes and a 10-bit alpha plane with
/// `ravif::Encoder::encode_raw_planes_10_bit` (full range, BT.601), built
/// with `with_quality`, `with_alpha_quality`, `with_speed` and
/// `with_num_threads(Some(1))`, and returns the `avif_file` of the result; a
/// `ravif::Error` becomes its `Display` text. One thread fixes the tile
/// layout, as for [`ravif_encode_rgba8`]. Claimed: the result is the named
/// `ravif_encode_planes10` of the arguments, and an image of height 0 is
/// refused (`rav1e` rejects it with `InvalidHeight`). The `requires` keeps
/// out the quality and speed values that `ravif` asserts against, and
/// samples outside the 10-bit range that the planes are declared to hold.
#[verifier::external_body]
fn ravif_encode_planes10_bit(
    width: u32,
    height: u32,
    planes: &[[u16; 3]],
    alpha: Vec<u16>,
    quality: u8,
    alpha_quality: u8,
    speed: u8,
) -> (r: Result<Vec<u8>, String>)
    requires
        width > 0,
        planes_are_10_bit(planes@),
        forall|i: int| 0 <= i < alpha@.len() ==> #[trigger] alpha@[i] <= 1023,
        1 <= quality <= 100,
        1 <= alpha_quality <= 100,
        1 <= speed <= 10,
    ensures
        r is Ok <==> ravif_encode_planes10(width, height, planes@, alpha@, quality, alpha_quality, speed)
            is Some,
        r matches Ok(avif) ==> ravif_encode_planes10(
            width,
            height,
            planes@,
            alpha@,
            quality,
            alpha_quality,
            speed,
        ) == Some(avif@),
        height == 0 ==> r is Err,
{
    ravif::Encoder::new()
        .with_quality(quality.into())
        .with_alpha_quality(alpha_quality.into())
        .with_speed(speed)
        .with_num_threads(Some(1))
        .encode_raw_planes_10_bit(
            width as usize,
            height as usize,
            planes.iter().copied(),
            Some(alpha),
            ravif::PixelRange::Full,
            ravif::MatrixCoefficients::BT601,
        )
        .map(|encoded| encoded.avif_file)
        .map_err(|e| e.to_string())
}

/// The alpha samples of 16-bit RGBA samples, scaled to 10 bits.
fn alpha_plane_10_bit(px: &Vec<u16>) -> (r: Vec<u16>)
    ensures
        r@ == alpha_10_bit(px@),
        forall|i: int| 0 <= i < r@.len() ==> #[trigger] r@[i] <= 1023,
{
    let len = px.len();
    let n = len / 4;
    let mut out: Vec<u16> = Vec::with_capacity(n);
    let mut k: usize = 0;
    while k < n
        invariant
            len == px@.len(),
            n == px@.len() / 4,
            k <= n,
            out@.len() == k,
            forall|i: int| 0 <= i < k ==> #[trigger] out@[i] == (px@[4 * i + 3] / 64) as u16,
            forall|i: int| 0 <= i < k ==> #[trigger] out@[i] <= 1023,
        decreases n - k,
    {
        assert(4 * k + 3 < len) by (nonlinear_arith)
            requires
                k < n,
                n == len / 4,
        ;
        let a = px[4 * k + 3];
        out.push(a >> 6);
        assert((a >> 6) == a / 64) by (bit_vector);
        k = k + 1;
    }
    assert(out@ =~= alpha_10_bit(px@));
    out
}

/// The message for empty output.
pub open spec fn empty_output_text() -> Seq<char> {
    "AVIF encoder produced empty output — this is a bug; please report it"@
}

/// The message for output of `len` bytes, shorter than the `ftyp` box.
pub open spec fn truncated_output_text(len: nat) -> Seq<char> {
    "AVIF encoder produced truncated output ("@ + decimal_text(len)
        + " bytes, minimum valid AVIF is "@ + decimal_text(MIN_AVIF_BYTES as nat) + " bytes)"@
}

/// The message for output `b` without the `ftyp` marker: shows bytes 4–7.
pub open spec fn missing_ftyp_text(b: Seq<u8>) -> Seq<char> {
    "AVIF encoder produced invalid container: expected ISOBMFF 'ftyp' box at offset 4, got "@
        + hex_list_text(b.subrange(4, 8))
}

/// The message for output `b` with another major brand: shows bytes 8–11.
pub open spec fn bad_brand_text(b: Seq<u8>) -> Seq<char> {
    "AVIF major brand invalid: expected 'avif' or 'avis', got "@ + hex_list_text(b.subrange(8, 12))
}

/// The message for an `ftyp` box size outside `20 ..= len`.
pub open spec fn bad_box_size_text(box_size: nat, len: nat) -> Seq<char> {
    "AVIF ftyp box size invalid: box_size="@ + decimal_text(box_size) + ", output length="@
        + decimal_text(len)
}

/// The message with which [`validate_avif_output`] rejects `b`: that of
/// the first of the five checks that fails.
pub open spec fn avif_rejection_text(b: Seq<u8>) -> Seq<char> {
    if b.len() == 0 {
        empty_output_text()
    } else if b.len() < MIN_AVIF_BYTES {
        truncated_output_text(b.len())
    } else if !has_ftyp(b) {
        missing_ftyp_text(b)
    } else if !has_avif_brand(b) {
        bad_brand_text(b)
    } else {
        bad_box_size_text(be_u32_at(b, 0) as nat, b.len())
    }
}

/// The message for output shorter than the `ftyp` box, written with
/// `format!`. Claimed: the text of `truncated_output_text`, as `format!`
/// writes integers in decimal.
#[verifier::external_body]
fn truncated_output_message(len: usize) -> (r: String)
    ensures
        r@ == truncated_output_text(len as nat),
{
    format!(
        "AVIF encoder produced truncated output ({} bytes, minimum valid AVIF is {} bytes)",
        len,
        MIN_AVIF_BYTES,
    )
}

/// The message for output without the `ftyp` marker; shows bytes 4–7,
/// written with `format!` and `{:02x?}`. Claimed: the text of
/// `missing_ftyp_text`, as `{:02x?}` writes a byte slice in brackets, each
/// byte as two lowercase hexadecimal digits, separated by `, `.
#[verifier::external_body]
fn missing_ftyp_message(bytes: &[u8]) -> (r: String)
    requires
        bytes@.len() >= 8,
    ensures
        r@ == missing_ftyp_text(bytes@),
{
    format!(
        "AVIF encoder produced invalid container: expected ISOBMFF 'ftyp' box at offset 4, got {:02x?}",
        &bytes[4..8],
    )
}

/// The message for a major brand other than `avif`/`avis`; shows bytes
/// 8–11, written with `format!` and `{:02x?}`. Claimed: the text of
/// `bad_brand_text`, written as for `missing_ftyp_message`.
#[verifier::external_body]
fn bad_brand_message(bytes: &[u8]) -> (r: String)
    requires
        bytes@.len() >= 12,
    ensures
        r@ == bad_brand_text(bytes@),
{
    format!("AVIF major brand invalid: expected 'avif' or 'avis', got {:02x?}", &bytes[8..12])
}

/// The message for an `ftyp` box size outside `20 ..= length`, written with
/// `format!`. Claimed: the text of `bad_box_size_text`.
#[verifier::external_body]
fn bad_box_size_message(box_size: u64, len: usize) -> (r: String)
    ensures
        r@ == bad_box_size_text(box_size as nat, len as nat),
{
    format!("AVIF ftyp box size invalid: box_size={box_size}, output length={len}")
}

/// Check that `bytes` looks like a structurally sound AVIF file (see the
/// module documentation for the five checks), and reject it with the
/// message of the first check that fails. `width` and `height` are those of
/// the encoded image; neither the verdict nor the message depends on them.
pub fn validate_avif_output(bytes: &[u8], width: u32, height: u32) -> (r: Result<(), Error>)
    ensures
        r is Ok <==> is_valid_avif(bytes@),
        r matches Err(e) ==> e matches Error::Encode(m) && m@ == avif_rejection_text(bytes@),
{
    if bytes.len() == 0 {
        return Err(Error::Encode(
            String::from_str("AVIF encoder produced empty output — this is a bug; please report it"),
        ));
    }
    if bytes.len() < MIN_AVIF_BYTES {
        return Err(Error::Encode(truncated_output_message(bytes.len())));
    }
    if !(bytes[4] == 0x66 && bytes[5] == 0x74 && bytes[6] == 0x79 && bytes[7] == 0x70) {
        return Err(Error::Encode(missing_ftyp_message(bytes)));
    }
    if !(bytes[8] == 0x61 && bytes[9] == 0x76 && bytes[10] == 0x69 && (bytes[11] == 0x66
        || bytes[11] == 0x73)) {
        return Err(Error::Encode(bad_brand_message(bytes)));
    }
    let box_size: u64 = bytes[0] as u64 * 16777216 + bytes[1] as u64 * 65536 + bytes[2] as u64 * 256
        + bytes[3] as u64;
    if box_size < MIN_AVIF_BYTES as u64 || box_size > bytes.len() as u64 {
        return Err(Error::Encode(bad_box_size_message(box_size, bytes.len())));
    }
    Ok(())
}

/// Encode a [`RawImage`] as AVIF.
///
/// `quality`, `alpha_quality` and `speed` are on the 1 – 10 scale and are
/// clamped into it; qualities are scaled to `ravif`'s 1 – 100. The alpha
/// quality only applies when some pixel is not fully opaque. The output
/// must pass [`validate_avif_output`], else [`Error::Encode`] is returned,
/// as it is when `ravif` fails.
///
/// 8-bit images go to `ravif`'s RGBA encoder. 16-bit images are encoded
/// as 10-bit AVIF from the 10-bit BT.601 YCbCr planes `ycbcr` of their
/// pixels, which the caller computes (the conversion is floating-point),
/// and from their alpha samples scaled to 10 bits; `ycbcr` is not read for
/// 8-bit images.
pub fn encode_avif(
    image: &RawImage,
    quality: u8,
    speed: u8,
    alpha_quality: u8,
    ycbcr: &[[u16; 3]],
) -> (r: Result<Vec<u8>, Error>)
    requires
        image.wf(),
        image.width > 0,
        planes_are_10_bit(ycbcr@),
    ensures
        match r {
            Ok(avif) => spec_encode(image@, quality, speed, alpha_quality, ycbcr@) == Ok::<
                Seq<u8>,
                ErrorKind,
            >(avif@),
            Err(e) => spec_encode(image@, quality, speed, alpha_quality, ycbcr@) == Err::<
                Seq<u8>,
                ErrorKind,
            >(e.kind()),
        },
        image.height == 0 ==> r matches Err(Error::Encode(_)),
{
    let has_transparency = image.has_transparency();
    let ravif_q = clamp_u8(quality, 1, 10) * 10;
    let ravif_aq = if has_transparency {
        clamp_u8(alpha_quality, 1, 10) * 10
    } else {
        ravif_q
    };
    let ravif_speed = clamp_u8(speed, 1, 10);
    let encoded = match &image.pixels {
        Pixels::Rgba8(px) => ravif_encode_rgba8(
            image.width,
            image.height,
            px.as_slice(),
            ravif_q,
            ravif_aq,
            ravif_speed,
        ),
        Pixels::Rgba16(px) => {
            let alpha = alpha_plane_10_bit(px);
            ravif_encode_planes10_bit(
                image.width,
                image.height,
                ycbcr,
                alpha,
                ravif_q,
                ravif_aq,
                ravif_speed,
            )
        },
    };
    match encoded {
        Err(msg) => Err(Error::Encode(msg)),
        Ok(avif) => {
            match validate_avif_output(avif.as_slice(), image.width, image.height) {
                Ok(()) => Ok(avif),
                Err(e) => Err(e),
            }
        },
    }
}

/// The settings that reach `ravif`, for every image: the colour quality is
/// `10 × quality` and the speed is `speed`, each first brought into 1 – 10;
/// the alpha quality is `10 × alpha_quality`, brought into 10 – 100 alike,
/// when some pixel has an alpha below full (255 for 8-bit samples, 65535
/// for 16-bit), and the colour quality otherwise. 8-bit samples go to the
/// RGBA encoder; 16-bit samples go, as the supplied YCbCr planes and the
/// alpha samples shifted right by 6, to the 10-bit planes encoder. What
/// `ravif` returns is the result when it passes the structural check.
pub proof fn lemma_encode_passes_settings_to_ravif(
    img: ImageView,
    quality: u8,
    speed: u8,
    alpha_quality: u8,
    ycbcr: Seq<[u16; 3]>,
)
    ensures
        ({
            let colour: u8 = if quality < 1 {
                10
            } else if quality > 10 {
                100
            } else {
                (quality * 10) as u8
            };
            let translucent = match img.2 {
                PixelData::Rgba8(p) => exists|k: int|
                    0 <= k && 4 * k + 3 < p.len() && #[trigger] p[4 * k + 3] != 255u8,
                PixelData::Rgba16(p) => exists|k: int|
                    0 <= k && 4 * k + 3 < p.len() && #[trigger] p[4 * k + 3] != 65535u16,
            };
            let alpha: u8 = if !translucent {
                colour
            } else if alpha_quality < 1 {
                10
            } else if alpha_quality > 10 {
                100
            } else {
                (alpha_quality * 10) as u8
            };
            let sp: u8 = if speed < 1 {
                1
            } else if speed > 10 {
                10
            } else {
                speed
            };
            let encoded = match img.2 {
                PixelData::Rgba8(p) => ravif_encode_rgba(img.0, img.1, p, colour, alpha, sp),
                PixelData::Rgba16(p) => ravif_encode_planes10(
                    img.0,
                    img.1,
                    ycbcr,
                    Seq::new((p.len() / 4) as nat, |i: int| (p[4 * i + 3] >> 6u16) as u16),
                    colour,
                    alpha,
                    sp,
                ),
            };
            spec_encode(img, quality, speed, alpha_quality, ycbcr) == match encoded {
                None => Err(ErrorKind::Encode),
                Some(avif) => if is_valid_avif(avif) {
                    Ok(avif)
                } else {
                    Err(ErrorKind::Encode)
                },
            }
        }),
{
    match img.2 {
        PixelData::Rgba8(p) => {},
        PixelData::Rgba16(p) => {
            let shifted = Seq::new((p.len() / 4) as nat, |i: int| (p[4 * i + 3] >> 6u16) as u16);
            assert forall|i: int| 0 <= i < shifted.len() implies shifted[i] == alpha_10_bit(p)[i] by {
                let a = p[4 * i + 3];
                assert(a >> 6u16 == a / 64) by (bit_vector);
            }
            assert(shifted =~= alpha_10_bit(p));
        },
    }
}

/// The structural check, byte by byte: at least 20 bytes; `ftyp` at bytes
/// 4–7; `avif` or `avis` at bytes 8–11; and a big-endian size in bytes 0–3
/// of at least 20 and at most the length.
pub proof fn lemma_valid_avif_bytes(b: Seq<u8>)
    ensures
        is_valid_avif(b) <==> {
            &&& b.len() >= 20
            &&& b[4] == 0x66u8 && b[5] == 0x74u8 && b[6] == 0x79u8 && b[7] == 0x70u8
            &&& b[8] == 0x61u8 && b[9] == 0x76u8 && b[10] == 0x69u8
            &&& (b[11] == 0x66u8 || b[11] == 0x73u8)
            &&& 20 <= b[0] as int * 16777216 + b[1] as int * 65536 + b[2] as int * 256 + b[3] as int
                <= b.len()
        },
{
}

/// Every AVIF that `encode_avif` returns passes the structural check.
pub proof fn lemma_encoded_output_is_valid_avif(
    img: ImageView,
    quality: u8,
    speed: u8,
    alpha_quality: u8,
    ycbcr: Seq<[u16; 3]>,
)
    ensures
        spec_encode(img, quality, speed, alpha_quality, ycbcr) matches Ok(avif) ==> is_valid_avif(avif),
{
}

/// For a fully opaque image, of either depth, the alpha quality is a no-op:
/// any two alpha qualities give the same encoding.
pub proof fn lemma_alpha_quality_ignored_when_opaque(
    img: ImageView,
    quality: u8,
    speed: u8,
    alpha_quality_a: u8,
    alpha_quality_b: u8,
    ycbcr: Seq<[u16; 3]>,
)
    requires
        !has_transparent_pixel(img.2),
    ensures
        spec_encode(img, quality, speed, alpha_quality_a, ycbcr) == spec_encode(
            img,
            quality,
            speed,
            alpha_quality_b,
            ycbcr,
        ),
{
}

/// Qualities on the crate's 1 – 10 scale reach `ravif` as 10, 20, …, 100;
/// out-of-range settings act as the nearest bound.
pub proof fn lemma_ravif_quality_scale(q: u8)
    ensures
        10 <= ravif_quality(q) <= 100,
        ravif_quality(q) % 10 == 0,
        1 <= q <= 10 ==> ravif_quality(q) == q * 10,
        q == 0 ==> ravif_quality(q) == 10,
        q > 10 ==> ravif_quality(q) == 100,
{
}

} // verus!
