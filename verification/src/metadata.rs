//! EXIF / metadata stripping.
//!
//! - **JPEG**: removes APP1 (EXIF/XMP), APP2 (ICC), APP13 (IPTC) and APP14
//!   (Adobe) segments;
//! - **PNG**: removes `tEXt`, `zTXt`, `iTXt` and `eXIf` chunks;
//! - **WebP**: removes the EXIF, ICC and XMP chunks of the RIFF container,
//!   and with them the `VP8X` header that only they called for.
//!
//! The container is parsed and written back by `img_parts`.

use vstd::prelude::*;

use img_parts::ImageEXIF;

verus! {

/// The JPEG container of `img_parts`.
#[verifier::external_type_specification]
#[verifier::external_body]
pub struct ExJpegContainer(img_parts::jpeg::Jpeg);

/// The PNG container of `img_parts`.
#[verifier::external_type_specification]
#[verifier::external_body]
pub struct ExPngContainer(img_parts::png::Png);

/// The WebP (RIFF) container of `img_parts`.
#[verifier::external_type_specification]
#[verifier::external_body]
pub struct ExWebPContainer(img_parts::webp::WebP);

/// A chunk of a RIFF container (WebP's) of `img_parts`.
#[verifier::external_type_specification]
#[verifier::external_body]
pub struct ExRiffChunk(img_parts::riff::RiffChunk);

/// Image container format detected from magic bytes.
#[derive(Debug, Clone, Copy, PartialEq, Eq, Structural)]
pub enum ImageFormat {
    /// `FF D8`
    Jpeg,
    /// `89 50 4E 47 0D 0A 1A 0A`
    Png,
    /// `RIFF` … `WEBP`
    WebP,
    /// Anything else.
    Unknown,
}

/// `data` starts with the JPEG signature `FF D8`.
pub open spec fn is_jpeg_magic(data: Seq<u8>) -> bool {
    data.len() >= 2 && data[0] == 0xFFu8 && data[1] == 0xD8u8
}

/// `data` starts with the PNG signature `89 50 4E 47 0D 0A 1A 0A`.
pub open spec fn is_png_magic(data: Seq<u8>) -> bool {
    &&& data.len() >= 8
    &&& data[0] == 0x89u8 && data[1] == 0x50u8 && data[2] == 0x4Eu8 && data[3] == 0x47u8
    &&& data[4] == 0x0Du8 && data[5] == 0x0Au8 && data[6] == 0x1Au8 && data[7] == 0x0Au8
}

/// `data` starts with `RIFF`, four size bytes, and `WEBP`.
pub open spec fn is_webp_magic(data: Seq<u8>) -> bool {
    &&& data.len() >= 12
    &&& data[0] == 0x52u8 && data[1] == 0x49u8 && data[2] == 0x46u8 && data[3] == 0x46u8
    &&& data[8] == 0x57u8 && data[9] == 0x45u8 && data[10] == 0x42u8 && data[11] == 0x50u8
}

/// The format of `data` by its magic bytes, JPEG first, then PNG, then WebP.
pub open spec fn spec_detect_format(data: Seq<u8>) -> ImageFormat {
    if is_jpeg_magic(data) {
        ImageFormat::Jpeg
    } else if is_png_magic(data) {
        ImageFormat::Png
    } else if is_webp_magic(data) {
        ImageFormat::WebP
    } else {
        ImageFormat::Unknown
    }
}

/// Detect the image format from the first few magic bytes without allocating.
pub fn detect_format(data: &[u8]) -> (r: ImageFormat)
    ensures
        r == spec_detect_format(data@),
{
    if data.len() >= 2 && data[0] == 0xFF && data[1] == 0xD8 {
        return ImageFormat::Jpeg;
    }
    if data.len() >= 8 && data[0] == 0x89 && data[1] == 0x50 && data[2] == 0x4E && data[3] == 0x47
        && data[4] == 0x0D && data[5] == 0x0A && data[6] == 0x1A && data[7] == 0x0A {
        return ImageFormat::Png;
    }
    if data.len() >= 12 && data[0] == 0x52 && data[1] == 0x49 && data[2] == 0x46 && data[3] == 0x46
        && data[8] == 0x57 && data[9] == 0x45 && data[10] == 0x42 && data[11] == 0x50 {
        return ImageFormat::WebP;
    }
    ImageFormat::Unknown
}

/// The JPEG markers whose segments carry only metadata.
pub open spec fn spec_is_stripped_jpeg_marker(marker: u8) -> bool {
    marker == 0xE1u8 || marker == 0xE2u8 || marker == 0xEDu8 || marker == 0xEEu8
}

/// Returns `true` for JPEG APP markers that carry only metadata:
/// `0xE1` APP1 (EXIF or XMP), `0xE2` APP2 (ICC profile), `0xED` APP13
/// (IPTC / Photoshop), `0xEE` APP14 (Adobe colour metadata).
pub fn is_stripped_jpeg_marker(marker: u8) -> (r: bool)
    ensures
        r == spec_is_stripped_jpeg_marker(marker),
{
    marker == 0xE1 || marker == 0xE2 || marker == 0xED || marker == 0xEE
}

/// Whether a JPEG segment with this marker is kept.
pub fn keeps_jpeg_segment(marker: u8) -> (r: bool)
    ensures
        r == !spec_is_stripped_jpeg_marker(marker),
{
    !is_stripped_jpeg_marker(marker)
}

/// The segments that survive stripping, in their order: those whose marker
/// does not carry only metadata. A segment is seen as its marker, its
/// contents and its entropy-coded data.
pub open spec fn kept_jpeg_segments(segments: Seq<(u8, Seq<u8>, Seq<u8>)>) -> Seq<
    (u8, Seq<u8>, Seq<u8>),
> {
    segments.filter(|s: (u8, Seq<u8>, Seq<u8>)| !spec_is_stripped_jpeg_marker(s.0))
}

/// Every segment's contents fit the 16-bit length field of its header.
pub open spec fn jpeg_segments_fit(segments: Seq<(u8, Seq<u8>, Seq<u8>)>) -> bool {
    forall|i: int| 0 <= i < segments.len() ==> #[trigger] segments[i].1.len() <= 65533
}

/// The PNG chunk types that carry only metadata: `tEXt`, `zTXt`, `iTXt`, `eXIf`.
pub open spec fn spec_is_stripped_png_chunk(kind: Seq<u8>) -> bool {
    ||| kind == seq![0x74u8, 0x45u8, 0x58u8, 0x74u8]
    ||| kind == seq![0x7Au8, 0x54u8, 0x58u8, 0x74u8]
    ||| kind == seq![0x69u8, 0x54u8, 0x58u8, 0x74u8]
    ||| kind == seq![0x65u8, 0x58u8, 0x49u8, 0x66u8]
}

/// Whether a PNG chunk of this type is kept.
pub fn keeps_png_chunk(kind: [u8; 4]) -> (r: bool)
    ensures
        r == !spec_is_stripped_png_chunk(kind@),
{
    let is_text = (kind[0] == 0x74 && kind[1] == 0x45 || kind[0] == 0x7A && kind[1] == 0x54
        || kind[0] == 0x69 && kind[1] == 0x54) && kind[2] == 0x58 && kind[3] == 0x74;
    let is_exif = kind[0] == 0x65 && kind[1] == 0x58 && kind[2] == 0x49 && kind[3] == 0x66;
    assert(kind@ == seq![kind[0], kind[1], kind[2], kind[3]]);
    !(is_text || is_exif)
}

/// The chunks that survive stripping, in their order: those whose type does
/// not carry only metadata. A chunk is seen as its type, its contents and
/// its CRC.
pub open spec fn kept_png_chunks(chunks: Seq<(Seq<u8>, Seq<u8>, Seq<u8>)>) -> Seq<
    (Seq<u8>, Seq<u8>, Seq<u8>),
> {
    chunks.filter(|c: (Seq<u8>, Seq<u8>, Seq<u8>)| !spec_is_stripped_png_chunk(c.0))
}

/// Every chunk's contents fit the 32-bit length field of its header.
pub open spec fn png_chunks_fit(chunks: Seq<(Seq<u8>, Seq<u8>, Seq<u8>)>) -> bool {
    forall|i: int| 0 <= i < chunks.len() ==> #[trigger] chunks[i].1.len() <= u32::MAX
}

/// The PNG file signature.
pub open spec fn png_signature() -> Seq<u8> {
    seq![0x89u8, 0x50u8, 0x4Eu8, 0x47u8, 0x0Du8, 0x0Au8, 0x1Au8, 0x0Au8]
}

/// `n` as four big-endian bytes.
pub open spec fn be_u32_bytes(n: nat) -> Seq<u8> {
    seq![
        (n / 0x1000000 % 256) as u8,
        (n / 0x10000 % 256) as u8,
        (n / 0x100 % 256) as u8,
        (n % 256) as u8,
    ]
}

/// A PNG chunk on disk: the length of its contents, its type, its contents,
/// its CRC.
pub open spec fn png_chunk_bytes(chunk: (Seq<u8>, Seq<u8>, Seq<u8>)) -> Seq<u8> {
    be_u32_bytes(chunk.1.len()) + chunk.0 + chunk.1 + chunk.2
}

/// The chunks on disk, one after another.
pub open spec fn png_chunks_bytes(chunks: Seq<(Seq<u8>, Seq<u8>, Seq<u8>)>) -> Seq<u8>
    decreases chunks.len(),
{
    if chunks.len() == 0 {
        Seq::empty()
    } else {
        png_chunk_bytes(chunks[0]) + png_chunks_bytes(chunks.drop_first())
    }
}

/// A PNG file holding `chunks`: the signature, then the chunks.
pub open spec fn png_file_bytes(chunks: Seq<(Seq<u8>, Seq<u8>, Seq<u8>)>) -> Seq<u8> {
    png_signature() + png_chunks_bytes(chunks)
}

/// The WebP chunk ids that carry only metadata: `EXIF`, `ICCP`, `XMP `.
pub open spec fn spec_is_stripped_webp_chunk(id: Seq<u8>) -> bool {
    ||| id == seq![0x45u8, 0x58u8, 0x49u8, 0x46u8]
    ||| id == seq![0x49u8, 0x43u8, 0x43u8, 0x50u8]
    ||| id == seq![0x58u8, 0x4Du8, 0x50u8, 0x20u8]
}

/// The id of the extended-format header chunk of WebP: `VP8X`.
pub open spec fn is_vp8x_chunk(id: Seq<u8>) -> bool {
    id == seq![0x56u8, 0x50u8, 0x38u8, 0x58u8]
}

/// Whether a WebP chunk with this id is kept.
pub fn keeps_webp_chunk(id: [u8; 4]) -> (r: bool)
    ensures
        r == !spec_is_stripped_webp_chunk(id@),
{
    assert(id@ == seq![id[0], id[1], id[2], id[3]]);
    let is_exif = id[0] == 0x45 && id[1] == 0x58 && id[2] == 0x49 && id[3] == 0x46;
    let is_icc = id[0] == 0x49 && id[1] == 0x43 && id[2] == 0x43 && id[3] == 0x50;
    let is_xmp = id[0] == 0x58 && id[1] == 0x4D && id[2] == 0x50 && id[3] == 0x20;
    !(is_exif || is_icc || is_xmp)
}

/// The chunks that survive stripping, in their order: every metadata chunk
/// goes, and so does the `VP8X` header, which only the extended format needs.
pub open spec fn kept_webp_chunks(chunks: Seq<(Seq<u8>, Seq<u8>, nat)>) -> Seq<
    (Seq<u8>, Seq<u8>, nat),
> {
    chunks.filter(|c: (Seq<u8>, Seq<u8>, nat)| !spec_is_stripped_webp_chunk(c.0)).filter(
        |c: (Seq<u8>, Seq<u8>, nat)| !is_vp8x_chunk(c.0),
    )
}

/// `n` as four little-endian bytes.
pub open spec fn le_u32_bytes(n: nat) -> Seq<u8> {
    seq![
        (n % 256) as u8,
        (n / 0x100 % 256) as u8,
        (n / 0x10000 % 256) as u8,
        (n / 0x1000000 % 256) as u8,
    ]
}

/// The summed sizes of `chunks`.
pub open spec fn webp_chunks_size(chunks: Seq<(Seq<u8>, Seq<u8>, nat)>) -> nat
    decreases chunks.len(),
{
    if chunks.len() == 0 {
        0
    } else {
        webp_chunks_size(chunks.drop_last()) + chunks.last().2
    }
}

/// The written bytes of `chunks`, one after another.
pub open spec fn webp_chunks_bytes(chunks: Seq<(Seq<u8>, Seq<u8>, nat)>) -> Seq<u8>
    decreases chunks.len(),
{
    if chunks.len() == 0 {
        Seq::empty()
    } else {
        webp_chunks_bytes(chunks.drop_last()) + chunks.last().1
    }
}

/// A `RIFF` container holding `chunks` has a size, as `RiffChunk::len`
/// counts it (header, form type and chunks, padded to even), that fits in
/// 32 bits; so do the `RIFF` size field and every size summed on the way.
pub open spec fn webp_chunks_fit(chunks: Seq<(Seq<u8>, Seq<u8>, nat)>) -> bool {
    padded((12 + webp_chunks_size(chunks)) as nat) <= u32::MAX
}

/// A WebP file holding `chunks`: `RIFF`, the size of what follows (the
/// form type and the chunks) as a little-endian `u32`, `WEBP`, then the
/// chunks.
pub open spec fn webp_file_bytes(chunks: Seq<(Seq<u8>, Seq<u8>, nat)>) -> Seq<u8> {
    seq![0x52u8, 0x49u8, 0x46u8, 0x46u8] + le_u32_bytes(4 + webp_chunks_size(chunks)) + seq![
        0x57u8,
        0x45u8,
        0x42u8,
        0x50u8,
    ] + webp_chunks_bytes(chunks)
}

/// The shape of a RIFF chunk as far as its written size goes: a data chunk
/// by the length of its contents; a list chunk by its form type, where it
/// has one, and the shapes of its subchunks, in order.
pub enum RiffShape {
    /// A chunk holding data of this many bytes.
    Data(usize),
    /// A chunk holding other chunks.
    List(Option<[u8; 4]>, Vec<RiffShape>),
}

/// `n` rounded up to even: a RIFF chunk of odd size takes one padding byte.
pub open spec fn padded(n: nat) -> nat {
    n + n % 2
}

/// The size that `RiffChunk::len` documents for a chunk of shape `s`: the
/// id (4 bytes), the size field (4 bytes) and the contents (for a list, its
/// form type, if any, and its subchunks), rounded up to even.
pub open spec fn riff_shape_size(s: RiffShape) -> nat
    decreases s,
{
    match s {
        RiffShape::Data(n) => padded((8 + n) as nat),
        RiffShape::List(kind, subs) => padded(
            (8 + (if kind is Some {
                4nat
            } else {
                0nat
            }) + riff_shapes_size(subs@)) as nat,
        ),
    }
}

/// The summed sizes of chunks of shapes `shapes`.
pub open spec fn riff_shapes_size(shapes: Seq<RiffShape>) -> nat
    decreases shapes,
{
    if shapes.len() == 0 {
        0
    } else {
        riff_shapes_size(shapes.drop_last()) + riff_shape_size(shapes.last())
    }
}

/// Stripping refuses `data`: its format is not recognised, or it is a WebP
/// whose kept chunks, written back, would not fit the 32-bit `RIFF` size
/// (`img_parts` sums their sizes in a `u32`).
pub open spec fn strip_refused(data: Seq<u8>) -> bool {
    ||| spec_detect_format(data) == ImageFormat::Unknown
    ||| {
        &&& spec_detect_format(data) == ImageFormat::WebP
        &&& webp_read_chunks(data) matches Some(chunks)
        &&& !webp_chunks_fit(kept_webp_chunks(chunks))
    }
}

/// The segments, each as (marker, contents, entropy-coded data), that
/// `img_parts::jpeg::Jpeg::from_bytes` reads from `data`; `None` where it
/// fails.
pub uninterp spec fn jpeg_read_segments(data: Seq<u8>) -> Option<Seq<(u8, Seq<u8>, Seq<u8>)>>;

/// The segments, each as (marker, contents, entropy-coded data), that an
/// `img_parts::jpeg::Jpeg` holds, in order.
pub uninterp spec fn jpeg_segments(jpeg: img_parts::jpeg::Jpeg) -> Seq<(u8, Seq<u8>, Seq<u8>)>;

/// The bytes that `Jpeg::encoder().bytes()` writes for a `Jpeg` holding
/// `segments`.
pub uninterp spec fn jpeg_written_bytes(segments: Seq<(u8, Seq<u8>, Seq<u8>)>) -> Seq<u8>;

/// The chunks, each as (type, contents, CRC), that
/// `img_parts::png::Png::from_bytes` reads from `data`; `None` where it
/// fails.
pub uninterp spec fn png_read_chunks(data: Seq<u8>) -> Option<Seq<(Seq<u8>, Seq<u8>, Seq<u8>)>>;

/// The chunks, each as (type, contents, CRC), that an `img_parts::png::Png`
/// holds, in order.
pub uninterp spec fn png_chunks(png: img_parts::png::Png) -> Seq<(Seq<u8>, Seq<u8>, Seq<u8>)>;

/// The top-level chunks that `img_parts::webp::WebP::from_bytes` reads from
/// `data`, each as (id, the bytes `RiffChunk::encoder().bytes()` writes for
/// it, the size `RiffChunk::len` gives it, counted without overflow);
/// `None` where it fails.
pub uninterp spec fn webp_read_chunks(data: Seq<u8>) -> Option<Seq<(Seq<u8>, Seq<u8>, nat)>>;

/// The top-level chunks that an `img_parts::webp::WebP` holds, in order,
/// each as (id, written bytes, size), as for `webp_read_chunks`.
pub uninterp spec fn webp_chunks(webp: img_parts::webp::WebP) -> Seq<(Seq<u8>, Seq<u8>, nat)>;

/// Parses `data` with `img_parts::jpeg::Jpeg::from_bytes` (from a copy in
/// `Bytes`). Claimed: it succeeds exactly where `jpeg_read_segments(data)`
/// is `Some`, the `Jpeg` then holds those segments, and each segment's
/// contents are at most 65533 bytes (the parser reads them after a 16-bit
/// length that counts itself).
#[verifier::external_body]
fn parse_jpeg(data: &[u8]) -> (r: Option<img_parts::jpeg::Jpeg>)
    ensures
        r is Some <==> jpeg_read_segments(data@) is Some,
        r matches Some(j) ==> jpeg_read_segments(data@) == Some(jpeg_segments(j)),
        r matches Some(j) ==> jpeg_segments_fit(jpeg_segments(j)),
{
    img_parts::jpeg::Jpeg::from_bytes(img_parts::Bytes::copy_from_slice(data)).ok()
}

/// `Vec::retain` on `Jpeg::segments_mut`, keeping the segments whose marker
/// [`keeps_jpeg_segment`] accepts. Claimed: the `Jpeg` then holds exactly
/// the kept segments, in their order.
#[verifier::external_body]
fn jpeg_retain_segments(jpeg: &mut img_parts::jpeg::Jpeg)
    ensures
        jpeg_segments(*final(jpeg)) == kept_jpeg_segments(jpeg_segments(*old(jpeg))),
{
    jpeg.segments_mut().retain(|segment| keeps_jpeg_segment(segment.marker()))
}

/// `Jpeg::encoder().bytes()`: the container written back to bytes.
/// Claimed: the bytes are `jpeg_written_bytes` of the segments, which are
/// all that a `Jpeg` holds. Required: every segment's contents fit the
/// 16-bit length that the writer unwraps.
#[verifier::external_body]
fn jpeg_to_bytes(jpeg: img_parts::jpeg::Jpeg) -> (r: Vec<u8>)
    requires
        jpeg_segments_fit(jpeg_segments(jpeg)),
    ensures
        r@ == jpeg_written_bytes(jpeg_segments(jpeg)),
{
    jpeg.encoder().bytes().to_vec()
}

/// Parses `data` with `img_parts::png::Png::from_bytes`. Claimed: it
/// succeeds exactly where `png_read_chunks(data)` is `Some`, the `Png` then
/// holds those chunks, and each chunk's contents fit the 32-bit length the
/// parser read them by.
#[verifier::external_body]
fn parse_png(data: &[u8]) -> (r: Option<img_parts::png::Png>)
    ensures
        r is Some <==> png_read_chunks(data@) is Some,
        r matches Some(p) ==> png_read_chunks(data@) == Some(png_chunks(p)),
        r matches Some(p) ==> png_chunks_fit(png_chunks(p)),
{
    img_parts::png::Png::from_bytes(img_parts::Bytes::copy_from_slice(data)).ok()
}

/// `Vec::retain` on `Png::chunks_mut`, keeping the chunks whose type
/// [`keeps_png_chunk`] accepts. Claimed: the `Png` then holds exactly the
/// kept chunks, in their order.
#[verifier::external_body]
fn png_retain_chunks(png: &mut img_parts::png::Png)
    ensures
        png_chunks(*final(png)) == kept_png_chunks(png_chunks(*old(png))),
{
    png.chunks_mut().retain(|chunk| keeps_png_chunk(chunk.kind()))
}

/// `Png::encoder().bytes()`: the container written back to bytes. Claimed:
/// the PNG signature followed by each chunk as length, type, contents and
/// CRC. Required: every chunk's contents fit the 32-bit length that the
/// writer unwraps.
#[verifier::external_body]
fn png_to_bytes(png: img_parts::png::Png) -> (r: Vec<u8>)
    requires
        png_chunks_fit(png_chunks(png)),
    ensures
        r@ == png_file_bytes(png_chunks(png)),
{
    png.encoder().bytes().to_vec()
}

/// Parses `data` with `img_parts::webp::WebP::from_bytes`. Claimed: it
/// succeeds exactly where `webp_read_chunks(data)` is `Some`, and the `WebP`
/// then holds those chunks.
#[verifier::external_body]
fn parse_webp(data: &[u8]) -> (r: Option<img_parts::webp::WebP>)
    ensures
        r is Some <==> webp_read_chunks(data@) is Some,
        r matches Some(w) ==> webp_read_chunks(data@) == Some(webp_chunks(w)),
{
    img_parts::webp::WebP::from_bytes(img_parts::Bytes::copy_from_slice(data)).ok()
}

/// `WebP::chunks`, each chunk read into its [`RiffShape`] by [`riff_shape`].
/// Claimed: one shape per chunk, in order, and the size that `webp_chunks`
/// gives each chunk is the size `RiffChunk::len` documents for its shape.
#[verifier::external_body]
fn webp_chunk_shapes(webp: &img_parts::webp::WebP) -> (r: Vec<RiffShape>)
    ensures
        r@.len() == webp_chunks(*webp).len(),
        forall|i: int| 0 <= i < r@.len() ==> riff_shape_size(#[trigger] r@[i]) == webp_chunks(*webp)[i].2,
{
    webp.chunks().iter().map(riff_shape).collect()
}

/// `RiffChunk::content` read into a [`RiffShape`], for [`webp_chunk_shapes`]:
/// `RiffContent::Data` by the length of its bytes, `RiffContent::List` by
/// its kind and the shapes of its subchunks.
#[verifier::external_body]
fn riff_shape(chunk: &img_parts::riff::RiffChunk) -> RiffShape {
    match chunk.content() {
        img_parts::riff::RiffContent::Data(data) => RiffShape::Data(data.len()),
        img_parts::riff::RiffContent::List { kind, subchunks } => RiffShape::List(
            *kind,
            subchunks.iter().map(riff_shape).collect(),
        ),
    }
}

/// The written size of a chunk of shape `s`, where it is at most `cap`.
fn shape_size_within(s: &RiffShape, cap: u64) -> (r: Option<u64>)
    requires
        cap <= u32::MAX,
    ensures
        match r {
            Some(n) => n == riff_shape_size(*s) && n <= cap,
            None => riff_shape_size(*s) > cap,
        },
    decreases s,
{
    match s {
        RiffShape::Data(n) => {
            if *n as u64 > cap {
                return None;
            }
            let size: u64 = 8 + *n as u64;
            let size = size + size % 2;
            if size > cap {
                None
            } else {
                Some(size)
            }
        },
        RiffShape::List(kind, subs) => {
            let mut total: u64 = if kind.is_some() {
                12
            } else {
                8
            };
            let ghost head: nat = total as nat;
            let mut k: usize = 0;
            while k < subs.len()
                invariant
                    cap <= u32::MAX,
                    *s == RiffShape::List(*kind, *subs),
                    k <= subs@.len(),
                    total == head + riff_shapes_size(subs@.take(k as int)),
                    total <= cap + 12,
                    head == 8 + (if kind is Some {
                        4nat
                    } else {
                        0nat
                    }),
                decreases subs@.len() - k,
            {
                proof {
                    let inner = (*s)->List_1;
                    assert(decreases_to!(*s => (*s)->List_1));
                    assert(decreases_to!(inner => inner@));
                    assert(decreases_to!(inner@ => inner@[k as int]));
                }
                let sub = shape_size_within(&subs[k], cap);
                proof {
                    lemma_shapes_size_prefix(subs@, k as int + 1);
                    assert(subs@.take(k as int + 1).drop_last() =~= subs@.take(k as int));
                    assert(subs@.take(k as int + 1).last() == subs@[k as int]);
                }
                match sub {
                    None => {
                        return None;
                    },
                    Some(m) => {
                        total = total + m;
                        if total > cap {
                            return None;
                        }
                    },
                }
                k = k + 1;
            }
            proof {
                assert(subs@.take(subs@.len() as int) =~= subs@);
            }
            let size = total + total % 2;
            if size > cap {
                None
            } else {
                Some(size)
            }
        },
    }
}

/// A prefix of shapes is no larger than the whole.
proof fn lemma_shapes_size_prefix(shapes: Seq<RiffShape>, k: int)
    requires
        0 <= k <= shapes.len(),
    ensures
        riff_shapes_size(shapes.take(k)) <= riff_shapes_size(shapes),
    decreases shapes.len(),
{
    if k < shapes.len() {
        assert(shapes.drop_last().take(k) =~= shapes.take(k));
        lemma_shapes_size_prefix(shapes.drop_last(), k);
    } else {
        assert(shapes.take(k) =~= shapes);
    }
}

/// Whether a `RIFF` container holding chunks of shapes `shapes` has a size
/// that fits in 32 bits: its header (8 bytes), form type (4 bytes) and
/// chunks, padded to even.
fn shapes_fit_riff(shapes: &Vec<RiffShape>) -> (r: bool)
    ensures
        r == (padded((12 + riff_shapes_size(shapes@)) as nat) <= u32::MAX),
{
    let cap: u64 = 0xFFFF_FFFF;
    let mut total: u64 = 12;
    let mut k: usize = 0;
    while k < shapes.len()
        invariant
            cap == u32::MAX,
            k <= shapes@.len(),
            total == 12 + riff_shapes_size(shapes@.take(k as int)),
            total <= cap,
        decreases shapes@.len() - k,
    {
        let sub = shape_size_within(&shapes[k], cap);
        proof {
            lemma_shapes_size_prefix(shapes@, k as int + 1);
            assert(shapes@.take(k as int + 1).drop_last() =~= shapes@.take(k as int));
            assert(shapes@.take(k as int + 1).last() == shapes@[k as int]);
        }
        match sub {
            None => {
                return false;
            },
            Some(m) => {
                if m > cap - total {
                    return false;
                }
                total = total + m;
            },
        }
        k = k + 1;
    }
    proof {
        assert(shapes@.take(shapes@.len() as int) =~= shapes@);
    }
    total + total % 2 <= cap
}

/// Chunks whose sizes are those of `shapes` have the summed size of `shapes`.
proof fn lemma_chunks_size_is_shapes_size(
    chunks: Seq<(Seq<u8>, Seq<u8>, nat)>,
    shapes: Seq<RiffShape>,
)
    requires
        shapes.len() == chunks.len(),
        forall|i: int| 0 <= i < shapes.len() ==> riff_shape_size(#[trigger] shapes[i]) == chunks[i].2,
    ensures
        webp_chunks_size(chunks) == riff_shapes_size(shapes),
    decreases chunks.len(),
{
    if chunks.len() > 0 {
        lemma_chunks_size_is_shapes_size(chunks.drop_last(), shapes.drop_last());
        assert(riff_shape_size(shapes[shapes.len() - 1]) == chunks[chunks.len() - 1].2);
    }
}

/// `Vec::retain` on `WebP::chunks_mut`, keeping the chunks whose id
/// [`keeps_webp_chunk`] accepts. Claimed: the `WebP` then holds exactly the
/// kept chunks, in their order.
#[verifier::external_body]
fn webp_retain_chunks(webp: &mut img_parts::webp::WebP)
    ensures
        webp_chunks(*final(webp)) == webp_chunks(*old(webp)).filter(
            |c: (Seq<u8>, Seq<u8>, nat)| !spec_is_stripped_webp_chunk(c.0),
        ),
{
    webp.chunks_mut().retain(|chunk| keeps_webp_chunk(chunk.id()))
}

/// `ImageEXIF::set_exif(None)` on a WebP that has no EXIF and no ICC chunk
/// left. `img_parts` removes the EXIF chunks (there are none) and then
/// brings the header in line with the chunks: as none of them calls for
/// the extended format, it removes every `VP8X` chunk. Claimed: exactly
/// that. Required: no EXIF or ICC chunk, the case in which `img_parts`
/// never has to build a `VP8X` chunk (which unwraps the canvas size).
#[verifier::external_body]
fn webp_drop_extended_header(webp: &mut img_parts::webp::WebP)
    requires
        forall|i: int|
            0 <= i < webp_chunks(*old(webp)).len() ==> !spec_is_stripped_webp_chunk(
                (#[trigger] webp_chunks(*old(webp))[i]).0,
            ),
    ensures
        webp_chunks(*final(webp)) == webp_chunks(*old(webp)).filter(
            |c: (Seq<u8>, Seq<u8>, nat)| !is_vp8x_chunk(c.0),
        ),
{
    webp.set_exif(None)
}

/// `WebP::encoder().bytes()`: the RIFF container written back to bytes.
/// Claimed: `RIFF`, the little-endian size of the form type and chunks,
/// `WEBP`, then each chunk as it writes itself. Required: the container's
/// size fits the `u32` in which `RiffChunk::len` computes it (`bytes` asks
/// for it to size its buffer; the sum would overflow otherwise).
#[verifier::external_body]
fn webp_to_bytes(webp: img_parts::webp::WebP) -> (r: Vec<u8>)
    requires
        webp_chunks_fit(webp_chunks(webp)),
    ensures
        r@ == webp_file_bytes(webp_chunks(webp)),
{
    webp.encoder().bytes().to_vec()
}

/// A copy of `data` in a new vector.
pub fn copy_bytes(data: &[u8]) -> (r: Vec<u8>)
    ensures
        r@ == data@,
{
    let mut out: Vec<u8> = Vec::with_capacity(data.len());
    let mut i: usize = 0;
    while i < data.len()
        invariant
            i <= data@.len(),
            out@ == data@.subrange(0, i as int),
        decreases data@.len() - i,
    {
        out.push(data[i]);
        i = i + 1;
    }
    assert(out@ == data@);
    out
}

/// Whether `out` is what stripping `data` gives back: for an input whose
/// container parser fails, the input itself; for a parsed JPEG, the kept
/// segments written back; for a parsed PNG or WebP, the kept chunks written
/// back. Nothing is stripped from an unrecognised format.
pub open spec fn is_stripped_output(data: Seq<u8>, out: Seq<u8>) -> bool {
    match spec_detect_format(data) {
        ImageFormat::Jpeg => match jpeg_read_segments(data) {
            None => out == data,
            Some(segments) => out == jpeg_written_bytes(kept_jpeg_segments(segments)),
        },
        ImageFormat::Png => match png_read_chunks(data) {
            None => out == data,
            Some(chunks) => out == png_file_bytes(kept_png_chunks(chunks)),
        },
        ImageFormat::WebP => match webp_read_chunks(data) {
            None => out == data,
            Some(chunks) => out == webp_file_bytes(kept_webp_chunks(chunks)),
        },
        ImageFormat::Unknown => false,
    }
}

/// Every element of `s.filter(keep)` has a property that every element of
/// `s` has.
proof fn lemma_filter_keeps_property<A>(s: Seq<A>, keep: spec_fn(A) -> bool, q: spec_fn(A) -> bool)
    requires
        forall|i: int| 0 <= i < s.len() ==> q(#[trigger] s[i]),
    ensures
        forall|i: int| 0 <= i < s.filter(keep).len() ==> q(#[trigger] s.filter(keep)[i]),
    decreases s.len(),
{
    reveal(Seq::filter);
    if s.len() > 0 {
        lemma_filter_keeps_property(s.drop_last(), keep, q);
        let sub = s.drop_last().filter(keep);
        assert forall|i: int| 0 <= i < s.filter(keep).len() implies q(
            #[trigger] s.filter(keep)[i],
        ) by {
            if i < sub.len() {
                assert(s.filter(keep)[i] == sub[i]);
            } else {
                assert(s.filter(keep)[i] == s.last());
            }
        }
    }
}

/// Format detection by magic bytes: JPEG starts `FF D8`; PNG starts with
/// the signature `89 50 4E 47 0D 0A 1A 0A`; WebP starts `RIFF` and holds
/// `WEBP` at bytes 8–11; anything else is unknown.
pub proof fn lemma_detect_format_by_magic(data: Seq<u8>)
    ensures
        spec_detect_format(data) == ImageFormat::Jpeg <==> (data.len() >= 2 && data[0] == 0xFFu8
            && data[1] == 0xD8u8),
        spec_detect_format(data) == ImageFormat::Png <==> (data.len() >= 8 && data[0] == 0x89u8
            && data[1] == 0x50u8 && data[2] == 0x4Eu8 && data[3] == 0x47u8 && data[4] == 0x0Du8
            && data[5] == 0x0Au8 && data[6] == 0x1Au8 && data[7] == 0x0Au8),
        spec_detect_format(data) == ImageFormat::WebP <==> (data.len() >= 12 && data[0] == 0x52u8
            && data[1] == 0x49u8 && data[2] == 0x46u8 && data[3] == 0x46u8 && data[8] == 0x57u8
            && data[9] == 0x45u8 && data[10] == 0x42u8 && data[11] == 0x50u8),
{
}

/// What stripping writes for a parsed PNG: the signature and every chunk
/// except those of type `tEXt`, `zTXt`, `iTXt` and `eXIf`, in order; every
/// other chunk (`IHDR`, `PLTE`, `IDAT`, `iCCP`, …) is kept.
pub proof fn lemma_png_strip_drops_exactly_text_and_exif(data: Seq<u8>, out: Seq<u8>)
    requires
        spec_detect_format(data) == ImageFormat::Png,
        png_read_chunks(data) is Some,
        is_stripped_output(data, out),
    ensures
        out == png_file_bytes(
            png_read_chunks(data)->Some_0.filter(
                |c: (Seq<u8>, Seq<u8>, Seq<u8>)|
                    !(c.0 == seq![0x74u8, 0x45u8, 0x58u8, 0x74u8] || c.0 == seq![
                        0x7Au8,
                        0x54u8,
                        0x58u8,
                        0x74u8,
                    ] || c.0 == seq![0x69u8, 0x54u8, 0x58u8, 0x74u8] || c.0 == seq![
                        0x65u8,
                        0x58u8,
                        0x49u8,
                        0x66u8,
                    ]),
            ),
        ),
{
    let f = |c: (Seq<u8>, Seq<u8>, Seq<u8>)| !spec_is_stripped_png_chunk(c.0);
    let g = |c: (Seq<u8>, Seq<u8>, Seq<u8>)|
        !(c.0 == seq![0x74u8, 0x45u8, 0x58u8, 0x74u8] || c.0 == seq![0x7Au8, 0x54u8, 0x58u8, 0x74u8]
            || c.0 == seq![0x69u8, 0x54u8, 0x58u8, 0x74u8] || c.0 == seq![
            0x65u8,
            0x58u8,
            0x49u8,
            0x66u8,
        ]);
    assert(f =~= g);
}

/// What stripping writes for a parsed JPEG: every segment except those
/// whose marker is APP1 (`0xE1`, EXIF / XMP), APP2 (`0xE2`, ICC), APP13
/// (`0xED`, IPTC) or APP14 (`0xEE`), in order, as `img_parts` writes them.
pub proof fn lemma_jpeg_strip_drops_exactly_metadata_markers(data: Seq<u8>, out: Seq<u8>)
    requires
        spec_detect_format(data) == ImageFormat::Jpeg,
        jpeg_read_segments(data) is Some,
        is_stripped_output(data, out),
    ensures
        out == jpeg_written_bytes(
            jpeg_read_segments(data)->Some_0.filter(
                |s: (u8, Seq<u8>, Seq<u8>)|
                    !(s.0 == 0xE1u8 || s.0 == 0xE2u8 || s.0 == 0xEDu8 || s.0 == 0xEEu8),
            ),
        ),
{
    let f = |s: (u8, Seq<u8>, Seq<u8>)| !spec_is_stripped_jpeg_marker(s.0);
    let g = |s: (u8, Seq<u8>, Seq<u8>)|
        !(s.0 == 0xE1u8 || s.0 == 0xE2u8 || s.0 == 0xEDu8 || s.0 == 0xEEu8);
    assert(f =~= g);
}

/// What stripping writes for a parsed WebP that it does not refuse: the
/// `RIFF` container of every chunk except `EXIF`, `ICCP`, `XMP ` and the
/// `VP8X` header, in order.
pub proof fn lemma_webp_strip_drops_exactly_metadata_chunks(data: Seq<u8>, out: Seq<u8>)
    requires
        spec_detect_format(data) == ImageFormat::WebP,
        webp_read_chunks(data) is Some,
        is_stripped_output(data, out),
    ensures
        out == webp_file_bytes(
            webp_read_chunks(data)->Some_0.filter(
                |c: (Seq<u8>, Seq<u8>, nat)|
                    !(c.0 == seq![0x45u8, 0x58u8, 0x49u8, 0x46u8] || c.0 == seq![
                        0x49u8,
                        0x43u8,
                        0x43u8,
                        0x50u8,
                    ] || c.0 == seq![0x58u8, 0x4Du8, 0x50u8, 0x20u8] || c.0 == seq![
                        0x56u8,
                        0x50u8,
                        0x38u8,
                        0x58u8,
                    ]),
            ),
        ),
{
    let chunks = webp_read_chunks(data)->Some_0;
    let f1 = |c: (Seq<u8>, Seq<u8>, nat)| !spec_is_stripped_webp_chunk(c.0);
    let f2 = |c: (Seq<u8>, Seq<u8>, nat)| !is_vp8x_chunk(c.0);
    let g = |c: (Seq<u8>, Seq<u8>, nat)|
        !(c.0 == seq![0x45u8, 0x58u8, 0x49u8, 0x46u8] || c.0 == seq![0x49u8, 0x43u8, 0x43u8, 0x50u8]
            || c.0 == seq![0x58u8, 0x4Du8, 0x50u8, 0x20u8] || c.0 == seq![
            0x56u8,
            0x50u8,
            0x38u8,
            0x58u8,
        ]);
    lemma_filter_twice(chunks, f1, f2, g);
}

/// Filtering by one predicate and then another is filtering by both.
proof fn lemma_filter_twice<A>(
    s: Seq<A>,
    f1: spec_fn(A) -> bool,
    f2: spec_fn(A) -> bool,
    g: spec_fn(A) -> bool,
)
    requires
        forall|x: A| #[trigger] g(x) == (f1(x) && f2(x)),
    ensures
        s.filter(f1).filter(f2) == s.filter(g),
    decreases s.len(),
{
    reveal(Seq::filter);
    if s.len() > 0 {
        lemma_filter_twice(s.drop_last(), f1, f2, g);
        let x = s.last();
        assert(g(x) == (f1(x) && f2(x)));
        if f1(x) {
            assert(s.filter(f1) == s.drop_last().filter(f1).push(x));
            assert(s.filter(f1).drop_last() =~= s.drop_last().filter(f1));
        } else {
            assert(s.filter(f1) == s.drop_last().filter(f1));
        }
    }
}

/// Stripping leaves no metadata segment in a parsed JPEG and keeps every
/// other segment, in its order.
pub proof fn lemma_jpeg_strip_keeps_only_image_segments(segments: Seq<(u8, Seq<u8>, Seq<u8>)>)
    ensures
        forall|i: int|
            0 <= i < kept_jpeg_segments(segments).len() ==> !spec_is_stripped_jpeg_marker(
                (#[trigger] kept_jpeg_segments(segments)[i]).0,
            ),
        forall|i: int|
            0 <= i < segments.len() && !spec_is_stripped_jpeg_marker(segments[i].0)
                ==> #[trigger] kept_jpeg_segments(segments).contains(segments[i]),
{
    broadcast use vstd::seq_lib::group_filter_ensures;

}

/// Stripping leaves no text or EXIF chunk in a parsed PNG and keeps every
/// other chunk, in its order.
pub proof fn lemma_png_strip_keeps_only_image_chunks(chunks: Seq<(Seq<u8>, Seq<u8>, Seq<u8>)>)
    ensures
        forall|i: int|
            0 <= i < kept_png_chunks(chunks).len() ==> !spec_is_stripped_png_chunk(
                (#[trigger] kept_png_chunks(chunks)[i]).0,
            ),
        forall|i: int|
            0 <= i < chunks.len() && !spec_is_stripped_png_chunk(chunks[i].0)
                ==> #[trigger] kept_png_chunks(chunks).contains(chunks[i]),
{
    broadcast use vstd::seq_lib::group_filter_ensures;

}

/// Strip EXIF, IPTC, XMP and ICC metadata from `data`.
///
/// Returns `None` when the format is not recognised (e.g. HEIC, RAW): the
/// caller decides whether that is acceptable. Otherwise the result is
/// `Some`: when the container parser fails on a malformed-but-detected
/// file, the input comes back unchanged, so that the decoder, not this
/// step, reports the error. The one exception is a WebP whose kept chunks,
/// written back, would make a `RIFF` container too large for its 32-bit
/// size (close to 4 GiB), which `img_parts` cannot write.
pub fn strip_metadata(data: &[u8]) -> (r: Option<Vec<u8>>)
    ensures
        r is None <==> strip_refused(data@),
        r matches Some(out) ==> is_stripped_output(data@, out@),
{
    match detect_format(data) {
        ImageFormat::Jpeg => match parse_jpeg(data) {
            None => Some(copy_bytes(data)),
            Some(mut jpeg) => {
                let ghost before = jpeg_segments(jpeg);
                jpeg_retain_segments(&mut jpeg);
                proof {
                    lemma_filter_keeps_property(
                        before,
                        |s: (u8, Seq<u8>, Seq<u8>)| !spec_is_stripped_jpeg_marker(s.0),
                        |s: (u8, Seq<u8>, Seq<u8>)| s.1.len() <= 65533,
                    );
                }
                Some(jpeg_to_bytes(jpeg))
            },
        },
        ImageFormat::Png => match parse_png(data) {
            None => Some(copy_bytes(data)),
            Some(mut png) => {
                let ghost before = png_chunks(png);
                png_retain_chunks(&mut png);
                proof {
                    lemma_filter_keeps_property(
                        before,
                        |c: (Seq<u8>, Seq<u8>, Seq<u8>)| !spec_is_stripped_png_chunk(c.0),
                        |c: (Seq<u8>, Seq<u8>, Seq<u8>)| c.1.len() <= u32::MAX,
                    );
                }
                Some(png_to_bytes(png))
            },
        },
        ImageFormat::WebP => {
            match parse_webp(data) {
                None => Some(copy_bytes(data)),
                Some(mut webp) => {
                    webp_retain_chunks(&mut webp);
                    proof {
                        broadcast use vstd::seq_lib::group_filter_ensures;

                    }
                    webp_drop_extended_header(&mut webp);
                    let shapes = webp_chunk_shapes(&webp);
                    proof {
                        lemma_chunks_size_is_shapes_size(webp_chunks(webp), shapes@);
                    }
                    if !shapes_fit_riff(&shapes) {
                        return None;
                    }
                    Some(webp_to_bytes(webp))
                },
            }
        },
        ImageFormat::Unknown => None,
    }
}

} // verus!
