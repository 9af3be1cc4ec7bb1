//! Tests of format detection and metadata stripping.

use img4avif::metadata::{detect_format, is_stripped_jpeg_marker, strip_metadata, ImageFormat};
use img_parts::png::PngChunk;
use img_parts::webp::WebP;
use img_parts::ImageEXIF;
use img_parts::Bytes;

#[test]
fn detect_format_jpeg() {
    assert_eq!(detect_format(&[0xFF, 0xD8, 0x00]), ImageFormat::Jpeg);
}

#[test]
fn detect_format_png() {
    let magic = [0x89, 0x50, 0x4E, 0x47, 0x0D, 0x0A, 0x1A, 0x0A, 0x00];
    assert_eq!(detect_format(&magic), ImageFormat::Png);
}

#[test]
fn detect_format_webp() {
    let mut hdr = [0u8; 12];
    hdr[..4].copy_from_slice(b"RIFF");
    hdr[8..12].copy_from_slice(b"WEBP");
    assert_eq!(detect_format(&hdr), ImageFormat::WebP);
}

#[test]
fn detect_format_unknown() {
    assert_eq!(detect_format(b"not an image"), ImageFormat::Unknown);
    assert_eq!(detect_format(&[]), ImageFormat::Unknown);
}

#[test]
fn detect_format_short_prefixes_are_unknown() {
    assert_eq!(detect_format(&[0xFF]), ImageFormat::Unknown);
    assert_eq!(detect_format(&[0x89, 0x50, 0x4E, 0x47]), ImageFormat::Unknown);
    assert_eq!(detect_format(b"RIFF\0\0\0\0WEB"), ImageFormat::Unknown);
}

#[test]
fn strip_unknown_bytes_returns_none() {
    let data = b"not an image";
    assert!(strip_metadata(data).is_none());
}

#[test]
fn strip_empty_slice_returns_none() {
    assert!(strip_metadata(&[]).is_none());
}

#[test]
fn marker_classification() {
    assert!(is_stripped_jpeg_marker(0xE1));
    assert!(is_stripped_jpeg_marker(0xE2));
    assert!(is_stripped_jpeg_marker(0xED));
    assert!(is_stripped_jpeg_marker(0xEE));
    assert!(!is_stripped_jpeg_marker(0xE0));
    assert!(!is_stripped_jpeg_marker(0xDA));
}

#[test]
fn strip_webp_does_not_corrupt_image() {
    let img = image::RgbaImage::from_pixel(8, 8, image::Rgba([100u8, 150, 200, 255]));
    let mut buf = Vec::new();
    img.write_to(&mut std::io::Cursor::new(&mut buf), image::ImageFormat::WebP)
        .expect("test WebP encode");

    let stripped = strip_metadata(&buf).expect("WebP stripping should succeed");
    assert!(
        WebP::from_bytes(Bytes::copy_from_slice(&stripped)).is_ok(),
        "stripped WebP is not parseable"
    );
    let decoded = image::load_from_memory(&stripped).expect("stripped WebP should decode");
    assert_eq!(decoded.width(), 8);
    assert_eq!(decoded.height(), 8);
}

#[test]
fn malformed_jpeg_returns_some_passthrough() {
    let data = [0xFF, 0xD8, 0xDE, 0xAD, 0xBE, 0xEF, 0x00];
    let result = strip_metadata(&data);
    assert!(
        result.is_some(),
        "malformed-but-detected JPEG should return Some, not None"
    );
    assert_eq!(result.unwrap(), data, "passthrough should be identical to input");
}

#[test]
fn malformed_png_returns_some_passthrough() {
    let mut data = vec![0x89, 0x50, 0x4E, 0x47, 0x0D, 0x0A, 0x1A, 0x0A];
    data.extend_from_slice(b"GARBAGE");
    let result = strip_metadata(&data);
    assert!(
        result.is_some(),
        "malformed-but-detected PNG should return Some, not None"
    );
    assert_eq!(result.unwrap(), data, "passthrough should be identical to input");
}

#[test]
fn malformed_webp_returns_some_passthrough() {
    let mut data = [0u8; 20];
    data[..4].copy_from_slice(b"RIFF");
    data[8..12].copy_from_slice(b"WEBP");
    let result = strip_metadata(&data);
    assert!(
        result.is_some(),
        "malformed-but-detected WebP should return Some, not None"
    );
    assert_eq!(result.unwrap(), data, "passthrough should be identical to input");
}

#[test]
fn strip_png_removes_text_chunks_and_keeps_image() {
    let img = image::RgbaImage::from_pixel(4, 4, image::Rgba([1u8, 2, 3, 255]));
    let mut buf = Vec::new();
    img.write_to(&mut std::io::Cursor::new(&mut buf), image::ImageFormat::Png)
        .expect("test PNG encode");
    let mut png = img_parts::png::Png::from_bytes(Bytes::copy_from_slice(&buf)).unwrap();
    let text = img_parts::png::PngChunk::new(*b"tEXt", Bytes::from_static(b"Comment\0secret"));
    png.chunks_mut().insert(1, text);
    let with_text = png.encoder().bytes().to_vec();
    assert!(with_text.windows(6).any(|w| w == b"secret"));

    let stripped = strip_metadata(&with_text).expect("PNG stripping should succeed");
    assert!(!stripped.windows(6).any(|w| w == b"secret"));
    let decoded = image::load_from_memory(&stripped).expect("stripped PNG should decode");
    assert_eq!(decoded.width(), 4);
}

#[test]
fn strip_jpeg_removes_app1_segment() {
    let img = image::RgbImage::from_pixel(8, 8, image::Rgb([9u8, 99, 199]));
    let mut buf = Vec::new();
    img.write_to(&mut std::io::Cursor::new(&mut buf), image::ImageFormat::Jpeg)
        .expect("test JPEG encode");
    let mut jpeg = img_parts::jpeg::Jpeg::from_bytes(Bytes::copy_from_slice(&buf)).unwrap();
    let app1 = img_parts::jpeg::JpegSegment::new_with_contents(
        0xE1,
        Bytes::from_static(b"Exif\0\0private-data"),
    );
    jpeg.segments_mut().insert(1, app1);
    let with_exif = jpeg.encoder().bytes().to_vec();
    assert!(with_exif.windows(12).any(|w| w == b"private-data"));

    let stripped = strip_metadata(&with_exif).expect("JPEG stripping should succeed");
    assert!(!stripped.windows(12).any(|w| w == b"private-data"));
    let decoded = image::load_from_memory(&stripped).expect("stripped JPEG should decode");
    assert_eq!(decoded.width(), 8);
}

fn png_chunk_on_disk(kind: &[u8; 4], contents: &[u8], crc: &[u8; 4]) -> Vec<u8> {
    let mut out = (contents.len() as u32).to_be_bytes().to_vec();
    out.extend_from_slice(kind);
    out.extend_from_slice(contents);
    out.extend_from_slice(crc);
    out
}

#[test]
fn strip_png_writes_signature_and_kept_chunks() {
    let ihdr = PngChunk::new(*b"IHDR", Bytes::from_static(&[0, 0, 0, 1, 0, 0, 0, 1, 8, 6, 0, 0, 0]));
    let text = PngChunk::new(*b"tEXt", Bytes::from_static(b"Author\0someone"));
    let ztxt = PngChunk::new(*b"zTXt", Bytes::from_static(b"k\0\0x"));
    let exif = PngChunk::new(*b"eXIf", Bytes::from_static(b"MM\0*"));
    let iend = PngChunk::new(*b"IEND", Bytes::new());
    let mut png = img_parts::png::Png::from_bytes(Bytes::from_static(&[
        0x89, 0x50, 0x4E, 0x47, 0x0D, 0x0A, 0x1A, 0x0A,
    ]))
    .unwrap();
    png.chunks_mut().extend([ihdr.clone(), text, ztxt, exif, iend.clone()]);
    let input = png.encoder().bytes().to_vec();

    let stripped = strip_metadata(&input).expect("PNG stripping should succeed");

    let mut expected = vec![0x89, 0x50, 0x4E, 0x47, 0x0D, 0x0A, 0x1A, 0x0A];
    for chunk in [&ihdr, &iend] {
        let encoded = chunk.clone().encoder().bytes().to_vec();
        let crc: [u8; 4] = encoded[encoded.len() - 4..].try_into().unwrap();
        expected.extend(png_chunk_on_disk(&chunk.kind(), chunk.contents(), &crc));
    }
    assert_eq!(stripped, expected);
}

#[test]
fn strip_png_without_metadata_is_unchanged() {
    let img = image::RgbaImage::from_pixel(3, 2, image::Rgba([7u8, 8, 9, 10]));
    let mut buf = Vec::new();
    img.write_to(&mut std::io::Cursor::new(&mut buf), image::ImageFormat::Png)
        .expect("test PNG encode");
    assert_eq!(strip_metadata(&buf).unwrap(), buf);
}

#[test]
fn strip_jpeg_removes_every_metadata_marker_and_keeps_the_rest() {
    let img = image::RgbImage::from_pixel(8, 8, image::Rgb([40u8, 80, 120]));
    let mut buf = Vec::new();
    img.write_to(&mut std::io::Cursor::new(&mut buf), image::ImageFormat::Jpeg)
        .expect("test JPEG encode");
    let original = img_parts::jpeg::Jpeg::from_bytes(Bytes::copy_from_slice(&buf)).unwrap();
    let mut jpeg = original.clone();
    for (marker, contents) in [
        (0xE1u8, &b"http://ns.adobe.com/xap/1.0/\0<x/>"[..]),
        (0xE2, b"ICC_PROFILE\0"),
        (0xED, b"Photoshop 3.0\0"),
        (0xEE, b"Adobe\0"),
    ] {
        let segment =
            img_parts::jpeg::JpegSegment::new_with_contents(marker, Bytes::copy_from_slice(contents));
        jpeg.segments_mut().insert(1, segment);
    }
    let with_metadata = jpeg.encoder().bytes().to_vec();

    let stripped = strip_metadata(&with_metadata).expect("JPEG stripping should succeed");
    let reparsed = img_parts::jpeg::Jpeg::from_bytes(Bytes::copy_from_slice(&stripped)).unwrap();
    let markers: Vec<u8> = reparsed.segments().iter().map(|s| s.marker()).collect();
    let expected: Vec<u8> = original.segments().iter().map(|s| s.marker()).collect();
    assert_eq!(markers, expected);
    assert_eq!(stripped, original.encoder().bytes().to_vec());
}

#[test]
fn strip_webp_removes_exif_chunk_and_extended_header() {
    let img = image::RgbaImage::from_pixel(8, 8, image::Rgba([10u8, 20, 30, 255]));
    let mut buf = Vec::new();
    img.write_to(&mut std::io::Cursor::new(&mut buf), image::ImageFormat::WebP)
        .expect("test WebP encode");
    let mut webp = WebP::from_bytes(Bytes::copy_from_slice(&buf)).unwrap();
    webp.set_exif(Some(Bytes::from_static(b"MM\0*\0\0\0\x08camera-serial")));
    let with_exif = webp.encoder().bytes().to_vec();
    let parsed = WebP::from_bytes(Bytes::copy_from_slice(&with_exif)).unwrap();
    assert!(parsed.has_chunk(*b"EXIF"));
    assert!(parsed.has_chunk(*b"VP8X"));

    let stripped = strip_metadata(&with_exif).expect("WebP stripping should succeed");
    let reparsed = WebP::from_bytes(Bytes::copy_from_slice(&stripped)).unwrap();
    assert!(!reparsed.has_chunk(*b"EXIF"));
    assert!(!reparsed.has_chunk(*b"VP8X"));
    assert!(!stripped.windows(13).any(|w| w == b"camera-serial"));
    let decoded = image::load_from_memory(&stripped).expect("stripped WebP should decode");
    assert_eq!((decoded.width(), decoded.height()), (8, 8));
}

#[test]
fn strip_webp_gives_back_the_container_without_metadata() {
    let img = image::RgbaImage::from_pixel(8, 8, image::Rgba([10u8, 20, 30, 255]));
    let mut buf = Vec::new();
    img.write_to(&mut std::io::Cursor::new(&mut buf), image::ImageFormat::WebP)
        .expect("test WebP encode");
    let mut webp = WebP::from_bytes(Bytes::copy_from_slice(&buf)).unwrap();
    let plain = webp.clone().encoder().bytes().to_vec();
    webp.set_exif(Some(Bytes::from_static(b"MM\0*\0\0\0\x08serial")));
    let with_exif = webp.encoder().bytes().to_vec();
    assert_ne!(with_exif, plain);
    assert_eq!(strip_metadata(&with_exif).unwrap(), plain);
}

fn riff_chunk(id: &[u8; 4], contents: &[u8]) -> Vec<u8> {
    let mut out = id.to_vec();
    out.extend_from_slice(&(contents.len() as u32).to_le_bytes());
    out.extend_from_slice(contents);
    if contents.len() % 2 == 1 {
        out.push(0);
    }
    out
}

#[test]
fn strip_webp_keeps_list_chunks_and_drops_metadata() {
    let vp8l = riff_chunk(b"VP8L", &[0x2f, 0, 0, 0, 0]);
    let mut list_contents = b"INFO".to_vec();
    list_contents.extend(riff_chunk(b"INAM", b"abcd"));
    let list = riff_chunk(b"LIST", &list_contents);
    let exif = riff_chunk(b"EXIF", b"MM\0*");
    let mut body = b"WEBP".to_vec();
    body.extend(&vp8l);
    body.extend(&list);
    body.extend(&exif);
    let mut file = b"RIFF".to_vec();
    file.extend_from_slice(&(body.len() as u32).to_le_bytes());
    file.extend(body);

    let out = strip_metadata(&file).expect("a parsed WebP is stripped");
    let mut expected_body = b"WEBP".to_vec();
    expected_body.extend(&vp8l);
    expected_body.extend(&list);
    let mut expected = b"RIFF".to_vec();
    expected.extend_from_slice(&(expected_body.len() as u32).to_le_bytes());
    expected.extend(expected_body);
    assert_eq!(out, expected);
}
