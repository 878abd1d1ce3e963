use pico::image::decode::{ColorType, Error, PngCursor};
use pico::image::Image;

/// Frames one chunk: big-endian length, tag, body, and a zero CRC field
/// (the reader skips the CRC without validating it).
fn chunk(tag: &[u8; 4], body: &[u8]) -> Vec<u8> {
    let mut c = Vec::new();
    c.extend_from_slice(&(body.len() as u32).to_be_bytes());
    c.extend_from_slice(tag);
    c.extend_from_slice(body);
    c.extend_from_slice(&[0, 0, 0, 0]);
    c
}

fn ihdr_body(w: u32, h: u32, depth: u8, color: u8) -> Vec<u8> {
    let mut body = Vec::new();
    body.extend_from_slice(&w.to_be_bytes());
    body.extend_from_slice(&h.to_be_bytes());
    body.push(depth);
    body.push(color);
    body.extend_from_slice(&[0, 0, 0]);
    body
}

fn minimal_png(w: u32, h: u32, depth: u8, color: u8) -> Vec<u8> {
    let mut data = b"\x89PNG\r\n\x1a\n".to_vec();
    data.extend(chunk(b"IHDR", &ihdr_body(w, h, depth, color)));
    data
}

#[test]
fn round_trip_metadata_truecolor_alpha() {
    let data = minimal_png(16, 16, 8, 6);
    let image = Image::from_data(data.clone()).unwrap();
    assert_eq!(image.width, 16);
    assert_eq!(image.height, 16);
    assert_eq!(image.bits_per_pixel, 32);
    assert_eq!(image.palette_size, None);
    assert_eq!(image.data, data);
}

#[test]
fn round_trip_metadata_greyscale() {
    let image = Image::from_data(minimal_png(256, 1, 16, 0)).unwrap();
    assert_eq!(image.width, 256);
    assert_eq!(image.height, 1);
    assert_eq!(image.bits_per_pixel, 16);
    assert_eq!(image.palette_size, None);
}

#[test]
fn round_trip_metadata_indexed() {
    let mut data = minimal_png(5, 7, 8, 3);
    data.extend(chunk(b"PLTE", &[0u8; 9]));
    let image = Image::from_data(data).unwrap();
    assert_eq!(image.width, 5);
    assert_eq!(image.height, 7);
    assert_eq!(image.bits_per_pixel, 8);
    assert_eq!(image.palette_size, Some(3));
}

#[test]
fn palette_size_rounds_down() {
    let mut data = minimal_png(5, 7, 4, 3);
    data.extend(chunk(b"PLTE", &[0u8; 8]));
    let image = Image::from_data(data).unwrap();
    assert_eq!(image.palette_size, Some(2));
}

#[test]
fn signature_rejected() {
    let mut data = b"\x88PNG\r\n\x1a\n".to_vec();
    data.extend(chunk(b"IHDR", &ihdr_body(16, 16, 8, 6)));
    assert_eq!(Image::from_data(data), Err(Error::SignatureNotPng));
}

#[test]
fn signature_rejected_despite_valid_chunks() {
    let mut data = b"JFIF\r\n\x1a\n".to_vec();
    data.extend(chunk(b"IHDR", &ihdr_body(16, 16, 8, 6)));
    assert_eq!(Image::from_data(data), Err(Error::SignatureNotPng));
}

#[test]
fn zero_width_rejected() {
    let data = minimal_png(0, 16, 8, 6);
    assert_eq!(Image::from_data(data), Err(Error::ZeroDimension));
}

#[test]
fn zero_height_rejected() {
    let data = minimal_png(16, 0, 8, 6);
    assert_eq!(Image::from_data(data), Err(Error::ZeroDimension));
}

#[test]
fn invalid_bit_depth_rejected() {
    let data = minimal_png(16, 16, 3, 6);
    assert_eq!(Image::from_data(data), Err(Error::InvalidBitDepth(3)));
}

#[test]
fn invalid_color_type_rejected() {
    let data = minimal_png(16, 16, 8, 5);
    assert_eq!(Image::from_data(data), Err(Error::InvalidColorType(5)));
}

#[test]
fn empty_data_truncated() {
    assert_eq!(Image::from_data(Vec::new()), Err(Error::TruncatedData));
}

#[test]
fn signature_only_truncated() {
    let data = b"\x89PNG\r\n\x1a\n".to_vec();
    assert_eq!(Image::from_data(data), Err(Error::TruncatedData));
}

#[test]
fn header_fields_truncated() {
    let mut data = minimal_png(16, 16, 8, 6);
    // Cut the stream inside the header chunk's height field.
    data.truncate(8 + 8 + 6);
    assert_eq!(Image::from_data(data), Err(Error::TruncatedData));
}

#[test]
fn indexed_without_palette_truncated() {
    let data = minimal_png(16, 16, 8, 3);
    assert_eq!(Image::from_data(data), Err(Error::TruncatedData));
}

#[test]
fn leading_chunk_skipped() {
    let mut data = b"\x89PNG\r\n\x1a\n".to_vec();
    data.extend(chunk(b"tEXt", b"note"));
    data.extend(chunk(b"IHDR", &ihdr_body(12, 34, 8, 2)));
    let image = Image::from_data(data).unwrap();
    assert_eq!(image.width, 12);
    assert_eq!(image.height, 34);
    assert_eq!(image.bits_per_pixel, 24);
}

#[test]
fn intervening_chunk_before_palette_skipped() {
    let mut data = minimal_png(4, 4, 8, 3);
    data.extend(chunk(b"tEXt", b"ignored"));
    data.extend(chunk(b"PLTE", &[0u8; 12]));
    let image = Image::from_data(data).unwrap();
    assert_eq!(image.palette_size, Some(4));
}

#[test]
fn reparse_of_parsed_data_is_identical() {
    let data = minimal_png(31, 17, 8, 4);
    let first = Image::from_data(data).unwrap();
    let second = Image::from_data(first.data.clone()).unwrap();
    assert_eq!(second.width, first.width);
    assert_eq!(second.height, first.height);
    assert_eq!(second.bits_per_pixel, first.bits_per_pixel);
    assert_eq!(second.palette_size, first.palette_size);
    assert_eq!(second.data, first.data);
}

#[test]
fn cursor_reads_header_fields() {
    let data = minimal_png(300, 70000, 8, 0);
    let mut cursor = PngCursor::new(data.clone()).unwrap();
    cursor.find_chunk(*b"IHDR").unwrap();
    assert_eq!(cursor.chunk_length(), 13);
    assert_eq!(cursor.read_u32(), Ok(300));
    assert_eq!(cursor.read_u32(), Ok(70000));
    assert_eq!(cursor.read_u8(), Ok(8));
    let color = cursor.read_color_type().unwrap();
    assert_eq!(color.samples_per_pixel(), 1);
    assert_eq!(cursor.into_data(), data);
}

#[test]
fn cursor_rejects_bad_signature() {
    let data = b"\x89PNG\r\n\x1a\x0b0123456789abcdef".to_vec();
    assert!(matches!(PngCursor::new(data), Err(Error::SignatureNotPng)));
}

#[test]
fn cursor_reports_invalid_color_type() {
    let data = minimal_png(1, 1, 8, 9);
    let mut cursor = PngCursor::new(data).unwrap();
    cursor.find_chunk(*b"IHDR").unwrap();
    cursor.read_u32().unwrap();
    cursor.read_u32().unwrap();
    cursor.read_u8().unwrap();
    assert_eq!(cursor.read_color_type(), Err(Error::InvalidColorType(9)));
}

#[test]
fn cursor_find_chunk_reports_truncation() {
    let data = minimal_png(1, 1, 8, 0);
    let mut cursor = PngCursor::new(data).unwrap();
    assert_eq!(cursor.find_chunk(*b"PLTE"), Err(Error::TruncatedData));
}

#[test]
fn samples_per_pixel_by_color_type() {
    assert_eq!(ColorType::Greyscale.samples_per_pixel(), 1);
    assert_eq!(ColorType::Truecolor.samples_per_pixel(), 3);
    assert_eq!(ColorType::IndexedColor.samples_per_pixel(), 1);
    assert_eq!(ColorType::GreyscaleWithAlpha.samples_per_pixel(), 2);
    assert_eq!(ColorType::TruecolorWithAlpha.samples_per_pixel(), 4);
}

#[test]
fn resolution_widens_before_multiplying() {
    let image = Image {
        width: 0xffff_ffff,
        height: 0xffff_ffff,
        palette_size: None,
        bits_per_pixel: 1,
        data: Vec::new(),
    };
    assert_eq!(image.resolution(), 0xffff_fffe_0000_0001);
}
