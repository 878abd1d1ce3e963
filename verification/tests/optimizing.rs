use pico::config::OptLevel;
use pico::image::optimize::OptimizeError;
use pico::image::Image;

fn crc32(bytes: &[u8]) -> u32 {
    let mut c: u32 = 0xffff_ffff;
    for &b in bytes {
        c ^= b as u32;
        for _ in 0..8 {
            c = if c & 1 != 0 { 0xedb8_8320 ^ (c >> 1) } else { c >> 1 };
        }
    }
    c ^ 0xffff_ffff
}

fn adler32(bytes: &[u8]) -> u32 {
    let mut a: u32 = 1;
    let mut b: u32 = 0;
    for &byte in bytes {
        a = (a + byte as u32) % 65521;
        b = (b + a) % 65521;
    }
    (b << 16) | a
}

/// Frames one chunk with a real CRC, as a full decoder demands.
fn checked_chunk(tag: &[u8; 4], body: &[u8]) -> Vec<u8> {
    let mut c = Vec::new();
    c.extend_from_slice(&(body.len() as u32).to_be_bytes());
    c.extend_from_slice(tag);
    c.extend_from_slice(body);
    let mut covered = tag.to_vec();
    covered.extend_from_slice(body);
    c.extend_from_slice(&crc32(&covered).to_be_bytes());
    c
}

/// Wraps raw bytes in a zlib stream with one stored block.
fn zlib_stored(raw: &[u8]) -> Vec<u8> {
    let mut z = vec![0x78, 0x01, 0x01];
    let len = raw.len() as u16;
    z.extend_from_slice(&len.to_le_bytes());
    z.extend_from_slice(&(!len).to_le_bytes());
    z.extend_from_slice(raw);
    z.extend_from_slice(&adler32(raw).to_be_bytes());
    z
}

/// A complete, decodable 1-by-1 greyscale PNG.
fn tiny_valid_png() -> Vec<u8> {
    let mut data = b"\x89PNG\r\n\x1a\n".to_vec();
    let mut ihdr = Vec::new();
    ihdr.extend_from_slice(&1u32.to_be_bytes());
    ihdr.extend_from_slice(&1u32.to_be_bytes());
    ihdr.extend_from_slice(&[8, 0, 0, 0, 0]);
    data.extend(checked_chunk(b"IHDR", &ihdr));
    // One scanline: filter byte, then the single pixel.
    data.extend(checked_chunk(b"IDAT", &zlib_stored(&[0x00, 0x7f])));
    data.extend(checked_chunk(b"IEND", &[]));
    data
}

#[test]
fn optimize_keeps_metadata_of_revalidated_output() {
    let data = tiny_valid_png();
    let image = Image::from_data(data).unwrap();
    let optimized = image.optimize(&OptLevel::Low).unwrap();
    assert_eq!(optimized.width, 1);
    assert_eq!(optimized.height, 1);
    // The optimizer's output is itself re-read by the library's reader,
    // so the returned metadata matches the returned bytes.
    let reread = Image::from_data(optimized.data.clone()).unwrap();
    assert_eq!(reread.width, optimized.width);
    assert_eq!(reread.height, optimized.height);
    assert_eq!(reread.bits_per_pixel, optimized.bits_per_pixel);
    assert_eq!(reread.palette_size, optimized.palette_size);
}

#[test]
fn optimize_surfaces_collaborator_failure() {
    let image = Image {
        width: 1,
        height: 1,
        palette_size: None,
        bits_per_pixel: 8,
        data: vec![1, 2, 3, 4],
    };
    match image.optimize(&OptLevel::Low) {
        Err(OptimizeError::Optimizer(message)) => assert!(!message.is_empty()),
        other => panic!("expected a collaborator failure, got {:?}", other),
    }
}
