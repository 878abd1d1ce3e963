use pico::encode::encode_icon;
use pico::error::Error;
use pico::icon::Icon;
use pico::image::Image;
use pico::serialize::serialize_ico;

fn image(width: u32, height: u32, bits_per_pixel: u8, data: Vec<u8>) -> Image {
    Image { width, height, palette_size: None, bits_per_pixel, data }
}

#[test]
fn directory_byte_exactness() {
    let payload: Vec<u8> = vec![9, 8, 7, 6, 5, 4, 3, 2, 1, 0];
    let ico = encode_icon(vec![image(16, 16, 32, payload.clone())]).unwrap();
    assert_eq!(ico.len(), 32);
    assert_eq!(&ico[0..6], &[0, 0, 1, 0, 1, 0]);
    assert_eq!(
        &ico[6..22],
        &[16, 16, 0, 0, 1, 0, 32, 0, 10, 0, 0, 0, 22, 0, 0, 0]
    );
    assert_eq!(&ico[22..32], payload.as_slice());
}

#[test]
fn dimension_256_writes_byte_zero() {
    let ico = encode_icon(vec![image(256, 32, 32, vec![1])]).unwrap();
    assert_eq!(ico[6], 0);
    assert_eq!(ico[7], 32);
}

#[test]
fn dimension_300_rejected() {
    let r = encode_icon(vec![image(300, 16, 32, vec![1])]);
    assert_eq!(r, Err(Error::EncodeFailed));
}

#[test]
fn dimension_zero_rejected() {
    let r = encode_icon(vec![image(16, 0, 32, vec![1])]);
    assert_eq!(r, Err(Error::EncodeFailed));
}

#[test]
fn palette_byte_written_verbatim() {
    let mut img = image(16, 16, 8, vec![1]);
    img.palette_size = Some(255);
    let ico = encode_icon(vec![img]).unwrap();
    assert_eq!(ico[8], 255);
}

#[test]
fn absent_palette_writes_byte_zero() {
    let ico = encode_icon(vec![image(16, 16, 32, vec![1])]).unwrap();
    assert_eq!(ico[8], 0);
}

#[test]
fn present_zero_palette_rejected() {
    let mut img = image(16, 16, 8, vec![1]);
    img.palette_size = Some(0);
    assert_eq!(encode_icon(vec![img]), Err(Error::EncodeFailed));
}

#[test]
fn oversized_palette_rejected() {
    let mut img = image(16, 16, 8, vec![1]);
    img.palette_size = Some(256);
    assert_eq!(encode_icon(vec![img]), Err(Error::EncodeFailed));
}

#[test]
fn empty_container_is_bare_header() {
    let ico = encode_icon(Vec::new()).unwrap();
    assert_eq!(ico, vec![0, 0, 1, 0, 0, 0]);
}

#[test]
fn offsets_accumulate_in_order() {
    let a = image(1, 1, 32, vec![10, 11, 12]);
    let b = image(2, 2, 32, vec![20, 21, 22, 23, 24]);
    let ico = encode_icon(vec![a, b]).unwrap();
    assert_eq!(ico.len(), 6 + 32 + 8);
    // First entry: size 3, offset 38.
    assert_eq!(&ico[14..22], &[3, 0, 0, 0, 38, 0, 0, 0]);
    // Second entry: size 5, offset 41.
    assert_eq!(&ico[30..38], &[5, 0, 0, 0, 41, 0, 0, 0]);
    assert_eq!(&ico[38..41], &[10, 11, 12]);
    assert_eq!(&ico[41..46], &[20, 21, 22, 23, 24]);
}

#[test]
fn entry_count_65535_succeeds() {
    let mut images = Vec::new();
    for _ in 0..65535 {
        images.push(image(1, 1, 1, Vec::new()));
    }
    let ico = encode_icon(images).unwrap();
    assert_eq!(ico.len(), 6 + 65535 * 16);
    assert_eq!(&ico[0..6], &[0, 0, 1, 0, 0xff, 0xff]);
}

#[test]
fn entry_count_65536_rejected() {
    let mut images = Vec::new();
    for _ in 0..65536 {
        images.push(image(1, 1, 1, Vec::new()));
    }
    assert_eq!(encode_icon(images), Err(Error::TooManyEntries));
}

#[test]
fn icon_encode_matches_serialize_ico() {
    let images = vec![image(4, 8, 24, vec![1, 2, 3])];
    let direct = serialize_ico(&images).unwrap();
    let via_icon = Icon::new(images).encode().unwrap();
    assert_eq!(direct, via_icon);
}
