//! The ICO container encoder.
//!
//! A container is a 6-byte header, one fixed 16-byte directory entry per
//! image, and the concatenation of every image's raw bytes, in input order.
//! All multi-byte fields are little-endian. Every value that must be
//! narrowed into a fixed-width directory field is range-checked; a value
//! that does not fit fails the whole encode.

use vstd::prelude::*;

use crate::error::Error;
use crate::image::{Image, ImageModel};

verus! {

/// The little-endian bytes of a `u16` value.
pub open spec fn u16_le(v: u16) -> Seq<u8> {
    seq![(v % 0x100) as u8, (v / 0x100) as u8]
}

/// The little-endian bytes of a `u32` value.
pub open spec fn u32_le(v: u32) -> Seq<u8> {
    seq![
        (v % 0x100) as u8,
        ((v / 0x100) % 0x100) as u8,
        ((v / 0x1_0000) % 0x100) as u8,
        (v / 0x100_0000) as u8,
    ]
}

/// Whether a directory entry can hold the dimension `v`: 1 through 256
/// pixels.
pub open spec fn dimension_representable(v: u32) -> bool {
    1 <= v <= 256
}

/// The byte a directory entry holds for the dimension `v`; the byte 0
/// means 256 pixels.
pub open spec fn dimension_byte(v: u32) -> u8 {
    if v == 256 {
        0
    } else {
        v as u8
    }
}

/// Whether a directory entry can hold the palette size `p`: no palette,
/// or 1 through 255 entries.
pub open spec fn palette_representable(p: Option<u32>) -> bool {
    match p {
        None => true,
        Some(n) => 1 <= n <= 255,
    }
}

/// The byte a directory entry holds for the palette size `p`; the byte 0
/// means no palette.
pub open spec fn palette_byte(p: Option<u32>) -> u8 {
    match p {
        None => 0,
        Some(n) => n as u8,
    }
}

/// Whether one image fits a directory entry whose payload is placed at
/// byte offset `offset`.
pub open spec fn entry_representable(image: ImageModel, offset: int) -> bool {
    &&& dimension_representable(image.width)
    &&& dimension_representable(image.height)
    &&& palette_representable(image.palette_size)
    &&& image.data.len() <= 0xffff_ffff
    &&& offset <= 0xffff_ffff
}

/// The 16 bytes of the directory entry that describes `image` with its
/// payload at byte offset `offset`.
pub open spec fn entry_bytes(image: ImageModel, offset: int) -> Seq<u8> {
    seq![
        dimension_byte(image.width),
        dimension_byte(image.height),
        palette_byte(image.palette_size),
        0u8,
    ] + u16_le(1) + u16_le(image.bits_per_pixel as u16) + u32_le(image.data.len() as u32) + u32_le(
        offset as u32,
    )
}

/// The 6-byte container header announcing `count` entries: a zero reserved
/// field, the icon type, and the entry count.
pub open spec fn header_bytes(count: u16) -> Seq<u8> {
    u16_le(0) + u16_le(1) + u16_le(count)
}

/// The byte offset at which image `k`'s payload is placed: the header and
/// directory sizes plus the lengths of all earlier payloads.
pub open spec fn payload_offset(images: Seq<ImageModel>, k: int) -> int
    decreases k,
{
    if k <= 0 {
        6 + 16 * (images.len() as int)
    } else {
        payload_offset(images, k - 1) + images[k - 1].data.len()
    }
}

/// Whether every image fits its directory entry at its payload offset.
pub open spec fn all_entries_representable(images: Seq<ImageModel>) -> bool {
    forall|k: int|
        0 <= k < images.len() ==> entry_representable(
            images[k],
            #[trigger] payload_offset(images, k),
        )
}

/// The concatenated directory entries of the first `k` images.
pub open spec fn entries_bytes(images: Seq<ImageModel>, k: int) -> Seq<u8>
    decreases k,
{
    if k <= 0 {
        Seq::empty()
    } else {
        entries_bytes(images, k - 1) + entry_bytes(images[k - 1], payload_offset(images, k - 1))
    }
}

/// The concatenated payloads of the first `k` images.
pub open spec fn payloads_bytes(images: Seq<ImageModel>, k: int) -> Seq<u8>
    decreases k,
{
    if k <= 0 {
        Seq::empty()
    } else {
        payloads_bytes(images, k - 1) + images[k - 1].data
    }
}

/// The bytes of the fully encoded container: header, directory, payloads.
pub open spec fn encode_bytes(images: Seq<ImageModel>) -> Seq<u8> {
    header_bytes(images.len() as u16) + entries_bytes(images, images.len() as int)
        + payloads_bytes(images, images.len() as int)
}

/// What encoding an image sequence yields: the complete mathematical
/// description of [`serialize_ico`]. More than 65535 images cannot be
/// counted by the header's 16-bit field; an image that does not fit its
/// directory entry fails the whole encode.
pub open spec fn encode_spec(images: Seq<ImageModel>) -> Result<Seq<u8>, Error> {
    if images.len() > 65535 {
        Err(Error::TooManyEntries)
    } else if !all_entries_representable(images) {
        Err(Error::EncodeFailed)
    } else {
        Ok(encode_bytes(images))
    }
}

/// The mathematical values of a sequence of images.
pub open spec fn views(images: Seq<Image>) -> Seq<ImageModel> {
    images.map_values(|image: Image| image@)
}

/// Law: the width byte of a directory entry is the dimension byte of the
/// image's width — in particular, a width of exactly 256 pixels is written
/// as the byte 0, and a width of 1 through 255 pixels is written verbatim.
pub proof fn lemma_entry_width_byte(image: ImageModel, offset: int)
    ensures
        entry_bytes(image, offset)[0] == dimension_byte(image.width),
        image.width == 256 ==> entry_bytes(image, offset)[0] == 0,
        1 <= image.width <= 255 ==> entry_bytes(image, offset)[0] == image.width,
{
    let head = seq![
        dimension_byte(image.width),
        dimension_byte(image.height),
        palette_byte(image.palette_size),
        0u8,
    ];
    assert(entry_bytes(image, offset)[0] == head[0]);
}

/// Law: a container holding an image whose width cannot be represented
/// (outside 1 through 256) fails to encode with `EncodeFailed`, whenever
/// the entry count itself is accepted; the width is never truncated.
pub proof fn lemma_unrepresentable_width_rejected(images: Seq<ImageModel>, k: int)
    requires
        images.len() <= 65535,
        0 <= k < images.len(),
        !dimension_representable(images[k].width),
    ensures
        encode_spec(images) == Err::<Seq<u8>, Error>(Error::EncodeFailed),
{
    assert(!entry_representable(images[k], payload_offset(images, k)));
}

/// Law: the entry count boundary — a sequence of more than 65535 images
/// is rejected with `TooManyEntries` whatever the images hold, and any
/// sequence of at most 65535 representable images encodes.
pub proof fn lemma_entry_count_boundary(images: Seq<ImageModel>)
    ensures
        images.len() > 65535 ==> encode_spec(images) == Err::<Seq<u8>, Error>(
            Error::TooManyEntries,
        ),
        images.len() <= 65535 && all_entries_representable(images) ==> encode_spec(images)
            == Ok::<Seq<u8>, Error>(encode_bytes(images)),
{
}

/// Puts a `u8` value to the buffer.
fn put_u8(buffer: &mut Vec<u8>, value: u8)
    ensures
        final(buffer)@ == old(buffer)@.push(value),
{
    buffer.push(value);
}

/// Puts a `u16` value to the buffer in little-endian order.
fn put_u16(buffer: &mut Vec<u8>, value: u16)
    ensures
        final(buffer)@ == old(buffer)@ + u16_le(value),
{
    buffer.push((value % 0x100) as u8);
    buffer.push((value / 0x100) as u8);
    proof {
        assert(buffer@ =~= old(buffer)@ + u16_le(value));
    }
}

/// Puts a `u32` value to the buffer in little-endian order.
fn put_u32(buffer: &mut Vec<u8>, value: u32)
    ensures
        final(buffer)@ == old(buffer)@ + u32_le(value),
{
    buffer.push((value % 0x100) as u8);
    buffer.push(((value / 0x100) % 0x100) as u8);
    buffer.push(((value / 0x1_0000) % 0x100) as u8);
    buffer.push((value / 0x100_0000) as u8);
    proof {
        assert(buffer@ =~= old(buffer)@ + u32_le(value));
    }
}

/// Serializes the directory entry describing `image` with its payload at
/// byte offset `offset`, range-checking every narrowed field.
fn serialize_entry(image: &Image, offset: u32) -> (r: Result<Vec<u8>, Error>)
    ensures
        match r {
            Ok(entry) => entry_representable(image@, offset as int) && entry@ == entry_bytes(
                image@,
                offset as int,
            ),
            Err(Error::EncodeFailed) => !entry_representable(image@, offset as int),
            Err(_) => false,
        },
{
    let mut entry: Vec<u8> = Vec::new();

    // Image width in pixels; the byte 0 means 256 pixels.
    if image.width < 1 || image.width > 256 {
        return Err(Error::EncodeFailed);
    }
    put_u8(&mut entry, if image.width == 256 { 0 } else { image.width as u8 });

    // Image height in pixels; the byte 0 means 256 pixels.
    if image.height < 1 || image.height > 256 {
        return Err(Error::EncodeFailed);
    }
    put_u8(&mut entry, if image.height == 256 { 0 } else { image.height as u8 });

    // Number of colors in the color palette; the byte 0 means no palette.
    match image.palette_size {
        None => put_u8(&mut entry, 0),
        Some(palette_size) => {
            if palette_size < 1 || palette_size > 255 {
                return Err(Error::EncodeFailed);
            }
            put_u8(&mut entry, palette_size as u8);
        },
    }

    put_u8(&mut entry, 0);  // Reserved. Should be 0.
    put_u16(&mut entry, 1);  // Specifies color planes. Should be 0 or 1.
    put_u16(&mut entry, image.bits_per_pixel as u16);  // Bits per pixel.

    // The size of the image's data in bytes.
    let size = image.data.len();
    if size as u64 > 0xffff_ffffu64 {
        return Err(Error::EncodeFailed);
    }
    put_u32(&mut entry, size as u32);

    // The offset of the image's data from the beginning of the ICO file.
    put_u32(&mut entry, offset);

    proof {
        assert(entry@ =~= entry_bytes(image@, offset as int));
    }
    Ok(entry)
}

/// Serializes ICO data from a vector of images.
///
/// The output holds the 6-byte header, one 16-byte directory entry per
/// image in input order, and every image's raw data concatenated in the
/// same order.
pub fn serialize_ico(images: &Vec<Image>) -> (r: Result<Vec<u8>, Error>)
    ensures
        match r {
            Ok(data) => encode_spec(views(images@)) == Ok::<Seq<u8>, Error>(data@),
            Err(e) => encode_spec(views(images@)) == Err::<Seq<u8>, Error>(e),
        },
{
    let ghost models = views(images@);

    let count = images.len();
    if count > 65535 {
        return Err(Error::TooManyEntries);
    }

    // The header: reserved field, icon type, entry count.
    let mut ico: Vec<u8> = Vec::new();
    put_u16(&mut ico, 0);
    put_u16(&mut ico, 1);
    put_u16(&mut ico, count as u16);
    proof {
        assert(ico@ =~= header_bytes(count as u16));
    }

    let mut data: Vec<u8> = Vec::new();
    let mut offset: u64 = 6 + 16 * (count as u64);

    let mut i: usize = 0;
    while i < count
        invariant
            0 <= i <= count,
            count == images.len(),
            count <= 65535,
            models == views(images@),
            ico@ == header_bytes(count as u16) + entries_bytes(models, i as int),
            data@ == payloads_bytes(models, i as int),
            offset == payload_offset(models, i as int),
            offset < 0x2_0000_0000,
            forall|k: int|
                0 <= k < i ==> entry_representable(models[k], #[trigger] payload_offset(models, k)),
        decreases count - i,
    {
        let image = &images[i];
        proof {
            assert(models[i as int] == image@);
        }

        if offset > 0xffff_ffffu64 {
            proof {
                assert(!entry_representable(models[i as int], payload_offset(models, i as int)));
            }
            return Err(Error::EncodeFailed);
        }

        let mut entry = match serialize_entry(image, offset as u32) {
            Ok(entry) => entry,
            Err(e) => {
                proof {
                    assert(!entry_representable(
                        models[i as int],
                        payload_offset(models, i as int),
                    ));
                }
                return Err(e);
            },
        };
        ico.append(&mut entry);

        let mut payload = image.data.clone();
        proof {
            assert(payload@ =~= image.data@);
        }
        let size = payload.len();
        data.append(&mut payload);

        offset = offset + (size as u64);
        proof {
            assert(entries_bytes(models, i + 1) == entries_bytes(models, i as int) + entry_bytes(
                models[i as int],
                payload_offset(models, i as int),
            ));
            assert(payloads_bytes(models, i + 1) == payloads_bytes(models, i as int)
                + models[i as int].data);
            assert(ico@ =~= header_bytes(count as u16) + entries_bytes(models, i + 1));
        }
        i = i + 1;
    }

    proof {
        assert(all_entries_representable(models));
        assert(ico@ + data@ =~= encode_bytes(models));
    }
    ico.append(&mut data);
    Ok(ico)
}

} // verus!
