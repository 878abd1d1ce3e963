//! PNG images: structural metadata plus the raw source bytes.

use vstd::prelude::*;

pub mod decode;
pub mod optimize;

verus! {

/// A PNG image: the metadata that an ICO directory entry needs, together
/// with the complete, unmodified source byte stream.
#[derive(Debug, PartialEq, Eq)]
pub struct Image {
    /// The width in pixels.
    pub width: u32,

    /// The height in pixels.
    pub height: u32,

    /// The number of colors in the optional palette.
    pub palette_size: Option<u32>,

    /// The number of bits per pixel.
    pub bits_per_pixel: u8,

    /// The raw data.
    pub data: Vec<u8>,
}

/// The mathematical value of an [`Image`]: its metadata fields and the
/// byte sequence it holds.
pub ghost struct ImageModel {
    pub width: u32,
    pub height: u32,
    pub palette_size: Option<u32>,
    pub bits_per_pixel: u8,
    pub data: Seq<u8>,
}

impl View for Image {
    type V = ImageModel;

    open spec fn view(&self) -> ImageModel {
        ImageModel {
            width: self.width,
            height: self.height,
            palette_size: self.palette_size,
            bits_per_pixel: self.bits_per_pixel,
            data: self.data@,
        }
    }
}

/// Whether `d` is one of the bit depths PNG defines.
pub open spec fn valid_bit_depth(d: u8) -> bool {
    d == 1 || d == 2 || d == 4 || d == 8 || d == 16
}

/// What reading the structural metadata of the byte sequence `s` yields:
/// the complete mathematical description of [`Image::from_data`].
///
/// The signature is checked first; then the header chunk is located by a
/// linear scan and its width, height, bit depth and color type fields are
/// read; the fields are then validated in that order; for indexed-color
/// images the scan continues to the palette chunk, whose declared length
/// divided by three gives the palette size.
pub open spec fn parse_spec(s: Seq<u8>) -> Result<ImageModel, decode::Error> {
    if s.len() < 8 {
        Err(decode::Error::TruncatedData)
    } else if s.subrange(0, 8) != decode::png_signature() {
        Err(decode::Error::SignatureNotPng)
    } else {
        match decode::find_chunk_from(s, 8, decode::ihdr_tag()) {
            None => Err(decode::Error::TruncatedData),
            Some((_, dp)) => {
                if dp + 10 > s.len() {
                    Err(decode::Error::TruncatedData)
                } else {
                    let w = decode::be32(s, dp);
                    let h = decode::be32(s, dp + 4);
                    let depth = s[dp + 8];
                    let color_byte = s[dp + 9];
                    if w == 0 || h == 0 {
                        Err(decode::Error::ZeroDimension)
                    } else if !valid_bit_depth(depth) {
                        Err(decode::Error::InvalidBitDepth(depth))
                    } else {
                        match decode::ColorType::spec_from_u8(color_byte) {
                            None => Err(decode::Error::InvalidColorType(color_byte)),
                            Some(color) => {
                                let bpp = (depth * color.spec_samples_per_pixel()) as u8;
                                if color is IndexedColor {
                                    match decode::find_chunk_from(s, dp - 8, decode::plte_tag()) {
                                        None => Err(decode::Error::TruncatedData),
                                        Some((plte_length, _)) => Ok(
                                            ImageModel {
                                                width: w as u32,
                                                height: h as u32,
                                                palette_size: Some((plte_length / 3) as u32),
                                                bits_per_pixel: bpp,
                                                data: s,
                                            },
                                        ),
                                    }
                                } else {
                                    Ok(
                                        ImageModel {
                                            width: w as u32,
                                            height: h as u32,
                                            palette_size: None,
                                            bits_per_pixel: bpp,
                                            data: s,
                                        },
                                    )
                                }
                            },
                        }
                    }
                }
            },
        }
    }
}

/// The big-endian bytes of a `u32` value.
pub open spec fn u32_be(v: u32) -> Seq<u8> {
    seq![
        (v / 0x100_0000) as u8,
        ((v / 0x1_0000) % 0x100) as u8,
        ((v / 0x100) % 0x100) as u8,
        (v % 0x100) as u8,
    ]
}

/// A chunk as the source format frames it: a big-endian data length, a
/// four-byte tag, the data, and a CRC field. The reader skips the CRC
/// without validating it; the builder leaves it zero.
pub open spec fn chunk_bytes(tag: Seq<u8>, body: Seq<u8>) -> Seq<u8> {
    u32_be(body.len() as u32) + tag + body + seq![0u8, 0u8, 0u8, 0u8]
}

/// The 13-byte body of a header chunk: width, height, bit depth, color
/// type, and the fixed compression, filter and interlace method bytes.
pub open spec fn ihdr_body(w: u32, h: u32, depth: u8, color_byte: u8) -> Seq<u8> {
    u32_be(w) + u32_be(h) + seq![depth, color_byte, 0u8, 0u8, 0u8]
}

/// A minimal asset: the signature followed by a single header chunk
/// declaring the given dimensions, bit depth and color type.
pub open spec fn minimal_asset(w: u32, h: u32, depth: u8, color_byte: u8) -> Seq<u8> {
    decode::png_signature() + chunk_bytes(decode::ihdr_tag(), ihdr_body(w, h, depth, color_byte))
}

/// A minimal indexed-color asset: a minimal asset whose color type is
/// indexed color, followed by a palette chunk declaring `entries` palette
/// entries of three bytes each.
pub open spec fn minimal_indexed_asset(w: u32, h: u32, depth: u8, entries: u32) -> Seq<u8> {
    minimal_asset(w, h, depth, 3) + chunk_bytes(
        decode::plte_tag(),
        Seq::new((3 * entries) as nat, |k: int| 0u8),
    )
}

/// Reading back the big-endian bytes of a value recovers the value.
proof fn lemma_be32_of_u32_be(s: Seq<u8>, i: int, v: u32)
    requires
        0 <= i,
        i + 4 <= s.len(),
        s.subrange(i, i + 4) == u32_be(v),
    ensures
        decode::be32(s, i) == v,
{
    assert(s[i] == (v / 0x100_0000) as u8 && s[i + 1] == ((v / 0x1_0000) % 0x100) as u8 && s[i + 2]
        == ((v / 0x100) % 0x100) as u8 && s[i + 3] == (v % 0x100) as u8) by {
        assert(s.subrange(i, i + 4)[0] == s[i]);
        assert(s.subrange(i, i + 4)[1] == s[i + 1]);
        assert(s.subrange(i, i + 4)[2] == s[i + 2]);
        assert(s.subrange(i, i + 4)[3] == s[i + 3]);
    }
    let x = v as int;
    vstd::arithmetic::div_mod::lemma_fundamental_div_mod(x, 0x100);
    vstd::arithmetic::div_mod::lemma_fundamental_div_mod(x / 0x100, 0x100);
    vstd::arithmetic::div_mod::lemma_fundamental_div_mod(x / 0x1_0000, 0x100);
    vstd::arithmetic::div_mod::lemma_div_denominator(x, 0x100, 0x100);
    vstd::arithmetic::div_mod::lemma_div_denominator(x, 0x1_0000, 0x100);
    assert(x / 0x100_0000 < 0x100);
}

/// Law: parsing a synthetically built minimal asset with a color type
/// other than indexed color yields exactly the declared width and height,
/// the bits per pixel the bit depth and color type give, no palette size,
/// and the asset's own bytes.
pub proof fn lemma_parse_minimal_asset(w: u32, h: u32, depth: u8, color_byte: u8)
    requires
        w != 0,
        h != 0,
        valid_bit_depth(depth),
        decode::ColorType::spec_from_u8(color_byte) matches Some(c) && !(c is IndexedColor),
    ensures
        parse_spec(minimal_asset(w, h, depth, color_byte)) == Ok::<ImageModel, decode::Error>(
            ImageModel {
                width: w,
                height: h,
                palette_size: None,
                bits_per_pixel: (depth * decode::ColorType::spec_from_u8(
                    color_byte,
                )->Some_0.spec_samples_per_pixel()) as u8,
                data: minimal_asset(w, h, depth, color_byte),
            },
        ),
{
    let s = minimal_asset(w, h, depth, color_byte);
    lemma_minimal_asset_header(w, h, depth, color_byte);
    assert(decode::find_chunk_from(s, 8, decode::ihdr_tag()) == Some((13int, 16int)));
}

/// Law: parsing a synthetically built minimal indexed-color asset yields
/// exactly the declared width and height, the bit depth itself as bits
/// per pixel, and the declared number of palette entries.
pub proof fn lemma_parse_minimal_indexed_asset(w: u32, h: u32, depth: u8, entries: u32)
    requires
        w != 0,
        h != 0,
        valid_bit_depth(depth),
        3 * entries <= 0xffff_ffff,
    ensures
        parse_spec(minimal_indexed_asset(w, h, depth, entries)) == Ok::<
            ImageModel,
            decode::Error,
        >(
            ImageModel {
                width: w,
                height: h,
                palette_size: Some(entries),
                bits_per_pixel: depth,
                data: minimal_indexed_asset(w, h, depth, entries),
            },
        ),
{
    let s = minimal_indexed_asset(w, h, depth, entries);
    let base = minimal_asset(w, h, depth, 3);
    let body = Seq::new((3 * entries) as nat, |k: int| 0u8);

    assert(decode::png_signature().len() == 8);
    assert(u32_be(13).len() == 4 && decode::ihdr_tag().len() == 4);
    assert(ihdr_body(w, h, depth, 3).len() == 13);
    assert(base.len() == 33);
    assert(body.len() == 3 * entries);
    assert(s.len() == 45 + 3 * entries);

    // The signature and the header chunk read exactly as in the plain
    // minimal asset: the palette chunk only appends bytes.
    assert(s.subrange(0, 8) =~= decode::png_signature());
    assert(s.subrange(8, 12) =~= u32_be(13));
    lemma_be32_of_u32_be(s, 8, 13);
    assert(s.subrange(12, 16) =~= decode::ihdr_tag());
    assert(decode::find_chunk_from(s, 8, decode::ihdr_tag()) == Some((13int, 16int)));
    assert(s.subrange(16, 20) =~= u32_be(w));
    lemma_be32_of_u32_be(s, 16, w);
    assert(s.subrange(20, 24) =~= u32_be(h));
    lemma_be32_of_u32_be(s, 20, h);
    assert(s[24] == depth && s[25] == 3u8) by {
        assert(ihdr_body(w, h, depth, 3)[8] == depth);
        assert(ihdr_body(w, h, depth, 3)[9] == 3u8);
    }

    // The palette scan skips the header chunk (13 data bytes and the CRC)
    // and finds the palette chunk framed at byte 33.
    assert(s.subrange(12, 16) != decode::plte_tag()) by {
        assert(s.subrange(12, 16)[0] == 0x49u8);
        assert(decode::plte_tag()[0] == 0x50u8);
    }
    assert(decode::find_chunk_from(s, 8, decode::plte_tag()) == decode::find_chunk_from(
        s,
        33,
        decode::plte_tag(),
    ));
    assert(s.subrange(33, 37) =~= u32_be((3 * entries) as u32));
    lemma_be32_of_u32_be(s, 33, (3 * entries) as u32);
    assert(s.subrange(37, 41) =~= decode::plte_tag());
    assert(decode::find_chunk_from(s, 33, decode::plte_tag()) == Some(
        (3 * entries as int, 41int),
    ));
    assert((3 * entries as int) / 3 == entries) by {
        vstd::arithmetic::div_mod::lemma_div_multiples_vanish(entries as int, 3);
    }
    assert(decode::ColorType::spec_from_u8(3) == Some(decode::ColorType::IndexedColor));
}

/// The signature and header chunk of a minimal asset read back as built.
proof fn lemma_minimal_asset_header(w: u32, h: u32, depth: u8, color_byte: u8)
    ensures
        minimal_asset(w, h, depth, color_byte).len() == 33,
        minimal_asset(w, h, depth, color_byte).subrange(0, 8) == decode::png_signature(),
        decode::be32(minimal_asset(w, h, depth, color_byte), 8) == 13,
        minimal_asset(w, h, depth, color_byte).subrange(12, 16) == decode::ihdr_tag(),
        decode::be32(minimal_asset(w, h, depth, color_byte), 16) == w,
        decode::be32(minimal_asset(w, h, depth, color_byte), 20) == h,
        minimal_asset(w, h, depth, color_byte)[24] == depth,
        minimal_asset(w, h, depth, color_byte)[25] == color_byte,
{
    let s = minimal_asset(w, h, depth, color_byte);
    assert(decode::png_signature().len() == 8);
    assert(u32_be(13).len() == 4 && decode::ihdr_tag().len() == 4);
    assert(ihdr_body(w, h, depth, color_byte).len() == 13);
    assert(s.len() == 33);
    assert(s.subrange(0, 8) =~= decode::png_signature());
    assert(s.subrange(8, 12) =~= u32_be(13));
    lemma_be32_of_u32_be(s, 8, 13);
    assert(s.subrange(12, 16) =~= decode::ihdr_tag());
    assert(s.subrange(16, 20) =~= u32_be(w));
    lemma_be32_of_u32_be(s, 16, w);
    assert(s.subrange(20, 24) =~= u32_be(h));
    lemma_be32_of_u32_be(s, 20, h);
    assert(s[24] == depth && s[25] == color_byte) by {
        assert(ihdr_body(w, h, depth, color_byte)[8] == depth);
        assert(ihdr_body(w, h, depth, color_byte)[9] == color_byte);
    }
}

/// Law: any buffer whose first 8 bytes differ from the fixed signature is
/// rejected as not a PNG, whatever follows them.
pub proof fn lemma_signature_rejected(s: Seq<u8>)
    requires
        s.len() >= 8,
        s.subrange(0, 8) != decode::png_signature(),
    ensures
        parse_spec(s) == Err::<ImageModel, decode::Error>(decode::Error::SignatureNotPng),
{
}

/// Law: a minimal asset declaring width zero is rejected as having a zero
/// dimension, whatever its other header fields hold.
pub proof fn lemma_zero_width_rejected(h: u32, depth: u8, color_byte: u8)
    ensures
        parse_spec(minimal_asset(0, h, depth, color_byte)) == Err::<ImageModel, decode::Error>(
            decode::Error::ZeroDimension,
        ),
{
    let s = minimal_asset(0, h, depth, color_byte);
    lemma_minimal_asset_header(0, h, depth, color_byte);
    assert(decode::find_chunk_from(s, 8, decode::ihdr_tag()) == Some((13int, 16int)));
}

/// Law: parsing is a pure function of the input bytes, and a parsed image
/// keeps those bytes unmodified, so re-parsing what a successful parse
/// returned yields the same fields.
pub proof fn lemma_parse_pure(s: Seq<u8>, image: ImageModel)
    requires
        parse_spec(s) == Ok::<ImageModel, decode::Error>(image),
    ensures
        image.data == s,
        parse_spec(image.data) == parse_spec(s),
{
}

impl Image {
    /// Creates a new image by reading the structural metadata of PNG data.
    ///
    /// Only the signature and the chunk framing are interpreted: the width,
    /// height, bit depth and color type come from the header chunk, the
    /// palette size (for indexed-color images only) from the palette chunk's
    /// declared length, and the data itself is kept unmodified.
    pub fn from_data(data: Vec<u8>) -> (r: Result<Image, decode::Error>)
        ensures
            match r {
                Ok(image) => parse_spec(data@) == Ok::<ImageModel, decode::Error>(image@),
                Err(e) => parse_spec(data@) == Err::<ImageModel, decode::Error>(e),
            },
    {
        let ghost s = data@;
        let mut cursor = match decode::PngCursor::new(data) {
            Ok(c) => c,
            Err(e) => {
                return Err(e);
            },
        };

        // Locate the mandatory header chunk; in a conformant stream it is
        // the first chunk, but a linear scan tolerates leading chunks.
        let ihdr: [u8; 4] = [0x49, 0x48, 0x44, 0x52];
        proof {
            assert(ihdr@ =~= decode::ihdr_tag());
        }
        match cursor.find_chunk(ihdr) {
            Ok(()) => {},
            Err(e) => {
                return Err(e);
            },
        }

        // Values must be read in order according to the PNG specification.
        let width = match cursor.read_u32() {
            Ok(v) => v,
            Err(e) => {
                return Err(e);
            },
        };
        let height = match cursor.read_u32() {
            Ok(v) => v,
            Err(e) => {
                return Err(e);
            },
        };
        let bit_depth = match cursor.read_u8() {
            Ok(v) => v,
            Err(e) => {
                return Err(e);
            },
        };
        let color_byte = match cursor.read_u8() {
            Ok(v) => v,
            Err(e) => {
                return Err(e);
            },
        };

        // The header fields are validated in order after the reads.
        if width == 0 || height == 0 {
            return Err(decode::Error::ZeroDimension);
        }
        if !(bit_depth == 1 || bit_depth == 2 || bit_depth == 4 || bit_depth == 8 || bit_depth
            == 16) {
            return Err(decode::Error::InvalidBitDepth(bit_depth));
        }
        let color_type = match decode::ColorType::from_u8(color_byte) {
            Some(c) => c,
            None => {
                return Err(decode::Error::InvalidColorType(color_byte));
            },
        };

        let samples = color_type.samples_per_pixel();
        proof {
            assert(bit_depth * samples <= 64) by (nonlinear_arith)
                requires
                    bit_depth <= 16,
                    samples <= 4,
            ;
        }
        let bits_per_pixel = bit_depth * samples;

        let palette_size = match color_type {
            decode::ColorType::IndexedColor => {
                let plte: [u8; 4] = [0x50, 0x4c, 0x54, 0x45];
                proof {
                    assert(plte@ =~= decode::plte_tag());
                }
                match cursor.find_chunk(plte) {
                    Ok(()) => {},
                    Err(e) => {
                        return Err(e);
                    },
                }
                Some(cursor.chunk_length() / 3)
            },
            _ => None,
        };

        let data = cursor.into_data();
        Ok(Image { width, height, palette_size, bits_per_pixel, data })
    }

    /// Returns the image's resolution in pixels.
    pub fn resolution(&self) -> (r: u64)
        ensures
            r == self.width * self.height,
    {
        // Convert dimensions from `u32` to `u64` to avoid overflow.
        proof {
            assert(self.width * self.height <= 0xffff_ffffu64 * 0xffff_ffffu64) by (nonlinear_arith)
                requires
                    self.width <= 0xffff_ffffu64,
                    self.height <= 0xffff_ffffu64,
            ;
        }
        (self.width as u64) * (self.height as u64)
    }
}

} // verus!

