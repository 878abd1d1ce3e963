//! A structural reader for PNG byte streams.
//!
//! The reader validates the fixed signature and walks the chunk framing
//! (4-byte big-endian length, 4-byte tag, data, 4-byte CRC) to extract
//! header metadata. It never decompresses or interprets pixel data.

use vstd::prelude::*;

verus! {

/// An error encountered while decoding PNG data.
#[derive(Debug, PartialEq, Eq, Structural, Clone, Copy)]
pub enum Error {
    /// The data ends before a chunk header or declared chunk body could be read.
    TruncatedData,

    /// The data's signature is not a PNG signature.
    SignatureNotPng,

    /// The declared width or height is zero.
    ZeroDimension,

    /// The declared bit depth is not one of the values PNG defines.
    InvalidBitDepth(u8),

    /// The declared color type is not one of the values PNG defines.
    InvalidColorType(u8),
}

/// A color type allowed in a PNG image.
#[derive(Debug, PartialEq, Eq, Structural, Clone, Copy)]
pub enum ColorType {
    /// A color type where pixels have a grey sample.
    Greyscale,

    /// A color type where pixels have red, green, and blue samples.
    Truecolor,

    /// A color type where pixels have a palette index.
    IndexedColor,

    /// A color type where pixels have a grey sample and an alpha sample.
    GreyscaleWithAlpha,

    /// A color type where pixels have red, green, blue, and alpha samples.
    TruecolorWithAlpha,
}

impl ColorType {
    /// The number of samples per pixel provided by a color type.
    pub open spec fn spec_samples_per_pixel(self) -> u8 {
        match self {
            ColorType::Greyscale | ColorType::IndexedColor => 1,
            ColorType::Truecolor => 3,
            ColorType::GreyscaleWithAlpha => 2,
            ColorType::TruecolorWithAlpha => 4,
        }
    }

    /// The color type a raw header byte denotes, if any.
    pub open spec fn spec_from_u8(value: u8) -> Option<ColorType> {
        match value {
            0u8 => Some(ColorType::Greyscale),
            2u8 => Some(ColorType::Truecolor),
            3u8 => Some(ColorType::IndexedColor),
            4u8 => Some(ColorType::GreyscaleWithAlpha),
            6u8 => Some(ColorType::TruecolorWithAlpha),
            _ => None,
        }
    }

    /// Returns the number of samples per pixel provided by the color type.
    pub fn samples_per_pixel(self) -> (r: u8)
        ensures
            r == self.spec_samples_per_pixel(),
    {
        match self {
            ColorType::Greyscale | ColorType::IndexedColor => 1,
            ColorType::Truecolor => 3,
            ColorType::GreyscaleWithAlpha => 2,
            ColorType::TruecolorWithAlpha => 4,
        }
    }

    /// Creates a new optional color type from a `u8` value.
    pub(crate) fn from_u8(value: u8) -> (r: Option<ColorType>)
        ensures
            r == ColorType::spec_from_u8(value),
    {
        match value {
            0 => Some(ColorType::Greyscale),
            2 => Some(ColorType::Truecolor),
            3 => Some(ColorType::IndexedColor),
            4 => Some(ColorType::GreyscaleWithAlpha),
            6 => Some(ColorType::TruecolorWithAlpha),
            _ => None,
        }
    }
}

/// The fixed 8-byte signature that begins every PNG stream.
pub open spec fn png_signature() -> Seq<u8> {
    seq![0x89u8, 0x50u8, 0x4eu8, 0x47u8, 0x0du8, 0x0au8, 0x1au8, 0x0au8]
}

/// The big-endian value of the four bytes of `s` starting at `i`.
pub open spec fn be32(s: Seq<u8>, i: int) -> int
    recommends
        0 <= i,
        i + 4 <= s.len(),
{
    s[i] * 0x100_0000 + s[i + 1] * 0x1_0000 + s[i + 2] * 0x100 + s[i + 3]
}

/// The tag of the mandatory header chunk.
pub open spec fn ihdr_tag() -> Seq<u8> {
    seq![0x49u8, 0x48u8, 0x44u8, 0x52u8]
}

/// The tag of the palette chunk.
pub open spec fn plte_tag() -> Seq<u8> {
    seq![0x50u8, 0x4cu8, 0x54u8, 0x45u8]
}

/// A measure that shrinks as a chunk scan moves forward through `s`.
pub open spec fn scan_measure(s: Seq<u8>, p: int) -> int {
    if p <= s.len() {
        s.len() - p
    } else {
        0
    }
}

/// The chunk a linear scan finds when it starts at the chunk framed at
/// position `p` of `s` and skips chunks until one carries `tag`: the found
/// chunk's declared data length and the position of its data field, or
/// `None` when the scan runs out of bytes first.
///
/// A chunk framed at `p` declares its data length in the four bytes at `p`,
/// carries its tag in the four bytes after them, and is followed by its data
/// and a four-byte CRC field; the next chunk is framed right after the CRC.
pub open spec fn find_chunk_from(s: Seq<u8>, p: int, tag: Seq<u8>) -> Option<(int, int)>
    decreases scan_measure(s, p),
{
    if p < 0 || p + 8 > s.len() {
        None
    } else if s.subrange(p + 4, p + 8) == tag {
        Some((be32(s, p), p + 8))
    } else {
        find_chunk_from(s, p + 12 + be32(s, p), tag)
    }
}

/// A cursor that can read values from PNG data.
pub struct PngCursor {
    /// The data read from.
    data: Vec<u8>,

    /// The position the next value is read at.
    pos: usize,

    /// The length of the current chunk's data field in bytes.
    chunk_length: u32,

    /// The type of the current chunk.
    chunk_type: [u8; 4],

    /// The position of the current chunk's data field.
    chunk_position: usize,
}

impl PngCursor {
    /// The bytes the cursor reads from.
    pub closed spec fn spec_data(&self) -> Seq<u8> {
        self.data@
    }

    /// The position the next value is read at.
    pub closed spec fn spec_pos(&self) -> int {
        self.pos as int
    }

    /// The declared data length of the current chunk.
    pub closed spec fn spec_chunk_length(&self) -> u32 {
        self.chunk_length
    }

    /// The tag of the current chunk.
    pub closed spec fn spec_chunk_type(&self) -> Seq<u8> {
        self.chunk_type@
    }

    /// The position of the current chunk's data field.
    pub closed spec fn spec_chunk_position(&self) -> int {
        self.chunk_position as int
    }

    /// The cursor's chunk fields describe a chunk actually framed in the
    /// data, and both positions lie inside the data.
    pub closed spec fn wf(&self) -> bool {
        &&& 16 <= self.chunk_position <= self.data@.len()
        &&& self.pos <= self.data@.len()
        &&& self.chunk_length == be32(self.data@, self.chunk_position - 8)
        &&& self.chunk_type@ == self.data@.subrange(self.chunk_position - 4, self.chunk_position as int)
    }

    /// Creates a new cursor from PNG data: checks the signature, then frames
    /// the first chunk.
    pub fn new(data: Vec<u8>) -> (r: Result<Self, Error>)
        ensures
            match r {
                Ok(c) => {
                    &&& data@.len() >= 16
                    &&& data@.subrange(0, 8) == png_signature()
                    &&& c.wf()
                    &&& c.spec_data() == data@
                    &&& c.spec_pos() == 16
                    &&& c.spec_chunk_position() == 16
                    &&& c.spec_chunk_length() == be32(data@, 8)
                    &&& c.spec_chunk_type() == data@.subrange(12, 16)
                },
                Err(Error::TruncatedData) => data@.len() < 8 || (data@.subrange(0, 8)
                    == png_signature() && data@.len() < 16),
                Err(Error::SignatureNotPng) => data@.len() >= 8 && data@.subrange(0, 8)
                    != png_signature(),
                Err(_) => false,
            },
    {
        if data.len() < 8 {
            return Err(Error::TruncatedData);
        }

        if !(data[0] == 0x89 && data[1] == 0x50 && data[2] == 0x4e && data[3] == 0x47 && data[4]
            == 0x0d && data[5] == 0x0a && data[6] == 0x1a && data[7] == 0x0a) {
            proof {
                assert(data@.subrange(0, 8).len() == png_signature().len());
                assert(data@.subrange(0, 8) != png_signature()) by {
                    if data@.subrange(0, 8) == png_signature() {
                        assert(forall|i: int| 0 <= i < 8 ==> data@[i] == png_signature()[i]) by {
                            assert(forall|i: int|
                                0 <= i < 8 ==> data@[i] == data@.subrange(0, 8)[i]);
                        }
                    }
                }
            }
            return Err(Error::SignatureNotPng);
        }

        proof {
            assert(data@.subrange(0, 8) =~= png_signature());
        }

        let mut cursor = PngCursor {
            data,
            pos: 8,
            chunk_length: 0,
            chunk_type: [0u8, 0u8, 0u8, 0u8],
            chunk_position: 16,
        };

        match cursor.begin_chunk() {
            Ok(()) => Ok(cursor),
            Err(e) => Err(e),
        }
    }

    /// Skips chunks until the current chunk matches a chunk type.
    pub fn find_chunk(&mut self, chunk_type: [u8; 4]) -> (r: Result<(), Error>)
        requires
            old(self).wf(),
        ensures
            final(self).spec_data() == old(self).spec_data(),
            match r {
                Ok(()) => {
                    &&& final(self).wf()
                    &&& find_chunk_from(
                        old(self).spec_data(),
                        old(self).spec_chunk_position() - 8,
                        chunk_type@,
                    ) == Some(
                        (
                            final(self).spec_chunk_length() as int,
                            final(self).spec_chunk_position(),
                        ),
                    )
                    &&& final(self).spec_chunk_type() == chunk_type@
                    &&& old(self).spec_pos() == old(self).spec_chunk_position()
                        ==> final(self).spec_pos() == final(self).spec_chunk_position()
                },
                Err(Error::TruncatedData) => find_chunk_from(
                    old(self).spec_data(),
                    old(self).spec_chunk_position() - 8,
                    chunk_type@,
                ) is None,
                Err(_) => false,
            },
    {
        while !(self.chunk_type[0] == chunk_type[0] && self.chunk_type[1] == chunk_type[1]
            && self.chunk_type[2] == chunk_type[2] && self.chunk_type[3] == chunk_type[3])
            invariant
                self.wf(),
                self.spec_data() == old(self).spec_data(),
                find_chunk_from(self.spec_data(), self.spec_chunk_position() - 8, chunk_type@)
                    == find_chunk_from(
                    old(self).spec_data(),
                    old(self).spec_chunk_position() - 8,
                    chunk_type@,
                ),
                (self.spec_pos() == old(self).spec_pos() && self.spec_chunk_position()
                    == old(self).spec_chunk_position()) || self.spec_pos()
                    == self.spec_chunk_position(),
            decreases self.spec_data().len() - self.spec_chunk_position(),
        {
            proof {
                assert(self.spec_chunk_type() != chunk_type@);
            }
            let ghost pre = *self;
            match self.next_chunk() {
                Ok(()) => {
                    proof {
                        lemma_scan_step(
                            pre.spec_data(),
                            pre.spec_chunk_position(),
                            pre.spec_chunk_length(),
                            pre.spec_chunk_type(),
                            chunk_type@,
                        );
                    }
                },
                Err(e) => {
                    proof {
                        lemma_scan_step_truncated(
                            pre.spec_data(),
                            pre.spec_chunk_position(),
                            pre.spec_chunk_length(),
                            pre.spec_chunk_type(),
                            chunk_type@,
                        );
                    }
                    return Err(e);
                },
            }
        }

        proof {
            let cp = self.spec_chunk_position();
            assert(self.spec_chunk_type() =~= chunk_type@);
            assert(self.spec_data().subrange(cp - 4, cp) == chunk_type@);
            assert(find_chunk_from(self.spec_data(), cp - 8, chunk_type@) == Some(
                (be32(self.spec_data(), cp - 8), cp),
            ));
        }
        Ok(())
    }

    /// Returns the length of the current chunk's data field in bytes.
    pub fn chunk_length(&self) -> (r: u32)
        ensures
            r == self.spec_chunk_length(),
    {
        self.chunk_length
    }

    /// Reads the next `u8` value.
    pub fn read_u8(&mut self) -> (r: Result<u8, Error>)
        ensures
            final(self).spec_data() == old(self).spec_data(),
            final(self).spec_chunk_length() == old(self).spec_chunk_length(),
            final(self).spec_chunk_type() == old(self).spec_chunk_type(),
            final(self).spec_chunk_position() == old(self).spec_chunk_position(),
            old(self).wf() ==> final(self).wf(),
            match r {
                Ok(v) => {
                    &&& old(self).spec_pos() + 1 <= old(self).spec_data().len()
                    &&& v == old(self).spec_data()[old(self).spec_pos()]
                    &&& final(self).spec_pos() == old(self).spec_pos() + 1
                },
                Err(Error::TruncatedData) => {
                    &&& old(self).spec_pos() + 1 > old(self).spec_data().len()
                    &&& final(self).spec_pos() == old(self).spec_pos()
                },
                Err(_) => false,
            },
    {
        if self.pos >= self.data.len() {
            return Err(Error::TruncatedData);
        }
        let v = self.data[self.pos];
        self.pos = self.pos + 1;
        Ok(v)
    }

    /// Reads the next big-endian `u32` value.
    pub fn read_u32(&mut self) -> (r: Result<u32, Error>)
        ensures
            final(self).spec_data() == old(self).spec_data(),
            final(self).spec_chunk_length() == old(self).spec_chunk_length(),
            final(self).spec_chunk_type() == old(self).spec_chunk_type(),
            final(self).spec_chunk_position() == old(self).spec_chunk_position(),
            old(self).wf() ==> final(self).wf(),
            match r {
                Ok(v) => {
                    &&& old(self).spec_pos() + 4 <= old(self).spec_data().len()
                    &&& v == be32(old(self).spec_data(), old(self).spec_pos())
                    &&& final(self).spec_pos() == old(self).spec_pos() + 4
                },
                Err(Error::TruncatedData) => {
                    &&& old(self).spec_pos() + 4 > old(self).spec_data().len()
                    &&& final(self).spec_pos() == old(self).spec_pos()
                },
                Err(_) => false,
            },
    {
        let b = match self.read_four_bytes() {
            Ok(b) => b,
            Err(e) => {
                return Err(e);
            },
        };
        let v = (b[0] as u32) * 0x100_0000 + (b[1] as u32) * 0x1_0000 + (b[2] as u32) * 0x100 + (
        b[3] as u32);
        proof {
            let s = old(self).spec_data();
            let p = old(self).spec_pos();
            assert(b@[0] == s[p] && b@[1] == s[p + 1] && b@[2] == s[p + 2] && b@[3] == s[p + 3]);
        }
        Ok(v)
    }

    /// Reads the next color type value.
    pub fn read_color_type(&mut self) -> (r: Result<ColorType, Error>)
        ensures
            final(self).spec_data() == old(self).spec_data(),
            final(self).spec_chunk_length() == old(self).spec_chunk_length(),
            final(self).spec_chunk_type() == old(self).spec_chunk_type(),
            final(self).spec_chunk_position() == old(self).spec_chunk_position(),
            old(self).wf() ==> final(self).wf(),
            match r {
                Ok(c) => {
                    &&& old(self).spec_pos() + 1 <= old(self).spec_data().len()
                    &&& ColorType::spec_from_u8(old(self).spec_data()[old(self).spec_pos()])
                        == Some(c)
                    &&& final(self).spec_pos() == old(self).spec_pos() + 1
                },
                Err(Error::InvalidColorType(v)) => {
                    &&& old(self).spec_pos() + 1 <= old(self).spec_data().len()
                    &&& v == old(self).spec_data()[old(self).spec_pos()]
                    &&& ColorType::spec_from_u8(v) is None
                    &&& final(self).spec_pos() == old(self).spec_pos() + 1
                },
                Err(Error::TruncatedData) => {
                    &&& old(self).spec_pos() + 1 > old(self).spec_data().len()
                    &&& final(self).spec_pos() == old(self).spec_pos()
                },
                Err(_) => false,
            },
    {
        let value = match self.read_u8() {
            Ok(v) => v,
            Err(e) => {
                return Err(e);
            },
        };
        match ColorType::from_u8(value) {
            Some(color_type) => Ok(color_type),
            None => Err(Error::InvalidColorType(value)),
        }
    }

    /// Consumes the cursor and returns its underlying data.
    pub fn into_data(self) -> (r: Vec<u8>)
        ensures
            r@ == self.spec_data(),
    {
        self.data
    }

    /// Skips to the next chunk.
    fn next_chunk(&mut self) -> (r: Result<(), Error>)
        requires
            old(self).wf(),
        ensures
            final(self).spec_data() == old(self).spec_data(),
            match r {
                Ok(()) => {
                    &&& final(self).wf()
                    &&& final(self).spec_chunk_position() == old(self).spec_chunk_position() + 12
                        + old(self).spec_chunk_length()
                    &&& final(self).spec_pos() == final(self).spec_chunk_position()
                },
                Err(Error::TruncatedData) => old(self).spec_chunk_position() + 12
                    + old(self).spec_chunk_length() > old(self).spec_data().len(),
                Err(_) => false,
            },
    {
        // Add 4 to skip the current chunk's CRC field.
        let after_data: u64 = (self.data.len() - self.chunk_position) as u64;
        if (self.chunk_length as u64) + 12 > after_data {
            return Err(Error::TruncatedData);
        }
        self.pos = self.chunk_position + (self.chunk_length as usize) + 4;
        self.begin_chunk()
    }

    /// Begins a new current chunk at the read position.
    fn begin_chunk(&mut self) -> (r: Result<(), Error>)
        requires
            old(self).spec_pos() >= 8,
            old(self).spec_pos() <= old(self).spec_data().len(),
        ensures
            final(self).spec_data() == old(self).spec_data(),
            match r {
                Ok(()) => {
                    &&& old(self).spec_pos() + 8 <= old(self).spec_data().len()
                    &&& final(self).wf()
                    &&& final(self).spec_chunk_position() == old(self).spec_pos() + 8
                    &&& final(self).spec_pos() == final(self).spec_chunk_position()
                    &&& final(self).spec_chunk_length() == be32(
                        old(self).spec_data(),
                        old(self).spec_pos(),
                    )
                    &&& final(self).spec_chunk_type() == old(self).spec_data().subrange(
                        old(self).spec_pos() + 4,
                        old(self).spec_pos() + 8,
                    )
                },
                Err(Error::TruncatedData) => old(self).spec_pos() + 8
                    > old(self).spec_data().len(),
                Err(_) => false,
            },
    {
        self.chunk_length = match self.read_u32() {
            Ok(v) => v,
            Err(e) => {
                return Err(e);
            },
        };
        self.chunk_type = match self.read_four_bytes() {
            Ok(b) => b,
            Err(e) => {
                return Err(e);
            },
        };
        self.chunk_position = self.pos;
        Ok(())
    }

    /// Reads the next four bytes.
    fn read_four_bytes(&mut self) -> (r: Result<[u8; 4], Error>)
        ensures
            final(self).spec_data() == old(self).spec_data(),
            final(self).spec_chunk_length() == old(self).spec_chunk_length(),
            final(self).spec_chunk_type() == old(self).spec_chunk_type(),
            final(self).spec_chunk_position() == old(self).spec_chunk_position(),
            old(self).wf() ==> final(self).wf(),
            match r {
                Ok(b) => {
                    &&& old(self).spec_pos() + 4 <= old(self).spec_data().len()
                    &&& b@ == old(self).spec_data().subrange(
                        old(self).spec_pos(),
                        old(self).spec_pos() + 4,
                    )
                    &&& final(self).spec_pos() == old(self).spec_pos() + 4
                },
                Err(Error::TruncatedData) => {
                    &&& old(self).spec_pos() + 4 > old(self).spec_data().len()
                    &&& final(self).spec_pos() == old(self).spec_pos()
                },
                Err(_) => false,
            },
    {
        if self.pos >= self.data.len() || self.data.len() - self.pos < 4 {
            return Err(Error::TruncatedData);
        }
        let b = [self.data[self.pos], self.data[self.pos + 1], self.data[self.pos + 2], self.data[self.pos
            + 3]];
        proof {
            assert(b@ =~= old(self).spec_data().subrange(
                old(self).spec_pos(),
                old(self).spec_pos() + 4,
            ));
        }
        self.pos = self.pos + 4;
        Ok(b)
    }
}

/// One step of the chunk scan: skipping a chunk whose tag does not match
/// moves the scan to the chunk framed right after its CRC field.
proof fn lemma_scan_step(s: Seq<u8>, cp: int, len: u32, ty: Seq<u8>, tag: Seq<u8>)
    requires
        16 <= cp <= s.len(),
        len == be32(s, cp - 8),
        ty == s.subrange(cp - 4, cp),
        ty != tag,
    ensures
        find_chunk_from(s, cp - 8, tag) == find_chunk_from(s, cp + 4 + len, tag),
{
    assert(s.subrange(cp - 8 + 4, cp - 8 + 8) == ty);
}

/// One step of the chunk scan, when the data ends before the next chunk's
/// frame: the scan finds nothing.
proof fn lemma_scan_step_truncated(s: Seq<u8>, cp: int, len: u32, ty: Seq<u8>, tag: Seq<u8>)
    requires
        16 <= cp <= s.len(),
        len == be32(s, cp - 8),
        ty == s.subrange(cp - 4, cp),
        ty != tag,
        cp + 12 + len > s.len(),
    ensures
        find_chunk_from(s, cp - 8, tag) is None,
{
    assert(s.subrange(cp - 8 + 4, cp - 8 + 8) == ty);
    assert(find_chunk_from(s, cp - 8, tag) == find_chunk_from(s, cp + 4 + len, tag));
    assert(be32(s, cp - 8) >= 0);
}

} // verus!
