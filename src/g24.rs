//! The header of G24 graphics files: a version word, then fifteen section
//! sizes, all little-endian 32-bit words.
use vstd::prelude::*;

verus! {

/// The only graphics version that is read.
pub const HEADER_GRAPHICS_VERSION: u32 = 336;

/// The number of sprite numbers that a header must announce.
pub const EXPECTED_SPRITE_NUMBER: u32 = 42;

/// Bytes in a whole header: sixteen words.
pub const HEADER_BYTES: usize = 64;

/// A cursor over the raw bytes of a G24 file.
pub struct G24Parser {
    bytes: Vec<u8>,
    pos: usize,
}

#[derive(Debug, Clone, Copy, PartialEq, Eq, Structural)]
pub struct G24Header {
    pub side_size: u32,
    pub lid_size: u32,
    pub aux_size: u32,
    pub animation_size: u32,
    pub clut_size: u32,
    pub tile_clut_size: u32,
    pub sprite_clut_size: u32,
    pub new_car_clut_size: u32,
    pub font_clut_size: u32,
    pub palette_index_size: u32,
    pub object_info_size: u32,
    pub car_info_size: u32,
    pub sprite_info_size: u32,
    pub sprite_graphics_size: u32,
    pub sprite_numbers_size: u32,
}

#[derive(Debug, Clone, Copy, PartialEq, Eq, Structural)]
pub enum G24ParserError {
    InvalidHeaderMagicVersion(u32),
    InvalidSpriteNumber(u32),
}

/// The little-endian word stored at `at`.
pub open spec fn le_u32(b: Seq<u8>, at: int) -> u32 {
    (b[at] + 256 * b[at + 1] + 65536 * b[at + 2] + 16777216 * b[at + 3]) as u32
}

/// The `i`-th word of the header that starts at `at`.
pub open spec fn word(b: Seq<u8>, at: int, i: int) -> u32 {
    le_u32(b, at + 4 * i)
}

/// The header whose words stand from `at`, or why it is refused.
pub open spec fn header_at(b: Seq<u8>, at: int) -> Result<G24Header, G24ParserError> {
    if word(b, at, 0) != HEADER_GRAPHICS_VERSION {
        Err(G24ParserError::InvalidHeaderMagicVersion(word(b, at, 0)))
    } else if word(b, at, 15) != EXPECTED_SPRITE_NUMBER {
        Err(G24ParserError::InvalidSpriteNumber(word(b, at, 15)))
    } else {
        Ok(
            G24Header {
                side_size: word(b, at, 1),
                lid_size: word(b, at, 2),
                aux_size: word(b, at, 3),
                animation_size: word(b, at, 4),
                clut_size: word(b, at, 5),
                tile_clut_size: word(b, at, 6),
                sprite_clut_size: word(b, at, 7),
                new_car_clut_size: word(b, at, 8),
                font_clut_size: word(b, at, 9),
                palette_index_size: word(b, at, 10),
                object_info_size: word(b, at, 11),
                car_info_size: word(b, at, 12),
                sprite_info_size: word(b, at, 13),
                sprite_graphics_size: word(b, at, 14),
                sprite_numbers_size: word(b, at, 15),
            },
        )
    }
}

impl G24Parser {
    pub closed spec fn bytes(&self) -> Seq<u8> {
        self.bytes@
    }

    pub closed spec fn pos(&self) -> nat {
        self.pos as nat
    }

    /// A cursor before the first of `bytes`.
    pub fn new(bytes: Vec<u8>) -> (r: G24Parser)
        ensures
            r.bytes() == bytes@,
            r.pos() == 0,
    {
        G24Parser { bytes, pos: 0 }
    }

    /// Reads the next little-endian word.
    fn read_u32(&mut self) -> (r: u32)
        requires
            old(self).pos() + 4 <= old(self).bytes().len(),
        ensures
            final(self).bytes() == old(self).bytes(),
            final(self).pos() == old(self).pos() + 4,
            r == le_u32(old(self).bytes(), old(self).pos() as int),
    {
        let p = self.pos;
        let n = self.bytes.len();
        assert(p + 4 <= n);
        let r: u32 = self.bytes[p] as u32 + 256 * self.bytes[p + 1] as u32 + 65536
            * self.bytes[p + 2] as u32 + 16777216 * self.bytes[p + 3] as u32;
        self.pos = p + 4;
        r
    }

    /// Reads a header: the version must be the known one, and the sprite
    /// number the expected one.
    pub fn parse_header(&mut self) -> (r: Result<G24Header, G24ParserError>)
        requires
            old(self).pos() + 4 <= old(self).bytes().len(),
            le_u32(old(self).bytes(), old(self).pos() as int) == HEADER_GRAPHICS_VERSION ==> old(
                self,
            ).pos() + HEADER_BYTES <= old(self).bytes().len(),
        ensures
            final(self).bytes() == old(self).bytes(),
            r == header_at(old(self).bytes(), old(self).pos() as int),
            final(self).pos() == old(self).pos() + (if r is Err && word(
                old(self).bytes(),
                old(self).pos() as int,
                0,
            ) != HEADER_GRAPHICS_VERSION {
                4int
            } else {
                HEADER_BYTES as int
            }),
    {
        let version = self.read_u32();
        if version != HEADER_GRAPHICS_VERSION {
            return Err(G24ParserError::InvalidHeaderMagicVersion(version));
        }
        let side_size = self.read_u32();
        let lid_size = self.read_u32();
        let aux_size = self.read_u32();
        let animation_size = self.read_u32();
        let clut_size = self.read_u32();
        let tile_clut_size = self.read_u32();
        let sprite_clut_size = self.read_u32();
        let new_car_clut_size = self.read_u32();
        let font_clut_size = self.read_u32();
        let palette_index_size = self.read_u32();
        let object_info_size = self.read_u32();
        let car_info_size = self.read_u32();
        let sprite_info_size = self.read_u32();
        let sprite_graphics_size = self.read_u32();
        let sprite_numbers_size = self.read_u32();
        if sprite_numbers_size != EXPECTED_SPRITE_NUMBER {
            return Err(G24ParserError::InvalidSpriteNumber(sprite_numbers_size));
        }
        Ok(
            G24Header {
                side_size,
                lid_size,
                aux_size,
                animation_size,
                clut_size,
                tile_clut_size,
                sprite_clut_size,
                new_car_clut_size,
                font_clut_size,
                palette_index_size,
                object_info_size,
                car_info_size,
                sprite_info_size,
                sprite_graphics_size,
                sprite_numbers_size,
            },
        )
    }
}

} // verus!
