//! The positional byte cipher of FXT resources: every byte is shifted down by
//! one, and the bytes of the short header region are further masked by a
//! constant shifted left by their position.
use vstd::prelude::*;

verus! {

/// Number of leading positions that carry the extra positional mask.
pub const HEADER_LEN: usize = 8;

/// The constant that, shifted left by the position, masks a header byte.
pub const HEADER_MASK: u16 = 0x63;

/// The extra term subtracted at position `pos` (zero outside the header).
pub open spec fn mask_at(pos: nat) -> int {
    if pos < HEADER_LEN {
        (HEADER_MASK << (pos as u16)) as int
    } else {
        0
    }
}

/// The byte that the raw byte `b` at position `pos` decodes to.
pub open spec fn decode_spec(b: u8, pos: nat) -> u8 {
    ((b as int - 1 - mask_at(pos)) % 256) as u8
}

/// The raw byte that encodes `c` at position `pos`.
pub open spec fn encode_spec(c: u8, pos: nat) -> u8 {
    ((c as int + 1 + mask_at(pos)) % 256) as u8
}

/// The mask term at `pos`, computed as the format defines it.
fn mask_term(pos: usize) -> (r: i32)
    ensures
        r == mask_at(pos as nat),
        0 <= r <= 0x63 * 128,
{
    if pos < HEADER_LEN {
        let p: u16 = pos as u16;
        let m: u16 = HEADER_MASK << p;
        assert(m <= 0x63 * 128) by (bit_vector)
            requires
                m == 0x63u16 << p,
                p < 8,
        ;
        m as i32
    } else {
        0
    }
}

/// Brings `c` into `0..256` by adding 256 while it is negative.
fn wrap_byte(c: i32) -> (r: u8)
    requires
        -0x63 * 128 - 256 <= c < 512,
    ensures
        r as int == c as int % 256,
{
    let mut v: i32 = c;
    while v < 0
        invariant
            -0x63 * 128 - 256 <= v < 512,
            v as int % 256 == c as int % 256,
        decreases 256 - v,
    {
        assert((v as int + 256) % 256 == v as int % 256) by (nonlinear_arith);
        v = v + 256;
    }
    if v >= 256 {
        assert((v as int - 256) % 256 == v as int % 256) by (nonlinear_arith);
        v = v - 256;
    }
    v as u8
}

/// Decodes the raw byte `b` found at position `pos` of the stream.
pub fn decode_byte(b: u8, pos: usize) -> (r: u8)
    ensures
        r == decode_spec(b, pos as nat),
{
    let c: i32 = b as i32 - 1 - mask_term(pos);
    wrap_byte(c)
}

/// Encodes `c` as the raw byte to be stored at position `pos`.
pub fn encode_byte(c: u8, pos: usize) -> (r: u8)
    ensures
        r == encode_spec(c, pos as nat),
{
    let m: i32 = mask_term(pos);
    let v: i32 = c as i32 + 1 + m % 256;
    assert((c as int + 1 + m % 256) % 256 == (c as int + 1 + m) % 256) by (nonlinear_arith);
    wrap_byte(v)
}

/// Encoding a decoded byte at the same position gives the raw byte back, and
/// decoding an encoded byte gives the original byte back, in the header
/// region and beyond it alike.
pub proof fn lemma_round_trip(b: u8, pos: nat)
    ensures
        encode_spec(decode_spec(b, pos), pos) == b,
        decode_spec(encode_spec(b, pos), pos) == b,
{
    let m = mask_at(pos);
    let d = (b as int - 1 - m) % 256;
    let e = (b as int + 1 + m) % 256;
    assert((d + 1 + m) % 256 == b as int) by (nonlinear_arith)
        requires
            d == (b as int - 1 - m) % 256,
            0 <= b < 256,
    ;
    assert((e - 1 - m) % 256 == b as int) by (nonlinear_arith)
        requires
            e == (b as int + 1 + m) % 256,
            0 <= b < 256,
    ;
}

} // verus!
