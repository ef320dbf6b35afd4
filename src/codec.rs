//! Packing of lattice coordinates into cell identifiers.
//!
//! An identifier holds `x`, `y` and `z` in three 8-bit fields, `x` in the
//! most significant one, followed by an empty low byte:
//! `id = x * 2^24 + y * 2^16 + z * 2^8`.
use vstd::prelude::*;

verus! {

/// The identifier of the cell at `(x, y, z)`, as an integer.
pub open spec fn encode_spec(x: int, y: int, z: int) -> int {
    x * 0x100_0000 + y * 0x1_0000 + z * 0x100
}

/// The coordinates held in the fields of an identifier.
pub open spec fn decode_spec(id: int) -> (int, int, int) {
    (id / 0x100_0000, (id / 0x1_0000) % 0x100, (id / 0x100) % 0x100)
}

/// The identifier of the cell at `(x, y, z)`, for coordinates of one byte.
pub open spec fn id_of(x: int, y: int, z: int) -> u32 {
    encode_spec(x, y, z) as u32
}

/// A coordinate triple fits the codec when each coordinate fits one byte.
pub open spec fn fits_byte(x: int, y: int, z: int) -> bool {
    0 <= x < 0x100 && 0 <= y < 0x100 && 0 <= z < 0x100
}

/// Decoding an encoded triple gives the triple back.
pub proof fn lemma_decode_encode(x: int, y: int, z: int)
    requires
        fits_byte(x, y, z),
    ensures
        decode_spec(encode_spec(x, y, z)) == (x, y, z),
        0 <= encode_spec(x, y, z) < 0x1_0000_0000,
        id_of(x, y, z) as int == encode_spec(x, y, z),
{
    let id = encode_spec(x, y, z);
    assert(id / 0x100_0000 == x) by (nonlinear_arith)
        requires id == x * 0x100_0000 + y * 0x1_0000 + z * 0x100, 0 <= x < 0x100, 0 <= y < 0x100,
            0 <= z < 0x100;
    assert(id / 0x1_0000 == x * 0x100 + y) by (nonlinear_arith)
        requires id == x * 0x100_0000 + y * 0x1_0000 + z * 0x100, 0 <= x < 0x100, 0 <= y < 0x100,
            0 <= z < 0x100;
    assert((x * 0x100 + y) % 0x100 == y) by (nonlinear_arith)
        requires 0 <= x < 0x100, 0 <= y < 0x100;
    assert(id / 0x100 == x * 0x1_0000 + y * 0x100 + z) by (nonlinear_arith)
        requires id == x * 0x100_0000 + y * 0x1_0000 + z * 0x100, 0 <= x < 0x100, 0 <= y < 0x100,
            0 <= z < 0x100;
    assert((x * 0x1_0000 + y * 0x100 + z) % 0x100 == z) by (nonlinear_arith)
        requires 0 <= x < 0x100, 0 <= y < 0x100, 0 <= z < 0x100;
}

/// Distinct coordinate triples have distinct identifiers.
pub proof fn lemma_encode_injective(x: int, y: int, z: int, a: int, b: int, c: int)
    requires
        fits_byte(x, y, z),
        fits_byte(a, b, c),
        (x, y, z) != (a, b, c),
    ensures
        encode_spec(x, y, z) != encode_spec(a, b, c),
        id_of(x, y, z) != id_of(a, b, c),
{
    lemma_decode_encode(x, y, z);
    lemma_decode_encode(a, b, c);
}

/// Packs a coordinate triple into its identifier.
pub fn encode(x: u8, y: u8, z: u8) -> (id: u32)
    ensures
        id as int == encode_spec(x as int, y as int, z as int),
        id == id_of(x as int, y as int, z as int),
{
    proof {
        lemma_decode_encode(x as int, y as int, z as int);
    }
    (x as u32) * 0x100_0000 + (y as u32) * 0x1_0000 + (z as u32) * 0x100
}

/// Reads the coordinate triple back out of an identifier.
pub fn decode(id: u32) -> (r: (u8, u8, u8))
    ensures
        (r.0 as int, r.1 as int, r.2 as int) == decode_spec(id as int),
{
    ((id / 0x100_0000) as u8, ((id / 0x1_0000) % 0x100) as u8, ((id / 0x100) % 0x100) as u8)
}

} // verus!
