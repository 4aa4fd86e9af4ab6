//! Canonical byte encodings.
//!
//! All multi-byte integers (vector lengths) are 4-byte little-endian.
//! Group elements have two encodings:
//! - uncompressed: the two affine coordinates, eight bytes, fast to decode;
//!   the decoder checks that both values are canonical field elements and
//!   that the companion coordinate satisfies the affine relation, so every
//!   byte of the encoding is load-bearing;
//! - compressed: four bytes holding the exponent with a marker flag in the
//!   top bit; the decoder recovers the companion coordinate from the
//!   affine relation. Since a canonical field element never reaches the
//!   marker bit, a compressed encoding can never be confused with a
//!   prefix of an uncompressed one, which makes the self-describing proof
//!   encoding unambiguous.

use vstd::prelude::*;
use vstd::arithmetic::div_mod::{lemma_fundamental_div_mod, lemma_small_mod};
use crate::field::MODULUS;
use crate::group::{G1Affine, affine_y};

verus! {

/// A failure while decoding a serialized object.
#[derive(Clone, Copy, Debug, PartialEq, Eq, Structural)]
pub enum SerializationError {
    /// The input ended before the object was complete.
    UnexpectedEnd,
    /// A compressed group element without its marker flag.
    UnexpectedFlags,
    /// A value at or above the field order, or a companion coordinate
    /// inconsistent with the affine relation.
    InvalidData,
    /// A group element outside the prime-order subgroup, in checked mode.
    NotInSubgroup,
}

/// The marker flag of the compressed encoding; canonical exponents stay
/// strictly below it.
pub const COMPRESSED_FLAG: u64 = 0x8000_0000;

/// The little-endian four-byte encoding of a value below `2^32`.
pub open spec fn u32_le_bytes(v: int) -> Seq<u8> {
    seq![
        (v % 256) as u8,
        ((v / 256) % 256) as u8,
        ((v / 65536) % 256) as u8,
        ((v / 16777216) % 256) as u8,
    ]
}

/// The value of four little-endian bytes.
pub open spec fn u32_from_le(s: Seq<u8>) -> int {
    s[0] + 256 * (s[1] + 256 * (s[2] + 256 * (s[3] as int)))
}

/// Decoding the four little-endian bytes of a value below `2^32` gives the
/// value back.
pub proof fn lemma_u32_round_trip(v: int)
    requires
        0 <= v < 0x1_0000_0000,
    ensures
        u32_from_le(u32_le_bytes(v)) == v,
{
    lemma_fundamental_div_mod(v, 256);
    lemma_fundamental_div_mod(v / 256, 256);
    lemma_fundamental_div_mod(v / 256 / 256, 256);
    vstd::arithmetic::div_mod::lemma_div_denominator(v, 256, 256);
    vstd::arithmetic::div_mod::lemma_div_denominator(v, 65536, 256);
    vstd::arithmetic::div_mod::lemma_div_denominator(v / 256, 256, 256);
    assert(v / 65536 == (v / 256) / 256);
    assert(v / 16777216 == (v / 65536) / 256);
    assert((v / 16777216) % 256 == v / 16777216) by {
        lemma_small_mod((v / 16777216) as nat, 256nat);
    }
}

/// Appends the four little-endian bytes of `v`.
pub fn write_u32_le(v: u32, out: &mut Vec<u8>)
    ensures
        final(out)@ == old(out)@ + u32_le_bytes(v as int),
{
    out.push((v % 256) as u8);
    out.push(((v / 256) % 256) as u8);
    out.push(((v / 65536) % 256) as u8);
    out.push(((v / 16777216) % 256) as u8);
    proof {
        assert(final(out)@ =~= old(out)@ + u32_le_bytes(v as int));
    }
}

/// Reads four little-endian bytes at `pos`; fails only when fewer than
/// four bytes remain.
pub fn read_u32_le(bytes: &Vec<u8>, pos: usize) -> (r: Result<u32, SerializationError>)
    ensures
        pos + 4 <= bytes@.len() ==> r == Ok::<u32, SerializationError>(
            u32_from_le(bytes@.subrange(pos as int, pos + 4)) as u32,
        ),
        pos + 4 > bytes@.len() ==> r == Err::<u32, SerializationError>(
            SerializationError::UnexpectedEnd,
        ),
{
    if bytes.len() < 4 || pos > bytes.len() - 4 {
        return Err(SerializationError::UnexpectedEnd);
    }
    let b0 = bytes[pos] as u32;
    let b1 = bytes[pos + 1] as u32;
    let b2 = bytes[pos + 2] as u32;
    let b3 = bytes[pos + 3] as u32;
    let v = b0 + 256 * (b1 + 256 * (b2 + 256 * b3));
    proof {
        let s = bytes@.subrange(pos as int, pos + 4);
        assert(s[0] == bytes@[pos as int] && s[1] == bytes@[pos + 1] && s[2] == bytes@[pos + 2]
            && s[3] == bytes@[pos + 3]);
    }
    Ok(v)
}

/// The compressed encoding of a group element: its exponent with the
/// marker flag set.
pub open spec fn enc_point_compressed(x: int) -> Seq<u8> {
    u32_le_bytes(x + COMPRESSED_FLAG as int)
}

/// The uncompressed encoding of a group element: both affine coordinates.
pub open spec fn enc_point_uncompressed(x: int) -> Seq<u8> {
    u32_le_bytes(x) + u32_le_bytes(affine_y(x))
}

/// The meaning of four bytes under the compressed decoding.
pub open spec fn dec_point_compressed(s: Seq<u8>, pos: int) -> Result<int, SerializationError> {
    if pos + 4 > s.len() {
        Err(SerializationError::UnexpectedEnd)
    } else {
        let v = u32_from_le(s.subrange(pos, pos + 4));
        if v < COMPRESSED_FLAG as int {
            Err(SerializationError::UnexpectedFlags)
        } else if v - COMPRESSED_FLAG as int >= MODULUS as int {
            Err(SerializationError::InvalidData)
        } else {
            Ok(v - COMPRESSED_FLAG as int)
        }
    }
}

/// The meaning of eight bytes under the uncompressed decoding.
pub open spec fn dec_point_uncompressed(s: Seq<u8>, pos: int) -> Result<int, SerializationError> {
    if pos + 8 > s.len() {
        Err(SerializationError::UnexpectedEnd)
    } else {
        let x = u32_from_le(s.subrange(pos, pos + 4));
        let y = u32_from_le(s.subrange(pos + 4, pos + 8));
        if x >= MODULUS as int || y >= MODULUS as int {
            Err(SerializationError::InvalidData)
        } else if y != affine_y(x) {
            Err(SerializationError::InvalidData)
        } else {
            Ok(x)
        }
    }
}

/// Whether an exec point decode agrees with its spec-level meaning.
pub open spec fn point_result_matches(
    r: Result<G1Affine, SerializationError>,
    spec_r: Result<int, SerializationError>,
) -> bool {
    match spec_r {
        Ok(x) => r is Ok && r->Ok_0.is_valid() && r->Ok_0@ == x,
        Err(e) => r == Err::<G1Affine, SerializationError>(e),
    }
}

/// Appends the compressed encoding of a point.
pub fn write_point_compressed(p: &G1Affine, out: &mut Vec<u8>)
    requires
        p.is_valid(),
    ensures
        final(out)@ == old(out)@ + enc_point_compressed(p@),
{
    write_u32_le((p.x + 0x8000_0000u64) as u32, out);
}

/// Appends the uncompressed encoding of a point.
pub fn write_point_uncompressed(p: &G1Affine, out: &mut Vec<u8>)
    requires
        p.is_valid(),
    ensures
        final(out)@ == old(out)@ + enc_point_uncompressed(p@),
{
    write_u32_le(p.x as u32, out);
    write_u32_le(p.y as u32, out);
    proof {
        assert(final(out)@ =~= old(out)@ + enc_point_uncompressed(p@));
    }
}

/// Reads a compressed point at `pos`, recovering the companion coordinate
/// from the affine relation.
pub fn read_point_compressed(bytes: &Vec<u8>, pos: usize) -> (r: Result<
    G1Affine,
    SerializationError,
>)
    ensures
        point_result_matches(r, dec_point_compressed(bytes@, pos as int)),
{
    let v = match read_u32_le(bytes, pos) {
        Ok(v) => v,
        Err(e) => { return Err(e); },
    };
    let v64 = v as u64;
    if v64 < COMPRESSED_FLAG {
        Err(SerializationError::UnexpectedFlags)
    } else if v64 - COMPRESSED_FLAG >= MODULUS {
        Err(SerializationError::InvalidData)
    } else {
        Ok(G1Affine::from_exponent(crate::field::Fr { value: v64 - COMPRESSED_FLAG }))
    }
}

/// Reads an uncompressed point at `pos`, checking canonicity and the
/// affine relation.
pub fn read_point_uncompressed(bytes: &Vec<u8>, pos: usize) -> (r: Result<
    G1Affine,
    SerializationError,
>)
    ensures
        point_result_matches(r, dec_point_uncompressed(bytes@, pos as int)),
{
    if bytes.len() < 8 || pos > bytes.len() - 8 {
        return Err(SerializationError::UnexpectedEnd);
    }
    let x = match read_u32_le(bytes, pos) {
        Ok(v) => v as u64,
        Err(e) => { return Err(e); },
    };
    let y = match read_u32_le(bytes, pos + 4) {
        Ok(v) => v as u64,
        Err(e) => { return Err(e); },
    };
    if x >= MODULUS || y >= MODULUS {
        return Err(SerializationError::InvalidData);
    }
    let p = G1Affine::from_exponent(crate::field::Fr { value: x });
    if p.y != y {
        return Err(SerializationError::InvalidData);
    }
    Ok(p)
}

/// Re-encoding the value of four little-endian bytes gives the same four
/// bytes: the four-byte encoding is canonical.
pub proof fn lemma_u32_bytes_unique(s: Seq<u8>)
    requires
        s.len() == 4,
    ensures
        0 <= u32_from_le(s) < 0x1_0000_0000,
        u32_le_bytes(u32_from_le(s)) == s,
{
    let v = u32_from_le(s);
    let k1 = s[1] + 256 * (s[2] + 256 * (s[3] as int));
    let k2 = s[2] + 256 * (s[3] as int);
    vstd::arithmetic::div_mod::lemma_fundamental_div_mod_converse(v, 256, k1, s[0] as int);
    vstd::arithmetic::div_mod::lemma_fundamental_div_mod_converse(k1, 256, k2, s[1] as int);
    vstd::arithmetic::div_mod::lemma_fundamental_div_mod_converse(
        k2,
        256,
        s[3] as int,
        s[2] as int,
    );
    vstd::arithmetic::div_mod::lemma_div_denominator(v, 256, 256);
    vstd::arithmetic::div_mod::lemma_div_denominator(v, 65536, 256);
    lemma_small_mod(s[3] as nat, 256nat);
    assert(u32_le_bytes(v) =~= s);
}

/// A successful compressed point decode pins the window down: the four
/// bytes must be exactly the compressed encoding of the decoded point.
/// No two distinct four-byte windows decode to the same point.
pub proof fn lemma_point_compressed_canonical(s: Seq<u8>, pos: int, x: int)
    requires
        0 <= pos,
        dec_point_compressed(s, pos) == Ok::<int, SerializationError>(x),
    ensures
        pos + 4 <= s.len(),
        s.subrange(pos, pos + 4) == enc_point_compressed(x),
{
    lemma_u32_bytes_unique(s.subrange(pos, pos + 4));
}

/// A successful uncompressed point decode pins the window down: the
/// eight bytes must be exactly the uncompressed encoding of the decoded
/// point. No two distinct eight-byte windows decode to the same point.
pub proof fn lemma_point_uncompressed_canonical(s: Seq<u8>, pos: int, x: int)
    requires
        0 <= pos,
        dec_point_uncompressed(s, pos) == Ok::<int, SerializationError>(x),
    ensures
        pos + 8 <= s.len(),
        s.subrange(pos, pos + 8) == enc_point_uncompressed(x),
{
    lemma_u32_bytes_unique(s.subrange(pos, pos + 4));
    lemma_u32_bytes_unique(s.subrange(pos + 4, pos + 8));
    assert(s.subrange(pos, pos + 8) =~= s.subrange(pos, pos + 4) + s.subrange(pos + 4, pos + 8));
}

/// Splitting a known window of a stream: when a window of `s` holds the
/// concatenation `a + b`, its two halves hold `a` and `b`.
pub proof fn lemma_subrange_split(s: Seq<u8>, pos: int, a: Seq<u8>, b: Seq<u8>)
    requires
        0 <= pos,
        pos + a.len() + b.len() <= s.len(),
        s.subrange(pos, pos + a.len() + b.len()) == a + b,
    ensures
        s.subrange(pos, pos + a.len() as int) == a,
        s.subrange(pos + a.len(), pos + a.len() + b.len()) == b,
{
    let ab = a + b;
    assert forall|i: int| 0 <= i < a.len() implies s.subrange(pos, pos + a.len() as int)[i]
        == a[i] by {
        assert(s.subrange(pos, pos + a.len() + b.len())[i] == ab[i]);
    }
    assert(s.subrange(pos, pos + a.len() as int) =~= a);
    assert forall|i: int| 0 <= i < b.len() implies s.subrange(
        pos + a.len(),
        pos + a.len() + b.len(),
    )[i] == b[i] by {
        assert(s.subrange(pos, pos + a.len() + b.len())[a.len() + i] == ab[a.len() + i]);
    }
    assert(s.subrange(pos + a.len(), pos + a.len() + b.len()) =~= b);
}

/// A canonical exponent re-read from its compressed encoding gives the
/// same point: the compressed decoding is a left inverse of the encoding,
/// wherever the encoding stands in a larger stream.
pub proof fn lemma_point_compressed_round_trip(s: Seq<u8>, pos: int, x: int)
    requires
        0 <= x < MODULUS as int,
        0 <= pos,
        pos + 4 <= s.len(),
        s.subrange(pos, pos + 4) == enc_point_compressed(x),
    ensures
        dec_point_compressed(s, pos) == Ok::<int, SerializationError>(x),
{
    lemma_u32_round_trip(x + COMPRESSED_FLAG as int);
}

/// The uncompressed decoding is a left inverse of the uncompressed
/// encoding, wherever the encoding stands in a larger stream.
pub proof fn lemma_point_uncompressed_round_trip(s: Seq<u8>, pos: int, x: int)
    requires
        0 <= x < MODULUS as int,
        0 <= pos,
        pos + 8 <= s.len(),
        s.subrange(pos, pos + 8) == enc_point_uncompressed(x),
    ensures
        dec_point_uncompressed(s, pos) == Ok::<int, SerializationError>(x),
{
    let y = affine_y(x);
    assert(0 <= y < MODULUS as int) by {
        vstd::arithmetic::div_mod::lemma_mod_division_less_than_divisor(
            crate::field::f_mul(crate::field::f_mul(x, x), x) + crate::group::AFFINE_B as int,
            MODULUS as int,
        );
    }
    assert(s.subrange(pos, pos + 4) =~= enc_point_uncompressed(x).subrange(0, 4));
    assert(s.subrange(pos + 4, pos + 8) =~= enc_point_uncompressed(x).subrange(4, 8));
    assert(enc_point_uncompressed(x).subrange(0, 4) =~= u32_le_bytes(x));
    assert(enc_point_uncompressed(x).subrange(4, 8) =~= u32_le_bytes(y));
    lemma_u32_round_trip(x);
    lemma_u32_round_trip(y);
}

/// The first four bytes of an uncompressed encoding never decode as a
/// compressed point: the marker flag cannot be present in a canonical
/// coordinate. This is what makes the auto-detecting proof decoder
/// unambiguous.
pub proof fn lemma_uncompressed_is_not_compressed(s: Seq<u8>, pos: int, x: int)
    requires
        0 <= x < MODULUS as int,
        0 <= pos,
        pos + 4 <= s.len(),
        s.subrange(pos, pos + 4) == enc_point_uncompressed(x).subrange(0, 4),
    ensures
        dec_point_compressed(s, pos) == Err::<int, SerializationError>(
            SerializationError::UnexpectedFlags,
        ),
{
    assert(enc_point_uncompressed(x).subrange(0, 4) =~= u32_le_bytes(x));
    lemma_u32_round_trip(x);
}

} // verus!
