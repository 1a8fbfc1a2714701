//! Little and big endian integer codecs, over the `byteorder` crate.

use byteorder::{BigEndian, ByteOrder, LittleEndian, WriteBytesExt};
use vstd::prelude::*;

verus! {

/// Value of two bytes read in little endian order.
pub open spec fn le16(s: Seq<u8>, i: int) -> int {
    s[i] + 256 * s[i + 1]
}

/// Value of four bytes read in little endian order.
pub open spec fn le32(s: Seq<u8>, i: int) -> int {
    s[i] + 256 * s[i + 1] + 65536 * s[i + 2] + 16777216 * s[i + 3]
}

/// Value of eight bytes read in little endian order.
pub open spec fn le64(s: Seq<u8>, i: int) -> int {
    le32(s, i) + 4294967296 * le32(s, i + 4)
}

/// Value of two bytes read in big endian order.
pub open spec fn be16(s: Seq<u8>, i: int) -> int {
    256 * s[i] + s[i + 1]
}

/// Value of four bytes read in big endian order.
pub open spec fn be32(s: Seq<u8>, i: int) -> int {
    16777216 * s[i] + 65536 * s[i + 1] + 256 * s[i + 2] + s[i + 3]
}

/// The two's complement reading of a 32 bit unsigned value.
pub open spec fn signed32(u: int) -> int {
    if u < 0x8000_0000 { u } else { u - 0x1_0000_0000 }
}

/// The 32 bit unsigned value whose two's complement reading is `v`.
pub open spec fn unsigned32(v: int) -> int {
    if v >= 0 { v } else { v + 0x1_0000_0000 }
}

/// The little endian bytes of a 16 bit value.
pub open spec fn le_bytes16(n: int) -> Seq<u8> {
    seq![(n % 256) as u8, (n / 256 % 256) as u8]
}

/// The little endian bytes of a 32 bit value.
pub open spec fn le_bytes32(n: int) -> Seq<u8> {
    seq![
        (n % 256) as u8,
        (n / 256 % 256) as u8,
        (n / 65536 % 256) as u8,
        (n / 16777216 % 256) as u8,
    ]
}

/// The little endian bytes of a 64 bit value.
pub open spec fn le_bytes64(n: int) -> Seq<u8> {
    le_bytes32(n % 4294967296) + le_bytes32(n / 4294967296)
}

/// Decoding the little endian bytes of a 16 bit value gives it back.
pub proof fn lemma_le16_roundtrip(n: u16, s: Seq<u8>, i: int)
    requires
        0 <= i,
        i + 2 <= s.len(),
        s.subrange(i, i + 2) == le_bytes16(n as int),
    ensures
        le16(s, i) == n,
{
    assert(s[i] == s.subrange(i, i + 2)[0]);
    assert(s[i + 1] == s.subrange(i, i + 2)[1]);
    assert((n % 256) + 256 * ((n / 256) % 256) == n) by (bit_vector);
}

/// Decoding the little endian bytes of a 32 bit value gives it back.
pub proof fn lemma_le32_roundtrip(n: u32, s: Seq<u8>, i: int)
    requires
        0 <= i,
        i + 4 <= s.len(),
        s.subrange(i, i + 4) == le_bytes32(n as int),
    ensures
        le32(s, i) == n,
{
    assert(s[i] == s.subrange(i, i + 4)[0]);
    assert(s[i + 1] == s.subrange(i, i + 4)[1]);
    assert(s[i + 2] == s.subrange(i, i + 4)[2]);
    assert(s[i + 3] == s.subrange(i, i + 4)[3]);
    assert((n % 256) + 256 * ((n / 256) % 256) + 65536 * ((n / 65536) % 256) + 16777216 * ((n
        / 16777216) % 256) == n) by (bit_vector);
}

/// Decoding the little endian bytes of a 64 bit value gives it back.
pub proof fn lemma_le64_roundtrip(n: u64, s: Seq<u8>, i: int)
    requires
        0 <= i,
        i + 8 <= s.len(),
        s.subrange(i, i + 8) == le_bytes64(n as int),
    ensures
        le64(s, i) == n,
{
    let lo = (n % 4294967296) as u32;
    let hi = (n / 4294967296) as u32;
    let w = s.subrange(i, i + 8);
    assert(w.subrange(0, 4) =~= le_bytes32(lo as int));
    assert(w.subrange(4, 8) =~= le_bytes32(hi as int));
    assert(s.subrange(i, i + 4) =~= w.subrange(0, 4));
    assert(s.subrange(i + 4, i + 8) =~= w.subrange(4, 8));
    lemma_le32_roundtrip(lo, s, i);
    lemma_le32_roundtrip(hi, s, i + 4);
    assert(n == lo + 4294967296 * hi);
}

/// Splitting `r + d * q` by `d` gives `q` and `r` back.
proof fn lemma_split(r: int, d: int, q: int)
    requires
        0 <= r < d,
    ensures
        (r + d * q) / d == q,
        (r + d * q) % d == r,
{
    assert(r + d * q == q * d + r) by (nonlinear_arith);
    vstd::arithmetic::div_mod::lemma_fundamental_div_mod_converse(r + d * q, d, q, r);
}

/// Encoding the value of four bytes gives the bytes back.
pub proof fn lemma_le32_encode_decode(s: Seq<u8>, i: int)
    requires
        0 <= i,
        i + 4 <= s.len(),
    ensures
        0 <= le32(s, i) < 0x1_0000_0000,
        le_bytes32(le32(s, i)) == s.subrange(i, i + 4),
{
    let (b0, b1, b2, b3) = (s[i] as int, s[i + 1] as int, s[i + 2] as int, s[i + 3] as int);
    let x = le32(s, i);
    lemma_split(b0, 256, b1 + 256 * b2 + 65536 * b3);
    lemma_split(b0 + 256 * b1, 65536, b2 + 256 * b3);
    lemma_split(b0 + 256 * b1 + 65536 * b2, 16777216, b3);
    let q1 = b1 + 256 * b2 + 65536 * b3;
    lemma_split(b1, 256, b2 + 256 * b3);
    let q2 = b2 + 256 * b3;
    lemma_split(b2, 256, b3);
    lemma_split(b3, 256, 0);
    assert(x / 256 == q1);
    assert(x / 65536 == q2);
    assert(x / 16777216 == b3);
    assert(le_bytes32(x) =~= s.subrange(i, i + 4));
}

/// Encoding the value of two bytes gives the bytes back.
pub proof fn lemma_le16_encode_decode(s: Seq<u8>, i: int)
    requires
        0 <= i,
        i + 2 <= s.len(),
    ensures
        0 <= le16(s, i) < 65536,
        le_bytes16(le16(s, i)) == s.subrange(i, i + 2),
{
    lemma_split(s[i] as int, 256, s[i + 1] as int);
    lemma_split(s[i + 1] as int, 256, 0);
    assert(le_bytes16(le16(s, i)) =~= s.subrange(i, i + 2));
}

/// `LittleEndian::read_u16` from `byteorder`: the two bytes of `buf` at `pos`
/// in little endian order.
#[verifier::external_body]
pub(crate) fn read_u16_le(buf: &[u8], pos: usize) -> (r: u16)
    requires
        pos + 2 <= buf@.len(),
    ensures
        r == le16(buf@, pos as int),
{
    LittleEndian::read_u16(&buf[pos..])
}

/// `LittleEndian::read_u32` from `byteorder`: the four bytes of `buf` at `pos`
/// in little endian order.
#[verifier::external_body]
pub(crate) fn read_u32_le(buf: &[u8], pos: usize) -> (r: u32)
    requires
        pos + 4 <= buf@.len(),
    ensures
        r == le32(buf@, pos as int),
{
    LittleEndian::read_u32(&buf[pos..])
}

/// `LittleEndian::read_i32` from `byteorder`: the four bytes of `buf` at `pos`
/// in little endian order, read as a two's complement value.
#[verifier::external_body]
pub(crate) fn read_i32_le(buf: &[u8], pos: usize) -> (r: i32)
    requires
        pos + 4 <= buf@.len(),
    ensures
        r == signed32(le32(buf@, pos as int)),
{
    LittleEndian::read_i32(&buf[pos..])
}

/// `LittleEndian::read_u64` from `byteorder`: the eight bytes of `buf` at `pos`
/// in little endian order.
#[verifier::external_body]
pub(crate) fn read_u64_le(buf: &[u8], pos: usize) -> (r: u64)
    requires
        pos + 8 <= buf@.len(),
    ensures
        r == le64(buf@, pos as int),
{
    LittleEndian::read_u64(&buf[pos..])
}

/// `BigEndian::read_u16` from `byteorder`: the two bytes of `buf` at `pos`
/// in big endian order.
#[verifier::external_body]
pub(crate) fn read_u16_be(buf: &[u8], pos: usize) -> (r: u16)
    requires
        pos + 2 <= buf@.len(),
    ensures
        r == be16(buf@, pos as int),
{
    BigEndian::read_u16(&buf[pos..])
}

/// `BigEndian::read_u32` from `byteorder`: the four bytes of `buf` at `pos`
/// in big endian order.
#[verifier::external_body]
pub(crate) fn read_u32_be(buf: &[u8], pos: usize) -> (r: u32)
    requires
        pos + 4 <= buf@.len(),
    ensures
        r == be32(buf@, pos as int),
{
    BigEndian::read_u32(&buf[pos..])
}

/// `WriteBytesExt::write_u16::<LittleEndian>` from `byteorder` on a `Vec<u8>`:
/// appends the two little endian bytes of `n` (writing to a vector cannot fail).
#[verifier::external_body]
pub(crate) fn push_u16_le(dst: &mut Vec<u8>, n: u16)
    ensures
        final(dst)@ == old(dst)@ + le_bytes16(n as int),
{
    let _ = dst.write_u16::<LittleEndian>(n);
}

/// `WriteBytesExt::write_u32::<LittleEndian>` from `byteorder` on a `Vec<u8>`:
/// appends the four little endian bytes of `n` (writing to a vector cannot fail).
#[verifier::external_body]
pub(crate) fn push_u32_le(dst: &mut Vec<u8>, n: u32)
    ensures
        final(dst)@ == old(dst)@ + le_bytes32(n as int),
{
    let _ = dst.write_u32::<LittleEndian>(n);
}

/// `WriteBytesExt::write_i32::<LittleEndian>` from `byteorder` on a `Vec<u8>`:
/// appends the four little endian bytes of the two's complement form of `n`.
#[verifier::external_body]
pub(crate) fn push_i32_le(dst: &mut Vec<u8>, n: i32)
    ensures
        final(dst)@ == old(dst)@ + le_bytes32(unsigned32(n as int)),
{
    let _ = dst.write_i32::<LittleEndian>(n);
}

/// `WriteBytesExt::write_u64::<LittleEndian>` from `byteorder` on a `Vec<u8>`:
/// appends the eight little endian bytes of `n` (writing to a vector cannot fail).
#[verifier::external_body]
pub(crate) fn push_u64_le(dst: &mut Vec<u8>, n: u64)
    ensures
        final(dst)@ == old(dst)@ + le_bytes64(n as int),
{
    let _ = dst.write_u64::<LittleEndian>(n);
}

} // verus!
