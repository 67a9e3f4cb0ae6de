//! Little-endian integer framing used by the snapshot envelope: fixed-width
//! 32- and 64-bit fields, written low byte first.

use vstd::prelude::*;

verus! {

/// Byte `i` (little-endian) of a 64-bit value, for `0 <= i < 8`.
pub open spec fn le_byte(v: u64, i: int) -> u8 {
    ((v >> (8 * i) as u64) & 0xff) as u8
}

/// The 64-bit value assembled from eight little-endian bytes.
pub open spec fn u64_of_le(b0: u8, b1: u8, b2: u8, b3: u8, b4: u8, b5: u8, b6: u8, b7: u8) -> u64 {
    (b0 as u64) | ((b1 as u64) << 8) | ((b2 as u64) << 16) | ((b3 as u64) << 24)
        | ((b4 as u64) << 32) | ((b5 as u64) << 40) | ((b6 as u64) << 48) | ((b7 as u64) << 56)
}

/// The 32-bit value assembled from four little-endian bytes.
pub open spec fn u32_of_le(b0: u8, b1: u8, b2: u8, b3: u8) -> u32 {
    (b0 as u32) | ((b1 as u32) << 8) | ((b2 as u32) << 16) | ((b3 as u32) << 24)
}

/// Little-endian encoding of a 64-bit value.
pub open spec fn enc_u64(v: u64) -> Seq<u8> {
    seq![
        le_byte(v, 0), le_byte(v, 1), le_byte(v, 2), le_byte(v, 3),
        le_byte(v, 4), le_byte(v, 5), le_byte(v, 6), le_byte(v, 7),
    ]
}

/// Little-endian encoding of a 32-bit value.
pub open spec fn enc_u32(v: u32) -> Seq<u8> {
    seq![
        le_byte(v as u64, 0), le_byte(v as u64, 1), le_byte(v as u64, 2), le_byte(v as u64, 3),
    ]
}

/// Little-endian encoding of a signed 64-bit value, two's complement.
pub open spec fn enc_i64(v: i64) -> Seq<u8> {
    enc_u64(v as u64)
}

/// The 64-bit value read from the first eight bytes of `s`.
pub open spec fn dec_u64(s: Seq<u8>) -> u64
    recommends
        s.len() >= 8,
{
    u64_of_le(s[0], s[1], s[2], s[3], s[4], s[5], s[6], s[7])
}

/// The 32-bit value read from the first four bytes of `s`.
pub open spec fn dec_u32(s: Seq<u8>) -> u32
    recommends
        s.len() >= 4,
{
    u32_of_le(s[0], s[1], s[2], s[3])
}

/// The signed 64-bit value read from the first eight bytes of `s`.
pub open spec fn dec_i64(s: Seq<u8>) -> i64
    recommends
        s.len() >= 8,
{
    dec_u64(s) as i64
}

/// Reassembling a 64-bit value from its own little-endian bytes gives the
/// value back.
pub proof fn lemma_u64_le_round_trip(v: u64)
    by (bit_vector)
    ensures
        u64_of_le(
            le_byte(v, 0), le_byte(v, 1), le_byte(v, 2), le_byte(v, 3),
            le_byte(v, 4), le_byte(v, 5), le_byte(v, 6), le_byte(v, 7),
        ) == v,
{
}

/// Reassembling a 32-bit value from its own little-endian bytes gives the
/// value back.
pub proof fn lemma_u32_le_round_trip(v: u32)
    by (bit_vector)
    ensures
        u32_of_le(
            le_byte(v as u64, 0), le_byte(v as u64, 1), le_byte(v as u64, 2), le_byte(v as u64, 3),
        ) == v,
{
}

/// A signed 64-bit value survives the unsigned detour taken by the encoding.
pub proof fn lemma_i64_cast_round_trip(v: i64)
    by (bit_vector)
    ensures
        (v as u64) as i64 == v,
{
}

/// Appends the little-endian bytes of `v` to `out`.
pub fn push_u64_le(out: &mut Vec<u8>, v: u64)
    ensures
        final(out)@ == old(out)@ + enc_u64(v),
{
    assert(forall|x: u64| (x & 0xff) < 256) by (bit_vector);
    out.push(((v >> 0u64) & 0xff) as u8);
    out.push(((v >> 8u64) & 0xff) as u8);
    out.push(((v >> 16u64) & 0xff) as u8);
    out.push(((v >> 24u64) & 0xff) as u8);
    out.push(((v >> 32u64) & 0xff) as u8);
    out.push(((v >> 40u64) & 0xff) as u8);
    out.push(((v >> 48u64) & 0xff) as u8);
    out.push(((v >> 56u64) & 0xff) as u8);
    assert(out@ =~= old(out)@ + enc_u64(v));
}

/// Appends the four little-endian bytes of `v` to `out`.
pub fn push_u32_le(out: &mut Vec<u8>, v: u32)
    ensures
        final(out)@ == old(out)@ + enc_u32(v),
{
    let w = v as u64;
    assert(forall|x: u64| (x & 0xff) < 256) by (bit_vector);
    out.push(((w >> 0u64) & 0xff) as u8);
    out.push(((w >> 8u64) & 0xff) as u8);
    out.push(((w >> 16u64) & 0xff) as u8);
    out.push(((w >> 24u64) & 0xff) as u8);
    assert(out@ =~= old(out)@ + enc_u32(v));
}

/// Appends the little-endian bytes of a signed value, two's complement.
pub fn push_i64_le(out: &mut Vec<u8>, v: i64)
    ensures
        final(out)@ == old(out)@ + enc_i64(v),
{
    push_u64_le(out, #[verifier::truncate] (v as u64));
}

/// Reading the first eight bytes of an encoding followed by anything gives
/// the encoded value back.
pub proof fn lemma_dec_u64_prefix(v: u64, rest: Seq<u8>)
    ensures
        dec_u64(enc_u64(v) + rest) == v,
{
    let b = enc_u64(v) + rest;
    assert(b[0] == le_byte(v, 0));
    assert(b[1] == le_byte(v, 1));
    assert(b[2] == le_byte(v, 2));
    assert(b[3] == le_byte(v, 3));
    assert(b[4] == le_byte(v, 4));
    assert(b[5] == le_byte(v, 5));
    assert(b[6] == le_byte(v, 6));
    assert(b[7] == le_byte(v, 7));
    lemma_u64_le_round_trip(v);
}

/// Reading the first four bytes of an encoding followed by anything gives
/// the encoded value back.
pub proof fn lemma_dec_u32_prefix(v: u32, rest: Seq<u8>)
    ensures
        dec_u32(enc_u32(v) + rest) == v,
{
    let b = enc_u32(v) + rest;
    assert(b[0] == le_byte(v as u64, 0));
    assert(b[1] == le_byte(v as u64, 1));
    assert(b[2] == le_byte(v as u64, 2));
    assert(b[3] == le_byte(v as u64, 3));
    lemma_u32_le_round_trip(v);
}

/// Signed variant of the prefix round trip.
pub proof fn lemma_dec_i64_prefix(v: i64, rest: Seq<u8>)
    ensures
        dec_i64(enc_i64(v) + rest) == v,
{
    lemma_dec_u64_prefix(v as u64, rest);
    lemma_i64_cast_round_trip(v);
}

/// Appends all bytes of `src` to `out`.
pub fn push_bytes(out: &mut Vec<u8>, src: &Vec<u8>)
    ensures
        final(out)@ == old(out)@ + src@,
{
    let n = src.len();
    for i in 0..n
        invariant
            n == src@.len(),
            out@ == old(out)@ + src@.take(i as int),
    {
        out.push(src[i]);
        assert(out@ =~= old(out)@ + src@.take(i + 1));
    }
    assert(old(out)@ + src@.take(n as int) =~= old(out)@ + src@);
}

/// Copies `len` bytes starting at `start` out of `bytes`.
pub fn copy_range(bytes: &Vec<u8>, start: usize, len: usize) -> (r: Vec<u8>)
    requires
        start + len <= bytes@.len(),
    ensures
        r@ == bytes@.subrange(start as int, start as int + len as int),
{
    let mut r: Vec<u8> = Vec::new();
    let n = bytes.len();
    assert(start + len <= n);
    for i in 0..len
        invariant
            start + len <= n,
            n == bytes@.len(),
            r@ == bytes@.subrange(start as int, start as int + i as int),
    {
        r.push(bytes[start + i]);
        assert(r@ =~= bytes@.subrange(start as int, start as int + i as int + 1));
    }
    r
}

/// Reads the 64-bit little-endian value at `pos`.
pub fn read_u64_le(bytes: &Vec<u8>, pos: usize) -> (v: u64)
    requires
        pos + 8 <= bytes@.len(),
    ensures
        v == dec_u64(bytes@.skip(pos as int)),
{
    let n = bytes.len();
    assert(pos + 8 <= n);
    let v = (bytes[pos] as u64)
        | ((bytes[pos + 1] as u64) << 8)
        | ((bytes[pos + 2] as u64) << 16)
        | ((bytes[pos + 3] as u64) << 24)
        | ((bytes[pos + 4] as u64) << 32)
        | ((bytes[pos + 5] as u64) << 40)
        | ((bytes[pos + 6] as u64) << 48)
        | ((bytes[pos + 7] as u64) << 56);
    assert(bytes@.skip(pos as int)[0] == bytes@[pos as int]);
    v
}

/// Reads the 32-bit little-endian value at `pos`.
pub fn read_u32_le(bytes: &Vec<u8>, pos: usize) -> (v: u32)
    requires
        pos + 4 <= bytes@.len(),
    ensures
        v == dec_u32(bytes@.skip(pos as int)),
{
    let n = bytes.len();
    assert(pos + 4 <= n);
    let v = (bytes[pos] as u32)
        | ((bytes[pos + 1] as u32) << 8)
        | ((bytes[pos + 2] as u32) << 16)
        | ((bytes[pos + 3] as u32) << 24);
    assert(bytes@.skip(pos as int)[0] == bytes@[pos as int]);
    v
}

/// Reads the signed 64-bit little-endian value at `pos`.
pub fn read_i64_le(bytes: &Vec<u8>, pos: usize) -> (v: i64)
    requires
        pos + 8 <= bytes@.len(),
    ensures
        v == dec_i64(bytes@.skip(pos as int)),
{
    let w = read_u64_le(bytes, pos);
    #[verifier::truncate] (w as i64)
}

} // verus!
