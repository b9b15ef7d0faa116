//! Little-endian byte encodings of fixed-width integers.

use vstd::prelude::*;

verus! {

/// Two bytes of `x`, least significant first.
pub open spec fn le_bytes_u16(x: u16) -> Seq<u8> {
    seq![(x % 256) as u8, (x / 256) as u8]
}

/// Four bytes of `x`, least significant first.
pub open spec fn le_bytes_u32(x: u32) -> Seq<u8> {
    seq![
        (x % 256) as u8,
        (x / 256 % 256) as u8,
        (x / 65536 % 256) as u8,
        (x / 16777216) as u8,
    ]
}

/// Eight bytes of `x`, least significant first.
pub open spec fn le_bytes_u64(x: u64) -> Seq<u8> {
    seq![
        (x % 256) as u8,
        (x / 0x100 % 256) as u8,
        (x / 0x1_0000 % 256) as u8,
        (x / 0x100_0000 % 256) as u8,
        (x / 0x1_0000_0000 % 256) as u8,
        (x / 0x100_0000_0000 % 256) as u8,
        (x / 0x1_0000_0000_0000 % 256) as u8,
        (x / 0x100_0000_0000_0000) as u8,
    ]
}

/// The unsigned 64-bit number with the same bit pattern as `i` in two's
/// complement.
pub open spec fn twos_complement(i: i64) -> u64 {
    if i >= 0 {
        i as u64
    } else {
        (i + 0x1_0000_0000_0000_0000) as u64
    }
}

/// Eight bytes of `i` in two's complement, least significant first.
pub open spec fn le_bytes_i64(i: i64) -> Seq<u8> {
    le_bytes_u64(twos_complement(i))
}

/// The residue of `n` modulo 2^16: what a 16-bit field keeps of a count.
pub open spec fn low_u16(n: int) -> u16 {
    (n % 0x1_0000) as u16
}

/// The residue of `n` modulo 2^32: what a 32-bit field keeps of a count.
pub open spec fn low_u32(n: int) -> u32 {
    (n % 0x1_0000_0000) as u32
}

/// The bytes of a 16-bit number are its digits to the base 256, the lowest
/// first.
pub proof fn lemma_le_bytes_u16(x: u16)
    ensures
        le_bytes_u16(x).len() == 2,
        x == le_bytes_u16(x)[0] + 256 * le_bytes_u16(x)[1],
{
}

/// The bytes of a 32-bit number are its digits to the base 256, the lowest
/// first.
pub proof fn lemma_le_bytes_u32(x: u32)
    ensures
        le_bytes_u32(x).len() == 4,
        x == le_bytes_u32(x)[0] + 0x100 * le_bytes_u32(x)[1] + 0x1_0000 * le_bytes_u32(x)[2]
            + 0x100_0000 * le_bytes_u32(x)[3],
{
}

/// The bytes of a 64-bit number are its digits to the base 256, the lowest
/// first.
pub proof fn lemma_le_bytes_u64(x: u64)
    ensures
        le_bytes_u64(x).len() == 8,
        x == le_bytes_u64(x)[0] + 0x100 * le_bytes_u64(x)[1] + 0x1_0000 * le_bytes_u64(x)[2]
            + 0x100_0000 * le_bytes_u64(x)[3] + 0x1_0000_0000 * le_bytes_u64(x)[4]
            + 0x100_0000_0000 * le_bytes_u64(x)[5] + 0x1_0000_0000_0000 * le_bytes_u64(x)[6]
            + 0x100_0000_0000_0000 * le_bytes_u64(x)[7],
{
    assert(x == (x % 256) + 0x100 * (x / 0x100 % 256) + 0x1_0000 * (x / 0x1_0000 % 256)
        + 0x100_0000 * (x / 0x100_0000 % 256) + 0x1_0000_0000 * (x / 0x1_0000_0000 % 256)
        + 0x100_0000_0000 * (x / 0x100_0000_0000 % 256) + 0x1_0000_0000_0000 * (x
        / 0x1_0000_0000_0000 % 256) + 0x100_0000_0000_0000 * (x / 0x100_0000_0000_0000))
        by (bit_vector);
}

/// A signed number is found again from its two's complement: it is the
/// unsigned number itself below 2^63, and 2^64 less from there on.
pub proof fn lemma_twos_complement(i: i64)
    ensures
        i >= 0 ==> twos_complement(i) == i && twos_complement(i) < 0x8000_0000_0000_0000,
        i < 0 ==> twos_complement(i) == i + 0x1_0000_0000_0000_0000 && twos_complement(i)
            >= 0x8000_0000_0000_0000,
{
}

/// Reinterprets a signed 64-bit integer as unsigned, bit for bit.
pub fn i64_bits(i: i64) -> (r: u64)
    ensures
        r == twos_complement(i),
{
    if i >= 0 {
        i as u64
    } else {
        let below: u64 = (-(i + 1)) as u64;
        u64::MAX - below
    }
}

/// Keeps the low 16 bits of a length.
pub fn usize_low_u16(n: usize) -> (r: u16)
    ensures
        r == low_u16(n as int),
{
    (n % 0x1_0000) as u16
}

/// Keeps the low 32 bits of a length.
pub fn usize_low_u32(n: usize) -> (r: u32)
    ensures
        r == low_u32(n as int),
{
    let wide: u64 = n as u64;
    (wide % 0x1_0000_0000) as u32
}

/// The two little-endian bytes of `x`.
pub fn u16_le_array(x: u16) -> (bytes: [u8; 2])
    ensures
        bytes@ == le_bytes_u16(x),
{
    let bytes: [u8; 2] = [(x % 256) as u8, (x / 256) as u8];
    assert(bytes@ =~= le_bytes_u16(x));
    bytes
}

/// The four little-endian bytes of `x`.
pub fn u32_le_array(x: u32) -> (bytes: [u8; 4])
    ensures
        bytes@ == le_bytes_u32(x),
{
    let bytes: [u8; 4] = [
        (x % 256) as u8,
        (x / 256 % 256) as u8,
        (x / 65536 % 256) as u8,
        (x / 16777216) as u8,
    ];
    assert(bytes@ =~= le_bytes_u32(x));
    bytes
}

/// Appends the two little-endian bytes of `x` to `buffer`.
pub fn push_u16_le(buffer: &mut Vec<u8>, x: u16)
    ensures
        final(buffer)@ == old(buffer)@ + le_bytes_u16(x),
{
    buffer.push((x % 256) as u8);
    buffer.push((x / 256) as u8);
    assert(buffer@ =~= old(buffer)@ + le_bytes_u16(x));
}

/// Appends the four little-endian bytes of `x` to `buffer`.
pub fn push_u32_le(buffer: &mut Vec<u8>, x: u32)
    ensures
        final(buffer)@ == old(buffer)@ + le_bytes_u32(x),
{
    buffer.push((x % 256) as u8);
    buffer.push((x / 256 % 256) as u8);
    buffer.push((x / 65536 % 256) as u8);
    buffer.push((x / 16777216) as u8);
    assert(buffer@ =~= old(buffer)@ + le_bytes_u32(x));
}

/// Appends the eight little-endian bytes of `x` to `buffer`.
pub fn push_u64_le(buffer: &mut Vec<u8>, x: u64)
    ensures
        final(buffer)@ == old(buffer)@ + le_bytes_u64(x),
{
    buffer.push((x % 256) as u8);
    buffer.push((x / 0x100 % 256) as u8);
    buffer.push((x / 0x1_0000 % 256) as u8);
    buffer.push((x / 0x100_0000 % 256) as u8);
    buffer.push((x / 0x1_0000_0000 % 256) as u8);
    buffer.push((x / 0x100_0000_0000 % 256) as u8);
    buffer.push((x / 0x1_0000_0000_0000 % 256) as u8);
    buffer.push((x / 0x100_0000_0000_0000) as u8);
    assert(buffer@ =~= old(buffer)@ + le_bytes_u64(x));
}

/// Appends every byte of `bytes` to `buffer`.
pub fn push_bytes(buffer: &mut Vec<u8>, bytes: &[u8])
    ensures
        final(buffer)@ == old(buffer)@ + bytes@,
{
    let mut i: usize = 0;
    while i < bytes.len()
        invariant
            i <= bytes@.len(),
            buffer@ == old(buffer)@ + bytes@.subrange(0, i as int),
        decreases bytes@.len() - i,
    {
        buffer.push(bytes[i]);
        i += 1;
        assert(buffer@ =~= old(buffer)@ + bytes@.subrange(0, i as int));
    }
    assert(bytes@.subrange(0, i as int) =~= bytes@);
}

} // verus!
