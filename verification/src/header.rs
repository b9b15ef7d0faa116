//! The file header: signature, header-area length, version, filler, column
//! count and one declared width per column.

use crate::bytes::{le_bytes_u16, le_bytes_u32, low_u16, low_u32, push_bytes, push_u16_le,
    push_u32_le, usize_low_u16};
use crate::column::{type_to_length, width_of, Type};
use vstd::prelude::*;

verus! {

/// The bytes every file starts with.
pub const SIGNATURE: [u8; 11] = [78, 65, 84, 73, 86, 69, 10, 255, 13, 10, 0];

/// The format version, little-endian.
pub const VERSION: [u8; 2] = [1, 0];

/// The zero byte between version and column count.
pub const FILLER: [u8; 1] = [0];

/// The eleven bytes every file starts with: `NATIVE`, a line feed, 0xFF, a
/// carriage return, a line feed and a zero.
pub open spec fn signature_bytes() -> Seq<u8> {
    seq![78u8, 65u8, 84u8, 73u8, 86u8, 69u8, 10u8, 255u8, 13u8, 10u8, 0u8]
}

/// The format version, 1, as two little-endian bytes.
pub open spec fn version_bytes() -> Seq<u8> {
    seq![1u8, 0u8]
}

/// The single zero byte between version and column count.
pub open spec fn filler_bytes() -> Seq<u8> {
    seq![0u8]
}

/// The declared widths of the first `n` columns, four little-endian bytes
/// each, in column order.
pub open spec fn column_widths(types: Seq<Type>, n: int) -> Seq<u8>
    decreases n,
{
    if n <= 0 {
        Seq::empty()
    } else {
        column_widths(types, n - 1) + le_bytes_u32(width_of(types[n - 1]))
    }
}

/// The value of the header-area length field for `n` columns: `4 * n + 5`,
/// as far as 32 bits hold it.
pub open spec fn header_area_length(n: int) -> u32 {
    low_u32(4 * n + 5)
}

/// The whole header of a file with columns `types`. The column count is
/// stored in 16 bits and keeps only the low 16 bits of a larger count.
pub open spec fn header_bytes(types: Seq<Type>) -> Seq<u8> {
    signature_bytes() + le_bytes_u32(header_area_length(types.len() as int)) + version_bytes()
        + filler_bytes() + le_bytes_u16(low_u16(types.len() as int)) + column_widths(
        types,
        types.len() as int,
    )
}

/// The widths of `n` columns take four bytes each.
pub proof fn lemma_column_widths_len(types: Seq<Type>, n: int)
    requires
        0 <= n,
    ensures
        column_widths(types, n).len() == 4 * n,
    decreases n,
{
    if n > 0 {
        lemma_column_widths_len(types, n - 1);
    }
}

/// A header is twenty bytes and four more for each column.
pub proof fn lemma_header_len(types: Seq<Type>)
    ensures
        header_bytes(types).len() == 20 + 4 * types.len(),
{
    lemma_column_widths_len(types, types.len() as int);
}

/// Computes the header-area length field for a schema of `n` columns.
pub fn header_area_length_of(n: usize) -> (r: u32)
    ensures
        r == header_area_length(n as int),
{
    let wide: u128 = n as u128;
    ((4 * wide + 5) % 0x1_0000_0000) as u32
}

/// The declared widths of `columns`, four little-endian bytes each.
pub fn header_widths(columns: &[Type]) -> (widths: Vec<u8>)
    ensures
        widths@ == column_widths(columns@, columns@.len() as int),
{
    let mut widths: Vec<u8> = Vec::new();
    let mut i: usize = 0;
    while i < columns.len()
        invariant
            i <= columns@.len(),
            widths@ == column_widths(columns@, i as int),
        decreases columns@.len() - i,
    {
        push_u32_le(&mut widths, type_to_length(&columns[i]));
        i += 1;
    }
    widths
}

/// Appends the header of a file with columns `types` to `buffer`.
pub fn push_header(buffer: &mut Vec<u8>, types: &[Type])
    ensures
        final(buffer)@ == old(buffer)@ + header_bytes(types@),
{
    assert(SIGNATURE@ =~= signature_bytes());
    assert(VERSION@ =~= version_bytes());
    assert(FILLER@ =~= filler_bytes());
    push_bytes(buffer, &SIGNATURE);
    push_u32_le(buffer, header_area_length_of(types.len()));
    push_bytes(buffer, &VERSION);
    push_bytes(buffer, &FILLER);
    push_u16_le(buffer, usize_low_u16(types.len()));
    let widths = header_widths(types);
    push_bytes(buffer, widths.as_slice());
    assert(buffer@ =~= old(buffer)@ + header_bytes(types@));
}

/// The header of a file with columns `types`.
pub fn to_header(types: &[Type]) -> (header: Vec<u8>)
    ensures
        header@ == header_bytes(types@),
{
    let mut vec: Vec<u8> = Vec::new();
    push_header(&mut vec, types);
    assert(vec@ =~= header_bytes(types@));
    vec
}

} // verus!
