//! A row record put together from parts that are already encoded.

use crate::bytes::{le_bytes_u32, low_u32, push_bytes, push_u32_le, usize_low_u32};
use vstd::prelude::*;
use vstd::std_specs::convert::FromSpecImpl;

verus! {

/// A row whose null bitfield and data are already bytes.
pub struct Row {
    data_length: u32,
    null_bit_field: Vec<u8>,
    data: Vec<u8>,
}

/// What a [`Row`] holds.
pub ghost struct RowView {
    pub data_length: u32,
    pub null_bit_field: Seq<u8>,
    pub data: Seq<u8>,
}

impl RowView {
    /// The record as it stands in a file: length, bitfield, data.
    pub open spec fn bytes(self) -> Seq<u8> {
        le_bytes_u32(self.data_length) + self.null_bit_field + self.data
    }
}

impl View for Row {
    type V = RowView;

    closed spec fn view(&self) -> RowView {
        RowView {
            data_length: self.data_length,
            null_bit_field: self.null_bit_field@,
            data: self.data@,
        }
    }
}

impl Row {
    /// A row of the given bitfield and data. Its length field counts the
    /// bytes of the data, as far as 32 bits hold the count.
    pub fn new(null_bit_field: Vec<u8>, data: Vec<u8>) -> (row: Row)
        ensures
            row@ == (RowView {
                data_length: low_u32(data@.len() as int),
                null_bit_field: null_bit_field@,
                data: data@,
            }),
    {
        Row { data_length: usize_low_u32(data.len()), null_bit_field, data }
    }
}

impl From<Row> for Vec<u8> {
    /// The record as it stands in a file.
    fn from(row: Row) -> (bytes: Vec<u8>)
        ensures
            bytes@ == row@.bytes(),
    {
        let mut vec: Vec<u8> = Vec::new();
        push_u32_le(&mut vec, row.data_length);
        push_bytes(&mut vec, row.null_bit_field.as_slice());
        push_bytes(&mut vec, row.data.as_slice());
        assert(vec@ =~= row@.bytes());
        vec
    }
}

/// Two vectors with the same bytes need not be the same vector, so the
/// conversion is specified by the bytes of its result, on `from` itself.
impl FromSpecImpl<Row> for Vec<u8> {
    open spec fn obeys_from_spec() -> bool {
        false
    }

    open spec fn from_spec(row: Row) -> Vec<u8> {
        choose|bytes: Vec<u8>| bytes@ == row@.bytes()
    }
}

} // verus!
