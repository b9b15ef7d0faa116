//! Encoding of plain integers straight into a column.

use crate::bytes::{le_bytes_u64, push_u64_le};
use crate::column::{ConversionError, Type, ValueKind};
use vstd::prelude::*;

verus! {

/// A value that can be written into a column of a fitting type.
pub trait Append {
    /// The bytes this value has in a column of type `column_type`, if such
    /// a column can hold it.
    spec fn appended(&self, column_type: Type) -> Option<Seq<u8>>;

    /// Appends this value, as a column of type `column_type` stores it, to
    /// `out`, and returns the number of bytes appended. A column that
    /// cannot hold the value is refused and leaves `out` as it was.
    fn append(&self, out: &mut Vec<u8>, column_type: &Type) -> (r: Result<usize, ConversionError>)
        ensures
            r is Ok <==> self.appended(*column_type) is Some,
            r is Ok ==> final(out)@ == old(out)@ + self.appended(*column_type)->Some_0,
            r is Ok ==> r->Ok_0 == self.appended(*column_type)->Some_0.len(),
            r is Err ==> final(out)@ == old(out)@,
            r is Err ==> r->Err_0 == (ConversionError::InvalidConversion {
                column_type: *column_type,
                value: ValueKind::Integer,
            }),
    ;
}

impl Append for u64 {
    open spec fn appended(&self, column_type: Type) -> Option<Seq<u8>> {
        match column_type {
            Type::Integer => Some(le_bytes_u64(*self)),
            _ => None,
        }
    }

    fn append(&self, out: &mut Vec<u8>, column_type: &Type) -> (r: Result<usize, ConversionError>) {
        match column_type {
            Type::Integer => {
                push_u64_le(out, *self);
                Ok(8)
            },
            _ => Err(
                ConversionError::InvalidConversion {
                    column_type: *column_type,
                    value: ValueKind::Integer,
                },
            ),
        }
    }
}

} // verus!
