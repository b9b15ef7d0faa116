//! Values that need no column type to be encoded.

use crate::bytes::{i64_bits, le_bytes_i64, push_u64_le};
use vstd::prelude::*;

verus! {

/// A null, an integer or a boolean.
#[derive(Copy, Clone, Debug, PartialEq, Eq, Structural)]
pub enum Value {
    Null,
    Integer(i64),
    Boolean(bool),
}

impl Value {
    /// The bytes of this value: none for null, eight little-endian bytes
    /// for an integer, one byte, 1 or 0, for a boolean.
    pub open spec fn bytes(self) -> Seq<u8> {
        match self {
            Value::Null => Seq::empty(),
            Value::Integer(value) => le_bytes_i64(value),
            Value::Boolean(value) => seq![if value { 1u8 } else { 0u8 }],
        }
    }

    /// Appends the bytes of this value to `out` and returns their number.
    pub fn write(&self, out: &mut Vec<u8>) -> (written: usize)
        ensures
            final(out)@ == old(out)@ + self.bytes(),
            written == self.bytes().len(),
    {
        match self {
            Value::Null => {
                assert(out@ =~= old(out)@ + self.bytes());
                0
            },
            Value::Integer(value) => {
                push_u64_le(out, i64_bits(*value));
                8
            },
            Value::Boolean(value) => {
                out.push(if *value { 1u8 } else { 0u8 });
                assert(out@ =~= old(out)@ + self.bytes());
                1
            },
        }
    }
}

} // verus!
