//! Column types, the values a column may hold, and the byte encoding of a
//! value under a column type.

use crate::bytes::{i64_bits, le_bytes_i64, le_bytes_u32, le_bytes_u64, low_u32, push_bytes,
    push_u32_le, push_u64_le, usize_low_u32};
use vstd::prelude::*;
use vstd::std_specs::convert::FromSpecImpl;
use vstd::string::StringSliceAdditionalSpecFns;

verus! {

/// The logical type of a column. It alone decides the column's declared
/// width.
#[derive(Copy, Clone, Debug, PartialEq, Eq, Structural)]
pub enum Type {
    Boolean,
    Integer,
    Float,
    Char { len: usize },
    VarChar,
    Date,
    Timestamp,
    TimestampTz,
    Time,
    TimeTz,
    VarBinary,
    Binary { len: usize },
    Numeric { precision: u32, _scale: u32 },
    Interval,
}

/// One cell of a row. `Float` carries the IEEE-754 bit pattern of the
/// double, which is what the format stores.
#[derive(Copy, Clone, Debug)]
pub enum Value<'a> {
    Null,
    Boolean(bool),
    Integer(i64),
    Float(u64),
    Char(&'a str),
}

/// Which variant a value is, without its payload.
#[derive(Copy, Clone, Debug, PartialEq, Eq, Structural)]
pub enum ValueKind {
    Null,
    Boolean,
    Integer,
    Float,
    Char,
}

/// A value was offered to a column whose type cannot hold it.
#[derive(Copy, Clone, Debug, PartialEq, Eq, Structural)]
pub enum ConversionError {
    InvalidConversion { column_type: Type, value: ValueKind },
}

/// Byte width of a numeric column: one 8-byte group, and one more for every
/// 19 digits of precision.
pub open spec fn numeric_width_of(precision: u32) -> u32 {
    ((precision / 19 + 1) * 8) as u32
}

/// Declared width of a column: 1 for booleans, 8 for the fixed numeric and
/// temporal types, the declared length for fixed text and binary (as far as
/// 32 bits hold it), all ones for the variable-length types.
pub open spec fn width_of(column: Type) -> u32 {
    match column {
        Type::Boolean => 1,
        Type::Integer
        | Type::Float
        | Type::Date
        | Type::Timestamp
        | Type::TimestampTz
        | Type::Time
        | Type::TimeTz
        | Type::Interval => 8,
        Type::Char { len } | Type::Binary { len } => low_u32(len as int),
        Type::VarChar | Type::VarBinary => u32::MAX,
        Type::Numeric { precision, _scale } => numeric_width_of(precision),
    }
}

/// The variant of `value`.
pub open spec fn kind_of(value: Value) -> ValueKind {
    match value {
        Value::Null => ValueKind::Null,
        Value::Boolean(_) => ValueKind::Boolean,
        Value::Integer(_) => ValueKind::Integer,
        Value::Float(_) => ValueKind::Float,
        Value::Char(_) => ValueKind::Char,
    }
}

/// Whether a column of type `column` can hold `value`. Null fits every
/// column.
pub open spec fn compatible(column: Type, value: Value) -> bool {
    match (column, value) {
        (_, Value::Null) => true,
        (Type::Boolean, Value::Boolean(_)) => true,
        (Type::Integer, Value::Integer(_)) => true,
        (Type::Float, Value::Float(_)) => true,
        (Type::Char { len }, Value::Char(_)) => true,
        (Type::VarChar, Value::Char(_)) => true,
        _ => false,
    }
}

/// `text` cut to `len` bytes, or filled up to `len` bytes with spaces.
pub open spec fn fixed_text(len: int, text: Seq<u8>) -> Seq<u8> {
    if text.len() >= len {
        text.subrange(0, len)
    } else {
        text + Seq::new((len - text.len()) as nat, |i: int| 0x20u8)
    }
}

/// `text` behind its byte length as a 32-bit little-endian prefix.
pub open spec fn prefixed_text(text: Seq<u8>) -> Seq<u8> {
    le_bytes_u32(low_u32(text.len() as int)) + text
}

/// The bytes that `value` contributes to a row under a column of type
/// `column`. Null contributes none; so does a pair that is not compatible.
pub open spec fn encoded(column: Type, value: Value) -> Seq<u8> {
    match (column, value) {
        (Type::Boolean, Value::Boolean(b)) => seq![if b { 1u8 } else { 0u8 }],
        (Type::Integer, Value::Integer(i)) => le_bytes_i64(i),
        (Type::Float, Value::Float(bits)) => le_bytes_u64(bits),
        (Type::Char { len }, Value::Char(s)) => fixed_text(len as int, s.spec_bytes()),
        (Type::VarChar, Value::Char(s)) => prefixed_text(s.spec_bytes()),
        _ => Seq::empty(),
    }
}

/// The declared width of a column is fixed by its type: 1 for a boolean, 8
/// for integers, floats, dates, times, timestamps and intervals, the
/// declared length for fixed text and binary that 32 bits can hold, all
/// ones for the variable-length types, and for a numeric 8 bytes and 8 more
/// for every 19 digits of precision, whatever its scale.
pub proof fn lemma_width_of(column: Type)
    ensures
        column is Boolean ==> width_of(column) == 1,
        column is Integer || column is Float || column is Date || column is Timestamp
            || column is TimestampTz || column is Time || column is TimeTz || column is Interval
            ==> width_of(column) == 8,
        column is Char && column->Char_len <= u32::MAX ==> width_of(column) == column->Char_len,
        column is Binary && column->Binary_len <= u32::MAX ==> width_of(column)
            == column->Binary_len,
        column is VarChar || column is VarBinary ==> width_of(column) == 0xFFFF_FFFF,
        column is Numeric ==> width_of(column) == (column->precision / 19 + 1) * 8,
        column is Numeric && column->precision < 19 ==> width_of(column) == 8,
        column is Numeric && column->precision == 19 ==> width_of(column) == 16,
        column is Numeric && column->precision == 38 ==> width_of(column) == 24,
{
}

/// A value other than null fills the declared width of its column: one
/// byte in a boolean column, eight in an integer or float column, and the
/// declared length in a fixed text column, whatever the length of the
/// text. Under a variable-length column it takes its own length and four
/// bytes more.
pub proof fn lemma_encoded_len(column: Type, value: Value)
    requires
        compatible(column, value),
        !(value is Null),
    ensures
        column is Boolean || column is Integer || column is Float ==> encoded(column, value).len()
            == width_of(column),
        column is Char ==> encoded(column, value).len() == column->Char_len,
        column is Char && column->Char_len <= u32::MAX ==> encoded(column, value).len()
            == width_of(column),
        column is VarChar ==> encoded(column, value).len() == 4 + value->Char_0.spec_bytes().len(),
{
}

/// Null takes no bytes under any column.
pub proof fn lemma_encoded_null(column: Type)
    ensures
        compatible(column, Value::Null),
        encoded(column, Value::Null).len() == 0,
{
}

/// Byte width of a numeric column of the given precision.
pub fn numeric_width(precision: u32) -> (width: u32)
    ensures
        width == numeric_width_of(precision),
        width == (precision / 19 + 1) * 8,
{
    ((precision / 19) + 1) * 8
}

/// Declared width of a column of type `column`, as the file header holds
/// it.
pub fn type_to_length(column: &Type) -> (width: u32)
    ensures
        width == width_of(*column),
{
    match *column {
        Type::Boolean => 1,
        Type::Integer
        | Type::Float
        | Type::Date
        | Type::Timestamp
        | Type::TimestampTz
        | Type::Time
        | Type::TimeTz
        | Type::Interval => 8,
        Type::Char { len } | Type::Binary { len } => usize_low_u32(len),
        Type::VarChar | Type::VarBinary => u32::MAX,
        Type::Numeric { precision, _scale } => numeric_width(precision),
    }
}

impl From<&Type> for u32 {
    /// Declared width of a column of type `column`.
    fn from(column: &Type) -> (width: u32) {
        type_to_length(column)
    }
}

impl FromSpecImpl<&Type> for u32 {
    open spec fn obeys_from_spec() -> bool {
        true
    }

    open spec fn from_spec(column: &Type) -> u32 {
        width_of(*column)
    }
}

impl<'a> Value<'a> {
    /// The variant of this value.
    pub fn kind(&self) -> (k: ValueKind)
        ensures
            k == kind_of(*self),
    {
        match self {
            Value::Null => ValueKind::Null,
            Value::Boolean(_) => ValueKind::Boolean,
            Value::Integer(_) => ValueKind::Integer,
            Value::Float(_) => ValueKind::Float,
            Value::Char(_) => ValueKind::Char,
        }
    }
}

/// Appends `text` to `buffer`, cut or space-filled to exactly `len` bytes.
fn push_fixed_text(buffer: &mut Vec<u8>, len: usize, text: &[u8])
    ensures
        final(buffer)@ == old(buffer)@ + fixed_text(len as int, text@),
{
    if text.len() >= len {
        let mut i: usize = 0;
        while i < len
            invariant
                i <= len <= text@.len(),
                buffer@ == old(buffer)@ + text@.subrange(0, i as int),
            decreases len - i,
        {
            buffer.push(text[i]);
            i += 1;
            assert(buffer@ =~= old(buffer)@ + text@.subrange(0, i as int));
        }
    } else {
        push_bytes(buffer, text);
        let pad_len: usize = len - text.len();
        let mut i: usize = 0;
        while i < pad_len
            invariant
                i <= pad_len,
                pad_len == len - text@.len(),
                buffer@ == old(buffer)@ + text@ + Seq::new(i as nat, |k: int| 0x20u8),
            decreases pad_len - i,
        {
            buffer.push(0x20);
            i += 1;
            assert(buffer@ =~= old(buffer)@ + text@ + Seq::new(i as nat, |k: int| 0x20u8));
        }
        assert(buffer@ =~= old(buffer)@ + fixed_text(len as int, text@));
    }
}

impl Type {
    /// Appends the encoding of `value` under this column type to `buffer`.
    /// A value that the type cannot hold is refused and leaves `buffer` as
    /// it was.
    pub fn append(&self, buffer: &mut Vec<u8>, value: &Value) -> (r: Result<(), ConversionError>)
        ensures
            r is Ok <==> compatible(*self, *value),
            r is Ok ==> final(buffer)@ == old(buffer)@ + encoded(*self, *value),
            r is Err ==> final(buffer)@ == old(buffer)@,
            r is Err ==> r == Err::<(), ConversionError>(
                (ConversionError::InvalidConversion {
                    column_type: *self,
                    value: kind_of(*value),
                }),
            ),
    {
        match (self, value) {
            (_, Value::Null) => {
                assert(buffer@ =~= old(buffer)@ + encoded(*self, *value));
            },
            (Type::Boolean, Value::Boolean(b)) => {
                buffer.push(if *b { 1u8 } else { 0u8 });
                assert(buffer@ =~= old(buffer)@ + encoded(*self, *value));
            },
            (Type::Integer, Value::Integer(i)) => {
                push_u64_le(buffer, i64_bits(*i));
            },
            (Type::Float, Value::Float(bits)) => {
                push_u64_le(buffer, *bits);
            },
            (Type::Char { len }, Value::Char(s)) => {
                push_fixed_text(buffer, *len, s.as_bytes());
            },
            (Type::VarChar, Value::Char(s)) => {
                let text = s.as_bytes();
                push_u32_le(buffer, usize_low_u32(text.len()));
                push_bytes(buffer, text);
                assert(buffer@ =~= old(buffer)@ + encoded(*self, *value));
            },
            (_, _) => {
                return Err(
                    ConversionError::InvalidConversion {
                        column_type: *self,
                        value: value.kind(),
                    },
                );
            },
        }
        Ok(())
    }
}

} // verus!
