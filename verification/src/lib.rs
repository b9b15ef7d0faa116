//! Encoder for the Vertica native binary file format: a file header that
//! declares the width of every column, followed by length-prefixed row
//! records, each led by a bitfield that marks the null columns.

use crate::bytes::{le_bytes_u32, low_u32, push_bytes, push_u32_le, usize_low_u32};
use crate::column::{compatible, encoded, kind_of, ConversionError, Type, Value};
use crate::header::{header_bytes, lemma_header_len, push_header};
use vstd::prelude::*;

pub mod bytes;
pub mod column;
pub mod date;
pub mod file_header;
pub mod generic;
pub mod header;
pub mod row;
pub mod value;

verus! {

/// Why a row could not be assembled.
#[derive(Copy, Clone, Debug, PartialEq, Eq, Structural)]
pub enum RowError {
    /// The row does not have one value for each column.
    LengthMismatch { columns: usize, values: usize },
    /// The value at `column` does not fit the type of that column.
    Conversion { column: usize, error: ConversionError },
}

/// The weight of position `k` within a byte of the null bitfield, most
/// significant bit first.
pub open spec fn bit_position(k: int) -> int {
    if k == 0 {
        128
    } else if k == 1 {
        64
    } else if k == 2 {
        32
    } else if k == 3 {
        16
    } else if k == 4 {
        8
    } else if k == 5 {
        4
    } else if k == 6 {
        2
    } else if k == 7 {
        1
    } else {
        0
    }
}

/// What position `i` contributes to its byte of the bitfield: its weight
/// if the value at `i` is null, else 0.
pub open spec fn null_bit(values: Seq<Value>, i: int) -> int {
    if 0 <= i < values.len() && values[i] is Null {
        bit_position(i % 8)
    } else {
        0
    }
}

/// Byte `j` of the bitfield: what the positions `8 * j` to `8 * j + 7`
/// contribute.
pub open spec fn null_byte(values: Seq<Value>, j: int) -> int {
    null_bit(values, 8 * j) + null_bit(values, 8 * j + 1) + null_bit(values, 8 * j + 2)
        + null_bit(values, 8 * j + 3) + null_bit(values, 8 * j + 4) + null_bit(
        values,
        8 * j + 5,
    ) + null_bit(values, 8 * j + 6) + null_bit(values, 8 * j + 7)
}

/// The null bitfield of a row: one bit per value, eight to a byte, most
/// significant bit first, set where the value is null. The unused bits of
/// the last byte are 0.
pub open spec fn null_bit_field(values: Seq<Value>) -> Seq<u8> {
    Seq::new(((values.len() + 7) / 8) as nat, |j: int| null_byte(values, j) as u8)
}

/// The encodings of the first `n` values of a row under the column types at
/// the same positions, one after the other.
pub open spec fn row_data_prefix(types: Seq<Type>, values: Seq<Value>, n: int) -> Seq<u8>
    decreases n,
{
    if n <= 0 {
        Seq::empty()
    } else {
        row_data_prefix(types, values, n - 1) + encoded(types[n - 1], values[n - 1])
    }
}

/// The encodings of all values of a row, in column order.
pub open spec fn row_data(types: Seq<Type>, values: Seq<Value>) -> Seq<u8> {
    row_data_prefix(types, values, values.len() as int)
}

/// Every one of the first `n` values fits the type of its column.
pub open spec fn compatible_prefix(types: Seq<Type>, values: Seq<Value>, n: int) -> bool {
    forall|i: int| 0 <= i < n ==> compatible(#[trigger] types[i], values[i])
}

/// The row has one value for each column and each value fits its column.
pub open spec fn row_fits(types: Seq<Type>, values: Seq<Value>) -> bool {
    types.len() == values.len() && compatible_prefix(types, values, values.len() as int)
}

/// One row record: the length of the row data as four little-endian bytes
/// (the bitfield is not counted), the null bitfield, the row data.
pub open spec fn row_record(types: Seq<Type>, values: Seq<Value>) -> Seq<u8> {
    le_bytes_u32(low_u32(row_data(types, values).len() as int)) + null_bit_field(values)
        + row_data(types, values)
}

/// The error that assembling `values` under `types` reports: a length
/// mismatch before anything else, otherwise the first value, in column
/// order, that does not fit its column.
pub open spec fn is_row_error(types: Seq<Type>, values: Seq<Value>, e: RowError) -> bool {
    match e {
        RowError::LengthMismatch { columns, values: found } => {
            &&& types.len() != values.len()
            &&& columns == types.len()
            &&& found == values.len()
        },
        RowError::Conversion { column, error } => {
            &&& types.len() == values.len()
            &&& column < values.len()
            &&& compatible_prefix(types, values, column as int)
            &&& !compatible(types[column as int], values[column as int])
            &&& error == (ConversionError::InvalidConversion {
                column_type: types[column as int],
                value: kind_of(values[column as int]),
            })
        },
    }
}

/// A bitfield has one byte for every eight values, the last of them for
/// what is left over.
pub proof fn lemma_null_bit_field_len(values: Seq<Value>)
    ensures
        null_bit_field(values).len() == (values.len() + 7) / 8,
{
}

/// In a sum of the eight weights, each taken or not, a bit is set exactly
/// where its weight was taken.
proof fn lemma_weights(a0: int, a1: int, a2: int, a3: int, a4: int, a5: int, a6: int, a7: int)
    requires
        0 <= a0 <= 1,
        0 <= a1 <= 1,
        0 <= a2 <= 1,
        0 <= a3 <= 1,
        0 <= a4 <= 1,
        0 <= a5 <= 1,
        0 <= a6 <= 1,
        0 <= a7 <= 1,
    ensures
        ({
            let byte = 128 * a0 + 64 * a1 + 32 * a2 + 16 * a3 + 8 * a4 + 4 * a5 + 2 * a6 + a7;
            &&& 0 <= byte <= 255
            &&& (byte / 128) % 2 == a0
            &&& (byte / 64) % 2 == a1
            &&& (byte / 32) % 2 == a2
            &&& (byte / 16) % 2 == a3
            &&& (byte / 8) % 2 == a4
            &&& (byte / 4) % 2 == a5
            &&& (byte / 2) % 2 == a6
            &&& (byte / 1) % 2 == a7
        }),
{
    let byte = 128 * a0 + 64 * a1 + 32 * a2 + 16 * a3 + 8 * a4 + 4 * a5 + 2 * a6 + a7;
    assert(byte / 128 == a0);
    assert(byte / 64 == 2 * a0 + a1);
    assert(byte / 32 == 4 * a0 + 2 * a1 + a2);
    assert(byte / 16 == 8 * a0 + 4 * a1 + 2 * a2 + a3);
    assert(byte / 8 == 16 * a0 + 8 * a1 + 4 * a2 + 2 * a3 + a4);
    assert(byte / 4 == 32 * a0 + 16 * a1 + 8 * a2 + 4 * a3 + 2 * a4 + a5);
    assert(byte / 2 == 64 * a0 + 32 * a1 + 16 * a2 + 8 * a3 + 4 * a4 + 2 * a5 + a6);
}

/// Whether the value at position `i` is null; 1 if so, else 0.
pub open spec fn null_flag(values: Seq<Value>, i: int) -> int {
    if 0 <= i < values.len() && values[i] is Null {
        1
    } else {
        0
    }
}

/// Bit `i % 8` of byte `i / 8` of the bitfield, counted from the most
/// significant bit, is set exactly where the value at `i` is null; the bits
/// behind the last value are not set.
pub proof fn lemma_null_bit_field_bit(values: Seq<Value>, i: int)
    requires
        0 <= i < 8 * null_bit_field(values).len(),
    ensures
        (null_bit_field(values)[i / 8] as int / bit_position(i % 8)) % 2 == null_flag(values, i),
{
    let j = i / 8;
    let a0 = null_flag(values, 8 * j);
    let a1 = null_flag(values, 8 * j + 1);
    let a2 = null_flag(values, 8 * j + 2);
    let a3 = null_flag(values, 8 * j + 3);
    let a4 = null_flag(values, 8 * j + 4);
    let a5 = null_flag(values, 8 * j + 5);
    let a6 = null_flag(values, 8 * j + 6);
    let a7 = null_flag(values, 8 * j + 7);
    assert(null_bit(values, 8 * j) == 128 * a0);
    assert(null_bit(values, 8 * j + 1) == 64 * a1);
    assert(null_bit(values, 8 * j + 2) == 32 * a2);
    assert(null_bit(values, 8 * j + 3) == 16 * a3);
    assert(null_bit(values, 8 * j + 4) == 8 * a4);
    assert(null_bit(values, 8 * j + 5) == 4 * a5);
    assert(null_bit(values, 8 * j + 6) == 2 * a6);
    assert(null_bit(values, 8 * j + 7) == a7);
    lemma_weights(a0, a1, a2, a3, a4, a5, a6, a7);
    let byte = 128 * a0 + 64 * a1 + 32 * a2 + 16 * a3 + 8 * a4 + 4 * a5 + 2 * a6 + a7;
    assert(null_byte(values, j) == byte);
    assert(null_bit_field(values)[j] as int == byte);
}

/// The row data of no values is empty; that of `n` values is as long as
/// that of the first `n - 1` and the encoding of the last together.
pub proof fn lemma_row_data_len(types: Seq<Type>, values: Seq<Value>, n: int)
    requires
        0 <= n,
    ensures
        n == 0 ==> row_data_prefix(types, values, n).len() == 0,
        n > 0 ==> row_data_prefix(types, values, n).len() == row_data_prefix(
            types,
            values,
            n - 1,
        ).len() + encoded(types[n - 1], values[n - 1]).len(),
{
}

/// A row record is its four bytes of length, one byte of bitfield for
/// every eight values, and the row data.
pub proof fn lemma_row_record_len(types: Seq<Type>, values: Seq<Value>)
    ensures
        row_record(types, values).len() == 4 + (values.len() + 7) / 8 + row_data(
            types,
            values,
        ).len(),
{
}

/// Writing the header is idempotent: a writer that emits its header twice
/// into one sink appends the same bytes both times, those of the header of
/// its schema.
pub proof fn lemma_header_twice(types: Seq<Type>, sink: Seq<u8>)
    ensures
        ({
            let once = sink + header_bytes(types);
            let twice = once + header_bytes(types);
            &&& once.subrange(sink.len() as int, once.len() as int) == header_bytes(types)
            &&& twice.subrange(once.len() as int, twice.len() as int) == header_bytes(types)
        }),
{
    let once = sink + header_bytes(types);
    let twice = once + header_bytes(types);
    assert(once.subrange(sink.len() as int, once.len() as int) =~= header_bytes(types));
    assert(twice.subrange(once.len() as int, twice.len() as int) =~= header_bytes(types));
}

/// The weight of position `k` within a byte of the null bitfield.
fn bit_position_of(k: usize) -> (bit: u8)
    requires
        k < 8,
    ensures
        bit == bit_position(k as int),
{
    if k == 0 {
        0b1000_0000
    } else if k == 1 {
        0b0100_0000
    } else if k == 2 {
        0b0010_0000
    } else if k == 3 {
        0b0001_0000
    } else if k == 4 {
        0b0000_1000
    } else if k == 5 {
        0b0000_0100
    } else if k == 6 {
        0b0000_0010
    } else {
        0b0000_0001
    }
}

/// Appends the null bitfield of `values` to `buffer`.
pub fn push_null_value_bit_field(buffer: &mut Vec<u8>, values: &[Value])
    ensures
        final(buffer)@ == old(buffer)@ + null_bit_field(values@),
{
    let ghost field = null_bit_field(values@);
    let mut current: u8 = 0;
    let mut i: usize = 0;
    while i < values.len()
        invariant
            i <= values@.len(),
            field == null_bit_field(values@),
            buffer@ == old(buffer)@ + field.subrange(0, i as int / 8),
            current == null_byte(values@.take(i as int), i as int / 8),
        decreases values@.len() - i,
    {
        let bit: u8 = match values[i] {
            Value::Null => bit_position_of(i % 8),
            _ => 0,
        };
        proof {
            let j = i as int / 8;
            let seen = values@.take(i as int);
            let next = values@.take(i + 1);
            assert(bit == null_bit(next, i as int));
            assert(null_bit(seen, i as int) == 0);
            assert forall|p: int| 8 * j <= p < 8 * j + 8 && p != i implies null_bit(next, p)
                == null_bit(seen, p) by {
                if p < i {
                    assert(next[p] == seen[p]);
                }
            }
            assert(null_byte(next, j) == current + bit);
            if (i + 1) % 8 == 0 {
                assert forall|p: int| 8 * j <= p < 8 * j + 8 implies null_bit(next, p)
                    == null_bit(values@, p) by {
                    assert(next[p] == values@[p]);
                }
                assert(null_byte(next, j) == null_byte(values@, j));
                assert(null_byte(next, j + 1) == 0);
            }
        }
        current = current + bit;
        i += 1;
        if i % 8 == 0 {
            buffer.push(current);
            assert(current == field[(i - 1) as int / 8]);
            assert(buffer@ =~= old(buffer)@ + field.subrange(0, i as int / 8));
            current = 0;
        }
    }
    assert(values@.take(i as int) =~= values@);
    if i % 8 != 0 {
        buffer.push(current);
        assert(current == field[i as int / 8]);
        assert(buffer@ =~= old(buffer)@ + field);
    } else {
        assert(field.subrange(0, i as int / 8) =~= field);
    }
}

/// Appends the encodings of `values` under `types` to `buffer`, in column
/// order. Where a value does not fit its column, or the row is not as long
/// as the schema, nothing is appended.
pub fn push_row_data(buffer: &mut Vec<u8>, types: &[Type], values: &[Value]) -> (r: Result<
    (),
    RowError,
>)
    ensures
        r is Ok <==> row_fits(types@, values@),
        r is Ok ==> final(buffer)@ == old(buffer)@ + row_data(types@, values@),
        r is Err ==> final(buffer)@ == old(buffer)@,
        r is Err ==> is_row_error(types@, values@, r->Err_0),
{
    if types.len() != values.len() {
        return Err(RowError::LengthMismatch { columns: types.len(), values: values.len() });
    }
    let start: usize = buffer.len();
    let mut i: usize = 0;
    while i < values.len()
        invariant
            i <= values@.len(),
            types@.len() == values@.len(),
            start == old(buffer)@.len(),
            compatible_prefix(types@, values@, i as int),
            buffer@ == old(buffer)@ + row_data_prefix(types@, values@, i as int),
        decreases values@.len() - i,
    {
        match types[i].append(buffer, &values[i]) {
            Ok(()) => {
                assert(buffer@ =~= old(buffer)@ + row_data_prefix(types@, values@, i + 1));
            },
            Err(error) => {
                buffer.truncate(start);
                assert(buffer@ =~= old(buffer)@);
                return Err(RowError::Conversion { column: i, error });
            },
        }
        i += 1;
    }
    Ok(())
}

/// Writes a file in the native format: first the header, then the rows.
pub struct VnfWriter<'a> {
    column_types: &'a [Type],
    buffer: Vec<u8>,
}

impl<'a> VnfWriter<'a> {
    /// The column types this writer was made for.
    pub closed spec fn schema(&self) -> Seq<Type> {
        self.column_types@
    }

    /// A writer for files whose columns have the types `column_types`.
    pub fn new(column_types: &'a [Type]) -> (writer: VnfWriter<'a>)
        ensures
            writer.schema() == column_types@,
    {
        VnfWriter { column_types, buffer: Vec::<u8>::new() }
    }

    /// Appends the file header to `out` and returns the number of bytes
    /// appended.
    pub fn write_file_header(&self, out: &mut Vec<u8>) -> (written: usize)
        ensures
            final(out)@ == old(out)@ + header_bytes(self.schema()),
            written == header_bytes(self.schema()).len(),
            written == 20 + 4 * self.schema().len(),
    {
        let before: usize = out.len();
        push_header(out, self.column_types);
        proof {
            lemma_header_len(self.schema());
        }
        out.len() - before
    }

    /// Appends one row record to `out` and returns the number of bytes
    /// appended. A row that does not fit the schema is refused and leaves
    /// `out` as it was; the writer can be used again after that.
    pub fn write_row(&mut self, out: &mut Vec<u8>, values: &[Value]) -> (r: Result<usize, RowError>)
        ensures
            final(self).schema() == old(self).schema(),
            r is Ok <==> row_fits(old(self).schema(), values@),
            r is Ok ==> final(out)@ == old(out)@ + row_record(old(self).schema(), values@),
            r is Ok ==> r->Ok_0 == row_record(old(self).schema(), values@).len(),
            r is Err ==> final(out)@ == old(out)@,
            r is Err ==> is_row_error(old(self).schema(), values@, r->Err_0),
    {
        self.buffer.clear();
        // The length of the row data is not known yet: leave room for it.
        push_u32_le(&mut self.buffer, 0);
        push_null_value_bit_field(&mut self.buffer, values);
        let row_header_len: usize = self.buffer.len();
        match push_row_data(&mut self.buffer, self.column_types, values) {
            Ok(()) => {},
            Err(e) => {
                return Err(e);
            },
        }
        let row_data_len: u32 = usize_low_u32(self.buffer.len() - row_header_len);
        let mut length_field: Vec<u8> = Vec::new();
        push_u32_le(&mut length_field, row_data_len);
        let ghost unsized_record = self.buffer@;
        assert(unsized_record =~= le_bytes_u32(0) + null_bit_field(values@) + row_data(
            old(self).schema(),
            values@,
        ));
        let mut k: usize = 0;
        while k < 4
            invariant
                k <= 4,
                length_field@ == le_bytes_u32(row_data_len),
                unsized_record.len() >= 4,
                self.buffer@.len() == unsized_record.len(),
                forall|j: int| 0 <= j < k ==> self.buffer@[j] == length_field@[j],
                forall|j: int| k <= j < unsized_record.len() ==> self.buffer@[j] == unsized_record[j],
                self.column_types == old(self).column_types,
            decreases 4 - k,
        {
            self.buffer.set(k, length_field[k]);
            k += 1;
        }
        proof {
            let data = row_data(old(self).schema(), values@);
            let tail = null_bit_field(values@) + data;
            assert(row_data_len == low_u32(data.len() as int));
            assert(unsized_record =~= le_bytes_u32(0) + tail);
            assert(row_record(old(self).schema(), values@) =~= le_bytes_u32(row_data_len) + tail);
            assert forall|j: int| 0 <= j < unsized_record.len() implies self.buffer@[j] == (
            le_bytes_u32(row_data_len) + tail)[j] by {
                if j >= 4 {
                    assert(unsized_record[j] == tail[j - 4]);
                }
            }
            assert(self.buffer@ =~= le_bytes_u32(row_data_len) + tail);
        }
        let before: usize = out.len();
        push_bytes(out, self.buffer.as_slice());
        Ok(out.len() - before)
    }
}

} // verus!
