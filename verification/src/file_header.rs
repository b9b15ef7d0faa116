//! The file header as a record of its fields.

use crate::bytes::{le_bytes_u16, le_bytes_u32, low_u16, push_bytes, u16_le_array, u32_le_array,
    usize_low_u16};
use crate::column::Type;
use crate::header::{column_widths, filler_bytes, header_area_length, header_area_length_of,
    header_bytes, header_widths, signature_bytes, version_bytes};
pub use crate::header::{SIGNATURE, VERSION};
use vstd::prelude::*;
use vstd::std_specs::convert::FromSpecImpl;

verus! {

/// The zero byte between version and column count.
pub const FILLER: u8 = 0;

/// The fields of a file header, each already in the bytes that the file
/// holds.
pub struct FileHeader {
    signature: [u8; 11],
    header_area_length: [u8; 4],
    version: [u8; 2],
    filler: u8,
    number_of_columns: [u8; 2],
    column_widths: Vec<u8>,
}

/// What a [`FileHeader`] holds.
pub ghost struct FileHeaderView {
    pub signature: Seq<u8>,
    pub header_area_length: Seq<u8>,
    pub version: Seq<u8>,
    pub filler: u8,
    pub number_of_columns: Seq<u8>,
    pub column_widths: Seq<u8>,
}

impl FileHeaderView {
    /// The fields a header has for columns `types`.
    pub open spec fn of(types: Seq<Type>) -> FileHeaderView {
        FileHeaderView {
            signature: signature_bytes(),
            header_area_length: le_bytes_u32(header_area_length(types.len() as int)),
            version: version_bytes(),
            filler: 0,
            number_of_columns: le_bytes_u16(low_u16(types.len() as int)),
            column_widths: column_widths(types, types.len() as int),
        }
    }

    /// The fields one after the other, as they stand in a file.
    pub open spec fn bytes(self) -> Seq<u8> {
        self.signature + self.header_area_length + self.version + seq![self.filler]
            + self.number_of_columns + self.column_widths
    }
}

impl View for FileHeader {
    type V = FileHeaderView;

    closed spec fn view(&self) -> FileHeaderView {
        FileHeaderView {
            signature: self.signature@,
            header_area_length: self.header_area_length@,
            version: self.version@,
            filler: self.filler,
            number_of_columns: self.number_of_columns@,
            column_widths: self.column_widths@,
        }
    }
}

/// The fields of the header for `types`, laid end to end, are the header
/// of a file with those columns.
pub proof fn lemma_file_header_bytes(types: Seq<Type>)
    ensures
        FileHeaderView::of(types).bytes() == header_bytes(types),
{
    assert(filler_bytes() =~= seq![0u8]);
    assert(FileHeaderView::of(types).bytes() =~= header_bytes(types));
}

impl FileHeader {
    /// The header of a file with the given columns.
    pub fn new(columns: Vec<Type>) -> (header: FileHeader)
        ensures
            header@ == FileHeaderView::of(columns@),
    {
        assert(SIGNATURE@ =~= signature_bytes());
        assert(VERSION@ =~= version_bytes());
        FileHeader {
            signature: SIGNATURE,
            header_area_length: u32_le_array(header_area_length_of(columns.len())),
            version: VERSION,
            filler: FILLER,
            number_of_columns: u16_le_array(usize_low_u16(columns.len())),
            column_widths: header_widths(columns.as_slice()),
        }
    }
}

impl From<FileHeader> for Vec<u8> {
    /// The header as it stands in a file.
    fn from(header: FileHeader) -> (bytes: Vec<u8>)
        ensures
            bytes@ == header@.bytes(),
    {
        let mut vec: Vec<u8> = Vec::new();
        push_bytes(&mut vec, &header.signature);
        push_bytes(&mut vec, &header.header_area_length);
        push_bytes(&mut vec, &header.version);
        vec.push(header.filler);
        push_bytes(&mut vec, &header.number_of_columns);
        push_bytes(&mut vec, header.column_widths.as_slice());
        assert(vec@ =~= header@.bytes());
        vec
    }
}

/// Two vectors with the same bytes need not be the same vector, so the
/// conversion is specified by the bytes of its result, on `from` itself.
impl FromSpecImpl<FileHeader> for Vec<u8> {
    open spec fn obeys_from_spec() -> bool {
        false
    }

    open spec fn from_spec(header: FileHeader) -> Vec<u8> {
        choose|bytes: Vec<u8>| bytes@ == header@.bytes()
    }
}

} // verus!
