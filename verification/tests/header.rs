use vnf::column::Type;
use vnf::header::{header_widths, to_header, FILLER, SIGNATURE, VERSION};

#[test]
fn with_no_columns() {
    assert_eq!(
        vec![
            78, 65, 84, 73, 86, 69, 10, 255, 13, 10, 0, // SIGNATURE
            5, 0, 0, 0, // header_area_length
            1, 0, // VERSION
            0, // FILLER
            0, 0 // number_of_columns
        ],
        to_header(&[])
    );
}

#[test]
fn header_new_file_header_with_column() {
    assert_eq!(
        vec![
            78, 65, 84, 73, 86, 69, 10, 255, 13, 10, 0, // SIGNATURE
            9, 0, 0, 0, // header_area_length
            1, 0, // VERSION
            0, // FILLER
            1, 0, // number_of_columns
            255, 255, 255, 255, // column_widths
        ],
        to_header(&[Type::VarChar])
    );
}

#[test]
fn header_new_file_header_with_two_columns() {
    assert_eq!(
        vec![
            78, 65, 84, 73, 86, 69, 10, 255, 13, 10, 0, // SIGNATURE
            13, 0, 0, 0, // header_area_length
            1, 0, // VERSION
            0, // FILLER
            2, 0, // number_of_columns
            255, 255, 255, 255, // column_widths
            4, 0, 0, 0, // column_widths
        ],
        to_header(&[Type::VarChar, Type::Char { len: 4 }])
    );
}

#[test]
fn header_new_file_header_with_255_columns() {
    let mut expected: Vec<u8> = Vec::new();
    let header_area_length: [u8; 4] = [1, 4, 0, 0];
    let number_of_columns: [u8; 2] = [255, 0];
    let column_widths: Vec<u8> = vec![u8::MAX; 1020];
    expected.extend(&SIGNATURE);
    expected.extend(&header_area_length);
    expected.extend(&VERSION);
    expected.extend(&FILLER);
    expected.extend(&number_of_columns);
    expected.extend(column_widths);
    assert_eq!(expected, to_header(&[Type::VarBinary; 255]));
}

#[test]
fn header_new_file_header_with_256_columns() {
    let mut expected: Vec<u8> = Vec::new();
    let header_area_length: [u8; 4] = [5, 4, 0, 0];
    let number_of_columns: [u8; 2] = [0, 1];
    let column_widths: Vec<u8> = vec![u8::MAX; 1024];
    expected.extend(&SIGNATURE);
    expected.extend(&header_area_length);
    expected.extend(&VERSION);
    expected.extend(&FILLER);
    expected.extend(&number_of_columns);
    expected.extend(column_widths);
    assert_eq!(expected, to_header(&[Type::VarBinary; 256]));
}

#[test]
fn header_new_file_header_with_257_columns() {
    let mut expected: Vec<u8> = Vec::new();
    let header_area_length: [u8; 4] = [9, 4, 0, 0];
    let number_of_columns: [u8; 2] = [1, 1];
    let column_widths: Vec<u8> = vec![u8::MAX; 1028];
    expected.extend(&SIGNATURE);
    expected.extend(&header_area_length);
    expected.extend(&VERSION);
    expected.extend(&FILLER);
    expected.extend(&number_of_columns);
    expected.extend(column_widths);
    assert_eq!(expected, to_header(&[Type::VarBinary; 257]));
}

#[test]
fn test_widths() {
    let columns = [
        Type::Boolean,
        Type::Integer,
        Type::Float,
        Type::Char { len: 6 },
        Type::VarChar,
    ];
    columns.iter().for_each(|col| {
        let bytes: [u8; 4] = u32::from(col).to_le_bytes();
        bytes.iter().for_each(|byte| println!("{}", byte));
    });
    assert_eq!(
        vec![1u8, 0, 0, 0, 8, 0, 0, 0, 8, 0, 0, 0, 6, 0, 0, 0, 255, 255, 255, 255],
        header_widths(&columns)
    );
}

#[test]
fn header_is_twenty_bytes_without_columns() {
    let header = to_header(&[]);
    assert_eq!(20, header.len());
    assert_eq!(&[0x4Eu8, 0x41, 0x54, 0x49, 0x56, 0x45, 0x0A, 0xFF, 0x0D, 0x0A, 0x00], &header[0..11]);
}

#[test]
fn column_count_keeps_its_low_sixteen_bits() {
    let columns = vec![Type::Boolean; 65536 + 3];
    let header = to_header(&columns);
    assert_eq!(20 + 4 * 65539, header.len());
    // 4 * 65539 + 5 = 262161 = 0x00040011
    assert_eq!(&[0x11u8, 0x00, 0x04, 0x00], &header[11..15]);
    assert_eq!(&[3u8, 0], &header[18..20]);
    assert_eq!(&[1u8, 0, 0, 0], &header[20..24]);
}

#[test]
fn header_lists_widths_in_column_order() {
    let header = to_header(&[
        Type::Integer,
        Type::Boolean,
        Type::Char { len: 4 },
        Type::Numeric { precision: 38, _scale: 0 },
        Type::Binary { len: 0x0102_0304 },
    ]);
    assert_eq!(&[25u8, 0, 0, 0], &header[11..15]);
    assert_eq!(&[5u8, 0], &header[18..20]);
    assert_eq!(
        &[8u8, 0, 0, 0, 1, 0, 0, 0, 4, 0, 0, 0, 24, 0, 0, 0, 4, 3, 2, 1],
        &header[20..]
    );
}
