use vnf::value::Value::{Boolean, Integer, Null};

#[test]
fn null() {
    let mut out: Vec<u8> = vec![];
    Null.write(&mut out);
    assert_eq!(0, out.len());
}

#[test]
fn value_integer() {
    let mut out: Vec<u8> = vec![];
    Integer(1).write(&mut out);
    assert_eq!(vec![1u8, 0, 0, 0, 0, 0, 0, 0], out);
}

#[test]
fn value_boolean() {
    let mut out: Vec<u8> = vec![];
    assert_eq!(1, Boolean(true).write(&mut out));
    assert_eq!(vec![1u8], out);
    assert_eq!(1, Boolean(false).write(&mut out));
    assert_eq!(vec![1u8, 0], out);
}

#[test]
fn value_write_counts_bytes() {
    let mut out: Vec<u8> = vec![];
    assert_eq!(0, Null.write(&mut out));
    assert_eq!(8, Integer(-2).write(&mut out));
    assert_eq!(vec![0xFEu8, 255, 255, 255, 255, 255, 255, 255], out);
}
