use remarkable::error::ParseError;
use remarkable::reader::Reader;
use remarkable::stream;

#[test]
fn primitives_round_trip() {
    let mut bytes = Vec::new();
    bytes.extend_from_slice(&[0xAB]);
    bytes.extend_from_slice(&0x1234_u16.to_le_bytes());
    bytes.extend_from_slice(&0x1234_5678_u32.to_le_bytes());
    bytes.extend_from_slice(&(-12345_i32).to_le_bytes());
    bytes.extend_from_slice(&1.5_f32.to_le_bytes());
    bytes.extend_from_slice(&(-2.5_f64).to_le_bytes());
    bytes.extend_from_slice(&[0x00, 0x01]);

    let mut r = Reader::new(&bytes);
    assert_eq!(r.read_u8().unwrap(), 0xAB);
    assert_eq!(r.read_u16().unwrap(), 0x1234);
    assert_eq!(r.read_u32().unwrap(), 0x1234_5678);
    assert_eq!(r.read_i32().unwrap(), -12345);
    assert!((f32::from_bits(r.read_u32().unwrap()) - 1.5).abs() < f32::EPSILON);
    assert!((f64::from_bits(r.read_u64().unwrap()) - -2.5).abs() < f64::EPSILON);
    assert!(!r.read_bool().unwrap());
    assert!(r.read_bool().unwrap());
    assert!(r.is_eof());
}

#[test]
fn varuint_single_byte() {
    let mut r = Reader::new(&[0x00]);
    assert_eq!(r.read_varuint().unwrap(), 0);
    let mut r = Reader::new(&[0x7F]);
    assert_eq!(r.read_varuint().unwrap(), 127);
}

#[test]
fn varuint_multi_byte() {
    let mut r = Reader::new(&[0x80, 0x01]);
    assert_eq!(r.read_varuint().unwrap(), 128);
    let mut r = Reader::new(&[0xAC, 0x02]);
    assert_eq!(r.read_varuint().unwrap(), 300);
}

#[test]
fn varuint_overflow() {
    let bytes = [0xFFu8; 11];
    let mut r = Reader::new(&bytes);
    assert!(matches!(r.read_varuint(), Err(ParseError::VarUIntOverflow)));
}

#[test]
fn varuint_tenth_byte_payload_overflow() {
    let bytes = [0xFF, 0xFF, 0xFF, 0xFF, 0xFF, 0xFF, 0xFF, 0xFF, 0xFF, 0x02];
    let mut r = Reader::new(&bytes);
    assert!(matches!(r.read_varuint(), Err(ParseError::VarUIntOverflow)));
}

#[test]
fn varuint_tenth_byte_must_terminate() {
    let bytes = [0x80; 10];
    let mut r = Reader::new(&bytes);
    assert!(matches!(r.read_varuint(), Err(ParseError::VarUIntOverflow)));
}

#[test]
fn truncation_reports_needed_and_got() {
    let mut r = Reader::new(&[0xAB]);
    let err = r.read_u32().unwrap_err();
    assert!(matches!(err, ParseError::Truncated { needed: 4, got: 1 }));
}

#[test]
fn read_bounded_advances_parent_and_caps_child() {
    let bytes = [0x01, 0x02, 0x03, 0x04, 0x05];
    let mut parent = Reader::new(&bytes);
    let mut child = parent.read_bounded(3).unwrap();
    assert_eq!(parent.remaining(), 2);
    assert_eq!(child.read_u8().unwrap(), 0x01);
    assert_eq!(child.read_u8().unwrap(), 0x02);
    assert_eq!(child.read_u8().unwrap(), 0x03);
    assert!(child.is_eof());
    assert!(child.read_u8().is_err());
    assert_eq!(parent.read_u8().unwrap(), 0x04);
}

#[test]
fn varuint_max_value_ten_bytes() {
    let bytes = [0xFF, 0xFF, 0xFF, 0xFF, 0xFF, 0xFF, 0xFF, 0xFF, 0xFF, 0x01];
    let mut r = Reader::new(&bytes);
    assert_eq!(r.read_varuint().unwrap(), u64::MAX);
    assert!(r.is_eof());
}

#[test]
fn varuint_truncated_input_reports_truncation() {
    let mut r = Reader::new(&[0x80]);
    assert!(matches!(r.read_varuint(), Err(ParseError::Truncated { needed: 1, got: 0 })));
}

#[test]
fn read_bytes_takes_exactly_n() {
    let bytes = [1u8, 2, 3];
    let mut r = Reader::new(&bytes);
    assert_eq!(r.read_bytes(2).unwrap(), &[1u8, 2][..]);
    assert_eq!(r.remaining(), 1);
    assert!(matches!(r.read_bytes(2), Err(ParseError::Truncated { needed: 2, got: 1 })));
}

#[test]
fn u16_and_u64_are_little_endian() {
    let bytes = [0x34, 0x12, 1, 0, 0, 0, 0, 0, 0, 0x80];
    let mut r = Reader::new(&bytes);
    assert_eq!(r.read_u16().unwrap(), 0x1234);
    assert_eq!(r.read_u64().unwrap(), 0x8000_0000_0000_0001);
}

#[test]
fn stream_functions_read_like_reader_methods() {
    let bytes = [0x07, 0x2C, 0x02, 0x00, 0x00, 0x00, 0xAA, 0xBB];
    let mut r = Reader::new(&bytes);
    assert_eq!(stream::read_u8(&mut r).unwrap(), 7);
    assert_eq!(stream::read_subblock(&mut r, 2).unwrap(), vec![0xAA, 0xBB]);
    assert!(r.is_eof());
}
