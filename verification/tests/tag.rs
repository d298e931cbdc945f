use remarkable::error::ParseError;
use remarkable::reader::Reader;
use remarkable::tag::TagType;

#[test]
fn appendix_b_tag_decoding() {
    let cases = [
        (0x1F, 1, TagType::Id),
        (0x21, 2, TagType::Byte1),
        (0x24, 2, TagType::Byte4),
        (0x38, 3, TagType::Byte8),
        (0x5C, 5, TagType::Length4),
        (0x6C, 6, TagType::Length4),
    ];
    for (encoded, index, ty) in cases {
        let bytes = [encoded];
        let mut r = Reader::new(&bytes);
        let tag = r.read_tag().unwrap();
        assert_eq!(tag.index, index);
        assert_eq!(tag.tag_type, ty);
    }
}

#[test]
fn unknown_tag_type_errors() {
    let mut r = Reader::new(&[0x12]);
    assert!(matches!(
        r.read_tag(),
        Err(ParseError::UnknownTagType {
            index: 1,
            tag_type: 0x02
        })
    ));
}

#[test]
fn expect_tag_mismatch() {
    let mut r = Reader::new(&[0x1F]);
    let err = r.expect_tag(2, TagType::Id).unwrap_err();
    assert!(matches!(
        err,
        ParseError::UnexpectedTag {
            expected_index: 2,
            got_index: 1,
            ..
        }
    ));
}

#[test]
fn read_subblock_carves_bounded_reader() {
    let bytes = [0x5C, 0x02, 0x00, 0x00, 0x00, 0xAA, 0xBB, 0xFF];
    let mut r = Reader::new(&bytes);
    let mut sub = r.read_subblock(5).unwrap();
    assert_eq!(sub.read_u8().unwrap(), 0xAA);
    assert_eq!(sub.read_u8().unwrap(), 0xBB);
    assert!(sub.is_eof());
    assert_eq!(r.read_u8().unwrap(), 0xFF);
}

#[test]
fn read_string_subblock_decodes_utf8() {
    let mut bytes = vec![0x2C, 0x07, 0x00, 0x00, 0x00, 0x05, 0x01];
    bytes.extend_from_slice(b"hello");
    let mut r = Reader::new(&bytes);
    assert_eq!(r.read_string_subblock(2).unwrap(), "hello");
}

#[test]
fn read_string_subblock_rejects_invalid_utf8() {
    let bytes = vec![0x2C, 0x04, 0x00, 0x00, 0x00, 0x02, 0x00, 0xC3, 0x28];
    let mut r = Reader::new(&bytes);
    assert!(matches!(r.read_string_subblock(2), Err(ParseError::InvalidUtf8)));
}

#[test]
fn peek_tag_does_not_consume() {
    let bytes = [0x24, 0x05, 0x00, 0x00, 0x00];
    let mut r = Reader::new(&bytes);
    let t = r.peek_tag().unwrap();
    assert_eq!(t.index, 2);
    assert_eq!(r.remaining(), 5);
    assert_eq!(r.read_int(2).unwrap(), 5);
    assert!(r.is_eof());
}

#[test]
fn typed_fields_read_after_their_tags() {
    let bytes = [0x1F, 0x03, 0x04, 0x21, 0x01, 0x31, 0x09];
    let mut r = Reader::new(&bytes);
    let id = r.read_id(1).unwrap();
    assert_eq!((id.author, id.seq), (3, 4));
    assert!(r.read_bool_field(2).unwrap());
    assert_eq!(r.read_byte(3).unwrap(), 9);
}

#[test]
fn subblock_longer_than_input_is_truncated() {
    let bytes = [0x5C, 0x09, 0x00, 0x00, 0x00, 0xAA];
    let mut r = Reader::new(&bytes);
    assert!(matches!(r.read_subblock(5), Err(ParseError::Truncated { needed: 9, got: 1 })));
}
