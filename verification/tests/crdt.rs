use remarkable::crdt::CrdtId;
use remarkable::reader::Reader;

fn subblock_with(idx: u32, content: &[u8]) -> Vec<u8> {
    let tag = (u64::from(idx) << 4) | 0x0C;
    assert!(tag < 0x80, "test only supports single-byte tag varuints");
    let tag_byte = tag as u8;
    let len = u32::try_from(content.len()).unwrap();
    let mut out = vec![tag_byte];
    out.extend_from_slice(&len.to_le_bytes());
    out.extend_from_slice(content);
    out
}

#[test]
fn crdt_id_basic() {
    let mut r = Reader::new(&[0x01, 0x01]);
    assert_eq!(r.read_crdt_id().unwrap(), CrdtId { author: 1, seq: 1 });
}

#[test]
fn crdt_id_sentinel() {
    let mut r = Reader::new(&[0x00, 0x00]);
    assert_eq!(r.read_crdt_id().unwrap(), CrdtId::sentinel());
}

#[test]
fn crdt_id_multibyte_seq() {
    let mut r = Reader::new(&[0x02, 0xAC, 0x02]);
    assert_eq!(
        r.read_crdt_id().unwrap(),
        CrdtId {
            author: 2,
            seq: 300
        }
    );
}

#[test]
fn lww_bool_round_trip() {
    let mut content = vec![0x1F, 0x05, 0x07];
    content.extend_from_slice(&[0x21, 0x01]);
    let bytes = subblock_with(3, &content);
    let mut r = Reader::new(&bytes);
    let lww = r.read_lww_bool(3).unwrap();
    assert_eq!(lww.timestamp, CrdtId { author: 5, seq: 7 });
    assert!(lww.value);
}

#[test]
fn lww_string_round_trip() {
    let mut inner = Vec::new();
    inner.extend_from_slice(&[0x02, 0x01]);
    inner.extend_from_slice(b"hi");
    let mut content = vec![0x1F, 0x00, 0x00];
    content.push(0x2C);
    let inner_len = u32::try_from(inner.len()).unwrap();
    content.extend_from_slice(&inner_len.to_le_bytes());
    content.extend_from_slice(&inner);

    let bytes = subblock_with(2, &content);
    let mut r = Reader::new(&bytes);
    let lww = r.read_lww_string(2).unwrap();
    assert_eq!(lww.timestamp, CrdtId::sentinel());
    assert_eq!(lww.value, "hi");
}

#[test]
fn lww_byte_and_id_read_their_values() {
    let mut content = vec![0x1F, 0x01, 0x02];
    content.extend_from_slice(&[0x21, 0x2A]);
    let bytes = subblock_with(4, &content);
    let mut r = Reader::new(&bytes);
    let lww = r.read_lww_byte(4).unwrap();
    assert_eq!(lww.timestamp, CrdtId { author: 1, seq: 2 });
    assert_eq!(lww.value, 0x2A);

    let mut content = vec![0x1F, 0x00, 0x03];
    content.extend_from_slice(&[0x2F, 0x04, 0x05]);
    let bytes = subblock_with(1, &content);
    let mut r = Reader::new(&bytes);
    let lww = r.read_lww_id(1).unwrap();
    assert_eq!(lww.value, CrdtId { author: 4, seq: 5 });
}

#[test]
fn root_id_is_author_zero_seq_one() {
    assert_eq!(CrdtId::root(), CrdtId { author: 0, seq: 1 });
}
