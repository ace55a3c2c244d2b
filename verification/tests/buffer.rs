use rocksdb::DBVector;
use rocksdb::WriteBatch;

#[test]
fn buffer_exposes_its_bytes() {
    let b = DBVector::from_vec(b"v1111".to_vec());
    assert_eq!(b.len(), 5);
    assert_eq!(b.as_bytes(), b"v1111");
}

#[test]
fn to_utf8_decodes_valid_text() {
    let b = DBVector::from_vec(b"v1111".to_vec());
    assert_eq!(b.to_utf8(), Some("v1111"));

    let empty = DBVector::from_vec(Vec::new());
    assert_eq!(empty.to_utf8(), Some(""));
}

#[test]
fn to_utf8_rejects_invalid_bytes() {
    let b = DBVector::from_vec(vec![0xff, 0xfe, 0x41]);
    assert!(b.to_utf8().is_none());
}

#[test]
fn batch_buffers_in_order() {
    let mut batch = WriteBatch::new();
    assert_eq!(batch.len(), 0);
    batch.put(b"k1", b"v1").unwrap();
    batch.merge(b"k1", b"v2").unwrap();
    batch.delete(b"k1").unwrap();
    batch.merge_cf(3, b"k1", b"v3").unwrap();
    assert_eq!(batch.len(), 4);
    assert_eq!(batch.ops().len(), 4);
}
