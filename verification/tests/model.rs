use rocksdb::store::StoreModel;
use rocksdb::WriteBatch;

#[test]
fn put_get_roundtrip() {
    let mut m = StoreModel::new();
    assert!(m.get(b"k1").is_none());
    m.put(b"k1", b"v1111");
    assert_eq!(m.get(b"k1"), Some(&b"v1111".to_vec()));
    m.put(b"k1", b"v2222");
    assert_eq!(m.get(b"k1"), Some(&b"v2222".to_vec()));
    m.delete(b"k1");
    assert!(m.get(b"k1").is_none());
}

#[test]
fn delete_absent_key_is_noop() {
    let mut m = StoreModel::new();
    m.put(b"a", b"1");
    m.delete(b"b");
    assert_eq!(m.get(b"a"), Some(&b"1".to_vec()));
    assert!(m.get(b"b").is_none());
}

#[test]
fn batch_applies_all_operations() {
    let mut m = StoreModel::new();
    m.put(b"k0", b"old");

    let mut batch = WriteBatch::new();
    batch.put(b"k1", b"v1111").unwrap();
    batch.put(b"k2", b"v2222").unwrap();
    batch.delete(b"k0").unwrap();
    batch.put(b"k1", b"v9999").unwrap();
    assert_eq!(batch.len(), 4);

    // Nothing is observable before the commit.
    assert!(m.get(b"k1").is_none());

    m.apply_batch(&batch, None);
    assert_eq!(m.get(b"k1"), Some(&b"v9999".to_vec()));
    assert_eq!(m.get(b"k2"), Some(&b"v2222".to_vec()));
    assert!(m.get(b"k0").is_none());
}

#[test]
fn failed_batch_commit_changes_nothing() {
    // A commit whose native call reports an error never reaches the
    // keyspace: the outcome is the typed failure and the state is untouched.
    let mut m = StoreModel::new();
    m.put(b"k1", b"v1111");

    let mut batch = WriteBatch::new();
    batch.put(b"k1", b"v9999").unwrap();
    batch.delete(b"k1").unwrap();

    let r = rocksdb::db::complete_write(Some("Corruption: simulated".to_string()));
    assert!(r.is_err());
    assert!(rocksdb::db::complete_write(None).is_ok());
    // The batch is discarded, not applied.
    assert_eq!(m.get(b"k1"), Some(&b"v1111".to_vec()));
}

#[test]
fn batch_targets_only_its_column_family() {
    let mut default_cf = StoreModel::new();
    let mut other_cf = StoreModel::new();

    let mut batch = WriteBatch::new();
    batch.put(b"k1", b"plain").unwrap();
    batch.put_cf(7, b"k1", b"seven").unwrap();
    batch.delete_cf(9, b"k1").unwrap();

    default_cf.apply_batch(&batch, None);
    other_cf.apply_batch(&batch, Some(7));

    assert_eq!(default_cf.get(b"k1"), Some(&b"plain".to_vec()));
    assert_eq!(other_cf.get(b"k1"), Some(&b"seven".to_vec()));
}

#[test]
fn snapshot_isolation() {
    let mut m = StoreModel::new();
    m.put(b"k1", b"before");

    let before = m.snapshot();
    m.put(b"k1", b"after");
    m.put(b"k2", b"new");
    let after = m.snapshot();

    // The snapshot taken before the puts does not observe them.
    assert_eq!(before.get(b"k1"), Some(&b"before".to_vec()));
    assert!(before.get(b"k2").is_none());

    // The live keyspace and a snapshot taken after them do.
    assert_eq!(m.get(b"k1"), Some(&b"after".to_vec()));
    assert_eq!(after.get(b"k1"), Some(&b"after".to_vec()));
    assert_eq!(after.get(b"k2"), Some(&b"new".to_vec()));
}
