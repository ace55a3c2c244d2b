use rocksdb::{BackupEngine, Error, RestoreOption};
use rocksdb::backup::restore_policy;
use rocksdb::store::StoreModel;

#[test]
fn restore_policy_encodes_the_wal_choice() {
    assert_eq!(restore_policy(true).keep_log_files, 1);
    assert_eq!(restore_policy(false).keep_log_files, 0);

    let mut opt = RestoreOption::new();
    assert_eq!(opt.keep_log_files, 0);
    opt.set_keep_log_files(1);
    assert_eq!(opt.keep_log_files, 1);
}

#[test]
fn backup_engine_open_follows_the_error_convention() {
    assert!(BackupEngine::complete_open("backups", None).is_ok());
    match BackupEngine::complete_open("backups", Some("IO error: no space".to_string())) {
        Err(Error::StorageError(m)) => assert_eq!(m, "IO error: no space"),
        _ => panic!("expected the engine's message verbatim"),
    }
}

#[test]
fn backup_calls_follow_the_error_convention() {
    let be = BackupEngine::complete_open("backups", None).unwrap();
    assert!(be.complete_create_backup(None).is_ok());
    assert!(be.complete_create_backup(Some("IO error: short write".to_string())).is_err());
    assert!(be.complete_restore_latest(None).is_ok());
    match be.complete_restore_latest(Some("NotFound: no backups".to_string())) {
        Err(Error::StorageError(m)) => assert_eq!(m, "NotFound: no backups"),
        _ => panic!("expected the engine's message verbatim"),
    }
}

#[test]
fn backup_restore_roundtrip_over_the_model() {
    // Populate, capture the backup-time contents, mutate further, restore:
    // the restored contents equal the backup-time contents.
    let mut live = StoreModel::new();
    live.put(b"k1", b"v1111");
    live.put(b"k2", b"v2222");

    let backed_up = live.snapshot();

    live.put(b"k2", b"changed");
    live.delete(b"k1");
    live.put(b"k3", b"late");

    let restored = backed_up.snapshot();
    assert_eq!(restored.get(b"k1"), Some(&b"v1111".to_vec()));
    assert_eq!(restored.get(b"k2"), Some(&b"v2222".to_vec()));
    assert!(restored.get(b"k3").is_none());
}
