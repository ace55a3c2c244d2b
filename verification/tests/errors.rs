use rocksdb::{native_outcome, Error};

#[test]
fn absent_message_is_success() {
    assert!(native_outcome(None).is_ok());
}

#[test]
fn errors_carry_the_engine_message_verbatim() {
    // The message an engine reports when a destroy races a live lock.
    let msg = "IO error: lock _rust_rocksdb_error/LOCK: No locks available";
    match native_outcome(Some(msg.to_string())) {
        Err(Error::StorageError(m)) => assert_eq!(m, msg),
        _ => panic!("a present message must fail"),
    }
}

#[test]
fn message_accessor_reaches_every_class() {
    assert_eq!(Error::IoError("a".to_string()).message(), "a");
    assert_eq!(Error::StorageError("b".to_string()).message(), "b");
    assert_eq!(Error::InvalidArgument("c".to_string()).message(), "c");
    assert_eq!(Error::InvariantViolation("d".to_string()).message(), "d");
}
