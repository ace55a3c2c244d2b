use rocksdb::db::{check_c_name, complete_get, open_cf_names, DB};
use rocksdb::Error;

fn opened_with(names: &[&str]) -> DB {
    let names: Vec<String> = names.iter().map(|n| n.to_string()).collect();
    let missing = vec![false; names.len()];
    DB::complete_open(names, &missing, false, None).unwrap()
}

#[test]
fn open_registers_requested_families() {
    let db = opened_with(&["default", "cars", "planes"]);
    assert_eq!(db.cf_handle("default"), Some(0));
    assert_eq!(db.cf_handle("cars"), Some(1));
    assert_eq!(db.cf_handle("planes"), Some(2));
    assert_eq!(db.cf_handle("boats"), None);
}

#[test]
fn open_cf_names_completes_default() {
    let requested = vec!["cars".to_string()];
    let used = open_cf_names(&requested);
    assert_eq!(used, vec!["cars".to_string(), "default".to_string()]);

    let requested = vec!["cars".to_string(), "default".to_string()];
    let used = open_cf_names(&requested);
    assert_eq!(used, requested);

    let requested: Vec<String> = Vec::new();
    assert!(open_cf_names(&requested).is_empty());
}

#[test]
fn open_with_error_message_is_storage_error() {
    let names = vec!["default".to_string()];
    let missing = vec![false];
    let r = DB::complete_open(names, &missing, false, Some("IO error: lock held".to_string()));
    match r {
        Err(Error::StorageError(m)) => assert_eq!(m, "IO error: lock held"),
        _ => panic!("expected the engine's message verbatim"),
    }
}

#[test]
fn open_with_null_handle_is_invariant_violation() {
    let names = vec!["default".to_string(), "cars".to_string()];
    let missing = vec![false, true];
    let r = DB::complete_open(names, &missing, false, None);
    match r {
        Err(Error::InvariantViolation(m)) => {
            assert_eq!(m, "Received null column family handle from DB.")
        },
        _ => panic!("expected an invariant violation"),
    }

    let r = DB::complete_open(Vec::new(), &Vec::new(), true, None);
    match r {
        Err(Error::InvariantViolation(m)) => {
            assert_eq!(m, "Could not initialize database.")
        },
        _ => panic!("expected an invariant violation"),
    }
}

#[test]
fn create_cf_issues_fresh_handles() {
    let mut db = opened_with(&["default"]);
    let h1 = db.complete_create_cf("cars", None, false).unwrap();
    let h2 = db.complete_create_cf("planes", None, false).unwrap();
    assert_ne!(h1, h2);
    assert_ne!(h1, 0); // the default family's handle stays distinct
    assert_eq!(db.cf_handle("cars"), Some(h1));
    assert_eq!(db.cf_handle("planes"), Some(h2));
}

#[test]
fn create_cf_failure_leaves_registry_unchanged() {
    let mut db = opened_with(&["default"]);
    let r = db.complete_create_cf("cars", Some("Corruption: bad".to_string()), false);
    match r {
        Err(Error::StorageError(m)) => assert_eq!(m, "Corruption: bad"),
        _ => panic!("expected the engine's message verbatim"),
    }
    assert_eq!(db.cf_handle("cars"), None);
}

#[test]
fn drop_unregistered_cf_is_invalid_argument() {
    let mut db = opened_with(&["default", "cars"]);
    let r = db.request_drop_cf("boats");
    match r {
        Err(Error::InvalidArgument(m)) => assert_eq!(m, "Invalid column family: boats"),
        _ => panic!("expected an invalid-argument failure"),
    }
    // The registry is left exactly as it was.
    assert_eq!(db.cf_handle("default"), Some(0));
    assert_eq!(db.cf_handle("cars"), Some(1));
    assert_eq!(db.cf_handle("boats"), None);

    // A registered family is dropped together with the native call.
    let h = db.request_drop_cf("cars").unwrap();
    assert_eq!(h, 1);
    db.complete_drop_cf("cars", None).unwrap();
    assert_eq!(db.cf_handle("cars"), None);
    assert_eq!(db.cf_handle("default"), Some(0));
}

#[test]
fn drop_cf_failure_keeps_registration() {
    let mut db = opened_with(&["default", "cars"]);
    let r = db.complete_drop_cf("cars", Some("IO error: busy".to_string()));
    assert!(r.is_err());
    assert_eq!(db.cf_handle("cars"), Some(1));
}

#[test]
fn interior_nul_is_rejected_before_the_boundary() {
    assert!(check_c_name("cars").is_ok());
    assert!(check_c_name("").is_ok());
    match check_c_name("ca\0rs") {
        Err(Error::InvalidArgument(_)) => {},
        _ => panic!("expected an invalid-argument failure"),
    }
}

#[test]
fn get_completion_follows_the_error_convention() {
    // miss: no message, no value
    assert!(complete_get(None, None).unwrap().is_none());

    // hit: the buffer holds exactly the engine's bytes
    let hit = complete_get(None, Some(b"v1111".to_vec())).unwrap().unwrap();
    assert_eq!(hit.as_bytes(), b"v1111");

    // failure: the message is carried through verbatim
    match complete_get(Some("Corruption: lost".to_string()), None) {
        Err(Error::StorageError(m)) => assert_eq!(m, "Corruption: lost"),
        _ => panic!("expected a storage error"),
    }

    // a value alongside a failure is a driver inconsistency
    match complete_get(Some("boom".to_string()), Some(b"x".to_vec())) {
        Err(Error::InvariantViolation(m)) => assert_eq!(m, "boom"),
        _ => panic!("expected an invariant violation"),
    }
}
