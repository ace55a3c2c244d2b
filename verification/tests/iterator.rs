use rocksdb::iter::{AdvanceAction, DBIterator, IteratorMode, SeekOp, StepOp};
use rocksdb::iter::model_scan;
use rocksdb::Direction;

fn pair(k: &[u8], v: &[u8]) -> (Vec<u8>, Vec<u8>) {
    (k.to_vec(), v.to_vec())
}

fn three_pairs() -> Vec<(Vec<u8>, Vec<u8>)> {
    vec![pair(b"k1", b"v1111"), pair(b"k2", b"v2222"), pair(b"k3", b"v3333")]
}

#[test]
fn iterator_start_yields_ascending() {
    let contents = three_pairs();
    let out = model_scan(&contents, &IteratorMode::Start);
    assert_eq!(out, three_pairs());
}

#[test]
fn iterator_end_yields_descending() {
    let contents = three_pairs();
    let out = model_scan(&contents, &IteratorMode::End);
    assert_eq!(out, vec![pair(b"k3", b"v3333"), pair(b"k2", b"v2222"), pair(b"k1", b"v1111")]);
}

#[test]
fn iterator_from_key_forward() {
    let contents = three_pairs();
    let out = model_scan(&contents, &IteratorMode::From(b"k2".to_vec(), Direction::forward));
    assert_eq!(out, vec![pair(b"k2", b"v2222"), pair(b"k3", b"v3333")]);
}

#[test]
fn iterator_from_absent_key_lands_on_successor() {
    let contents = three_pairs();
    let out = model_scan(&contents, &IteratorMode::From(b"k11".to_vec(), Direction::forward));
    assert_eq!(out, vec![pair(b"k2", b"v2222"), pair(b"k3", b"v3333")]);
    let out = model_scan(&contents, &IteratorMode::From(b"k9".to_vec(), Direction::forward));
    assert!(out.is_empty());
}

#[test]
fn iterator_from_key_reverse() {
    let contents = three_pairs();
    let out = model_scan(&contents, &IteratorMode::From(b"k2".to_vec(), Direction::reverse));
    assert_eq!(out, vec![pair(b"k2", b"v2222"), pair(b"k1", b"v1111")]);
}

#[test]
fn iterator_over_empty_contents() {
    let contents: Vec<(Vec<u8>, Vec<u8>)> = Vec::new();
    assert!(model_scan(&contents, &IteratorMode::Start).is_empty());
    assert!(model_scan(&contents, &IteratorMode::End).is_empty());
}

#[test]
fn exhaustion_is_idempotent() {
    // Once the cursor reports invalid, every further advance keeps
    // reporting the end and issues no native operation.
    let mut it = DBIterator::new();
    let op = it.set_mode(&IteratorMode::Start);
    assert!(matches!(op, SeekOp::First));

    // First advance after the seek reads without stepping.
    assert!(matches!(it.advance(), AdvanceAction::Check));
    it.record_valid(false);

    for _ in 0..5 {
        assert!(matches!(it.advance(), AdvanceAction::Finished));
    }
}

#[test]
fn set_mode_restarts_iteration() {
    let mut it = DBIterator::new();
    it.set_mode(&IteratorMode::Start);
    it.advance();
    it.record_valid(false);
    assert!(matches!(it.advance(), AdvanceAction::Finished));

    // A re-seek leaves exhaustion behind and adopts the new direction.
    let op = it.set_mode(&IteratorMode::End);
    assert!(matches!(op, SeekOp::Last));
    assert_eq!(it.direction, Direction::reverse);
    assert!(matches!(it.advance(), AdvanceAction::Check));
    it.record_valid(true);
    assert!(matches!(it.advance(), AdvanceAction::Step(StepOp::Prev)));
}

#[test]
fn advance_steps_in_the_set_direction() {
    let mut it = DBIterator::new();
    let op = it.set_mode(&IteratorMode::From(b"k2".to_vec(), Direction::forward));
    match op {
        SeekOp::Key(k) => assert_eq!(k, b"k2".to_vec()),
        _ => panic!("expected a key seek"),
    }
    assert!(matches!(it.advance(), AdvanceAction::Check));
    it.record_valid(true);
    assert!(matches!(it.advance(), AdvanceAction::Step(StepOp::Next)));
}

#[test]
fn full_scan_matches_written_contents() {
    // Three keys written, then iterated from the start.
    let mut m = rocksdb::store::StoreModel::new();
    m.put(b"k1", b"v1111");
    m.put(b"k2", b"v2222");
    m.put(b"k3", b"v3333");
    let mut contents = three_pairs();
    contents.sort();
    let out = model_scan(&contents, &IteratorMode::Start);
    for (i, (k, v)) in out.iter().enumerate() {
        assert_eq!(m.get(k), Some(v));
        assert_eq!(&contents[i].0, k);
    }
    assert_eq!(out.len(), 3);
}
