//! The keyspace model: what one column family's contents look like to a
//! reader, and what point operations, batch commits and snapshots do to them.
//!
//! The native engine owns the on-disk state; this model is the mathematical
//! account the client layer's contracts are stated against, together with an
//! executable form of it that the test suite can drive in isolation from the
//! engine.  Merge operations are left out of the model: their effect is the
//! engine's configured merge operator, which this layer treats as opaque.

use vstd::prelude::*;

use crate::assoc::AssocList;
use crate::batch::{BatchOp, SpecOp, WriteBatch};

verus! {

/// What a read of `k` observes in keyspace `m`.
pub open spec fn spec_lookup(m: Map<Seq<u8>, Seq<u8>>, k: Seq<u8>) -> Option<Seq<u8>> {
    if m.contains_key(k) {
        Some(m[k])
    } else {
        None
    }
}

/// The effect of one buffered operation on the keyspace of column family
/// `cf` (`None` is the default keyspace).  An operation aimed elsewhere
/// leaves it unchanged; a merge is not modelled and also leaves it unchanged.
pub open spec fn op_effect(
    m: Map<Seq<u8>, Seq<u8>>,
    op: SpecOp,
    cf: Option<u64>,
) -> Map<Seq<u8>, Seq<u8>> {
    match op {
        SpecOp::Put { cf: c, key, value } => if c == cf {
            m.insert(key, value)
        } else {
            m
        },
        SpecOp::Merge { .. } => m,
        SpecOp::Delete { cf: c, key } => if c == cf {
            m.remove(key)
        } else {
            m
        },
    }
}

/// The effect of committing a whole batch, oldest operation first.
pub open spec fn batch_effect(
    m: Map<Seq<u8>, Seq<u8>>,
    ops: Seq<SpecOp>,
    cf: Option<u64>,
) -> Map<Seq<u8>, Seq<u8>>
    decreases ops.len(),
{
    if ops.len() == 0 {
        m
    } else {
        op_effect(batch_effect(m, ops.drop_last(), cf), ops.last(), cf)
    }
}

/// Whether the operation addresses key `k` of column family `cf`.
pub open spec fn touches(op: SpecOp, k: Seq<u8>, cf: Option<u64>) -> bool {
    match op {
        SpecOp::Put { cf: c, key, .. } => c == cf && key == k,
        SpecOp::Merge { cf: c, key, .. } => c == cf && key == k,
        SpecOp::Delete { cf: c, key } => c == cf && key == k,
    }
}

/// An executable model of one column family's contents.
pub struct StoreModel {
    kv: AssocList<Vec<u8>>,
}

impl View for StoreModel {
    type V = Map<Seq<u8>, Seq<u8>>;

    closed spec fn view(&self) -> Map<Seq<u8>, Seq<u8>> {
        self.kv@
    }
}

impl StoreModel {
    /// The internal bookkeeping invariant.
    pub closed spec fn wf(&self) -> bool {
        self.kv.wf()
    }

    /// An empty keyspace.
    pub fn new() -> (r: StoreModel)
        ensures
            r.wf(),
            r@ == Map::<Seq<u8>, Seq<u8>>::empty(),
    {
        StoreModel { kv: AssocList::new() }
    }

    /// What a read of `key` observes.
    pub fn get(&self, key: &[u8]) -> (r: Option<&Vec<u8>>)
        requires
            self.wf(),
        ensures
            (match r {
                Some(v) => Some(v@),
                None => None,
            }) == spec_lookup(self@, key@),
    {
        self.kv.get(key)
    }

    /// Binds `key` to `value`.
    pub fn put(&mut self, key: &[u8], value: &[u8])
        requires
            old(self).wf(),
        ensures
            final(self).wf(),
            final(self)@ == old(self)@.insert(key@, value@),
    {
        self.kv.insert(vstd::slice::slice_to_vec(key), vstd::slice::slice_to_vec(value));
    }

    /// Unbinds `key`; an absent key leaves the keyspace unchanged.
    pub fn delete(&mut self, key: &[u8])
        requires
            old(self).wf(),
        ensures
            final(self).wf(),
            final(self)@ == old(self)@.remove(key@),
    {
        self.kv.remove(key);
    }

    /// A point-in-time copy: later writes against `self` are not observed
    /// through the copy.
    pub fn snapshot(&self) -> (r: StoreModel)
        requires
            self.wf(),
        ensures
            r.wf(),
            r@ == self@,
    {
        StoreModel { kv: self.kv.duplicate() }
    }

    /// Applies one buffered operation aimed at column family `cf`.
    pub fn apply_op(&mut self, op: &BatchOp, cf: Option<u64>)
        requires
            old(self).wf(),
            !(op@ is Merge),
        ensures
            final(self).wf(),
            final(self)@ == op_effect(old(self)@, op@, cf),
    {
        match op {
            BatchOp::Put { cf: c, key, value } => {
                if same_target(c, &cf) {
                    self.kv.insert(
                        vstd::slice::slice_to_vec(key.as_slice()),
                        vstd::slice::slice_to_vec(value.as_slice()),
                    );
                }
            },
            BatchOp::Merge { .. } => {
            },
            BatchOp::Delete { cf: c, key } => {
                if same_target(c, &cf) {
                    self.kv.remove(key.as_slice());
                }
            },
        }
    }

    /// Commits a whole batch against this keyspace: every buffered operation
    /// takes effect, oldest first.  Merges are outside the model and are
    /// refused here.
    pub fn apply_batch(&mut self, batch: &WriteBatch, cf: Option<u64>)
        requires
            old(self).wf(),
            forall|i: int| 0 <= i < batch@.len() ==> !(#[trigger] batch@[i] is Merge),
        ensures
            final(self).wf(),
            final(self)@ == batch_effect(old(self)@, batch@, cf),
    {
        let ops = batch.ops();
        let n = ops.len();
        let mut i: usize = 0;
        proof {
            assert(batch@.take(0) =~= Seq::<SpecOp>::empty());
        }
        while i < n
            invariant
                self.wf(),
                n == ops@.len(),
                n == batch@.len(),
                0 <= i <= n,
                forall|j: int| 0 <= j < batch@.len() ==> !(#[trigger] batch@[j] is Merge),
                forall|j: int| 0 <= j < n ==> #[trigger] ops@[j]@ == batch@[j],
                self@ == batch_effect(old(self)@, batch@.take(i as int), cf),
            decreases n - i,
        {
            proof {
                assert(batch@[i as int] == ops@[i as int]@);
            }
            self.apply_op(&ops[i], cf);
            proof {
                assert(batch@.take(i + 1).drop_last() =~= batch@.take(i as int));
                assert(batch@.take(i + 1).last() == batch@[i as int]);
            }
            i += 1;
        }
        proof {
            assert(batch@.take(n as int) =~= batch@);
        }
    }
}

fn same_target(a: &Option<u64>, b: &Option<u64>) -> (r: bool)
    ensures
        r == (*a == *b),
{
    match (a, b) {
        (None, None) => true,
        (Some(x), Some(y)) => *x == *y,
        _ => false,
    }
}

/// A put of `(k, v)` is observed by a subsequent read of `k` as exactly `v`,
/// and a delete of `k` is observed as absence, whatever the keyspace held.
pub proof fn lemma_put_then_get(m: Map<Seq<u8>, Seq<u8>>, k: Seq<u8>, v: Seq<u8>)
    ensures
        spec_lookup(m.insert(k, v), k) == Some(v),
        spec_lookup(m.remove(k), k) == None::<Seq<u8>>,
{
}

/// A key that no operation of a committed batch addresses reads the same
/// before and after the commit.
pub proof fn lemma_batch_preserves_untouched(
    m: Map<Seq<u8>, Seq<u8>>,
    ops: Seq<SpecOp>,
    cf: Option<u64>,
    k: Seq<u8>,
)
    requires
        forall|i: int| 0 <= i < ops.len() ==> !touches(#[trigger] ops[i], k, cf),
    ensures
        spec_lookup(batch_effect(m, ops, cf), k) == spec_lookup(m, k),
    decreases ops.len(),
{
    if ops.len() > 0 {
        assert(forall|i: int|
            0 <= i < ops.drop_last().len() ==> !touches(#[trigger] ops.drop_last()[i], k, cf));
        lemma_batch_preserves_untouched(m, ops.drop_last(), cf, k);
        assert(!touches(ops.last(), k, cf));
        assert(ops[ops.len() - 1] == ops.last());
    }
}

/// After a committed batch, a read of `k` observes the latest put or delete
/// of `k` the batch buffered: a put is read back as its value, a delete as
/// absence.
pub proof fn lemma_batch_last_wins(
    m: Map<Seq<u8>, Seq<u8>>,
    ops: Seq<SpecOp>,
    cf: Option<u64>,
    k: Seq<u8>,
    i: int,
)
    requires
        0 <= i < ops.len(),
        touches(ops[i], k, cf),
        !(ops[i] is Merge),
        forall|j: int| i < j < ops.len() ==> !touches(#[trigger] ops[j], k, cf),
    ensures
        spec_lookup(batch_effect(m, ops, cf), k) == (match ops[i] {
            SpecOp::Put { value, .. } => Some(value),
            _ => None::<Seq<u8>>,
        }),
    decreases ops.len(),
{
    if i == ops.len() - 1 {
        assert(ops.last() == ops[i]);
    } else {
        assert(ops.drop_last()[i] == ops[i]);
        assert(forall|j: int|
            i < j < ops.drop_last().len() ==> !touches(#[trigger] ops.drop_last()[j], k, cf));
        lemma_batch_last_wins(m, ops.drop_last(), cf, k, i);
        assert(!touches(ops.last(), k, cf));
        assert(ops[ops.len() - 1] == ops.last());
    }
}

/// A snapshot taken before a put still observes the pre-put contents, while
/// a read against the live keyspace (or a snapshot taken after the put)
/// observes the put's value.
pub proof fn lemma_snapshot_isolation(
    snap: Map<Seq<u8>, Seq<u8>>,
    live: Map<Seq<u8>, Seq<u8>>,
    k: Seq<u8>,
    v: Seq<u8>,
)
    requires
        snap == live,
    ensures
        spec_lookup(live.insert(k, v), k) == Some(v),
        spec_lookup(snap, k) == spec_lookup(live, k),
        spec_lookup(snap, k) != Some(v) ==> spec_lookup(snap, k) != spec_lookup(
            live.insert(k, v),
            k,
        ),
{
}

} // verus!
