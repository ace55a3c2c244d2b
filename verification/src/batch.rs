//! The write batch: an ordered, uncommitted sequence of mutations.
//!
//! Appends always succeed locally; any failure is deferred to the commit.
//! The batch is viewed as the sequence of buffered operations, each targeting
//! either the default keyspace or a registered column family by handle.

use vstd::prelude::*;

verus! {

/// One buffered mutation, at the specification level.
pub enum SpecOp {
    Put { cf: Option<u64>, key: Seq<u8>, value: Seq<u8> },
    Merge { cf: Option<u64>, key: Seq<u8>, value: Seq<u8> },
    Delete { cf: Option<u64>, key: Seq<u8> },
}

/// One buffered mutation: a put, merge or delete, optionally aimed at a
/// column family by its handle.
pub enum BatchOp {
    Put { cf: Option<u64>, key: Vec<u8>, value: Vec<u8> },
    Merge { cf: Option<u64>, key: Vec<u8>, value: Vec<u8> },
    Delete { cf: Option<u64>, key: Vec<u8> },
}

impl View for BatchOp {
    type V = SpecOp;

    open spec fn view(&self) -> SpecOp {
        match self {
            BatchOp::Put { cf, key, value } => SpecOp::Put { cf: *cf, key: key@, value: value@ },
            BatchOp::Merge { cf, key, value } => SpecOp::Merge {
                cf: *cf,
                key: key@,
                value: value@,
            },
            BatchOp::Delete { cf, key } => SpecOp::Delete { cf: *cf, key: key@ },
        }
    }
}

/// An ordered list of pending mutations, applied atomically at commit and
/// never reused afterwards.
pub struct WriteBatch {
    ops: Vec<BatchOp>,
}

impl View for WriteBatch {
    type V = Seq<SpecOp>;

    closed spec fn view(&self) -> Seq<SpecOp> {
        self.ops@.map(|i: int, op: BatchOp| op@)
    }
}

impl WriteBatch {
    /// An empty batch.
    pub fn new() -> (r: WriteBatch)
        ensures
            r@ == Seq::<SpecOp>::empty(),
    {
        let r = WriteBatch { ops: Vec::new() };
        proof {
            assert(r@ =~= Seq::<SpecOp>::empty());
        }
        r
    }

    /// The number of buffered operations.
    pub fn len(&self) -> (n: usize)
        ensures
            n == self@.len(),
    {
        self.ops.len()
    }

    fn append(&mut self, op: BatchOp)
        ensures
            final(self)@ == old(self)@.push(op@),
    {
        self.ops.push(op);
        proof {
            assert(final(self)@ =~= old(self)@.push(op@));
        }
    }

    /// Buffers a put against the default keyspace.
    pub fn put(&mut self, key: &[u8], value: &[u8]) -> (r: Result<(), crate::error::Error>)
        ensures
            r is Ok,
            final(self)@ == old(self)@.push(SpecOp::Put { cf: None, key: key@, value: value@ }),
    {
        let op = BatchOp::Put {
            cf: None,
            key: vstd::slice::slice_to_vec(key),
            value: vstd::slice::slice_to_vec(value),
        };
        self.append(op);
        Ok(())
    }

    /// Buffers a put against the column family with the given handle.
    pub fn put_cf(&mut self, cf: u64, key: &[u8], value: &[u8]) -> (r: Result<
        (),
        crate::error::Error,
    >)
        ensures
            r is Ok,
            final(self)@ == old(self)@.push(
                SpecOp::Put { cf: Some(cf), key: key@, value: value@ },
            ),
    {
        let op = BatchOp::Put {
            cf: Some(cf),
            key: vstd::slice::slice_to_vec(key),
            value: vstd::slice::slice_to_vec(value),
        };
        self.append(op);
        Ok(())
    }

    /// Buffers a merge against the default keyspace.
    pub fn merge(&mut self, key: &[u8], value: &[u8]) -> (r: Result<(), crate::error::Error>)
        ensures
            r is Ok,
            final(self)@ == old(self)@.push(SpecOp::Merge { cf: None, key: key@, value: value@ }),
    {
        let op = BatchOp::Merge {
            cf: None,
            key: vstd::slice::slice_to_vec(key),
            value: vstd::slice::slice_to_vec(value),
        };
        self.append(op);
        Ok(())
    }

    /// Buffers a merge against the column family with the given handle.
    pub fn merge_cf(&mut self, cf: u64, key: &[u8], value: &[u8]) -> (r: Result<
        (),
        crate::error::Error,
    >)
        ensures
            r is Ok,
            final(self)@ == old(self)@.push(
                SpecOp::Merge { cf: Some(cf), key: key@, value: value@ },
            ),
    {
        let op = BatchOp::Merge {
            cf: Some(cf),
            key: vstd::slice::slice_to_vec(key),
            value: vstd::slice::slice_to_vec(value),
        };
        self.append(op);
        Ok(())
    }

    /// Buffers a delete against the default keyspace.
    pub fn delete(&mut self, key: &[u8]) -> (r: Result<(), crate::error::Error>)
        ensures
            r is Ok,
            final(self)@ == old(self)@.push(SpecOp::Delete { cf: None, key: key@ }),
    {
        let op = BatchOp::Delete { cf: None, key: vstd::slice::slice_to_vec(key) };
        self.append(op);
        Ok(())
    }

    /// Buffers a delete against the column family with the given handle.
    pub fn delete_cf(&mut self, cf: u64, key: &[u8]) -> (r: Result<(), crate::error::Error>)
        ensures
            r is Ok,
            final(self)@ == old(self)@.push(SpecOp::Delete { cf: Some(cf), key: key@ }),
    {
        let op = BatchOp::Delete { cf: Some(cf), key: vstd::slice::slice_to_vec(key) };
        self.append(op);
        Ok(())
    }

    /// A read-only borrow of the buffered operations, for the embedding to
    /// replay against the native batch.
    pub fn ops(&self) -> (r: &Vec<BatchOp>)
        ensures
            r@.map(|i: int, op: BatchOp| op@) == self@,
    {
        &self.ops
    }
}

} // verus!
