//! The database's own bookkeeping: the column-family registry and the
//! decisions around opening, point reads and column-family lifecycle.
//!
//! The native instance and column-family handles live on the other side of
//! the foreign boundary; here each registered column family is identified by
//! a handle number the registry hands out exactly once, and the embedding
//! keeps its table from handle number to native pointer.  Every function
//! either prepares a native call (validating what is about to cross the
//! boundary) or completes one (folding the reported outcome into the
//! registry and the typed result), so the registry changes only together
//! with a successful native call.

use vstd::prelude::*;

use vstd::string::StringExecFns;
use vstd::string::StringSliceAdditionalSpecFns;
use vstd::utf8::encode_utf8;

use crate::assoc::AssocList;
use crate::buffer::DBVector;
use crate::error::Error;

verus! {

/// The bytes a name crosses the boundary as.
pub open spec fn name_bytes(n: String) -> Seq<u8> {
    encode_utf8(n@)
}

/// The byte forms of a list of names.
pub open spec fn names_bytes(s: Seq<String>) -> Seq<Seq<u8>> {
    s.map(|i: int, n: String| name_bytes(n))
}

/// The name of the implicit default column family.
pub open spec fn default_name_bytes() -> Seq<u8> {
    encode_utf8("default"@)
}

/// The registry an open with the given column-family names produces: the
/// i-th requested name is bound to handle number i.
pub open spec fn open_registry(names: Seq<String>) -> Map<Seq<u8>, u64>
    decreases names.len(),
{
    if names.len() == 0 {
        Map::empty()
    } else {
        open_registry(names.drop_last()).insert(
            name_bytes(names.last()),
            (names.len() - 1) as u64,
        )
    }
}

/// Whether a string may cross the boundary as a C string: the engine's
/// interface cannot carry an interior NUL byte.
pub fn check_c_name(name: &str) -> (r: Result<(), Error>)
    ensures
        r is Ok <==> !name.spec_bytes().contains(0u8),
        r matches Err(e) ==> (e matches Error::InvalidArgument(m) && m@
            == "string holds an interior NUL byte"@),
{
    let bytes = name.as_bytes();
    let n = bytes.len();
    let mut i: usize = 0;
    while i < n
        invariant
            bytes@ == name.spec_bytes(),
            n == bytes@.len(),
            0 <= i <= n,
            forall|j: int| 0 <= j < i ==> bytes@[j] != 0u8,
        decreases n - i,
    {
        if bytes[i] == 0u8 {
            proof {
                assert(name.spec_bytes()[i as int] == 0u8);
            }
            return Err(Error::InvalidArgument(String::from_str("string holds an interior NUL byte")));
        }
        i += 1;
    }
    proof {
        if name.spec_bytes().contains(0u8) {
            let j = choose|j: int|
                0 <= j < name.spec_bytes().len() && name.spec_bytes()[j] == 0u8;
            assert(bytes@[j] != 0u8);
        }
    }
    Ok(())
}

/// The column-family list an open actually uses: empty stays empty (the
/// engine opens with only the implicit default family), and a non-empty
/// request is completed with `"default"` unless it already names it.
pub fn open_cf_names(requested: &Vec<String>) -> (r: Vec<String>)
    ensures
        requested@.len() == 0 ==> r@.len() == 0,
        requested@.len() > 0 ==> names_bytes(r@) == (
        if names_bytes(requested@).contains(default_name_bytes()) {
            names_bytes(requested@)
        } else {
            names_bytes(requested@).push(default_name_bytes())
        }),
{
    let ghost rb = names_bytes(requested@);
    let n = requested.len();
    if n == 0 {
        return Vec::new();
    }
    let mut out: Vec<String> = Vec::new();
    let mut has_default = false;
    let mut i: usize = 0;
    while i < n
        invariant
            n == requested@.len(),
            rb == names_bytes(requested@),
            0 <= i <= n,
            out@.len() == i,
            forall|j: int| 0 <= j < i ==> name_bytes(#[trigger] out@[j]) == rb[j],
            has_default == exists|j: int| 0 <= j < i && rb[j] == default_name_bytes(),
        decreases n - i,
    {
        let name = requested[i].as_str();
        if crate::bytes::bytes_eq(name.as_bytes(), "default".as_bytes()) {
            proof {
                assert(rb[i as int] == default_name_bytes());
            }
            has_default = true;
        }
        out.push(name.to_owned());
        i += 1;
    }
    if !has_default {
        out.push(String::from_str("default"));
        proof {
            assert(!rb.contains(default_name_bytes()));
            assert(names_bytes(out@) =~= rb.push(default_name_bytes()));
        }
    } else {
        proof {
            assert(rb.contains(default_name_bytes()));
            assert(names_bytes(out@) =~= rb);
        }
    }
    out
}

/// The database-side bookkeeping: the registry from column-family name to
/// the handle number this layer issued for it.  Handle numbers are never
/// reissued, so a dropped family's number stays dead.
pub struct DB {
    cfs: AssocList<u64>,
    next_cf: u64,
}

impl View for DB {
    type V = Map<Seq<u8>, u64>;

    closed spec fn view(&self) -> Map<Seq<u8>, u64> {
        self.cfs@
    }
}

impl DB {
    /// The registry invariant: names are registered at most once and every
    /// registered handle number was issued earlier than the next one.
    pub closed spec fn wf(&self) -> bool {
        &&& self.cfs.wf()
        &&& forall|k: Seq<u8>| self.cfs@.contains_key(k) ==> self.cfs@[k] < self.next_cf
    }

    /// The handle number the next registered column family receives.
    pub closed spec fn spec_next_handle(&self) -> u64 {
        self.next_cf
    }

    /// Returns the handle number the next registered column family
    /// receives; a creation must not be attempted once they are exhausted.
    pub fn next_handle(&self) -> (h: u64)
        ensures
            h == self.spec_next_handle(),
    {
        self.next_cf
    }

    /// A database opened with only the implicit default column family: the
    /// registry starts empty.
    pub fn new() -> (r: DB)
        ensures
            r.wf(),
            r@ == Map::<Seq<u8>, u64>::empty(),
    {
        DB { cfs: AssocList::new(), next_cf: 0 }
    }

    /// Completes an open: folds the engine's outcome into either a database
    /// value whose registry binds the i-th opened name to handle number i,
    /// or the typed failure the outcome dictates.  An error message wins; a
    /// missing column-family handle or a missing instance handle with no
    /// error message is a fatal inconsistency.
    pub fn complete_open(
        names: Vec<String>,
        handle_missing: &Vec<bool>,
        db_missing: bool,
        outcome: Option<String>,
    ) -> (r: Result<DB, Error>)
        requires
            names@.len() == handle_missing@.len(),
        ensures
            outcome matches Some(m) ==> r == Err::<DB, Error>(Error::StorageError(m)),
            outcome is None && (exists|i: int|
                0 <= i < handle_missing@.len() && handle_missing@[i]) ==> (r matches Err(e)
                && e matches Error::InvariantViolation(m) && m@
                == "Received null column family handle from DB."@),
            outcome is None && (forall|i: int|
                0 <= i < handle_missing@.len() ==> !handle_missing@[i]) && db_missing
                ==> (r matches Err(e) && e matches Error::InvariantViolation(m) && m@
                == "Could not initialize database."@),
            outcome is None && (forall|i: int|
                0 <= i < handle_missing@.len() ==> !handle_missing@[i]) && !db_missing
                ==> (r matches Ok(db) && db.wf() && db@ == open_registry(names@)
                && db.spec_next_handle() == names@.len()),
    {
        match outcome {
            Some(m) => Err(Error::StorageError(m)),
            None => {
                let n = names.len();
                let mut i: usize = 0;
                while i < n
                    invariant
                        outcome is None,
                        n == handle_missing@.len(),
                        0 <= i <= n,
                        forall|j: int| 0 <= j < i ==> !handle_missing@[j],
                    decreases n - i,
                {
                    if handle_missing[i] {
                        return Err(
                            Error::InvariantViolation(
                                String::from_str("Received null column family handle from DB."),
                            ),
                        );
                    }
                    i += 1;
                }
                if db_missing {
                    return Err(
                        Error::InvariantViolation(
                            String::from_str("Could not initialize database."),
                        ),
                    );
                }
                let mut cfs: AssocList<u64> = AssocList::new();
                let mut i: usize = 0;
                proof {
                    assert(open_registry(names@.take(0)) =~= Map::<Seq<u8>, u64>::empty());
                }
                while i < n
                    invariant
                        outcome is None,
                        n == names@.len(),
                        0 <= i <= n,
                        cfs.wf(),
                        cfs@ == open_registry(names@.take(i as int)),
                        forall|k: Seq<u8>| cfs@.contains_key(k) ==> cfs@[k] < i,
                    decreases n - i,
                {
                    let name = names[i].as_str();
                    cfs.insert(vstd::slice::slice_to_vec(name.as_bytes()), i as u64);
                    proof {
                        assert(names@.take(i + 1).drop_last() =~= names@.take(i as int));
                        assert(names@.take(i + 1).last() == names@[i as int]);
                    }
                    i += 1;
                }
                proof {
                    assert(names@.take(n as int) =~= names@);
                }
                Ok(DB { cfs, next_cf: n as u64 })
            },
        }
    }

    /// Looks a column family's handle number up.
    pub fn cf_handle(&self, name: &str) -> (r: Option<u64>)
        requires
            self.wf(),
        ensures
            match r {
                Some(h) => self@.contains_key(name.spec_bytes()) && h == self@[name.spec_bytes()],
                None => !self@.contains_key(name.spec_bytes()),
            },
    {
        match self.cfs.get(name.as_bytes()) {
            Some(h) => Some(*h),
            None => None,
        }
    }

    /// Completes a column-family creation: a reported error leaves the
    /// registry unchanged; a missing handle with no error is a fatal
    /// inconsistency; otherwise the name is bound to a handle number that
    /// no registered family carries.
    pub fn complete_create_cf(
        &mut self,
        name: &str,
        outcome: Option<String>,
        handle_missing: bool,
    ) -> (r: Result<u64, Error>)
        requires
            old(self).wf(),
            old(self).spec_next_handle() < u64::MAX,
        ensures
            final(self).wf(),
            outcome matches Some(m) ==> r == Err::<u64, Error>(Error::StorageError(m))
                && final(self)@ == old(self)@,
            outcome is None && handle_missing ==> (r matches Err(e) && e
                matches Error::InvariantViolation(m) && m@
                == "Received null column family handle from DB."@ && final(self)@ == old(self)@),
            outcome is None && !handle_missing ==> (r matches Ok(h)
                && final(self)@ == old(self)@.insert(name.spec_bytes(), h) && (forall|k: Seq<u8>|
                old(self)@.contains_key(k) ==> old(self)@[k] != h)),
    {
        match outcome {
            Some(m) => Err(Error::StorageError(m)),
            None => {
                if handle_missing {
                    return Err(
                        Error::InvariantViolation(
                            String::from_str("Received null column family handle from DB."),
                        ),
                    );
                }
                let h = self.next_cf;
                self.cfs.insert(vstd::slice::slice_to_vec(name.as_bytes()), h);
                self.next_cf = self.next_cf + 1;
                Ok(h)
            },
        }
    }

    /// Prepares a column-family drop: the handle number to drop, or
    /// `InvalidArgument` — with the registry untouched — when the name is
    /// not registered.
    pub fn request_drop_cf(&self, name: &str) -> (r: Result<u64, Error>)
        requires
            self.wf(),
        ensures
            match r {
                Ok(h) => self@.contains_key(name.spec_bytes()) && h == self@[name.spec_bytes()],
                Err(e) => !self@.contains_key(name.spec_bytes()) && (e
                    matches Error::InvalidArgument(m) && m@ == "Invalid column family: "@ + name@),
            },
    {
        match self.cfs.get(name.as_bytes()) {
            Some(h) => Ok(*h),
            None => Err(
                Error::InvalidArgument(String::from_str("Invalid column family: ").concat(name)),
            ),
        }
    }

    /// Completes a column-family drop: a reported error leaves the registry
    /// unchanged; success unbinds the name.
    pub fn complete_drop_cf(&mut self, name: &str, outcome: Option<String>) -> (r: Result<
        (),
        Error,
    >)
        requires
            old(self).wf(),
        ensures
            final(self).wf(),
            final(self).spec_next_handle() == old(self).spec_next_handle(),
            outcome matches Some(m) ==> r == Err::<(), Error>(Error::StorageError(m))
                && final(self)@ == old(self)@,
            outcome is None ==> r is Ok && final(self)@ == old(self)@.remove(name.spec_bytes()),
    {
        match outcome {
            Some(m) => Err(Error::StorageError(m)),
            None => {
                self.cfs.remove(name.as_bytes());
                Ok(())
            },
        }
    }
}

/// Completes an atomic batch commit: success means every operation the
/// batch buffered is applied; failure carries the engine's message and
/// means none of them is guaranteed applied — the batch is consumed either
/// way and must not be reused.
pub fn complete_write(outcome: Option<String>) -> (r: Result<(), Error>)
    ensures
        (r == match outcome {
            None => Ok::<(), Error>(()),
            Some(m) => Err::<(), Error>(Error::StorageError(m)),
        }),
{
    crate::error::native_outcome(outcome)
}

/// Completes a point read under the error convention: a reported error wins
/// (and a value alongside it is a fatal inconsistency), no value is a miss,
/// and a value is handed over as an owned buffer.
pub fn complete_get(outcome: Option<String>, value: Option<Vec<u8>>) -> (r: Result<
    Option<DBVector>,
    Error,
>)
    ensures
        match (outcome, value) {
            (None, None) => r matches Ok(o) && o is None,
            (None, Some(v)) => r matches Ok(o) && o matches Some(b) && b@ == v@,
            (Some(m), None) => r == Err::<Option<DBVector>, Error>(Error::StorageError(m)),
            (Some(m), Some(_)) => r matches Err(e) && e matches Error::InvariantViolation(mm) && mm
                == m,
        },
{
    match (outcome, value) {
        (None, None) => Ok(None),
        (None, Some(v)) => Ok(Some(DBVector::from_vec(v))),
        (Some(m), None) => Err(Error::StorageError(m)),
        (Some(m), Some(_)) => Err(Error::InvariantViolation(m)),
    }
}

} // verus!
