//! The backup/restore coordination protocol.
//!
//! A backup engine is identified by its backup-store path and owns one
//! native handle; taking a backup and restoring the latest one are single
//! native calls under the shared error convention.  The restore policy —
//! whether pre-existing write-ahead log files at the destination survive —
//! is a transient value built here and copied onto the native restore
//! options by the embedding for the duration of one call.

use vstd::prelude::*;

use vstd::string::StringSliceAdditionalSpecFns;

use crate::error::Error;

verus! {

/// The restore policy: whether destination write-ahead log files are kept.
/// The engine reads the flag as an integer, zero meaning discard.
pub struct RestoreOption {
    pub keep_log_files: i32,
}

impl RestoreOption {
    /// A fresh policy: pre-existing log files are discarded.
    pub fn new() -> (r: RestoreOption)
        ensures
            r.keep_log_files == 0,
    {
        RestoreOption { keep_log_files: 0 }
    }

    /// Sets the flag as the engine will receive it.
    pub fn set_keep_log_files(&mut self, v: i32)
        ensures
            final(self).keep_log_files == v,
    {
        self.keep_log_files = v;
    }
}

/// The policy a restore-from-latest call with the given `keep_wal` choice
/// hands to the engine: one for preserved log files, zero for discarded.
pub fn restore_policy(keep_wal: bool) -> (r: RestoreOption)
    ensures
        r.keep_log_files == (if keep_wal {
            1int
        } else {
            0int
        }),
{
    let mut opt = RestoreOption::new();
    opt.set_keep_log_files(if keep_wal {
        1
    } else {
        0
    });
    opt
}

/// The backup-store side of the protocol, identified by its path.
pub struct BackupEngine {
    path: Vec<u8>,
}

impl View for BackupEngine {
    type V = Seq<u8>;

    closed spec fn view(&self) -> Seq<u8> {
        self.path@
    }
}

impl BackupEngine {
    /// Completes opening (or creating) the backup store at `path`: the
    /// engine's outcome decides between an engine value bound to that path
    /// and the failure carried through verbatim.
    pub fn complete_open(path: &str, outcome: Option<String>) -> (r: Result<BackupEngine, Error>)
        ensures
            outcome matches Some(m) ==> r == Err::<BackupEngine, Error>(Error::StorageError(m)),
            outcome is None ==> (r matches Ok(be) && be@ == path.spec_bytes()),
    {
        match outcome {
            Some(m) => Err(Error::StorageError(m)),
            None => Ok(BackupEngine { path: vstd::slice::slice_to_vec(path.as_bytes()) }),
        }
    }

    /// Completes a backup of a live database: success means a complete
    /// backup was recorded; failure carries the engine's message and means
    /// no new backup is considered valid.
    pub fn complete_create_backup(&self, outcome: Option<String>) -> (r: Result<(), Error>)
        ensures
            (r == match outcome {
                None => Ok::<(), Error>(()),
                Some(m) => Err::<(), Error>(Error::StorageError(m)),
            }),
    {
        crate::error::native_outcome(outcome)
    }

    /// Completes a restore of the latest backup into the destination
    /// directories: failure carries the engine's message; the destination is
    /// then whatever the engine left there.
    pub fn complete_restore_latest(&self, outcome: Option<String>) -> (r: Result<(), Error>)
        ensures
            (r == match outcome {
                None => Ok::<(), Error>(()),
                Some(m) => Err::<(), Error>(Error::StorageError(m)),
            }),
    {
        crate::error::native_outcome(outcome)
    }
}

} // verus!
