//! A verified client layer over an embedded key-value storage engine.
//!
//! The native engine is reached through a foreign-function boundary that this
//! library does not cross itself: every native call returns either a populated
//! handle or an error-message pointer, and the surrounding bookkeeping — the
//! error convention, the column-family registry, the write-batch buffer, the
//! iterator seek/step state machine and the backup/restore planning — is the
//! logic verified here.  An embedding binds each decision made in this crate
//! to the matching native call and feeds the outcome back in as plain values.

pub mod assoc;
pub mod backup;
pub mod batch;
pub mod buffer;
pub mod bytes;
pub mod db;
pub mod error;

pub mod iter;
pub mod store;

pub use backup::BackupEngine;
pub use backup::RestoreOption;
pub use batch::WriteBatch;
pub use buffer::DBVector;
pub use db::DB;
pub use error::Error;
pub use error::native_outcome;
pub use iter::DBIterator;
pub use iter::Direction;
pub use iter::IteratorMode;
