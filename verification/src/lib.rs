//! An embeddable key-value store kept in memory and flushed to one file.
//!
//! The store maps text keys to encoded values: scalars in one map, ordered
//! lists in another, and no key in both. It does no I/O and reads no clock:
//! the caller encodes the values, tells the time, and moves the bytes.
//! After a change the store says whether the dump policy wants the state
//! flushed; the caller writes the snapshot and reports how that went, and a
//! failed write takes the change back.
//!
//! ```text
//! let mut db = KeyValueDb::new("example.db", KeyValueDbDumpPolicy::AutoDump,
//!                              SerializationMethod::Json, now);
//! db.set("key", Ok(encoded), now)?;
//! if db.dump_owed() {
//!     let outcome = match db.dump_job(unix_seconds) {
//!         Ok(job) => write_then_rename(&job),   // temp file first
//!         Err(refusal) => Err(refusal),
//!     };
//!     db.dump_finished(outcome, now)?;          // takes the set back on Err
//! }
//! ```
//!
//! [`model`] holds the store's state as mathematics and every operation as
//! a function on it; [`keyvaluedb`] holds the store itself, whose contracts
//! are stated over that model; [`laws`] proves what relates one operation
//! to another.

pub mod error;
pub mod extenders;
pub mod iterators;
pub mod keyvaluedb;
pub mod laws;
pub mod model;
pub mod persist;
pub mod serialization;
pub mod table;

pub use crate::error::{Error, ErrorCode, ErrorType};
pub use crate::extenders::KeyValueDbListExtender;
pub use crate::iterators::{
    KeyValueDbIterator, KeyValueDbIteratorItem, KeyValueDbListIterator, KeyValueDbListIteratorItem,
};
pub use crate::keyvaluedb::KeyValueDb;
pub use crate::model::KeyValueDbDumpPolicy;
pub use crate::persist::DumpJob;
pub use crate::serialization::SerializationMethod;
