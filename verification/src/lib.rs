//! Incremental archiving of a sequentially numbered comic series.
//!
//! The library holds the decisions of two components that run one after the
//! other: the metadata synchronizer, which brings a local collection of comic
//! records up to date with a remote source, and the image mirror, which makes
//! sure that every record has its image on disk. All input and output stays
//! with the caller: the library is handed what was read or received and
//! answers with what to do next.
//!
//! - [`record`]: a comic record, and the gap in the series.
//! - [`endpoint`]: the address at which a record is asked for.
//! - [`image`]: the path of a record's image, and what the mirror does
//!   about it.
//! - [`collection`]: the comic collection.
//! - [`cache`]: what reading the cache file gave.
//! - [`sync`]: the synchronizer, a state machine driven by the caller.
//! - [`run`]: whole runs of the synchronizer, and the theorems about them.
//! - [`error`]: the conditions that interrupt or accompany a run.

pub mod error;
pub mod record;
pub mod endpoint;
pub mod image;
pub mod collection;
pub mod cache;
pub mod sync;
pub mod run;
