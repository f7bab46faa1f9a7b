//! Directory listing over a flat key-value store.
//!
//! Every node of a virtual file system is a row of the store, keyed by its
//! full path. A directory's entries are computed on demand by matching keys
//! against a pattern built from the directory's path: [`list`] streams `.`,
//! `..` and the last component of each direct child to a [`DirSink`], and
//! [`status_code`] turns its result into the status the file system bridge
//! reports.
use vstd::prelude::*;

pub mod laws;
pub mod listing;
pub mod path;
pub mod sink;
pub mod status;
pub mod store;

pub use listing::{list, list_bytes, on_query, on_row, QueryEnd, ReadDirError, LIST_QUERY};
pub use status::status_code;
pub use path::{child_name, glob_pattern, normalize_path};
pub use sink::{DirSink, NameList};

verus! {

} // verus!
