//! Core of a desktop file browser: the file-management primitives that
//! operate on plain values, verified with Verus.
//!
//! The crate is split in four components:
//! - directory listing and recursive search (`scanner`, `text`),
//! - create/rename/delete/copy primitives on paths (`ops`, `paths`),
//! - password-based authenticated file encryption (`vault`),
//! - zip packing and unpacking of a tree of entries (`archive`).
//!
//! All filesystem and network I/O stays outside this crate: callers read
//! directories, files and archives into plain values (strings, byte
//! vectors, entry records), call the functions here, and write the results
//! back out. Paths handed to this crate are plain strings; `/` and `\`
//! are both accepted as separators on input, `/` is produced on output.

pub mod archive;
pub mod coordinator;
pub mod entry;
pub mod errors;
pub mod ops;
pub mod paths;
pub mod scanner;
pub mod text;
pub mod vault;
