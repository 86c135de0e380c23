//! Filesystem entry snapshots.
//!
//! A `FileEntry` is a point-in-time snapshot of one filesystem node; it is
//! never mutated after creation. Callers that enumerate a directory stat
//! each child and hand the plain values to `entry_from_metadata`, which
//! fixes how the snapshot is derived: the node kind, the size rule for
//! directories, and the hidden-attribute bit.

use vstd::prelude::*;

verus! {

/// The kind of a filesystem node.
#[derive(Clone, Copy, Debug, PartialEq, Eq, Structural)]
pub enum FileType {
    Directory,
    File,
    Symlink,
    Unknown,
}

/// One filesystem node observed at scan time.
#[derive(Debug)]
pub struct FileEntry {
    /// Display name: the final path component.
    pub name: String,
    /// Absolute path; the entry's identity.
    pub path: String,
    pub file_type: FileType,
    /// Byte length; always 0 for a directory.
    pub size: u64,
    /// Last-modification timestamp, seconds since epoch, UTC.
    pub modified: i64,
    /// Platform hidden-attribute flag.
    pub is_hidden: bool,
}

impl Clone for FileEntry {
    /// An exact copy of the snapshot.
    fn clone(&self) -> (r: Self)
        ensures
            r == *self,
    {
        FileEntry {
            name: self.name.clone(),
            path: self.path.clone(),
            file_type: self.file_type,
            size: self.size,
            modified: self.modified,
            is_hidden: self.is_hidden,
        }
    }
}

/// The raw values a caller obtains by stat-ing one directory child.
pub struct RawMeta {
    /// Final path component.
    pub name: String,
    /// Absolute path of the child.
    pub path: String,
    pub is_dir: bool,
    pub is_symlink: bool,
    /// Byte length as reported by the platform.
    pub len: u64,
    /// Last-modification timestamp, seconds since epoch, UTC.
    pub modified: i64,
    /// Platform file-attribute bits; bit 1 marks a hidden entry.
    pub attributes: u32,
}

/// The hidden-attribute bit within platform file-attribute bits.
pub const HIDDEN_ATTRIBUTE: u32 = 0x2;

/// The snapshot that a raw stat record denotes: directories win over
/// symlinks, symlinks over plain files; a directory's size is 0.
pub open spec fn entry_of(m: RawMeta) -> FileEntry {
    FileEntry {
        name: m.name,
        path: m.path,
        file_type: if m.is_dir {
            FileType::Directory
        } else if m.is_symlink {
            FileType::Symlink
        } else {
            FileType::File
        },
        size: if m.is_dir {
            0
        } else {
            m.len
        },
        modified: m.modified,
        is_hidden: m.attributes & HIDDEN_ATTRIBUTE != 0,
    }
}

/// Builds the snapshot of one stat-ed directory child.
pub fn entry_from_metadata(m: RawMeta) -> (e: FileEntry)
    ensures
        e == entry_of(m),
{
    let file_type = if m.is_dir {
        FileType::Directory
    } else if m.is_symlink {
        FileType::Symlink
    } else {
        FileType::File
    };
    let size = if m.is_dir {
        0
    } else {
        m.len
    };
    FileEntry {
        name: m.name,
        path: m.path,
        file_type,
        size,
        modified: m.modified,
        is_hidden: m.attributes & HIDDEN_ATTRIBUTE != 0,
    }
}

} // verus!
