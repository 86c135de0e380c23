//! Entry operations: the decisions behind create, rename and copy.
//!
//! The caller performs the storage I/O; the functions here fix, from
//! plain values, which target paths those operations use and when they
//! are refused. Creation never overwrites silently: it is refused with
//! `AlreadyExists` while the name is taken.

use vstd::prelude::*;
use crate::errors::{ErrorKind, FsError};
use crate::paths::{base_name_of, joined_path, parent_path_of};
use crate::text::str_eq;

verus! {

/// The character sequences of a list of names.
pub open spec fn names_of(v: Seq<String>) -> Seq<Seq<char>> {
    v.map_values(|s: String| s@)
}

/// A name can be created under a parent iff no existing child carries it.
pub open spec fn can_create(existing: Seq<Seq<char>>, name: Seq<char>) -> bool {
    !existing.contains(name)
}

fn contains_name(existing: &Vec<String>, name: &str) -> (r: bool)
    ensures
        r == names_of(existing@).contains(name@),
{
    let n = existing.len();
    let mut i: usize = 0;
    while i < n
        invariant
            n == existing@.len(),
            i <= n,
            forall|j: int| 0 <= j < i ==> names_of(existing@)[j] != name@,
        decreases n - i,
    {
        if str_eq(existing[i].as_str(), name) {
            proof {
                assert(names_of(existing@)[i as int] == name@);
            }
            return true;
        }
        i += 1;
    }
    proof {
        assert forall|j: int| 0 <= j < names_of(existing@).len() implies names_of(existing@)[j]
            != name@ by {
            assert(j < i);
        }
    }
    false
}

/// Decides a file creation under a parent whose children are `existing`:
/// refused with `AlreadyExists` iff the name is already taken.
pub fn plan_create_file(existing: &Vec<String>, name: &str) -> (r: Result<(), FsError>)
    ensures
        r is Ok <==> can_create(names_of(existing@), name@),
        r is Err ==> r->Err_0.kind == ErrorKind::AlreadyExists,
{
    if contains_name(existing, name) {
        Err(FsError::new(ErrorKind::AlreadyExists, "File already exists"))
    } else {
        Ok(())
    }
}

/// Decides a directory creation under a parent whose children are
/// `existing`: refused with `AlreadyExists` iff the name is already taken.
pub fn plan_create_directory(existing: &Vec<String>, name: &str) -> (r: Result<(), FsError>)
    ensures
        r is Ok <==> can_create(names_of(existing@), name@),
        r is Err ==> r->Err_0.kind == ErrorKind::AlreadyExists,
{
    if contains_name(existing, name) {
        Err(FsError::new(ErrorKind::AlreadyExists, "Directory already exists"))
    } else {
        Ok(())
    }
}

/// The creation guard is idempotent in the failing direction: once a
/// creation of `name` has succeeded, the parent's children contain
/// `name`, and a second creation of the same name is refused.
pub proof fn lemma_create_guard_idempotent(existing: Seq<Seq<char>>, name: Seq<char>)
    ensures
        can_create(existing, name) ==> !can_create(existing.push(name), name),
{
    assert(existing.push(name)[existing.len() as int] == name);
}

/// The path an entry at `path` is renamed to: `new_name` under the same
/// parent directory. Fails iff the path has no parent.
pub fn rename_target(path: &str, new_name: &str) -> (r: Result<String, FsError>)
    ensures
        r is Ok <==> parent_path_of(path@) is Some,
        r is Ok ==> r->Ok_0@ == joined_path(parent_path_of(path@)->Some_0, new_name@),
        r is Err ==> r->Err_0.kind == ErrorKind::Io,
{
    match crate::paths::parent_dir(path) {
        Some(parent) => Ok(crate::paths::join_path(parent.as_str(), new_name)),
        None => Err(FsError::new(ErrorKind::Io, "No parent directory")),
    }
}

/// The path a copy of `src_path` lands at inside `dest_dir`: the source's
/// final name joined onto the destination directory. Fails iff the source
/// path has no final name.
pub fn copy_destination(src_path: &str, dest_dir: &str) -> (r: Result<String, FsError>)
    ensures
        r is Ok <==> base_name_of(src_path@).len() > 0,
        r is Ok ==> r->Ok_0@ == joined_path(dest_dir@, base_name_of(src_path@)),
        r is Err ==> r->Err_0.kind == ErrorKind::Io,
{
    let base = crate::paths::base_name(src_path);
    if base.as_str().unicode_len() == 0 {
        Err(FsError::new(ErrorKind::Io, "Invalid source name"))
    } else {
        Ok(crate::paths::join_path(dest_dir, base.as_str()))
    }
}

} // verus!
