//! Zip packing and unpacking of a tree of entries.
//!
//! An archive is a standard zip container holding relative,
//! `/`-separated names, files stored without compression and directories
//! as explicit entries with a trailing `/`, so the tree shape
//! round-trips. The caller walks the source tree into `ArchiveEntry`
//! records and writes the packed bytes out; unpacking returns the
//! records for the caller to materialise — after every stored name has
//! passed the zip-slip guard, so no entry can escape the destination
//! directory.

use vstd::prelude::*;
use std::io::Cursor;
use crate::errors::{ErrorKind, FsError};
use crate::paths::{is_sep, safe_entry_name};

verus! {

/// A zip writer over an in-memory buffer. Opaque to verification: what
/// it holds is named by `zip_writer_entries`, and the trusted wrappers
/// below state how each operation changes that.
#[verifier::external_body]
pub struct ZipBuilder {
    inner: zip::write::ZipWriter<Cursor<Vec<u8>>>,
}

/// A zip reader over an in-memory buffer. Opaque to verification: what
/// it holds is named by `zip_archive_entries`.
#[verifier::external_body]
pub struct ZipReader {
    inner: zip::read::ZipArchive<Cursor<Vec<u8>>>,
}

/// The entries a zip writer holds so far: stored name, and the bytes
/// for a file entry or nothing for a directory entry, in write order.
pub uninterp spec fn zip_writer_entries(w: ZipBuilder) -> Seq<(Seq<char>, Option<Seq<u8>>)>;

/// The writer is in the consistent state the operations below leave it
/// in, so that finishing it succeeds: every accepted entry was written
/// out whole, with its name-length and size fields in bounds.
pub uninterp spec fn zip_writer_ok(w: ZipBuilder) -> bool;

/// The entries a zip archive reader holds, in central-directory order.
pub uninterp spec fn zip_archive_entries(a: ZipReader) -> Seq<(Seq<char>, Option<Seq<u8>>)>;

/// Every entry of the reader can be read back whole: its compression
/// method is supported here and its data is sound (sizes and checksum
/// agree).
pub uninterp spec fn zip_reader_extractable(a: ZipReader) -> bool;

/// The entries a byte stream holds when read as a zip archive, or
/// nothing when it is not a readable archive.
pub uninterp spec fn zip_entries_of(bytes: Seq<u8>) -> Option<Seq<(Seq<char>, Option<Seq<u8>>)>>;

/// Every entry of the byte stream can be read back whole — a function
/// of the bytes alone, since reading an in-memory archive is
/// deterministic.
pub uninterp spec fn zip_extractable(bytes: Seq<u8>) -> bool;

/// `m` holds an entry with this stored name.
pub open spec fn entry_named(m: Seq<(Seq<char>, Option<Seq<u8>>)>, name: Seq<char>) -> bool {
    exists|k: int| 0 <= k < m.len() && (#[trigger] m[k]).0 == name
}

/// No two entries of `m` share a stored name.
pub open spec fn names_distinct(m: Seq<(Seq<char>, Option<Seq<u8>>)>) -> bool {
    forall|k1: int, k2: int| 0 <= k1 < k2 < m.len() ==> (#[trigger] m[k1]).0 != (#[trigger] m[k2]).0
}

/// Relies on zip's `ZipWriter::new` over an in-memory cursor: a fresh
/// writer holds no entries and is consistent.
#[verifier::external_body]
fn zip_writer_new() -> (w: ZipBuilder)
    ensures
        zip_writer_entries(w) == Seq::<(Seq<char>, Option<Seq<u8>>)>::empty(),
        zip_writer_ok(w),
{
    ZipBuilder { inner: zip::write::ZipWriter::new(Cursor::new(Vec::new())) }
}

/// Relies on zip's `ZipWriter::start_file` and `Write::write_all`: on
/// success one stored (uncompressed) file entry with this name and
/// these bytes is appended, and the writer stays consistent. Success is
/// owed to a consistent writer when the name is fresh — the writer
/// refuses duplicates — and name and data are within the format's
/// limits (the name-length field is 16 bits, at most 4 bytes encode one
/// character; larger data needs the zip64 option, not enabled here). A
/// name ending in a separator would be read back as a directory entry,
/// so it is excluded.
#[verifier::external_body]
fn zip_writer_add_file(w: &mut ZipBuilder, name: &str, data: &Vec<u8>) -> (r: Result<(), ()>)
    requires
        name@.len() > 0,
        !is_sep(name@.last()),
    ensures
        r is Ok ==> zip_writer_entries(*final(w)) == zip_writer_entries(*old(w)).push(
            (name@, Some(data@)),
        ),
        r is Ok && zip_writer_ok(*old(w)) ==> zip_writer_ok(*final(w)),
        (zip_writer_ok(*old(w)) && name@.len() <= 16383 && data@.len() < 0xFFFF_FFFF
            && !entry_named(zip_writer_entries(*old(w)), name@)) ==> r is Ok,
{
    let options = zip::write::SimpleFileOptions::default().compression_method(
        zip::CompressionMethod::Stored,
    ).unix_permissions(0o755);
    if w.inner.start_file(name, options).is_err() {
        return Err(());
    }
    if std::io::Write::write_all(&mut w.inner, data.as_slice()).is_err() {
        return Err(());
    }
    Ok(())
}

/// Relies on zip's `ZipWriter::add_directory`: on success one directory
/// entry with this name is appended and the writer stays consistent;
/// the writer keeps a name that already ends in `/` unchanged. Success
/// is owed under the same freshness and name-length conditions as for a
/// file entry.
#[verifier::external_body]
fn zip_writer_add_dir(w: &mut ZipBuilder, name: &str) -> (r: Result<(), ()>)
    requires
        name@.len() > 0,
        name@.last() == '/',
    ensures
        r is Ok ==> zip_writer_entries(*final(w)) == zip_writer_entries(*old(w)).push(
            (name@, None),
        ),
        r is Ok && zip_writer_ok(*old(w)) ==> zip_writer_ok(*final(w)),
        (zip_writer_ok(*old(w)) && name@.len() <= 16383 && !entry_named(
            zip_writer_entries(*old(w)),
            name@,
        )) ==> r is Ok,
{
    let options = zip::write::SimpleFileOptions::default().compression_method(
        zip::CompressionMethod::Stored,
    ).unix_permissions(0o755);
    if w.inner.add_directory(name, options).is_err() {
        return Err(());
    }
    Ok(())
}

/// Relies on zip's `ZipWriter::finish`: writing the central directory
/// of a consistent writer to its in-memory cursor cannot fail, and the
/// produced byte stream is a readable archive holding exactly the
/// entries written, in order, every one of them extractable (stored
/// method, sizes and checksum computed by the writer itself).
#[verifier::external_body]
fn zip_writer_finish(w: ZipBuilder) -> (r: Result<Vec<u8>, ()>)
    ensures
        r is Ok ==> zip_entries_of(r->Ok_0@) == Some(zip_writer_entries(w)),
        r is Ok ==> zip_extractable(r->Ok_0@),
        zip_writer_ok(w) ==> r is Ok,
{
    match w.inner.finish() {
        Ok(cursor) => Ok(cursor.into_inner()),
        Err(_) => Err(()),
    }
}

/// Relies on zip's `ZipArchive::new` over an in-memory cursor: it
/// succeeds exactly on byte streams that are a readable archive, and
/// yields the reader of that stream's entries, extractable exactly when
/// the stream is.
#[verifier::external_body]
fn zip_archive_open(bytes: &Vec<u8>) -> (r: Result<ZipReader, ()>)
    ensures
        r is Ok ==> zip_entries_of(bytes@) == Some(zip_archive_entries(r->Ok_0)),
        r is Ok ==> zip_reader_extractable(r->Ok_0) == zip_extractable(bytes@),
        r is Err ==> zip_entries_of(bytes@) is None,
{
    match zip::read::ZipArchive::new(Cursor::new(bytes.clone())) {
        Ok(a) => Ok(ZipReader { inner: a }),
        Err(_) => Err(()),
    }
}

/// Relies on zip's `ZipArchive::len`: the number of entries.
#[verifier::external_body]
fn zip_archive_len(a: &ZipReader) -> (r: usize)
    ensures
        r == zip_archive_entries(*a).len(),
{
    a.inner.len()
}

/// Relies on zip's `ZipArchive::name_for_index`: the stored name of
/// entry `i`, read from the central directory without touching the
/// entry's data, so it cannot fail for an index below the length.
#[verifier::external_body]
fn zip_name_at(a: &ZipReader, i: usize) -> (r: String)
    requires
        i < zip_archive_entries(*a).len(),
    ensures
        r@ == zip_archive_entries(*a)[i as int].0,
{
    match a.inner.name_for_index(i) {
        Some(n) => n.to_string(),
        None => String::new(),
    }
}

/// Relies on zip's `ZipArchive::by_index` and `Read::read_to_end`: on
/// success, the stored name of entry `i`, and its bytes for a file
/// entry or nothing for a directory entry. Success is owed when the
/// reader is extractable; the reader's entries and extractability are
/// unchanged either way.
#[verifier::external_body]
fn zip_entry_at(a: &mut ZipReader, i: usize) -> (r: Result<(String, Option<Vec<u8>>), ()>)
    requires
        i < zip_archive_entries(*old(a)).len(),
    ensures
        zip_archive_entries(*final(a)) == zip_archive_entries(*old(a)),
        zip_reader_extractable(*final(a)) == zip_reader_extractable(*old(a)),
        zip_reader_extractable(*old(a)) ==> r is Ok,
        r is Ok ==> r->Ok_0.0@ == zip_archive_entries(*old(a))[i as int].0,
        r is Ok ==> match r->Ok_0.1 {
            Some(d) => zip_archive_entries(*old(a))[i as int].1 == Some(d@),
            None => zip_archive_entries(*old(a))[i as int].1 is None,
        },
{
    let mut file = match a.inner.by_index(i) {
        Ok(f) => f,
        Err(_) => {
            return Err(());
        },
    };
    let name = file.name().to_string();
    if file.is_dir() {
        return Ok((name, None));
    }
    let mut data = Vec::new();
    if std::io::Read::read_to_end(&mut file, &mut data).is_err() {
        return Err(());
    }
    Ok((name, Some(data)))
}

/// One entry of an archive tree: a file with its bytes, or a directory.
#[derive(Debug)]
pub struct ArchiveEntry {
    /// Stored name: a relative path with `/` separators; a directory's
    /// name ends with `/`.
    pub name: String,
    /// The file's bytes; `None` for a directory entry.
    pub data: Option<Vec<u8>>,
}

/// The model of one entry: its stored name and, for a file, its bytes.
pub open spec fn entry_model(e: ArchiveEntry) -> (Seq<char>, Option<Seq<u8>>) {
    (
        e.name@,
        match e.data {
            Some(d) => Some(d@),
            None => None,
        },
    )
}

/// The model of a tree of entries, in order.
pub open spec fn entries_model(s: Seq<ArchiveEntry>) -> Seq<(Seq<char>, Option<Seq<u8>>)> {
    s.map_values(|e: ArchiveEntry| entry_model(e))
}

/// A well-formed entry for packing: a file's name is non-empty and does
/// not end in a separator; a directory's name ends in `/`.
pub open spec fn entry_wf(e: ArchiveEntry) -> bool {
    match e.data {
        Some(_) => e.name@.len() > 0 && !is_sep(e.name@.last()),
        None => e.name@.len() > 0 && e.name@.last() == '/',
    }
}

/// An entry within the limits the archive format gives a stored entry
/// here: the name-length field is 16 bits (at most 4 bytes encode one
/// character), and file data beyond 32-bit sizes would need the zip64
/// option.
pub open spec fn entry_fits(e: ArchiveEntry) -> bool {
    e.name@.len() <= 16383 && match e.data {
        Some(d) => d@.len() < 0xFFFF_FFFF,
        None => true,
    }
}

/// Archive round trip, read off the models: two trees with the same
/// model — as `unpack_entries` returns for the bytes `pack_entries`
/// produced — agree entry by entry: same stored names, directories in
/// the same places, and file contents equal byte for byte.
pub proof fn lemma_entries_model_exact(v1: Seq<ArchiveEntry>, v2: Seq<ArchiveEntry>)
    requires
        entries_model(v1) == entries_model(v2),
    ensures
        v1.len() == v2.len(),
        forall|i: int| 0 <= i < v1.len() ==> (#[trigger] v1[i]).name@ == v2[i].name@,
        forall|i: int| 0 <= i < v1.len() ==> ((#[trigger] v1[i]).data is Some <==> v2[i].data
            is Some),
        forall|i: int| 0 <= i < v1.len() && v1[i].data is Some ==> (#[trigger] v1[i]).data->Some_0@
            == v2[i].data->Some_0@,
{
    assert(entries_model(v1).len() == v1.len());
    assert(entries_model(v2).len() == v2.len());
    assert forall|i: int| 0 <= i < v1.len() implies entry_model(#[trigger] v1[i]) == entry_model(
        v2[i],
    ) by {
        assert(entries_model(v1)[i] == entries_model(v2)[i]);
    }
}

/// Every stored name of an entry model passes the zip-slip guard.
pub open spec fn all_names_safe(m: Seq<(Seq<char>, Option<Seq<u8>>)>) -> bool {
    forall|i: int| 0 <= i < m.len() ==> safe_entry_name((#[trigger] m[i]).0)
}

/// Packs a tree of entries into a zip archive, store-only: on success
/// the bytes read back as exactly the given entries, in order — names,
/// directory shape and file bytes round-trip — and every entry is
/// extractable. Success is owed when the names are pairwise distinct
/// and every entry is within the format's limits (`entry_fits`); the
/// only failure is the writer's own refusal, surfaced as `Io`.
pub fn pack_entries(entries: &Vec<ArchiveEntry>) -> (r: Result<Vec<u8>, FsError>)
    requires
        forall|i: int| 0 <= i < entries@.len() ==> entry_wf(#[trigger] entries@[i]),
    ensures
        r is Ok ==> zip_entries_of(r->Ok_0@) == Some(entries_model(entries@)),
        r is Ok ==> zip_extractable(r->Ok_0@),
        (names_distinct(entries_model(entries@)) && (forall|i: int|
            0 <= i < entries@.len() ==> entry_fits(#[trigger] entries@[i]))) ==> r is Ok,
        r is Err ==> r->Err_0.kind == ErrorKind::Io,
{
    let ghost whole: Seq<(Seq<char>, Option<Seq<u8>>)> = entries_model(entries@);
    let mut w = zip_writer_new();
    let n = entries.len();
    let mut i: usize = 0;
    while i < n
        invariant
            n == entries@.len(),
            i <= n,
            whole == entries_model(entries@),
            forall|k: int| 0 <= k < entries@.len() ==> entry_wf(#[trigger] entries@[k]),
            zip_writer_entries(w) =~= entries_model(entries@.subrange(0, i as int)),
            zip_writer_ok(w),
        decreases n - i,
    {
        let ghost w_before: ZipBuilder = w;
        let e = &entries[i];
        let res = match &e.data {
            Some(d) => zip_writer_add_file(&mut w, e.name.as_str(), d),
            None => zip_writer_add_dir(&mut w, e.name.as_str()),
        };
        if res.is_err() {
            proof {
                if names_distinct(whole) && (forall|k: int|
                    0 <= k < entries@.len() ==> entry_fits(#[trigger] entries@[k])) {
                    assert(entry_fits(entries@[i as int]));
                    assert forall|k: int|
                        0 <= k < zip_writer_entries(w_before).len() implies (#[trigger]
                    zip_writer_entries(w_before)[k]).0 != entries@[i as int].name@ by {
                        assert(zip_writer_entries(w_before)[k] == whole[k]);
                        assert(whole[i as int].0 == entries@[i as int].name@);
                    }
                    assert(!entry_named(zip_writer_entries(w_before), entries@[i as int].name@));
                    assert(false);
                }
            }
            return Err(FsError::new(ErrorKind::Io, "Archive write failed"));
        }
        proof {
            assert(entries_model(entries@.subrange(0, i as int + 1)) =~= entries_model(
                entries@.subrange(0, i as int),
            ).push(entry_model(entries@[i as int])));
        }
        i += 1;
    }
    proof {
        assert(entries@.subrange(0, n as int) =~= entries@);
    }
    match zip_writer_finish(w) {
        Ok(bytes) => Ok(bytes),
        Err(_) => Err(FsError::new(ErrorKind::Io, "Archive write failed")),
    }
}

/// Unpacks a zip byte stream into its entries. A stream that is not a
/// readable archive is refused as `InvalidFormat`; a readable archive
/// is refused as `Security` exactly when a stored name fails the
/// zip-slip guard — an absolute path or a `..` component — so an
/// unpacked tree never contains an entry that could land outside the
/// destination; an unreadable entry is surfaced as `Io`, and success is
/// owed whenever the stream is readable, every name safe and every
/// entry extractable. On success the entries are exactly what the
/// stream holds.
pub fn unpack_entries(bytes: &Vec<u8>) -> (r: Result<Vec<ArchiveEntry>, FsError>)
    ensures
        r is Ok ==> zip_entries_of(bytes@) == Some(entries_model(r->Ok_0@)),
        r is Ok ==> all_names_safe(entries_model(r->Ok_0@)),
        (r is Err && r->Err_0.kind == ErrorKind::InvalidFormat) <==> zip_entries_of(bytes@)
            is None,
        (r is Err && r->Err_0.kind == ErrorKind::Security) <==> (zip_entries_of(bytes@) is Some
            && !all_names_safe(zip_entries_of(bytes@)->Some_0)),
        (zip_entries_of(bytes@) is Some && all_names_safe(zip_entries_of(bytes@)->Some_0)
            && zip_extractable(bytes@)) ==> r is Ok,
        r is Err ==> (r->Err_0.kind == ErrorKind::InvalidFormat || r->Err_0.kind
            == ErrorKind::Security || r->Err_0.kind == ErrorKind::Io),
{
    let mut archive = match zip_archive_open(bytes) {
        Ok(a) => a,
        Err(_) => {
            return Err(FsError::new(ErrorKind::InvalidFormat, "Not a readable archive"));
        },
    };
    let ghost model: Seq<(Seq<char>, Option<Seq<u8>>)> = zip_archive_entries(archive);
    let n = zip_archive_len(&archive);
    // First pass: the zip-slip guard over every stored name, before any
    // entry data is touched.
    let mut i: usize = 0;
    while i < n
        invariant
            zip_archive_entries(archive) == model,
            zip_entries_of(bytes@) == Some(model),
            zip_reader_extractable(archive) == zip_extractable(bytes@),
            n == model.len(),
            i <= n,
            forall|k: int| 0 <= k < i ==> safe_entry_name((#[trigger] model[k]).0),
        decreases n - i,
    {
        let name = zip_name_at(&archive, i);
        if !crate::paths::is_safe_entry_name(name.as_str()) {
            proof {
                assert(!safe_entry_name(model[i as int].0));
            }
            return Err(
                FsError::new(ErrorKind::Security, "Archive entry escapes the destination"),
            );
        }
        i += 1;
    }
    // Second pass: read every entry out.
    let mut out: Vec<ArchiveEntry> = Vec::new();
    let mut i: usize = 0;
    while i < n
        invariant
            zip_archive_entries(archive) == model,
            zip_entries_of(bytes@) == Some(model),
            zip_reader_extractable(archive) == zip_extractable(bytes@),
            n == model.len(),
            i <= n,
            entries_model(out@) =~= model.subrange(0, i as int),
            forall|k: int| 0 <= k < n ==> safe_entry_name((#[trigger] model[k]).0),
        decreases n - i,
    {
        let (name, data) = match zip_entry_at(&mut archive, i) {
            Ok(e) => e,
            Err(_) => {
                return Err(FsError::new(ErrorKind::Io, "Archive entry unreadable"));
            },
        };
        out.push(ArchiveEntry { name, data });
        proof {
            assert(entry_model(out@.last()).0 == model[i as int].0);
            assert(entry_model(out@.last()).1 == model[i as int].1);
            assert(entry_model(out@.last()) =~= model[i as int]);
            let ghost prev = out@.drop_last();
            assert(entries_model(prev) == model.subrange(0, i as int));
            assert forall|k: int| 0 <= k < i + 1 implies entries_model(out@)[k] == model.subrange(
                0,
                i as int + 1,
            )[k] by {
                if k < i {
                    assert(out@[k] == prev[k]);
                    assert(entries_model(prev)[k] == entry_model(prev[k]));
                }
            }
            assert(entries_model(out@) =~= model.subrange(0, i as int + 1));
        }
        i += 1;
    }
    proof {
        assert(entries_model(out@) =~= model);
        assert(all_names_safe(entries_model(out@)));
    }
    Ok(out)
}

} // verus!
