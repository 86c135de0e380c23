use std::io::Write;
use explorer_core::archive::{pack_entries, unpack_entries, ArchiveEntry};
use explorer_core::errors::ErrorKind;

fn file_entry(name: &str, data: &[u8]) -> ArchiveEntry {
    ArchiveEntry { name: name.to_string(), data: Some(data.to_vec()) }
}

fn dir_entry(name: &str) -> ArchiveEntry {
    ArchiveEntry { name: name.to_string(), data: None }
}

#[test]
fn archive_round_trip_reproduces_tree() {
    let tree = vec![
        dir_entry("sub/"),
        file_entry("sub/inner.txt", b"inner bytes"),
        dir_entry("sub/empty/"),
        file_entry("top.bin", &[0u8, 1, 2, 255]),
    ];
    let bytes = pack_entries(&tree).expect("packing failed");
    let back = unpack_entries(&bytes).expect("unpacking failed");
    assert_eq!(back.len(), tree.len());
    for (a, b) in tree.iter().zip(back.iter()) {
        assert_eq!(a.name, b.name);
        assert_eq!(a.data, b.data);
    }
}

#[test]
fn single_file_archive_round_trip() {
    let tree = vec![file_entry("only.txt", b"just me")];
    let bytes = pack_entries(&tree).expect("packing failed");
    let back = unpack_entries(&bytes).expect("unpacking failed");
    assert_eq!(back.len(), 1);
    assert_eq!(back[0].name, "only.txt");
    assert_eq!(back[0].data.as_deref(), Some(b"just me".as_slice()));
}

#[test]
fn empty_archive_round_trip() {
    let tree: Vec<ArchiveEntry> = Vec::new();
    let bytes = pack_entries(&tree).expect("packing failed");
    let back = unpack_entries(&bytes).expect("unpacking failed");
    assert!(back.is_empty());
}

#[test]
fn garbage_bytes_are_invalid_format() {
    let bytes: Vec<u8> = b"this is not a zip archive at all".to_vec();
    let err = unpack_entries(&bytes).expect_err("garbage accepted");
    assert_eq!(err.kind(), ErrorKind::InvalidFormat);
}

fn raw_zip_with_entry(name: &str) -> Vec<u8> {
    let cursor = std::io::Cursor::new(Vec::new());
    let mut writer = zip::ZipWriter::new(cursor);
    let options = zip::write::SimpleFileOptions::default()
        .compression_method(zip::CompressionMethod::Stored);
    writer.start_file(name, options).expect("start_file failed");
    writer.write_all(b"malicious").expect("write failed");
    writer.finish().expect("finish failed").into_inner()
}

#[test]
fn dotdot_entry_is_rejected_as_security() {
    let bytes = raw_zip_with_entry("../evil.txt");
    let err = unpack_entries(&bytes).expect_err("zip-slip entry accepted");
    assert_eq!(err.kind(), ErrorKind::Security);
}

#[test]
fn nested_dotdot_entry_is_rejected_as_security() {
    let bytes = raw_zip_with_entry("ok/../../evil.txt");
    let err = unpack_entries(&bytes).expect_err("zip-slip entry accepted");
    assert_eq!(err.kind(), ErrorKind::Security);
}

#[test]
fn absolute_entry_is_rejected_as_security() {
    let bytes = raw_zip_with_entry("/etc/evil");
    let err = unpack_entries(&bytes).expect_err("absolute entry accepted");
    assert_eq!(err.kind(), ErrorKind::Security);
}

#[test]
fn duplicate_names_are_refused_as_io() {
    let tree = vec![file_entry("twice.txt", b"one"), file_entry("twice.txt", b"two")];
    let err = pack_entries(&tree).expect_err("duplicate names accepted");
    assert_eq!(err.kind(), ErrorKind::Io);
}

#[test]
fn overlong_name_is_refused_as_io() {
    let name = "x".repeat(70000);
    let tree = vec![file_entry(&name, b"data")];
    let err = pack_entries(&tree).expect_err("overlong name accepted");
    assert_eq!(err.kind(), ErrorKind::Io);
}

#[test]
fn innocent_dotdot_in_name_is_accepted() {
    let bytes = raw_zip_with_entry("notes..txt");
    let back = unpack_entries(&bytes).expect("harmless name rejected");
    assert_eq!(back.len(), 1);
    assert_eq!(back[0].name, "notes..txt");
}
