use explorer_core::entry::{entry_from_metadata, FileEntry, FileType, RawMeta};
use explorer_core::scanner::{build_listing, filter_matching, sort_entries, SortColumn, SortOrder};

fn raw(name: &str, is_dir: bool, len: u64, modified: i64) -> RawMeta {
    RawMeta {
        name: name.to_string(),
        path: format!("/root/{}", name),
        is_dir,
        is_symlink: false,
        len,
        modified,
        attributes: 0,
    }
}

fn entry(name: &str, file_type: FileType, size: u64, modified: i64) -> FileEntry {
    FileEntry {
        name: name.to_string(),
        path: format!("/root/{}", name),
        file_type,
        size,
        modified,
        is_hidden: false,
    }
}

fn names(entries: &[FileEntry]) -> Vec<String> {
    entries.iter().map(|e| e.name.clone()).collect()
}

#[test]
fn listing_order_directories_first_case_insensitive() {
    // Subdirectories {"B", "a"} and files {"c.txt", "A.txt"}: directories
    // first, case-insensitive name order within each group.
    let listing = build_listing(vec![
        raw("c.txt", false, 10, 0),
        raw("B", true, 0, 0),
        raw("A.txt", false, 20, 0),
        raw("a", true, 0, 0),
    ]);
    assert_eq!(names(&listing), vec!["a", "B", "A.txt", "c.txt"]);
}

#[test]
fn listing_sets_directory_size_to_zero() {
    let listing = build_listing(vec![raw("d", true, 4096, 7)]);
    assert_eq!(listing.len(), 1);
    assert_eq!(listing[0].file_type, FileType::Directory);
    assert_eq!(listing[0].size, 0);
    assert_eq!(listing[0].modified, 7);
}

#[test]
fn entry_from_metadata_maps_kind_size_and_hidden_bit() {
    let e = entry_from_metadata(RawMeta {
        name: "link".to_string(),
        path: "/p/link".to_string(),
        is_dir: false,
        is_symlink: true,
        len: 5,
        modified: 11,
        attributes: 0x2,
    });
    assert_eq!(e.file_type, FileType::Symlink);
    assert_eq!(e.size, 5);
    assert!(e.is_hidden);
    let plain = entry_from_metadata(raw("f.txt", false, 9, 1));
    assert_eq!(plain.file_type, FileType::File);
    assert!(!plain.is_hidden);
}

#[test]
fn sort_by_size_keeps_directories_on_top() {
    let mut entries = vec![
        entry("big.bin", FileType::File, 900, 0),
        entry("dir", FileType::Directory, 0, 0),
        entry("small.bin", FileType::File, 1, 0),
    ];
    sort_entries(&mut entries, SortColumn::Size, SortOrder::Ascending);
    assert_eq!(names(&entries), vec!["dir", "small.bin", "big.bin"]);
    sort_entries(&mut entries, SortColumn::Size, SortOrder::Descending);
    assert_eq!(names(&entries), vec!["dir", "big.bin", "small.bin"]);
}

#[test]
fn sort_by_modified_descending() {
    let mut entries = vec![
        entry("old.txt", FileType::File, 1, 100),
        entry("new.txt", FileType::File, 1, 300),
        entry("mid.txt", FileType::File, 1, 200),
    ];
    sort_entries(&mut entries, SortColumn::Modified, SortOrder::Descending);
    assert_eq!(names(&entries), vec!["new.txt", "mid.txt", "old.txt"]);
}

#[test]
fn sort_by_name_descending_keeps_directories_on_top() {
    let mut entries = vec![
        entry("beta", FileType::File, 1, 0),
        entry("Alpha", FileType::File, 1, 0),
        entry("zoo", FileType::Directory, 0, 0),
    ];
    sort_entries(&mut entries, SortColumn::Name, SortOrder::Descending);
    assert_eq!(names(&entries), vec!["zoo", "beta", "Alpha"]);
}

#[test]
fn search_match_is_case_insensitive_substring() {
    let entries = vec![
        entry("Match.TXT", FileType::File, 1, 0),
        entry("other.txt", FileType::File, 1, 0),
        entry("rematched", FileType::File, 1, 0),
    ];
    let hits = filter_matching(&entries, "match");
    assert_eq!(names(&hits), vec!["Match.TXT", "rematched"]);
}

#[test]
fn search_finds_entry_three_levels_deep() {
    // The walk hands every entry of the subtree to the filter, whatever
    // its depth; a deep match is returned like a shallow one.
    let deep = FileEntry {
        name: "match.txt".to_string(),
        path: "/root/sub/deep/match.txt".to_string(),
        file_type: FileType::File,
        size: 1,
        modified: 0,
        is_hidden: false,
    };
    let shallow = entry("nothing.rs", FileType::File, 1, 0);
    let hits = filter_matching(&vec![shallow, deep], "match");
    assert_eq!(hits.len(), 1);
    assert_eq!(hits[0].path, "/root/sub/deep/match.txt");
}

#[test]
fn empty_query_matches_everything() {
    let entries = vec![entry("a", FileType::File, 1, 0), entry("b", FileType::File, 1, 0)];
    let hits = filter_matching(&entries, "");
    assert_eq!(hits.len(), 2);
}
