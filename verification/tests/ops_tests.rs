use explorer_core::coordinator::ScanCoordinator;
use explorer_core::errors::ErrorKind;
use explorer_core::ops::{copy_destination, plan_create_directory, plan_create_file, rename_target};
use explorer_core::text::{name_matches, str_contains, str_eq};

#[test]
fn create_file_succeeds_then_already_exists() {
    let mut children: Vec<String> = vec!["a.txt".to_string()];
    assert!(plan_create_file(&children, "x").is_ok());
    // The first creation succeeded, so the parent now lists "x".
    children.push("x".to_string());
    let err = plan_create_file(&children, "x").expect_err("second creation accepted");
    assert_eq!(err.kind(), ErrorKind::AlreadyExists);
    assert_eq!(err.message(), "File already exists");
}

#[test]
fn create_directory_refused_when_name_taken() {
    let children: Vec<String> = vec!["docs".to_string()];
    let err = plan_create_directory(&children, "docs").expect_err("existing name accepted");
    assert_eq!(err.kind(), ErrorKind::AlreadyExists);
    assert_eq!(err.message(), "Directory already exists");
    assert!(plan_create_directory(&children, "new").is_ok());
}

#[test]
fn rename_stays_in_parent_directory() {
    let target = rename_target("/a/b/old.txt", "new.txt").expect("rename refused");
    assert_eq!(target, "/a/b/new.txt");
}

#[test]
fn rename_without_parent_fails() {
    let err = rename_target("/", "new").expect_err("root renamed");
    assert_eq!(err.kind(), ErrorKind::Io);
    assert_eq!(err.message(), "No parent directory");
}

#[test]
fn copy_lands_under_destination_with_source_name() {
    let dest = copy_destination("/src/tree", "/dst").expect("copy refused");
    assert_eq!(dest, "/dst/tree");
}

#[test]
fn copy_of_nameless_source_fails() {
    let err = copy_destination("/", "/dst").expect_err("nameless source accepted");
    assert_eq!(err.kind(), ErrorKind::Io);
}

#[test]
fn stale_listing_results_are_rejected() {
    let mut c = ScanCoordinator::new();
    assert!(c.can_issue());
    let first = c.issue();
    assert!(c.is_current(first));
    let second = c.issue();
    assert!(!c.is_current(first));
    assert!(c.is_current(second));
    assert!(!c.is_current(0));
}

#[test]
fn string_helpers_compare_and_search() {
    assert!(str_eq("same", "same"));
    assert!(!str_eq("same", "Same"));
    assert!(str_contains("haystack", "stack"));
    assert!(!str_contains("haystack", "needle"));
    assert!(str_contains("anything", ""));
    assert!(name_matches("Report-FINAL.pdf", "final"));
    assert!(!name_matches("Report.pdf", "final"));
}
