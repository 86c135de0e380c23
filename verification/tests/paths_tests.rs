use explorer_core::paths::{
    base_name, decrypted_path, encrypted_path, is_safe_entry_name, join_path, parent_dir,
};

#[test]
fn join_inserts_separator() {
    assert_eq!(join_path("/home/user", "file.txt"), "/home/user/file.txt");
}

#[test]
fn join_keeps_trailing_separator() {
    assert_eq!(join_path("/home/user/", "file.txt"), "/home/user/file.txt");
    assert_eq!(join_path("C:\\Users\\", "file.txt"), "C:\\Users\\file.txt");
}

#[test]
fn join_with_empty_parent_is_the_name() {
    assert_eq!(join_path("", "file.txt"), "file.txt");
}

#[test]
fn parent_of_nested_path() {
    assert_eq!(parent_dir("/a/b/c"), Some("/a/b".to_string()));
    assert_eq!(parent_dir("a\\b"), Some("a".to_string()));
}

#[test]
fn parent_of_root_and_bare_name() {
    assert_eq!(parent_dir("/"), None);
    assert_eq!(parent_dir(""), None);
    assert_eq!(parent_dir("/x"), Some("/".to_string()));
    assert_eq!(parent_dir("x"), Some("".to_string()));
}

#[test]
fn base_name_is_final_component() {
    assert_eq!(base_name("/a/b/c.txt"), "c.txt");
    assert_eq!(base_name("bare"), "bare");
    assert_eq!(base_name("/a/b/"), "");
}

#[test]
fn encrypted_path_appends_suffix() {
    assert_eq!(encrypted_path("/d/report.pdf"), "/d/report.pdf.enc");
    assert_eq!(encrypted_path("noext"), "noext.enc");
}

#[test]
fn decrypted_path_strips_suffix_or_appends() {
    assert_eq!(decrypted_path("/d/report.pdf.enc"), "/d/report.pdf");
    assert_eq!(decrypted_path("/d/report.pdf"), "/d/report.pdf.decrypted");
    assert_eq!(decrypted_path(".enc"), "");
}

#[test]
fn safe_names_accept_plain_relative_paths() {
    assert!(is_safe_entry_name("file.txt"));
    assert!(is_safe_entry_name("sub/dir/file.txt"));
    assert!(is_safe_entry_name("sub/"));
    assert!(is_safe_entry_name("notes..txt"));
    assert!(is_safe_entry_name("..hidden"));
    assert!(is_safe_entry_name("a..b/c"));
}

#[test]
fn safe_names_reject_traversal_and_absolute() {
    assert!(!is_safe_entry_name("../evil.txt"));
    assert!(!is_safe_entry_name("ok/../../evil.txt"));
    assert!(!is_safe_entry_name("a/.."));
    assert!(!is_safe_entry_name(".."));
    assert!(!is_safe_entry_name("/etc/passwd"));
    assert!(!is_safe_entry_name("\\windows\\evil"));
    assert!(!is_safe_entry_name("C:\\evil"));
    assert!(!is_safe_entry_name("a\\..\\b"));
    assert!(!is_safe_entry_name(""));
}
