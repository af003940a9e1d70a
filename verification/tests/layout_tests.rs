use quorum_trust::document::layout::{
    child_path, diff_file_name, file_list_entry, fork_target_path, is_diff_name, is_hidden_name, TrackingStatus,
};
use quorum_trust::document::versioning::{DocumentMeta, DocumentStatus, FolderRegistry};
use quorum_trust::support::hashing::content_hash_hex;

#[test]
fn listing_paths_join_with_slashes() {
    assert_eq!(child_path("", "a.md"), "a.md");
    assert_eq!(child_path("docs", "a.md"), "docs/a.md");
    assert_eq!(child_path("docs/sub", "b"), "docs/sub/b");
}

#[test]
fn hidden_and_diff_names() {
    assert!(is_hidden_name(".git"));
    assert!(is_hidden_name(".registry.json"));
    assert!(!is_hidden_name("notes.md"));
    assert!(!is_hidden_name(""));
    assert!(is_diff_name("doc.md.20240101120000.abcdef12.diff"));
    assert!(is_diff_name(".diff"));
    assert!(!is_diff_name("diff"));
    assert!(!is_diff_name("doc.diff.md"));
}

#[test]
fn forks_go_beside_their_source() {
    assert_eq!(fork_target_path("doc.md", Some("doc-v2.md"), "20240101120000"), "doc-v2.md");
    assert_eq!(fork_target_path("a/doc.md", Some("b.md"), "20240101120000"), "a/b.md");
    assert_eq!(fork_target_path("a/doc.md", None, "20240101120000"), "a/doc-fork-20240101120000.md");
    assert_eq!(fork_target_path("README", None, "20240101120000"), "README-fork-20240101120000");
    assert_eq!(fork_target_path("src/main.js", None, "1"), "src/main-fork-1.js");
}

#[test]
fn diff_files_are_named_by_file_time_and_proposer() {
    let name = diff_file_name("sub/doc.md", "20240101120000", "abcdef1234");
    assert_eq!(name, "doc.md.20240101120000.abcdef12.diff");
    assert!(name.contains(".diff"));
    assert_eq!(diff_file_name("root.md", "20240101120000", "ab"), "root.md.20240101120000.ab.diff");
    assert!(is_diff_name(&name));
}

#[test]
fn listing_entries_show_what_the_registry_records() {
    let mut reg = FolderRegistry::default();
    let mut meta = DocumentMeta::new("doc.md", "hash123", "alice");
    meta.threshold_signature = Some(vec![0xab, 0x01]);
    meta.frost_threshold = Some(2);
    meta.frost_total = Some(3);
    reg.register_document(meta);

    let e = file_list_entry(&reg, "doc.md", false);
    assert_eq!(e.path, "doc.md");
    assert_eq!(e.tracking_status, TrackingStatus::IsTracked);
    assert_eq!(e.version, Some(1));
    assert_eq!(e.doc_status, Some(DocumentStatus::Draft));
    assert_eq!(e.threshold_signature_hex.as_deref(), Some("ab01"));
    assert_eq!(e.group_public_key_hex, None);
    assert_eq!(e.frost_threshold, Some(2));
    assert_eq!(e.frost_total, Some(3));
    assert!(!e.is_network);

    let other = file_list_entry(&reg, "other.md", false);
    assert_eq!(other.tracking_status, TrackingStatus::NotTracked);
    assert_eq!(other.version, None);

    let dir = file_list_entry(&reg, "doc.md", true);
    assert!(dir.is_dir);
    assert_eq!(dir.tracking_status, TrackingStatus::NotTracked);
}

#[test]
fn content_hashes_are_sha256_hex() {
    let h = content_hash_hex("");
    assert_eq!(h, "e3b0c44298fc1c149afbf4c8996fb92427ae41e4649b934ca495991b7852b855");
    assert_ne!(content_hash_hex("a"), content_hash_hex("b"));
    assert_eq!(content_hash_hex("abc"), content_hash_hex("abc"));
}
