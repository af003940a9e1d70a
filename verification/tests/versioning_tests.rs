use quorum_trust::document::versioning::{DocumentMeta, DocumentStatus, FolderRegistry};

#[test]
fn test_version_increment() {
    let mut reg = FolderRegistry::default();
    reg.register_document(DocumentMeta::new("doc.md", "h1", "alice"));
    assert_eq!(reg.increment_version("doc.md", "bob", "h2"), Some(2));
    assert_eq!(reg.get_document("doc.md").unwrap().version, 2);
}

#[test]
fn test_mark_final() {
    let mut reg = FolderRegistry::default();
    reg.register_document(DocumentMeta::new("doc.md", "h1", "alice"));
    assert!(reg.mark_final("doc.md"));
    assert!(reg.get_document("doc.md").unwrap().is_final());
}

#[test]
fn test_deadline_auto_finalize() {
    let mut reg = FolderRegistry::default();
    let past = chrono::Utc::now().timestamp_millis() - 3_600_000;
    let meta = DocumentMeta::new("doc.md", "h1", "alice").with_deadline(past);
    reg.register_document(meta);
    reg.check_deadlines();
    assert!(reg.get_document("doc.md").unwrap().is_final());
}

#[test]
fn untracked_documents_are_left_alone() {
    let mut reg = FolderRegistry::default();
    assert_eq!(reg.increment_version("missing.md", "bob", "h"), None);
    assert!(!reg.mark_final("missing.md"));
    assert!(reg.get_document("missing.md").is_none());
}

#[test]
fn increment_records_updater_and_hash() {
    let mut reg = FolderRegistry::default();
    reg.register_document(DocumentMeta::new("doc.md", "h1", "alice"));
    reg.increment_version("doc.md", "bob", "h2");
    assert_eq!(reg.increment_version("doc.md", "carol", "h3"), Some(3));
    let m = reg.get_document("doc.md").unwrap();
    assert_eq!(m.last_updated_by, "carol");
    assert_eq!(m.content_hash, "h3");
    assert_eq!(m.created_by, "alice");
}

#[test]
fn deadlines_only_finalize_due_drafts() {
    let mut reg = FolderRegistry::default();
    reg.register_document(DocumentMeta::new("due.md", "h", "a").with_deadline(100));
    reg.register_document(DocumentMeta::new("later.md", "h", "a").with_deadline(300));
    reg.register_document(DocumentMeta::new("none.md", "h", "a"));
    let mut forked = DocumentMeta::new("fork.md", "h", "a").with_deadline(50);
    forked.status = DocumentStatus::Forked { from: "due.md".into() };
    reg.register_document(forked);
    reg.check_deadlines_at(200);
    assert!(reg.get_document("due.md").unwrap().is_final());
    assert!(!reg.get_document("later.md").unwrap().is_final());
    assert!(!reg.get_document("none.md").unwrap().is_final());
    assert_eq!(reg.get_document("fork.md").unwrap().status, DocumentStatus::Forked { from: "due.md".into() });
    reg.check_deadlines_at(300);
    assert!(reg.get_document("later.md").unwrap().is_final());
}

#[test]
fn new_document_is_a_draft_at_version_one() {
    let m = DocumentMeta::new("a.md", "hash", "me");
    assert_eq!(m.version, 1);
    assert_eq!(m.status, DocumentStatus::Draft);
    assert_eq!(m.created_at, m.updated_at);
    assert!(m.deadline.is_none());
    let mut reg = FolderRegistry::default();
    reg.register_document(m);
    reg.register_document(DocumentMeta::new("b.md", "hash", "me"));
    assert_eq!(reg.tracked_files(), vec!["a.md", "b.md"]);
}

#[test]
fn registries_record_threshold_signatures_and_removals() {
    let mut reg = FolderRegistry::default();
    reg.register_document(DocumentMeta::new("doc.md", "hash", "alice"));
    assert!(reg.is_editable("doc.md"));
    assert!(reg.is_editable("untracked.md"));
    assert!(!reg.set_threshold_signature("missing.md", vec![1], vec![2], 2, 3));
    assert!(reg.set_threshold_signature("doc.md", vec![1, 2], vec![3], 2, 3));
    let m = reg.get_document("doc.md").unwrap();
    assert_eq!(m.threshold_signature, Some(vec![1, 2]));
    assert_eq!(m.group_public_key, Some(vec![3]));
    assert_eq!(m.frost_threshold, Some(2));
    assert_eq!(m.frost_total, Some(3));
    assert_eq!(m.version, 1);
    assert!(reg.mark_final("doc.md"));
    assert!(!reg.is_editable("doc.md"));
    let removed = reg.remove_document("doc.md").unwrap();
    assert_eq!(removed.path, "doc.md");
    assert!(reg.get_document("doc.md").is_none());
    assert!(reg.remove_document("doc.md").is_none());
}
