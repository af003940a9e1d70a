use quorum_trust::crypto::identity::{MemberIdentity, MemberRecord, MemberStatus};

#[test]
fn test_identity_creation() {
    let id = MemberIdentity::new("abcdef1234567890", Some("Alice".into()));
    assert!(!id.digest.is_empty());
    assert_eq!(id.display_name.as_deref(), Some("Alice"));
}

#[test]
fn test_digest_deterministic() {
    let d1 = MemberIdentity::compute_digest("key1");
    let d2 = MemberIdentity::compute_digest("key1");
    assert_eq!(d1, d2);
}

#[test]
fn test_different_keys_different_digests() {
    let d1 = MemberIdentity::compute_digest("key1");
    let d2 = MemberIdentity::compute_digest("key2");
    assert_ne!(d1, d2);
}

#[test]
fn test_digest_normalizes_whitespace() {
    let d1 = MemberIdentity::compute_digest("abc123");
    let d2 = MemberIdentity::compute_digest("abc123\n");
    let d3 = MemberIdentity::compute_digest("  abc123  ");
    assert_eq!(d1, d2);
    assert_eq!(d1, d3);
}

#[test]
fn digest_is_first_sixteen_bytes_of_sha512_in_hex() {
    // SHA-512("abc") starts with ddaf35a193617aba cc417349ae204131.
    let d = MemberIdentity::compute_digest("abc");
    assert_eq!(d, "ddaf35a193617abacc417349ae204131");
    assert_eq!(d.len(), 32);
}

#[test]
fn identity_keeps_trimmed_key() {
    let id = MemberIdentity::new("  key-with-spaces \n", None);
    assert_eq!(id.public_key_hex, "key-with-spaces");
    assert_eq!(id.digest, MemberIdentity::compute_digest("key-with-spaces"));
    assert!(id.x25519_public_key_hex.is_none());
}

#[test]
fn short_id_and_display() {
    let id = MemberIdentity::new("abc", Some("Alice".into()));
    assert_eq!(id.short_id(), "ddaf35a19361");
    assert_eq!(id.display(), "Alice (ddaf35a19361)");
    let anon = MemberIdentity::new("abc", None);
    assert_eq!(anon.display(), "ddaf35a19361");
}

#[test]
fn with_x25519_sets_only_the_key() {
    let id = MemberIdentity::new("abc", Some("Alice".into()));
    let digest = id.digest.clone();
    let id = id.with_x25519("00ff".to_string());
    assert_eq!(id.x25519_public_key_hex.as_deref(), Some("00ff"));
    assert_eq!(id.digest, digest);
    assert_eq!(id.display_name.as_deref(), Some("Alice"));
}

#[test]
fn records_start_active_or_pending() {
    let g = MemberRecord::new_genesis(MemberIdentity::new("g", None));
    assert_eq!(g.status, MemberStatus::Active);
    assert!(g.joined_at.is_some());
    assert!(g.expelled_at.is_none());
    let p = MemberRecord::new_pending(MemberIdentity::new("p", None));
    assert_eq!(p.status, MemberStatus::PendingJoin);
    assert!(p.joined_at.is_none());
}
