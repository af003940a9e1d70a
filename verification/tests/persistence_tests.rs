use quorum_trust::crypto::identity::{MemberIdentity, MemberRecord, MemberStatus};
use quorum_trust::governance::membership::GovernanceState;
use quorum_trust::governance::persistence::{governance_path, restore_for_network, GovernanceSnapshot};
use quorum_trust::governance::voting::ProposalType;
use std::path::Path;
use tempfile::TempDir;

#[test]
fn test_governance_path() {
    let dir = TempDir::new().unwrap();
    let path = governance_path(dir.path().to_str().unwrap());
    let path = Path::new(&path);
    assert!(path.ends_with("governance.json"));
    assert!(path.parent().unwrap().ends_with(dir.path().file_name().unwrap()));
}

#[test]
fn governance_path_joins_the_file_name() {
    assert_eq!(governance_path("/var/qt"), "/var/qt/governance.json");
    assert_eq!(governance_path("data/"), "data/governance.json");
}

#[test]
fn snapshot_round_trip_keeps_members_files_and_epoch() {
    let genesis = MemberIdentity::new("pk_genesis", Some("Genesis".into()));
    let genesis_digest = genesis.digest.clone();
    let mut gov = GovernanceState::new_genesis("net", genesis);
    gov.accepted_file_paths.insert("contracts/agreement.md".into());
    gov.epoch = 42;
    let pid = gov
        .submit_proposal(
            ProposalType::AddFile { path: "x.md".into(), content: Some("# X".into()), content_hash: "h".into() },
            &genesis_digest,
        )
        .unwrap();
    assert!(gov.proposals.contains_key(&pid));
    gov.increment_rate_counter(&genesis_digest);

    let snapshot = GovernanceSnapshot::from_state(&gov);
    assert_eq!(snapshot.network_name, "net");
    assert_eq!(snapshot.epoch, 42);
    let loaded = snapshot.into_state();
    assert_eq!(loaded.network_name, "net");
    assert_eq!(loaded.epoch, 42);
    assert_eq!(loaded.active_member_count(), 1);
    assert!(loaded.is_active_member(&genesis_digest));
    assert!(loaded.is_network_file("contracts/agreement.md"));
    assert!(!loaded.is_network_file("other.md"));
    assert!(loaded.proposals.is_empty());
    assert!(loaded.rate_counters.is_empty());
}

#[test]
fn snapshot_keeps_expelled_and_extra_members() {
    let genesis = MemberIdentity::new("genesis_pk", Some("Alice".into()));
    let mut gov = GovernanceState::new_genesis("multi-net", genesis);
    let bob = MemberIdentity::new("bob_pk", Some("Bob".into()));
    gov.members.insert(
        bob.digest.clone(),
        MemberRecord { identity: bob, status: MemberStatus::Active, joined_at: Some(1), expelled_at: None },
    );
    let carol = MemberIdentity::new("carol_pk", None);
    gov.members.insert(
        carol.digest.clone(),
        MemberRecord { identity: carol, status: MemberStatus::Expelled, joined_at: Some(1), expelled_at: Some(2) },
    );
    let loaded = GovernanceSnapshot::from_state(&gov).into_state();
    assert_eq!(loaded.active_member_count(), 2);
    assert!(loaded.is_active_member(&MemberIdentity::compute_digest("genesis_pk")));
    assert!(loaded.is_active_member(&MemberIdentity::compute_digest("bob_pk")));
    let c = loaded.members.get(&MemberIdentity::compute_digest("carol_pk")).unwrap();
    assert_eq!(c.status, MemberStatus::Expelled);
    assert_eq!(c.expelled_at, Some(2));
}

#[test]
fn snapshots_of_another_network_are_ignored() {
    let id = MemberIdentity::new("pk_hex", Some("Alice".into()));
    let mut gov = GovernanceState::new_genesis("test-net", id);
    gov.epoch = 3;
    let snapshot = GovernanceSnapshot::from_state(&gov);
    assert!(restore_for_network(snapshot.clone(), "other-net").is_none());
    let restored = restore_for_network(snapshot, "test-net").unwrap();
    assert_eq!(restored.network_name, "test-net");
    assert_eq!(restored.active_member_count(), 1);
    assert_eq!(restored.epoch, 3);
    assert!(restored.proposals.is_empty());
}
