use quorum_trust::governance::voting::{Proposal, ProposalStatus, ProposalType, Vote, VoteChoice};

fn make_vote(voter: &str, choice: VoteChoice) -> Vote {
    Vote {
        voter_digest: voter.to_string(),
        choice,
        signature: vec![0u8; 64],
        timestamp: chrono::Utc::now().timestamp_millis(),
    }
}

#[test]
fn test_single_member_accepts() {
    let mut p = Proposal::new(
        ProposalType::AddMember { public_key_hex: "abc".into(), display_name: None },
        "genesis",
    );
    p.add_vote(make_vote("genesis", VoteChoice::Accept));
    assert!(p.check_accepted(1));
}

#[test]
fn test_two_of_two_required() {
    let mut p = Proposal::new(
        ProposalType::AddMember { public_key_hex: "abc".into(), display_name: None },
        "a",
    );
    p.add_vote(make_vote("a", VoteChoice::Accept));
    assert!(!p.check_accepted(2));
    p.add_vote(make_vote("b", VoteChoice::Accept));
    assert!(p.check_accepted(2));
}

#[test]
fn test_three_members_need_three_accepts() {
    let mut p = Proposal::new(
        ProposalType::AddMember { public_key_hex: "abc".into(), display_name: None },
        "a",
    );
    p.add_vote(make_vote("a", VoteChoice::Accept));
    p.add_vote(make_vote("b", VoteChoice::Accept));
    assert!(!p.check_accepted(3));
    p.add_vote(make_vote("c", VoteChoice::Accept));
    assert!(p.check_accepted(3));
}

#[test]
fn test_rejection_threshold() {
    let mut p = Proposal::new(
        ProposalType::AddFile { path: "doc.md".into(), content_hash: "hash".into(), content: None },
        "a",
    );
    p.add_vote(make_vote("a", VoteChoice::Reject));
    p.add_vote(make_vote("b", VoteChoice::Reject));
    assert!(p.check_rejected(3));
}

#[test]
fn test_no_duplicate_votes() {
    let mut p = Proposal::new(ProposalType::RemoveFile { path: "doc.md".into() }, "a");
    assert!(p.add_vote(make_vote("a", VoteChoice::Accept)));
    assert!(!p.add_vote(make_vote("a", VoteChoice::Reject)));
    assert_eq!(p.total_votes(), 1);
}

#[test]
fn thresholds_for_small_networks() {
    // Accept needs floor(2n/3) + 1 votes, reject needs ceil(2n/3).
    let mut p = Proposal::new(ProposalType::RemoveFile { path: "x".into() }, "a");
    for (i, name) in ["a", "b", "c", "d", "e"].iter().enumerate() {
        p.add_vote(make_vote(name, VoteChoice::Accept));
        assert_eq!(p.accept_count(), i + 1);
    }
    assert!(!p.check_accepted(0));
    assert!(p.check_accepted(7)); // 5 >= 14/3 + 1 = 5
    assert!(!p.check_accepted(8)); // 5 < 16/3 + 1 = 6
    let mut q = Proposal::new(ProposalType::RemoveFile { path: "x".into() }, "a");
    q.add_vote(make_vote("a", VoteChoice::Reject));
    q.add_vote(make_vote("b", VoteChoice::Reject));
    assert!(q.check_rejected(2));
    assert!(!q.check_rejected(4)); // needs 10/3 = 3
    assert!(!q.check_rejected(0));
    assert_eq!(q.reject_count(), 2);
}

#[test]
fn resolve_is_final_and_idempotent() {
    let mut p = Proposal::new(ProposalType::RemoveFile { path: "x".into() }, "a");
    p.add_vote(make_vote("a", VoteChoice::Accept));
    assert_eq!(p.resolve(1), ProposalStatus::Accepted);
    assert!(p.resolved_at.is_some());
    let at = p.resolved_at;
    assert_eq!(p.resolve(100), ProposalStatus::Accepted);
    assert_eq!(p.resolved_at, at);
    assert!(!p.add_vote(make_vote("b", VoteChoice::Reject)));
}

#[test]
fn resolve_rejects_and_stays_pending() {
    let mut p = Proposal::new(ProposalType::RemoveFile { path: "x".into() }, "a");
    p.add_vote(make_vote("a", VoteChoice::Reject));
    assert_eq!(p.resolve(3), ProposalStatus::Pending);
    assert!(p.resolved_at.is_none());
    p.add_vote(make_vote("b", VoteChoice::Reject));
    assert_eq!(p.resolve(3), ProposalStatus::Rejected);
}

#[test]
fn with_id_keeps_the_id() {
    let p = Proposal::with_id("peer-id".into(), ProposalType::MarkFinal { path: "a".into() }, "x");
    assert_eq!(p.id, "peer-id");
    assert_eq!(p.proposer_digest, "x");
    assert_eq!(p.status, ProposalStatus::Pending);
    let q = Proposal::new(ProposalType::MarkFinal { path: "a".into() }, "x");
    assert_eq!(q.id.len(), 36);
}
