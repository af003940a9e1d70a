use quorum_trust::crypto::identity::MemberIdentity;
use quorum_trust::governance::membership::{GovernanceError, GovernanceState};
use quorum_trust::governance::voting::{ProposalStatus, ProposalType, Vote, VoteChoice};

fn genesis_state() -> (GovernanceState, MemberIdentity) {
    let identity = MemberIdentity::new("genesis_pk_hex", Some("Genesis".into()));
    let state = GovernanceState::new_genesis("test-network", identity.clone());
    (state, identity)
}

#[test]
fn test_genesis_has_one_active_member() {
    let (state, _) = genesis_state();
    assert_eq!(state.active_member_count(), 1);
}

#[test]
fn test_add_second_member_genesis_approves() {
    let (mut state, genesis) = genesis_state();
    let proposal_id = state
        .submit_proposal(
            ProposalType::AddMember {
                public_key_hex: "member2_pk".into(),
                display_name: Some("Bob".into()),
            },
            &genesis.digest,
        )
        .unwrap();

    let vote = Vote {
        voter_digest: genesis.digest.clone(),
        choice: VoteChoice::Accept,
        signature: vec![0u8; 64],
        timestamp: chrono::Utc::now().timestamp_millis(),
    };
    let status = state.cast_vote(&proposal_id, vote).unwrap();
    assert_eq!(status, ProposalStatus::Accepted);
    assert_eq!(state.active_member_count(), 2);
}

#[test]
fn test_add_third_member_needs_both_votes() {
    let (mut state, genesis) = genesis_state();

    // Add second member
    let pid = state
        .submit_proposal(
            ProposalType::AddMember {
                public_key_hex: "m2pk".into(),
                display_name: None,
            },
            &genesis.digest,
        )
        .unwrap();
    state
        .cast_vote(
            &pid,
            Vote {
                voter_digest: genesis.digest.clone(),
                choice: VoteChoice::Accept,
                signature: vec![0; 64],
                timestamp: chrono::Utc::now().timestamp_millis(),
            },
        )
        .unwrap();

    let m2_digest = MemberIdentity::compute_digest("m2pk");

    // Propose third member
    let pid2 = state
        .submit_proposal(
            ProposalType::AddMember {
                public_key_hex: "m3pk".into(),
                display_name: None,
            },
            &genesis.digest,
        )
        .unwrap();

    // Only genesis votes -> not enough
    let status = state
        .cast_vote(
            &pid2,
            Vote {
                voter_digest: genesis.digest.clone(),
                choice: VoteChoice::Accept,
                signature: vec![0; 64],
                timestamp: chrono::Utc::now().timestamp_millis(),
            },
        )
        .unwrap();
    assert_eq!(status, ProposalStatus::Pending);

    // Second member votes -> accepted
    let status = state
        .cast_vote(
            &pid2,
            Vote {
                voter_digest: m2_digest,
                choice: VoteChoice::Accept,
                signature: vec![0; 64],
                timestamp: chrono::Utc::now().timestamp_millis(),
            },
        )
        .unwrap();
    assert_eq!(status, ProposalStatus::Accepted);
    assert_eq!(state.active_member_count(), 3);
}

#[test]
fn test_expel_member() {
    let (mut state, genesis) = genesis_state();

    // Add member
    let pid = state
        .submit_proposal(
            ProposalType::AddMember {
                public_key_hex: "victim_pk".into(),
                display_name: None,
            },
            &genesis.digest,
        )
        .unwrap();
    state
        .cast_vote(
            &pid,
            Vote {
                voter_digest: genesis.digest.clone(),
                choice: VoteChoice::Accept,
                signature: vec![0; 64],
                timestamp: chrono::Utc::now().timestamp_millis(),
            },
        )
        .unwrap();

    let victim_digest = MemberIdentity::compute_digest("victim_pk");

    // Expel
    let pid2 = state
        .submit_proposal(
            ProposalType::ExpelMember {
                member_digest: victim_digest.clone(),
            },
            &genesis.digest,
        )
        .unwrap();

    // Both vote to expel
    state
        .cast_vote(
            &pid2,
            Vote {
                voter_digest: genesis.digest.clone(),
                choice: VoteChoice::Accept,
                signature: vec![0; 64],
                timestamp: chrono::Utc::now().timestamp_millis(),
            },
        )
        .unwrap();
    state
        .cast_vote(
            &pid2,
            Vote {
                voter_digest: victim_digest.clone(),
                choice: VoteChoice::Accept,
                signature: vec![0; 64],
                timestamp: chrono::Utc::now().timestamp_millis(),
            },
        )
        .unwrap();

    assert_eq!(state.active_member_count(), 1);
    assert!(!state.is_active_member(&victim_digest));
}

#[test]
fn test_expel_bumps_epoch() {
    let (mut state, genesis) = genesis_state();
    assert_eq!(state.epoch, 0);

    let pid = state
        .submit_proposal(
            ProposalType::AddMember {
                public_key_hex: "bob_pk".into(),
                display_name: Some("Bob".into()),
            },
            &genesis.digest,
        )
        .unwrap();
    state.cast_vote(&pid, Vote {
        voter_digest: genesis.digest.clone(),
        choice: VoteChoice::Accept,
        signature: vec![0; 64],
        timestamp: chrono::Utc::now().timestamp_millis(),
    }).unwrap();
    assert_eq!(state.epoch, 1);
    assert_eq!(state.active_member_count(), 2);

    let bob_digest = MemberIdentity::compute_digest("bob_pk");
    let expel_pid = state.submit_proposal(
        ProposalType::ExpelMember { member_digest: bob_digest.clone() },
        &genesis.digest,
    ).unwrap();
    state.cast_vote(&expel_pid, Vote {
        voter_digest: genesis.digest.clone(),
        choice: VoteChoice::Accept,
        signature: vec![0; 64],
        timestamp: chrono::Utc::now().timestamp_millis(),
    }).unwrap();
    state.cast_vote(&expel_pid, Vote {
        voter_digest: bob_digest.clone(),
        choice: VoteChoice::Accept,
        signature: vec![0; 64],
        timestamp: chrono::Utc::now().timestamp_millis(),
    }).unwrap();

    assert_eq!(state.epoch, 2);
    assert_eq!(state.active_member_count(), 1);
    assert!(!state.is_active_member(&bob_digest));
}

#[test]
fn test_cannot_expel_self() {
    let (mut state, genesis) = genesis_state();

    let result = state.submit_proposal(
        ProposalType::ExpelMember { member_digest: genesis.digest.clone() },
        &genesis.digest,
    );
    assert!(result.is_err());
    match result.unwrap_err() {
        GovernanceError::CannotExpelSelf => {}
        other => panic!("Expected CannotExpelSelf, got: {:?}", other),
    }
}

#[test]
fn test_cannot_expel_nonactive_member() {
    let (mut state, genesis) = genesis_state();
    let fake_digest = "nonexistent_digest".to_string();

    let result = state.submit_proposal(
        ProposalType::ExpelMember { member_digest: fake_digest },
        &genesis.digest,
    );
    assert!(result.is_err());
    match result.unwrap_err() {
        GovernanceError::NotActiveMember => {}
        other => panic!("Expected NotActiveMember, got: {:?}", other),
    }
}

#[test]
fn test_cannot_expel_already_expelled_member() {
    let (mut state, genesis) = genesis_state();

    let pid = state.submit_proposal(
        ProposalType::AddMember {
            public_key_hex: "target_pk".into(),
            display_name: None,
        },
        &genesis.digest,
    ).unwrap();
    state.cast_vote(&pid, Vote {
        voter_digest: genesis.digest.clone(),
        choice: VoteChoice::Accept,
        signature: vec![0; 64],
        timestamp: chrono::Utc::now().timestamp_millis(),
    }).unwrap();

    let target = MemberIdentity::compute_digest("target_pk");

    let expel_pid = state.submit_proposal(
        ProposalType::ExpelMember { member_digest: target.clone() },
        &genesis.digest,
    ).unwrap();
    state.cast_vote(&expel_pid, Vote {
        voter_digest: genesis.digest.clone(),
        choice: VoteChoice::Accept,
        signature: vec![0; 64],
        timestamp: chrono::Utc::now().timestamp_millis(),
    }).unwrap();
    state.cast_vote(&expel_pid, Vote {
        voter_digest: target.clone(),
        choice: VoteChoice::Accept,
        signature: vec![0; 64],
        timestamp: chrono::Utc::now().timestamp_millis(),
    }).unwrap();
    assert!(!state.is_active_member(&target));

    // Trying to expel again should fail
    let result = state.submit_proposal(
        ProposalType::ExpelMember { member_digest: target },
        &genesis.digest,
    );
    assert!(matches!(result, Err(GovernanceError::NotActiveMember)));
}

#[test]
fn test_expelled_member_cannot_submit_proposals() {
    let (mut state, genesis) = genesis_state();

    let pid = state.submit_proposal(
        ProposalType::AddMember {
            public_key_hex: "bob_pk".into(),
            display_name: Some("Bob".into()),
        },
        &genesis.digest,
    ).unwrap();
    state.cast_vote(&pid, Vote {
        voter_digest: genesis.digest.clone(),
        choice: VoteChoice::Accept,
        signature: vec![0; 64],
        timestamp: chrono::Utc::now().timestamp_millis(),
    }).unwrap();
    let bob_digest = MemberIdentity::compute_digest("bob_pk");
    assert!(state.is_active_member(&bob_digest));

    // Expel Bob
    let expel_pid = state.submit_proposal(
        ProposalType::ExpelMember { member_digest: bob_digest.clone() },
        &genesis.digest,
    ).unwrap();
    state.cast_vote(&expel_pid, Vote {
        voter_digest: genesis.digest.clone(),
        choice: VoteChoice::Accept,
        signature: vec![0; 64],
        timestamp: chrono::Utc::now().timestamp_millis(),
    }).unwrap();
    state.cast_vote(&expel_pid, Vote {
        voter_digest: bob_digest.clone(),
        choice: VoteChoice::Accept,
        signature: vec![0; 64],
        timestamp: chrono::Utc::now().timestamp_millis(),
    }).unwrap();

    // Bob cannot submit proposals
    let result = state.submit_proposal(
        ProposalType::AddFile {
            path: "rogue.md".into(),
            content: None,
            content_hash: "h".into(),
        },
        &bob_digest,
    );
    assert!(matches!(result, Err(GovernanceError::NotActiveMember)));
}

#[test]
fn test_expelled_member_cannot_vote() {
    let (mut state, genesis) = genesis_state();

    let bob_digest = MemberIdentity::compute_digest("bob_pk");
    let carol_digest = MemberIdentity::compute_digest("carol_pk");

    // Add Bob (1 member -> 1 vote needed)
    let pid = state.submit_proposal(
        ProposalType::AddMember {
            public_key_hex: "bob_pk".into(),
            display_name: None,
        },
        &genesis.digest,
    ).unwrap();
    state.cast_vote(&pid, Vote {
        voter_digest: genesis.digest.clone(),
        choice: VoteChoice::Accept,
        signature: vec![0; 64],
        timestamp: chrono::Utc::now().timestamp_millis(),
    }).unwrap();
    assert_eq!(state.active_member_count(), 2);

    // Add Carol (2 members -> 2 votes needed)
    let pid = state.submit_proposal(
        ProposalType::AddMember {
            public_key_hex: "carol_pk".into(),
            display_name: None,
        },
        &genesis.digest,
    ).unwrap();
    state.cast_vote(&pid, Vote {
        voter_digest: genesis.digest.clone(),
        choice: VoteChoice::Accept,
        signature: vec![0; 64],
        timestamp: chrono::Utc::now().timestamp_millis(),
    }).unwrap();
    state.cast_vote(&pid, Vote {
        voter_digest: bob_digest.clone(),
        choice: VoteChoice::Accept,
        signature: vec![0; 64],
        timestamp: chrono::Utc::now().timestamp_millis(),
    }).unwrap();
    assert_eq!(state.active_member_count(), 3);

    // Expel Bob
    let expel_pid = state.submit_proposal(
        ProposalType::ExpelMember { member_digest: bob_digest.clone() },
        &genesis.digest,
    ).unwrap();
    for digest in [&genesis.digest, &carol_digest, &bob_digest] {
        let result = state.cast_vote(&expel_pid, Vote {
            voter_digest: digest.clone(),
            choice: VoteChoice::Accept,
            signature: vec![0; 64],
            timestamp: chrono::Utc::now().timestamp_millis(),
        });
        if matches!(result, Ok(ProposalStatus::Accepted)) { break; }
    }
    assert!(!state.is_active_member(&bob_digest));
    assert_eq!(state.active_member_count(), 2);

    // Create a new proposal and verify Bob cannot vote
    let pid = state.submit_proposal(
        ProposalType::AddFile {
            path: "doc.md".into(),
            content: None,
            content_hash: "h".into(),
        },
        &genesis.digest,
    ).unwrap();

    let result = state.cast_vote(&pid, Vote {
        voter_digest: bob_digest,
        choice: VoteChoice::Accept,
        signature: vec![0; 64],
        timestamp: chrono::Utc::now().timestamp_millis(),
    });
    assert!(matches!(result, Err(GovernanceError::NotActiveMember)));
}

#[test]
fn test_expelled_member_shows_in_expelled_list() {
    let (mut state, genesis) = genesis_state();

    let pid = state.submit_proposal(
        ProposalType::AddMember {
            public_key_hex: "bob_pk".into(),
            display_name: Some("Bob".into()),
        },
        &genesis.digest,
    ).unwrap();
    state.cast_vote(&pid, Vote {
        voter_digest: genesis.digest.clone(),
        choice: VoteChoice::Accept,
        signature: vec![0; 64],
        timestamp: chrono::Utc::now().timestamp_millis(),
    }).unwrap();
    let bob_digest = MemberIdentity::compute_digest("bob_pk");

    let expel_pid = state.submit_proposal(
        ProposalType::ExpelMember { member_digest: bob_digest.clone() },
        &genesis.digest,
    ).unwrap();
    state.cast_vote(&expel_pid, Vote {
        voter_digest: genesis.digest.clone(),
        choice: VoteChoice::Accept,
        signature: vec![0; 64],
        timestamp: chrono::Utc::now().timestamp_millis(),
    }).unwrap();
    state.cast_vote(&expel_pid, Vote {
        voter_digest: bob_digest.clone(),
        choice: VoteChoice::Accept,
        signature: vec![0; 64],
        timestamp: chrono::Utc::now().timestamp_millis(),
    }).unwrap();

    let expelled = state.expelled_members();
    assert_eq!(expelled.len(), 1);
    assert_eq!(expelled[0].identity.digest, bob_digest);
    assert!(expelled[0].expelled_at.is_some());
}

#[test]
fn test_epoch_increments_on_every_accepted_proposal() {
    let (mut state, genesis) = genesis_state();
    assert_eq!(state.epoch, 0);

    // Each accepted proposal bumps epoch by 1
    for i in 0..5 {
        let pid = state.submit_proposal(
            ProposalType::AddFile {
                path: format!("file{}.md", i),
                content: None,
                content_hash: format!("h{}", i),
            },
            &genesis.digest,
        ).unwrap();
        state.cast_vote(&pid, Vote {
            voter_digest: genesis.digest.clone(),
            choice: VoteChoice::Accept,
            signature: vec![0; 64],
            timestamp: chrono::Utc::now().timestamp_millis(),
        }).unwrap();
        assert_eq!(state.epoch, (i + 1) as u64);
    }
}

#[test]
fn test_epoch_does_not_increment_on_rejected_proposal() {
    let (mut state, genesis) = genesis_state();

    // Add two more members so rejection is possible
    for pk in &["m2", "m3"] {
        let pid = state.submit_proposal(
            ProposalType::AddMember {
                public_key_hex: pk.to_string(),
                display_name: None,
            },
            &genesis.digest,
        ).unwrap();
        state.cast_vote(&pid, Vote {
            voter_digest: genesis.digest.clone(),
            choice: VoteChoice::Accept,
            signature: vec![0; 64],
            timestamp: chrono::Utc::now().timestamp_millis(),
        }).unwrap();
    }
    let m2 = MemberIdentity::compute_digest("m2");
    let m3 = MemberIdentity::compute_digest("m3");
    let epoch_before = state.epoch;

    let pid = state.submit_proposal(
        ProposalType::AddFile {
            path: "nope.md".into(),
            content: None,
            content_hash: "h".into(),
        },
        &genesis.digest,
    ).unwrap();

    // All three reject
    for d in &[&genesis.digest, &m2, &m3] {
        let status = state.cast_vote(&pid, Vote {
            voter_digest: d.to_string(),
            choice: VoteChoice::Reject,
            signature: vec![0; 64],
            timestamp: chrono::Utc::now().timestamp_millis(),
        }).unwrap();
        if status == ProposalStatus::Rejected { break; }
    }

    assert_eq!(state.epoch, epoch_before);
}

