use quorum_trust::crypto::threshold::{SessionError, SessionStatus, SigningSession, ThresholdState};
use quorum_trust::network::ceremony::frost_threshold;

// The FROST computations run outside the session; these byte strings stand
// for their results.
fn bytes(tag: u8, n: usize) -> Vec<u8> {
    vec![tag; n]
}

#[test]
fn test_signing_session_status_transitions() {
    let gpk = bytes(9, 32);
    let mut session = SigningSession::new("sess-1".into(), "doc.md".into(), "hash123".into(), 2, 3, gpk.clone());

    assert_eq!(session.status, SessionStatus::AwaitingKeyShares);

    session.set_key_share(bytes(1, 32), 1);
    assert_eq!(session.status, SessionStatus::Committing);

    let my_comm = session.generate_commitment(bytes(11, 64), bytes(12, 64)).unwrap();
    assert!(!my_comm.is_empty());
    assert!(session.my_nonce.is_some());
    assert_eq!(session.commitments.len(), 1);

    assert!(!session.ready_to_sign());

    session.add_commitment(2, bytes(21, 64));
    assert_eq!(session.commitments.len(), 2);
    assert!(session.ready_to_sign());

    let (my_share, _gc) = session.produce_partial_signature(bytes(13, 32), bytes(14, 32)).unwrap();
    assert_eq!(session.status, SessionStatus::Signing);
    assert!(session.my_nonce.is_none());
    assert!(!my_share.is_empty());
    assert_eq!(session.shares.len(), 1);

    assert!(!session.ready_to_assemble());
}

#[test]
fn test_threshold_state_create_and_lookup() {
    let gpk = bytes(9, 32);
    let mut state = ThresholdState::new();
    state.create_session("s1".into(), "doc.md".into(), "hash".into(), 2, 3, gpk.clone());
    assert!(state.get_session("s1").is_some());
    assert!(state.get_session("nonexistent").is_none());
    assert!(state.completed_signature("doc.md").is_none());
}

#[test]
fn test_threshold_state_completed_signature_lookup() {
    let gpk = bytes(9, 32);
    let mut state = ThresholdState::new();
    let session = state.create_session("s-lookup".into(), "contract.md".into(), "hash-for-lookup".into(), 2, 3, gpk.clone());
    session.set_key_share(bytes(1, 32), 1);
    let _my_comm = session.generate_commitment(bytes(11, 64), bytes(12, 64)).unwrap();
    session.add_commitment(2, bytes(21, 64));
    let (_my_share, _) = session.produce_partial_signature(bytes(13, 32), bytes(14, 32)).unwrap();
    assert!(state.completed_signature("contract.md").is_none());
}

#[test]
fn test_session_no_key_share_commit_fails() {
    let mut session = SigningSession::new("s".into(), "d".into(), "h".into(), 2, 3, bytes(9, 32));
    assert!(session.generate_commitment(bytes(11, 64), bytes(12, 64)).is_err());
}

#[test]
fn test_session_no_nonce_partial_sign_fails() {
    let mut session = SigningSession::new("s".into(), "d".into(), "h".into(), 2, 3, bytes(9, 32));
    session.set_key_share(bytes(1, 32), 1);
    assert!(!session.ready_to_sign());
}

#[test]
fn test_threshold_calculation_matches_governance() {
    for n in 2..=10usize {
        let t = (n * 2) / 3 + 1;
        assert_eq!(frost_threshold(n), t);
        assert!(t <= n);
    }
    assert_eq!(frost_threshold(1), 1);
}

#[test]
fn test_commitment_to_nonexistent_session_is_harmless() {
    let mut ts = ThresholdState::new();
    assert!(ts.get_session_mut("nonexistent").is_none());
}

#[test]
fn test_session_stalls_without_enough_commitments() {
    let mut session = SigningSession::new("stall".into(), "doc.md".into(), "hash".into(), 3, 3, bytes(9, 32));
    session.set_key_share(bytes(1, 32), 1);
    let _comm = session.generate_commitment(bytes(11, 64), bytes(12, 64)).unwrap();
    assert_eq!(session.commitments.len(), 1);
    assert!(!session.ready_to_sign());
    session.add_commitment(2, bytes(21, 64));
    assert_eq!(session.commitments.len(), 2);
    assert!(!session.ready_to_sign());
    session.add_commitment(3, bytes(31, 64));
    assert_eq!(session.commitments.len(), 3);
    assert!(session.ready_to_sign());
}

#[test]
fn test_session_stalls_without_enough_shares() {
    let mut s0 = SigningSession::new("s".into(), "d".into(), "h".into(), 2, 3, bytes(9, 32));
    s0.set_key_share(bytes(1, 32), 1);
    s0.generate_commitment(bytes(11, 64), bytes(12, 64)).unwrap();
    s0.add_commitment(2, bytes(21, 64));
    assert!(s0.ready_to_sign());
    s0.produce_partial_signature(bytes(13, 32), bytes(14, 32)).unwrap();
    assert_eq!(s0.shares.len(), 1);
    assert!(!s0.ready_to_assemble());
    assert!(s0.add_share(2, bytes(23, 32)));
    assert!(s0.ready_to_assemble());
}

#[test]
fn assembly_completes_the_session() {
    let mut s = SigningSession::new("s".into(), "d".into(), "h".into(), 1, 1, bytes(9, 32));
    assert_eq!(s.assemble_signature(bytes(5, 64)), Err(SessionError::NoKeyShare));
    s.set_key_share(bytes(1, 32), 1);
    assert_eq!(s.assemble_signature(bytes(5, 64)), Err(SessionError::NoGroupCommitment));
    assert_eq!(s.produce_partial_signature(bytes(13, 32), bytes(14, 32)), Err(SessionError::NoNonce));
    s.generate_commitment(bytes(11, 64), bytes(12, 64)).unwrap();
    s.produce_partial_signature(bytes(13, 32), bytes(14, 32)).unwrap();
    assert!(s.ready_to_assemble());
    let sig = s.assemble_signature(bytes(5, 64)).unwrap();
    assert_eq!(sig, bytes(5, 64));
    assert_eq!(s.status, SessionStatus::Complete);
    assert!(!s.ready_to_assemble());
}

#[test]
fn completed_session_is_found_by_document() {
    let mut ts = ThresholdState::new();
    {
        let s = ts.create_session("a".into(), "doc.md".into(), "h".into(), 1, 1, bytes(9, 32));
        s.set_key_share(bytes(1, 32), 1);
        s.generate_commitment(bytes(11, 64), bytes(12, 64)).unwrap();
        s.produce_partial_signature(bytes(13, 32), bytes(14, 32)).unwrap();
        s.assemble_signature(bytes(5, 64)).unwrap();
    }
    let found = ts.completed_signature("doc.md").unwrap();
    assert_eq!(found.session_id, "a");
    assert!(ts.completed_signature("other.md").is_none());
    // Creating an existing session keeps it as it is.
    let again = ts.create_session("a".into(), "x.md".into(), "h2".into(), 5, 5, vec![]);
    assert_eq!(again.document_path, "doc.md");
    assert_eq!(again.status, SessionStatus::Complete);
}

#[test]
fn sorted_ids_take_the_lowest_up_to_the_threshold() {
    let mut s = SigningSession::new("s".into(), "d".into(), "h".into(), 2, 4, bytes(9, 32));
    s.add_commitment(7, bytes(70, 4));
    s.add_commitment(3, bytes(30, 4));
    s.add_commitment(5, bytes(50, 4));
    assert_eq!(s.sorted_commitment_ids(), vec![3, 5]);
    assert_eq!(s.signing_commitments(), vec![bytes(30, 4), bytes(50, 4)]);
    s.add_commitment(3, bytes(31, 4));
    assert_eq!(s.commitments.len(), 3);
    assert_eq!(s.signing_commitments(), vec![bytes(31, 4), bytes(50, 4)]);
    s.add_share(9, bytes(90, 4));
    assert_eq!(s.sorted_share_ids(), vec![9]);
    assert_eq!(s.assembly_shares(), vec![bytes(90, 4)]);
}
