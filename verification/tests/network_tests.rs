use quorum_trust::crypto::identity::{MemberIdentity, MemberStatus};
use quorum_trust::governance::membership::{GovernanceError, GovernanceState};
use quorum_trust::governance::voting::{ProposalStatus, ProposalType, Vote, VoteChoice};
use quorum_trust::network::ceremony::{
    dealer_plan, find_envelope, frost_threshold, my_share_position, share_context, share_recipients, sort_texts,
    sorted_active_digests, text_le_exec,
};
use quorum_trust::network::compress::{compress_payload, decompress_payload, CompressError, COMPRESS_THRESHOLD};
use quorum_trust::network::messages::{GossipMessage, GossipMessageType, KeyShareEnvelope};
use quorum_trust::config::GenesisConfig;
use quorum_trust::network::node::{
    announces_state_after, document_action, handle_governance_message, initial_governance, is_shared_state_change,
    renamed_file_path, should_process, DocumentAction, GossipOutcome,
};
use quorum_trust::network::sync::{
    accepted_final_paths, add_synthetic_file_proposal, adopt_remote, decide_sync, file_from_proposals,
    merge_x25519_keys, paths_without_content, set_own_x25519, simple_sync, simple_sync_adopts, synthetic_file_proposal_id,
    SyncDecision,
};
use quorum_trust::strmap::StrSet;

fn vote(voter: &str, choice: VoteChoice) -> Vote {
    Vote { voter_digest: voter.to_string(), choice, signature: vec![0; 64], timestamp: 1_700_000_000_000 }
}

/// Every active member accepts until the proposal is resolved.
fn pass(state: &mut GovernanceState, pid: &str) -> ProposalStatus {
    let voters: Vec<String> = state.active_members().iter().map(|m| m.identity.digest.clone()).collect();
    let mut status = ProposalStatus::Pending;
    for v in voters {
        status = state.cast_vote(pid, vote(&v, VoteChoice::Accept)).unwrap();
        if status != ProposalStatus::Pending {
            break;
        }
    }
    status
}

fn add_member(state: &mut GovernanceState, proposer: &str, pk: &str) -> String {
    let pid = state
        .submit_proposal(ProposalType::AddMember { public_key_hex: pk.into(), display_name: None }, proposer)
        .unwrap();
    assert_eq!(pass(state, &pid), ProposalStatus::Accepted);
    MemberIdentity::compute_digest(pk)
}

fn genesis(net: &str) -> (GovernanceState, String) {
    let id = MemberIdentity::new("alice_pk", Some("Alice".into()));
    let digest = id.digest.clone();
    (GovernanceState::new_genesis(net, id), digest)
}

#[test]
fn sync_adopts_a_state_that_knows_more() {
    let (local, alice) = genesis("sync-net");
    let mut remote = local.clone();
    assert_eq!(decide_sync(&local, &remote, &alice), SyncDecision::Keep);
    add_member(&mut remote, &alice, "bob_pk");
    assert_eq!(decide_sync(&local, &remote, &alice), SyncDecision::Adopt);
    assert_eq!(decide_sync(&remote, &local, &alice), SyncDecision::Keep);
    assert!(simple_sync_adopts(&local, &remote, &alice));
    assert!(!simple_sync_adopts(&remote, &local, &alice));
}

#[test]
fn sync_refuses_a_state_that_drops_this_member_silently() {
    let (local, alice) = genesis("sync-net");
    let other = MemberIdentity::new("zed_pk", None);
    let mut remote = GovernanceState::new_genesis("sync-net", other);
    remote.epoch = 9;
    assert_eq!(decide_sync(&local, &remote, &alice), SyncDecision::RejectDemotion);
    // A node that is not a member locally takes any state that is ahead.
    let carol = MemberIdentity::compute_digest("carol_pk");
    assert_eq!(decide_sync(&local, &remote, &carol), SyncDecision::Adopt);
}

#[test]
fn sync_accepts_this_members_expulsion() {
    let (mut local, alice) = genesis("sync-net");
    let bob = add_member(&mut local, &alice, "bob_pk");
    let mut remote = local.clone();
    let pid = remote.submit_proposal(ProposalType::ExpelMember { member_digest: bob.clone() }, &alice).unwrap();
    assert_eq!(pass(&mut remote, &pid), ProposalStatus::Accepted);
    assert_eq!(remote.members.get(&bob).unwrap().status, MemberStatus::Expelled);
    assert_eq!(decide_sync(&local, &remote, &bob), SyncDecision::Adopt);
}

#[test]
fn x25519_keys_survive_adoption() {
    let (mut local, alice) = genesis("keys-net");
    let bob = add_member(&mut local, &alice, "bob_pk");
    let mut remote = local.clone();
    add_member(&mut remote, &alice, "carol_pk");

    assert!(set_own_x25519(&mut local, &alice, "aa11"));
    assert!(!set_own_x25519(&mut local, &alice, "aa11"));
    assert!(set_own_x25519(&mut local, &alice, "bb22"));
    assert!(!set_own_x25519(&mut local, "unknown", "cc33"));
    assert!(set_own_x25519(&mut remote, &bob, "dd44"));

    let adopted = adopt_remote(&local, remote);
    assert_eq!(adopted.active_member_count(), 3);
    assert_eq!(adopted.members.get(&alice).unwrap().identity.x25519_public_key_hex.as_deref(), Some("bb22"));
    assert_eq!(adopted.members.get(&bob).unwrap().identity.x25519_public_key_hex.as_deref(), Some("dd44"));

    let mut target = local.clone();
    let (source, _) = genesis("keys-net");
    // The source knows no key that the target lacks.
    assert_eq!(merge_x25519_keys(&mut target, &source), 0);
    let mut bare = GovernanceState::new_genesis("keys-net", MemberIdentity::new("alice_pk", None));
    assert_eq!(merge_x25519_keys(&mut bare, &local), 1);
    assert_eq!(bare.members.get(&alice).unwrap().identity.x25519_public_key_hex.as_deref(), Some("bb22"));
}

#[test]
fn file_content_travels_with_proposals() {
    let (mut state, alice) = genesis("files-net");
    assert!(file_from_proposals(&state, "docs/a.md").is_none());
    let pid = state
        .submit_proposal(
            ProposalType::AddFile { path: "docs/a.md".into(), content_hash: "h".into(), content: Some("# A".into()) },
            &alice,
        )
        .unwrap();
    assert_eq!(pass(&mut state, &pid), ProposalStatus::Accepted);
    assert_eq!(file_from_proposals(&state, "docs/a.md"), Some(("# A".to_string(), alice.clone())));
    assert!(paths_without_content(&state).is_empty());

    state.accepted_file_paths.insert("docs/b.md".to_string());
    assert_eq!(paths_without_content(&state), vec!["docs/b.md".to_string()]);
    add_synthetic_file_proposal(&mut state, "docs/b.md", "# B".to_string());
    assert!(paths_without_content(&state).is_empty());
    assert_eq!(file_from_proposals(&state, "docs/b.md"), Some(("# B".to_string(), "sync".to_string())));
    assert!(state.proposals.contains_key("sync-file-docs-b.md"));
}

#[test]
fn synthetic_ids_replace_slashes() {
    assert_eq!(synthetic_file_proposal_id("a/b/c.md"), "sync-file-a-b-c.md");
    assert_eq!(synthetic_file_proposal_id("top.md"), "sync-file-top.md");
    assert_eq!(synthetic_file_proposal_id(""), "sync-file-");
}

#[test]
fn finalized_paths_are_listed_in_order() {
    let (mut state, alice) = genesis("final-net");
    for path in ["x.md", "y.md"] {
        let pid = state.submit_proposal(ProposalType::MarkFinal { path: path.into() }, &alice).unwrap();
        pass(&mut state, &pid);
    }
    state.submit_proposal(ProposalType::MarkFinal { path: "pending.md".into() }, &alice).unwrap();
    let mut paths = accepted_final_paths(&state);
    paths.sort();
    assert_eq!(paths, vec!["x.md".to_string(), "y.md".to_string()]);
}

#[test]
fn thresholds_follow_two_thirds() {
    let expected = [(1, 1), (2, 2), (3, 3), (4, 3), (5, 4), (6, 5), (7, 5), (10, 7)];
    for (n, t) in expected {
        assert_eq!(frost_threshold(n), t, "n = {}", n);
    }
}

#[test]
fn texts_sort_by_bytes() {
    assert!(text_le_exec("a", "b"));
    assert!(text_le_exec("ab", "ab"));
    assert!(text_le_exec("ab", "abc"));
    assert!(!text_le_exec("b", "abc"));
    let sorted = sort_texts(vec!["pear".into(), "apple".into(), "fig".into(), "apple".into()]);
    assert_eq!(sorted, vec!["apple", "apple", "fig", "pear"]);
}

#[test]
fn the_lowest_digest_deals() {
    let (mut state, alice) = genesis("deal-net");
    let solo = dealer_plan(&state, &alice).unwrap();
    assert_eq!(solo.digests, vec![alice.clone()]);
    assert_eq!(solo.threshold, 1);

    let bob = add_member(&mut state, &alice, "bob_pk");
    let carol = add_member(&mut state, &alice, "carol_pk");
    let mut all = vec![alice.clone(), bob.clone(), carol.clone()];
    all.sort();
    assert_eq!(sorted_active_digests(&state), all);
    let plan = dealer_plan(&state, &all[0]).unwrap();
    assert_eq!(plan.digests, all);
    assert_eq!(plan.threshold, 3);
    assert!(dealer_plan(&state, &all[1]).is_none());
    assert!(dealer_plan(&state, "nobody").is_none());

    assert!(set_own_x25519(&mut state, &bob, "b0b0"));
    assert!(set_own_x25519(&mut state, &carol, ""));
    let recipients = share_recipients(&state, &all);
    let bob_pos = all.iter().position(|d| *d == bob).unwrap();
    assert_eq!(recipients, vec![(bob_pos, "b0b0".to_string())]);

    assert_eq!(my_share_position(&all, &carol), all.iter().position(|d| *d == carol));
    assert_eq!(my_share_position(&all, "nobody"), None);
    let dup = vec!["a".to_string(), "b".to_string(), "a".to_string()];
    assert_eq!(my_share_position(&dup, "a"), Some(2));
}

#[test]
fn envelopes_are_found_by_recipient() {
    let env = |d: &str, id: u16| KeyShareEnvelope { recipient_digest: d.into(), share_id: id, encrypted_share: vec![id as u8] };
    let envelopes = vec![env("a", 1), env("b", 2), env("b", 3)];
    assert_eq!(find_envelope(&envelopes, "b"), Some(1));
    assert_eq!(find_envelope(&envelopes, "a"), Some(0));
    assert_eq!(find_envelope(&envelopes, "c"), None);
    assert_eq!(share_context("sess-9"), "frost-share-sess-9");
}

#[test]
fn short_payloads_travel_as_they_are() {
    let json = br#"{"type":"Heartbeat"}"#;
    assert_eq!(compress_payload(json), Ok(None));
    let almost = vec![b'x'; COMPRESS_THRESHOLD - 1];
    assert_eq!(compress_payload(&almost), Ok(None));
    let exactly = vec![b'x'; COMPRESS_THRESHOLD];
    assert_eq!(compress_payload(&exactly), Ok(None));
    let over = vec![b'x'; COMPRESS_THRESHOLD + 1];
    assert!(matches!(compress_payload(&over), Ok(Some(_))));
}

#[test]
fn long_payloads_round_trip_through_compression() {
    let json: Vec<u8> = format!("{{\"state\":\"{}\"}}", "abc".repeat(600)).into_bytes();
    assert!(json.len() > COMPRESS_THRESHOLD);
    let text = compress_payload(&json).unwrap().unwrap();
    assert!(text.len() < json.len());
    assert_eq!(decompress_payload(&text).unwrap(), json);
}

#[test]
fn bad_compressed_text_is_refused() {
    assert_eq!(decompress_payload("not base64 !!"), Err(CompressError::Base64));
    // "hello" in base64: valid base64 but no zlib stream.
    assert_eq!(decompress_payload("aGVsbG8="), Err(CompressError::Inflate));
}

#[test]
fn messages_name_their_kind() {
    assert_eq!(GossipMessageType::SyncRequest.kind_name(), "SyncRequest");
    assert_eq!(
        GossipMessageType::Vote { proposal_id: "p".into(), choice: VoteChoice::Reject }.kind_name(),
        "Vote"
    );
    assert_eq!(GossipMessageType::PeerExchange { known_peers: vec![] }.kind_name(), "PeerExchange");
    let m = GossipMessage::new("sender", GossipMessageType::SyncRequest, "net");
    assert_eq!(m.id.len(), 36);
    assert_eq!(m.sender_digest, "sender");
    assert!(m.signature.is_empty());
    assert_eq!(m.network_name, "net");
    let payload = m.payload_for_signing(b"\"SyncRequest\"", "2024-01-01T00:00:00Z");
    let expected = format!("{}sendernet\"SyncRequest\"2024-01-01T00:00:00Z", m.id);
    assert_eq!(payload, expected.into_bytes());
}

#[test]
fn messages_are_processed_once_and_per_network() {
    let mut seen = StrSet::new();
    assert!(should_process(&mut seen, "m1", "net", "net"));
    assert!(!should_process(&mut seen, "m1", "net", "net"));
    assert!(!should_process(&mut seen, "m2", "other", "net"));
    assert!(!should_process(&mut seen, "m2", "net", "net"));
    assert_eq!(seen.len(), 2);
}

#[test]
fn gossip_reaches_governance_from_members_only() {
    let (mut state, alice) = genesis("gossip-net");
    let proposal = |sender: &str| {
        let mut m = GossipMessage::new(
            sender,
            GossipMessageType::Proposal {
                proposal_id: "p-1".into(),
                proposal_type: ProposalType::AddFile { path: "f.md".into(), content_hash: "h".into(), content: None },
            },
            "gossip-net",
        );
        m.signature = vec![1; 64];
        m
    };
    assert_eq!(handle_governance_message(&mut state, proposal("stranger")), GossipOutcome::FromNonMember);
    assert!(!state.proposals.contains_key("p-1"));
    assert_eq!(handle_governance_message(&mut state, proposal(&alice)), GossipOutcome::ProposalRecorded);
    assert!(state.proposals.contains_key("p-1"));

    let v = GossipMessage::new(
        &alice,
        GossipMessageType::Vote { proposal_id: "p-1".into(), choice: VoteChoice::Accept },
        "gossip-net",
    );
    assert_eq!(handle_governance_message(&mut state, v.clone()), GossipOutcome::VoteCounted(ProposalStatus::Accepted));
    assert!(state.is_network_file("f.md"));
    assert_eq!(state.epoch, 1);
    assert_eq!(
        handle_governance_message(&mut state, v),
        GossipOutcome::VoteRefused(GovernanceError::ProposalAlreadyResolved)
    );
    let missing = GossipMessage::new(
        &alice,
        GossipMessageType::Vote { proposal_id: "nope".into(), choice: VoteChoice::Accept },
        "gossip-net",
    );
    assert_eq!(handle_governance_message(&mut state, missing), GossipOutcome::VoteRefused(GovernanceError::ProposalNotFound));
    let other = GossipMessage::new(&alice, GossipMessageType::SyncRequest, "gossip-net");
    assert_eq!(handle_governance_message(&mut state, other), GossipOutcome::NotForGovernance);
}

#[test]
fn renames_stay_in_their_directory() {
    assert_eq!(renamed_file_path("docs/a.md", "b.md"), "docs/b.md");
    assert_eq!(renamed_file_path("a.md", "b.md"), "b.md");
    assert_eq!(renamed_file_path("x/y/z.txt", "w.txt"), "x/y/w.txt");
}

#[test]
fn proposals_count_against_the_daily_limit() {
    let (mut state, alice) = genesis("limit-net");
    let file = |p: &str| ProposalType::AddFile { path: p.into(), content_hash: "h".into(), content: None };
    assert!(state.propose_rate_limited_on(file("1.md"), &alice, 2, "2024-05-01").is_ok());
    assert!(state.propose_rate_limited_on(file("2.md"), &alice, 2, "2024-05-01").is_ok());
    assert_eq!(
        state.propose_rate_limited_on(file("3.md"), &alice, 2, "2024-05-01"),
        Err(GovernanceError::RateLimitExceeded)
    );
    // A new day starts a new count.
    assert!(state.propose_rate_limited_on(file("3.md"), &alice, 2, "2024-05-02").is_ok());
    // A refused proposal still counts as a request.
    assert_eq!(
        state.propose_rate_limited_on(file("4.md"), "stranger", 1, "2024-05-02"),
        Err(GovernanceError::NotActiveMember)
    );
    assert_eq!(
        state.propose_rate_limited_on(file("4.md"), "stranger", 1, "2024-05-02"),
        Err(GovernanceError::RateLimitExceeded)
    );
}

#[test]
fn accepted_proposals_map_to_document_actions() {
    let add = ProposalType::AddFile { path: "a.md".into(), content_hash: "h".into(), content: Some("x".into()) };
    match document_action(&add) {
        DocumentAction::WriteNewFile { path, content } => {
            assert_eq!(path, "a.md");
            assert_eq!(content, "x");
        }
        other => panic!("unexpected {:?}", other),
    }
    let legacy = ProposalType::AddFile { path: "a.md".into(), content_hash: "h".into(), content: None };
    assert!(matches!(document_action(&legacy), DocumentAction::Nothing));
    let edit = ProposalType::EditFile { path: "a.md".into(), diff: "d".into(), content_hash: "h".into() };
    assert!(matches!(document_action(&edit), DocumentAction::ApplyEdit { ref path, ref diff } if path == "a.md" && diff == "d"));
    let rm = ProposalType::RemoveFile { path: "a.md".into() };
    assert!(matches!(document_action(&rm), DocumentAction::Remove { ref path } if path == "a.md"));
    let fin = ProposalType::MarkFinal { path: "a.md".into() };
    assert!(matches!(document_action(&fin), DocumentAction::FinalizeAndSign { ref path } if path == "a.md"));
    let ren = ProposalType::ChangeFileName { path: "d/a.md".into(), new_name: "b.md".into() };
    assert!(matches!(document_action(&ren), DocumentAction::Rename { ref from, ref to } if from == "d/a.md" && to == "d/b.md"));
    let member = ProposalType::AddMember { public_key_hex: "k".into(), display_name: None };
    assert!(matches!(document_action(&member), DocumentAction::Nothing));
    let name = ProposalType::ChangeMemberName { member_digest: "d".into(), new_name: "n".into() };
    assert!(matches!(document_action(&name), DocumentAction::Nothing));

    for pt in [&add, &legacy, &rm, &fin, &ren, &member] {
        assert!(is_shared_state_change(pt));
        assert!(announces_state_after(pt));
    }
    assert!(!is_shared_state_change(&edit));
    assert!(announces_state_after(&edit));
    assert!(!is_shared_state_change(&name));
    assert!(!announces_state_after(&name));
}

#[test]
fn nodes_start_from_saved_genesis_or_empty_state() {
    let (saved, alice) = genesis("boot-net");
    let g = initial_governance(Some(saved.clone()), "other-name", &None);
    assert_eq!(g.network_name, "boot-net");
    assert!(g.is_active_member(&alice));

    let gc = GenesisConfig { member_name: "Founder".into(), public_key_hex: " founder_pk ".into() };
    let g = initial_governance(None, "boot-net", &Some(gc));
    assert_eq!(g.active_member_count(), 1);
    let d = MemberIdentity::compute_digest("founder_pk");
    assert_eq!(g.members.get(&d).unwrap().identity.display_name.as_deref(), Some("Founder"));
    assert_eq!(g.epoch, 0);

    let g = initial_governance(None, "boot-net", &None);
    assert_eq!(g.active_member_count(), 0);
    assert!(g.members.is_empty());
    assert_eq!(g.network_name, "boot-net");
}

#[test]
fn simple_sync_never_drops_this_member() {
    let (local, alice) = genesis("simple-net");
    // A bigger network that does not know Alice.
    let mut remote = GovernanceState::new_genesis("simple-net", MemberIdentity::new("zed_pk", None));
    let zed = MemberIdentity::compute_digest("zed_pk");
    add_member(&mut remote, &zed, "yan_pk");
    assert!(remote.active_member_count() > local.active_member_count());
    assert!(!simple_sync_adopts(&local, &remote, &alice));
    assert!(simple_sync(&local, remote.clone(), &alice).is_none());
    // A node that is not active locally takes it.
    assert!(simple_sync_adopts(&local, &remote, "outsider"));
}

#[test]
fn simple_sync_keeps_local_keys() {
    let (mut local, alice) = genesis("simple-net");
    assert!(set_own_x25519(&mut local, &alice, "aa11"));
    let (mut remote, _) = genesis("simple-net");
    add_member(&mut remote, &alice, "bob_pk");
    let taken = simple_sync(&local, remote, &alice).unwrap();
    assert_eq!(taken.active_member_count(), 2);
    assert_eq!(taken.members.get(&alice).unwrap().identity.x25519_public_key_hex.as_deref(), Some("aa11"));
}
