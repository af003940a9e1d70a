//! The decisions a node takes on the gossip it hears and on the proposals
//! its user makes; the node's event loop carries them out.

use vstd::prelude::*;
use crate::governance::membership::{
    peer_proposal_recorded, renamed_path, submit_refusal, vote_counted, vote_refusal, counter_allows,
    counted_one_more, GovernanceError, GovernanceState,
};
use crate::config::GenesisConfig;
use crate::crypto::identity::{digest_of, MemberIdentity, MemberStatus};
use crate::governance::voting::{ProposalStatus, ProposalType, Vote};
use crate::network::messages::{GossipMessage, GossipMessageType};
use crate::strmap::StrSet;
use crate::support::clock::today_utc;
use crate::support::paths::{path_join, path_parent};
use crate::text::{no_surrounding_white_space, str_eq, trimmed};

verus! {

/// Whether a message is new and for this network. Every message seen for
/// the first time is remembered, whatever its network.
pub fn should_process(seen: &mut StrSet, msg_id: &str, msg_network: &str, my_network: &str) -> (b: bool)
    requires
        old(seen).wf(),
    ensures
        final(seen).wf(),
        final(seen)@ == old(seen)@.insert(msg_id@),
        b == (!old(seen)@.contains(msg_id@) && msg_network@ == my_network@),
{
    if seen.contains(msg_id) {
        return false;
    }
    seen.insert(msg_id.to_string());
    str_eq(msg_network, my_network)
}

/// What became of a gossip message that may concern governance.
#[derive(Debug, Clone, Copy, PartialEq, Eq, Structural)]
pub enum GossipOutcome {
    /// The message is of a kind governance does not handle.
    NotForGovernance,
    /// The sender is not an active member; the message was ignored.
    FromNonMember,
    /// The proposal was passed on to the governance state.
    ProposalRecorded,
    /// The vote was refused.
    VoteRefused(GovernanceError),
    /// The vote was counted; the proposal now has this status.
    VoteCounted(ProposalStatus),
}

/// Hands a proposal or a vote received from a peer to the governance state:
/// only active members' messages count. A vote carries the message's
/// sender, signature and time.
pub fn handle_governance_message(gov: &mut GovernanceState, msg: GossipMessage) -> (r: GossipOutcome)
    requires
        old(gov).wf(),
        msg.message_type is Vote ==> old(gov).epoch < u64::MAX,
    ensures
        final(gov).wf(),
        match msg.message_type {
            GossipMessageType::Proposal { proposal_id, proposal_type } => if !old(gov).is_active(msg.sender_digest@) {
                r == GossipOutcome::FromNonMember && *final(gov) == *old(gov)
            } else {
                r == GossipOutcome::ProposalRecorded && peer_proposal_recorded(
                    *old(gov),
                    *final(gov),
                    proposal_id@,
                    proposal_type,
                    msg.sender_digest@,
                )
            },
            GossipMessageType::Vote { proposal_id, choice } => if !old(gov).is_active(msg.sender_digest@) {
                r == GossipOutcome::FromNonMember && *final(gov) == *old(gov)
            } else {
                let vote = Vote {
                    voter_digest: msg.sender_digest,
                    choice,
                    signature: msg.signature,
                    timestamp: msg.timestamp,
                };
                match r {
                    GossipOutcome::VoteRefused(e) => vote_refusal(*old(gov), proposal_id@, msg.sender_digest@)
                        == Some(e) && *final(gov) == *old(gov),
                    GossipOutcome::VoteCounted(st) => vote_counted(*old(gov), *final(gov), proposal_id@, vote, st),
                    _ => false,
                }
            },
            _ => r == GossipOutcome::NotForGovernance && *final(gov) == *old(gov),
        },
{
    let is_member = gov.is_active_member(msg.sender_digest.as_str());
    match msg.message_type {
        GossipMessageType::Proposal { proposal_id, proposal_type } => {
            if !is_member {
                return GossipOutcome::FromNonMember;
            }
            gov.insert_proposal_from_peer(proposal_id.as_str(), proposal_type, msg.sender_digest.as_str());
            GossipOutcome::ProposalRecorded
        },
        GossipMessageType::Vote { proposal_id, choice } => {
            if !is_member {
                return GossipOutcome::FromNonMember;
            }
            let vote = Vote {
                voter_digest: msg.sender_digest,
                choice,
                signature: msg.signature,
                timestamp: msg.timestamp,
            };
            match gov.cast_vote(proposal_id.as_str(), vote) {
                Ok(st) => GossipOutcome::VoteCounted(st),
                Err(e) => GossipOutcome::VoteRefused(e),
            }
        },
        _ => GossipOutcome::NotForGovernance,
    }
}

/// What a node does to its documents folder once a proposal is accepted.
#[derive(Debug, Clone)]
pub enum DocumentAction {
    /// Nothing.
    Nothing,
    /// Write the file with this content, unless it exists already.
    WriteNewFile { path: String, content: String },
    /// Apply the unified diff to the file.
    ApplyEdit { path: String, diff: String },
    /// Delete the file and stop tracking it.
    Remove { path: String },
    /// Mark the file final and start its threshold signing.
    FinalizeAndSign { path: String },
    /// Move the file.
    Rename { from: String, to: String },
}

/// The document action of an accepted proposal of type `pt`, see
/// `document_action`.
pub open spec fn document_action_spec(pt: ProposalType, action: DocumentAction) -> bool {
    match pt {
        ProposalType::AddFile { path, content: Some(c), .. } => action == DocumentAction::WriteNewFile {
            path,
            content: c,
        },
        ProposalType::EditFile { path, diff, .. } => action == DocumentAction::ApplyEdit { path, diff },
        ProposalType::RemoveFile { path } => action == DocumentAction::Remove { path },
        ProposalType::MarkFinal { path } => action == DocumentAction::FinalizeAndSign { path },
        ProposalType::ChangeFileName { path, new_name } => action matches DocumentAction::Rename { from, to }
            && from == path && to@ == renamed_path(path@, new_name@),
        _ => action == DocumentAction::Nothing,
    }
}

/// What to do to the documents folder once a proposal of type `pt` is
/// accepted: write an added file that carries its content, apply an edit,
/// remove a file, finalize and sign a file, or move a renamed file to its
/// new path; nothing for membership changes and for an added file without
/// content.
pub fn document_action(pt: &ProposalType) -> (a: DocumentAction)
    ensures
        document_action_spec(*pt, a),
{
    match pt {
        ProposalType::AddFile { path, content: Some(c), .. } => DocumentAction::WriteNewFile {
            path: path.clone(),
            content: c.clone(),
        },
        ProposalType::EditFile { path, diff, .. } => DocumentAction::ApplyEdit { path: path.clone(), diff: diff.clone() },
        ProposalType::RemoveFile { path } => DocumentAction::Remove { path: path.clone() },
        ProposalType::MarkFinal { path } => DocumentAction::FinalizeAndSign { path: path.clone() },
        ProposalType::ChangeFileName { path, new_name } => DocumentAction::Rename {
            from: path.clone(),
            to: renamed_file_path(path.as_str(), new_name.as_str()),
        },
        _ => DocumentAction::Nothing,
    }
}

/// Whether accepting a proposal of type `pt` changes the membership or the
/// set of network files that peers must learn of.
pub open spec fn changes_shared_state(pt: ProposalType) -> bool {
    ||| pt is AddMember
    ||| pt is ExpelMember
    ||| pt is AddFile
    ||| pt is RemoveFile
    ||| pt is MarkFinal
    ||| pt is ChangeFileName
}

/// Whether accepting a proposal of type `pt` changes state that peers must
/// learn of, see `changes_shared_state`.
pub fn is_shared_state_change(pt: &ProposalType) -> (b: bool)
    ensures
        b == changes_shared_state(*pt),
{
    match pt {
        ProposalType::AddMember { .. } | ProposalType::ExpelMember { .. } | ProposalType::AddFile { .. }
        | ProposalType::RemoveFile { .. } | ProposalType::MarkFinal { .. } | ProposalType::ChangeFileName {
            ..
        } => true,
        _ => false,
    }
}

/// Whether a node broadcasts its governance state once a proposal of type
/// `pt` is accepted: after a change of shared state and after an edit.
pub fn announces_state_after(pt: &ProposalType) -> (b: bool)
    ensures
        b == (changes_shared_state(*pt) || pt is EditFile),
{
    match pt {
        ProposalType::EditFile { .. } => true,
        _ => is_shared_state_change(pt),
    }
}

/// The governance state a node starts with: the one it saved, else a new
/// network founded by the configured genesis member, else an empty state to
/// be filled from peers.
pub fn initial_governance(saved: Option<GovernanceState>, network_name: &str, genesis: &Option<GenesisConfig>) -> (g:
    GovernanceState)
    requires
        saved matches Some(s) ==> s.wf(),
    ensures
        g.wf(),
        saved matches Some(s) ==> g == s,
        saved is None ==> {
            &&& g.network_name@ == network_name@
            &&& g.proposals@.is_empty()
            &&& g.rate_counters@.is_empty()
            &&& g.accepted_file_paths@.is_empty()
            &&& g.epoch == 0
        },
        saved is None && genesis is None ==> g.members@.is_empty(),
        saved is None ==> (genesis matches Some(gc) ==> {
            let d = digest_of(gc.public_key_hex@);
            &&& g.members@.dom() == set![d]
            &&& g.members@[d].status == MemberStatus::Active
            &&& g.members@[d].identity.digest@ == d
            &&& g.members@[d].identity.public_key_hex@ == trimmed(gc.public_key_hex@)
            &&& (no_surrounding_white_space(gc.public_key_hex@) ==> g.members@[d].identity.public_key_hex@
                == gc.public_key_hex@)
            &&& g.members@[d].identity.display_name == Some(gc.member_name)
            &&& g.members@[d].identity.x25519_public_key_hex is None
            &&& g.active_count() == 1
        }),
{
    match saved {
        Some(s) => s,
        None => match genesis {
            Some(gc) => {
                let identity = MemberIdentity::new(gc.public_key_hex.as_str(), Some(gc.member_name.clone()));
                GovernanceState::new_genesis(network_name, identity)
            },
            None => GovernanceState::new_empty(network_name),
        },
    }
}

/// Where `ChangeFileName` moves the file at `path`, see `renamed_path`.
pub fn renamed_file_path(path: &str, new_name: &str) -> (p: String)
    ensures
        p@ == renamed_path(path@, new_name@),
{
    match path_parent(path) {
        Some(parent) => path_join(parent.as_str(), new_name),
        None => new_name.to_string(),
    }
}

impl GovernanceState {
    /// Opens a proposal by `proposer` on `today` unless the proposer has used
    /// up its requests for the day. The request is counted before the
    /// proposal is checked, so a refused proposal still counts.
    pub fn propose_rate_limited_on(
        &mut self,
        proposal_type: ProposalType,
        proposer: &str,
        max_requests: u32,
        today: &str,
    ) -> (r: Result<String, GovernanceError>)
        requires
            old(self).wf(),
        ensures
            final(self).wf(),
            !counter_allows(old(self).rate_counters@.get(proposer@), today@, max_requests) ==> r == Err::<
                String,
                GovernanceError,
            >(GovernanceError::RateLimitExceeded) && *final(self) == *old(self),
            counter_allows(old(self).rate_counters@.get(proposer@), today@, max_requests) ==> {
                &&& final(self).rate_counters@ == old(self).rate_counters@.insert(
                    proposer@,
                    final(self).rate_counters@[proposer@],
                )
                &&& counted_one_more(
                    old(self).rate_counters@.get(proposer@),
                    final(self).rate_counters@[proposer@],
                    today@,
                )
                &&& match r {
                    Err(e) => submit_refusal(*old(self), proposal_type, proposer@) == Some(e)
                        && final(self).proposals == old(self).proposals,
                    Ok(id) => submit_refusal(*old(self), proposal_type, proposer@) is None
                        && final(self).proposals@.contains_key(id@) && final(self).proposals@[id@].proposal_type
                        == proposal_type,
                }
                &&& final(self).members == old(self).members
                &&& final(self).accepted_file_paths == old(self).accepted_file_paths
                &&& final(self).epoch == old(self).epoch
            },
    {
        if !self.check_rate_limit_on(proposer, max_requests, today) {
            return Err(GovernanceError::RateLimitExceeded);
        }
        self.increment_rate_counter_on(proposer, today);
        self.submit_proposal(proposal_type, proposer)
    }

    /// `propose_rate_limited_on` for today's UTC date, read from the clock.
    pub fn propose_rate_limited(&mut self, proposal_type: ProposalType, proposer: &str, max_requests: u32) -> (r: Result<
        String,
        GovernanceError,
    >)
        requires
            old(self).wf(),
        ensures
            final(self).wf(),
            r matches Ok(id) ==> submit_refusal(*old(self), proposal_type, proposer@) is None
                && final(self).proposals@.contains_key(id@) && final(self).proposals@[id@].proposal_type
                == proposal_type,
            r matches Err(e) ==> e == GovernanceError::RateLimitExceeded || submit_refusal(
                *old(self),
                proposal_type,
                proposer@,
            ) == Some(e),
            final(self).members == old(self).members,
            final(self).accepted_file_paths == old(self).accepted_file_paths,
            final(self).epoch == old(self).epoch,
    {
        let today = today_utc();
        self.propose_rate_limited_on(proposal_type, proposer, max_requests, today.as_str())
    }
}

} // verus!
