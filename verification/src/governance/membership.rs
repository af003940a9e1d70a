//! The governance state of a network: its members, the proposals under vote,
//! the files the network has accepted and per-member daily request counters.

use vstd::prelude::*;
use crate::crypto::identity::{digest_of, MemberIdentity, MemberRecord, MemberStatus};
use crate::governance::voting::{Proposal, ProposalStatus, ProposalType, Vote};
use crate::strmap::{count_where, lemma_count_push, lemma_count_remove, lemma_count_update, StrMap, StrSet};
use crate::support::clock::{now_millis, today_utc};
use crate::support::paths::{path_join_of, path_parent_of};
use crate::network::node::renamed_file_path;
use crate::text::{str_eq, trim, trimmed};

verus! {

/// Requests a member made on one day.
#[derive(Debug, Clone)]
pub struct DailyRateCounter {
    pub date: String,
    pub new_files: u32,
    pub file_updates: u32,
    pub total_requests: u32,
}

/// Why a governance request was refused.
#[derive(Debug, Clone, Copy, PartialEq, Eq, Structural)]
pub enum GovernanceError {
    NotActiveMember,
    AlreadyMember,
    ProposalNotFound,
    ProposalAlreadyResolved,
    AlreadyVoted,
    RateLimitExceeded,
    CannotExpelSelf,
}

impl GovernanceError {
    /// The human-readable description of the error.
    pub fn message(&self) -> (m: &'static str)
        ensures
            m@ == match *self {
                GovernanceError::NotActiveMember => "not an active member"@,
                GovernanceError::AlreadyMember => "already a member"@,
                GovernanceError::ProposalNotFound => "proposal not found"@,
                GovernanceError::ProposalAlreadyResolved => "proposal already resolved"@,
                GovernanceError::AlreadyVoted => "already voted on this proposal"@,
                GovernanceError::RateLimitExceeded => "rate limit exceeded"@,
                GovernanceError::CannotExpelSelf => "cannot expel yourself"@,
            },
    {
        match self {
            GovernanceError::NotActiveMember => "not an active member",
            GovernanceError::AlreadyMember => "already a member",
            GovernanceError::ProposalNotFound => "proposal not found",
            GovernanceError::ProposalAlreadyResolved => "proposal already resolved",
            GovernanceError::AlreadyVoted => "already voted on this proposal",
            GovernanceError::RateLimitExceeded => "rate limit exceeded",
            GovernanceError::CannotExpelSelf => "cannot expel yourself",
        }
    }
}

/// The full governance state of a network. `epoch` counts the proposals the
/// network has accepted.
#[derive(Debug, Clone)]
pub struct GovernanceState {
    pub network_name: String,
    pub members: StrMap<MemberRecord>,
    pub proposals: StrMap<Proposal>,
    pub rate_counters: StrMap<DailyRateCounter>,
    pub accepted_file_paths: StrSet,
    pub epoch: u64,
}

/// Whether a member record has the given status.
pub open spec fn has_status(st: MemberStatus) -> spec_fn(MemberRecord) -> bool {
    |r: MemberRecord| r.status == st
}

/// The digests of the members with status `st`.
pub open spec fn digests_with_status(members: Map<Seq<char>, MemberRecord>, st: MemberStatus) -> Set<Seq<char>> {
    members.dom().filter(|d: Seq<char>| members[d].status == st)
}

/// Whether a proposal is still pending.
pub open spec fn is_pending() -> spec_fn(Proposal) -> bool {
    |p: Proposal| p.status == ProposalStatus::Pending
}

/// Whether `p` still waits for a vote of `member`: it is pending, the member
/// has not voted on it, and it does not propose to add the member itself.
pub open spec fn awaits_vote_of(member: Seq<char>) -> spec_fn(Proposal) -> bool {
    |p: Proposal|
        p.status == ProposalStatus::Pending && !p.votes@.contains_key(member) && !(match p.proposal_type {
            ProposalType::AddMember { public_key_hex, .. } => digest_of(trimmed(public_key_hex@)) == member,
            _ => false,
        })
}

/// Where `ChangeFileName` moves a file: `new_name` in the directory of
/// `path`, or `new_name` alone when `path` has no parent.
pub open spec fn renamed_path(path: Seq<char>, new_name: Seq<char>) -> Seq<char> {
    match path_parent_of(path) {
        Some(parent) => path_join_of(parent, new_name),
        None => new_name,
    }
}

/// Whether a request counter allows one more request today.
pub open spec fn counter_allows(
    counter: Option<DailyRateCounter>,
    today: Seq<char>,
    max_requests: u32,
) -> bool {
    match counter {
        Some(c) => c.date@ == today ==> c.total_requests < max_requests,
        None => true,
    }
}

/// Whether `after` is `before` with one more request counted on `today`.
pub open spec fn counted_one_more(before: Option<DailyRateCounter>, after: DailyRateCounter, today: Seq<char>) -> bool {
    &&& after.date@ == today
    &&& match before {
        Some(c) if c.date@ == today => {
            &&& after.new_files == c.new_files
            &&& after.file_updates == c.file_updates
            &&& after.total_requests == c.total_requests + 1
        },
        _ => {
            &&& after.new_files == 0
            &&& after.file_updates == 0
            &&& after.total_requests == 1
        },
    }
}

/// What accepting a proposal of type `ptype` does to the members and the
/// accepted files of `before`, giving `after`. Times of joining and
/// expulsion are taken from the clock, so only their presence is fixed.
pub open spec fn effect_of(before: GovernanceState, after: GovernanceState, ptype: ProposalType) -> bool {
    &&& match ptype {
        ProposalType::AddMember { public_key_hex, display_name } => {
            let d = digest_of(public_key_hex@);
            let r = after.members@[d];
            &&& after.members@ == before.members@.insert(d, r)
            &&& r.identity.digest@ == d
            &&& r.identity.public_key_hex@ == trimmed(public_key_hex@)
            &&& r.identity.display_name == display_name
            &&& r.identity.x25519_public_key_hex is None
            &&& r.status == MemberStatus::Active
            &&& r.joined_at is Some
            &&& r.expelled_at is None
        },
        ProposalType::ExpelMember { member_digest } => {
            let d = member_digest@;
            if before.members@.contains_key(d) {
                let r = after.members@[d];
                &&& after.members@ == before.members@.insert(d, r)
                &&& r.identity == before.members@[d].identity
                &&& r.status == MemberStatus::Expelled
                &&& r.joined_at == before.members@[d].joined_at
                &&& r.expelled_at is Some
            } else {
                after.members@ == before.members@
            }
        },
        ProposalType::ChangeMemberName { member_digest, new_name } => {
            let d = member_digest@;
            if before.members@.contains_key(d) {
                let old_r = before.members@[d];
                after.members@ == before.members@.insert(
                    d,
                    MemberRecord {
                        identity: MemberIdentity { display_name: Some(new_name), ..old_r.identity },
                        ..old_r
                    },
                )
            } else {
                after.members@ == before.members@
            }
        },
        ProposalType::ChangeMemberKey { member_digest, new_public_key_hex } => {
            let d = member_digest@;
            let nd = digest_of(new_public_key_hex@);
            if before.members@.contains_key(d) {
                let old_r = before.members@[d];
                let r = after.members@[nd];
                &&& after.members@ == before.members@.remove(d).insert(nd, r)
                &&& r.identity.digest@ == nd
                &&& r.identity.public_key_hex == new_public_key_hex
                &&& r.identity.display_name == old_r.identity.display_name
                &&& r.identity.x25519_public_key_hex == old_r.identity.x25519_public_key_hex
                &&& r.status == old_r.status
                &&& r.joined_at == old_r.joined_at
                &&& r.expelled_at == old_r.expelled_at
            } else {
                after.members@ == before.members@
            }
        },
        _ => after.members@ == before.members@,
    }
    &&& after.accepted_file_paths@ == match ptype {
        ProposalType::AddFile { path, .. } => before.accepted_file_paths@.insert(path@),
        ProposalType::RemoveFile { path } => before.accepted_file_paths@.remove(path@),
        ProposalType::ChangeFileName { path, new_name } => if before.accepted_file_paths@.contains(path@) {
            before.accepted_file_paths@.remove(path@).insert(renamed_path(path@, new_name@))
        } else {
            before.accepted_file_paths@
        },
        _ => before.accepted_file_paths@,
    }
}

/// The error that refuses a proposal of type `ptype` by `proposer`, if any:
/// the proposer must be active, a member to add must not be active yet, and
/// a member to expel must be active and other than the proposer.
pub open spec fn submit_refusal(g: GovernanceState, ptype: ProposalType, proposer: Seq<char>) -> Option<GovernanceError> {
    if !g.is_active(proposer) {
        Some(GovernanceError::NotActiveMember)
    } else {
        match ptype {
            ProposalType::AddMember { public_key_hex, .. } => if g.is_active(digest_of(public_key_hex@)) {
                Some(GovernanceError::AlreadyMember)
            } else {
                None
            },
            ProposalType::ExpelMember { member_digest } => if !g.is_active(member_digest@) {
                Some(GovernanceError::NotActiveMember)
            } else if member_digest@ == proposer {
                Some(GovernanceError::CannotExpelSelf)
            } else {
                None
            },
            _ => None,
        }
    }
}

/// The error that refuses a vote by `voter` on proposal `id`, if any: the
/// voter must be active, the proposal must exist and be pending, and the
/// voter must not have voted on it.
pub open spec fn vote_refusal(g: GovernanceState, id: Seq<char>, voter: Seq<char>) -> Option<GovernanceError> {
    if !g.is_active(voter) {
        Some(GovernanceError::NotActiveMember)
    } else if !g.proposals@.contains_key(id) {
        Some(GovernanceError::ProposalNotFound)
    } else if g.proposals@[id].status != ProposalStatus::Pending {
        Some(GovernanceError::ProposalAlreadyResolved)
    } else if g.proposals@[id].votes@.contains_key(voter) {
        Some(GovernanceError::AlreadyVoted)
    } else {
        None
    }
}

/// Whether `p` is a fresh pending proposal of type `ptype` by `proposer`.
pub open spec fn is_fresh_proposal(p: Proposal, ptype: ProposalType, proposer: Seq<char>) -> bool {
    &&& p.wf()
    &&& p.proposal_type == ptype
    &&& p.proposer_digest@ == proposer
    &&& p.votes@.is_empty()
    &&& p.votes.value_order().len() == 0
    &&& p.status == ProposalStatus::Pending
    &&& p.resolved_at is None
}

/// Whether `q` is `p` with `vote` added and then resolved among `n` members.
pub open spec fn voted_and_resolved(p: Proposal, q: Proposal, vote: Vote, n: int) -> bool {
    &&& q.wf()
    &&& q.votes@ == p.votes@.insert(vote.voter_digest@, vote)
    &&& q.votes.value_order() == p.votes.value_order().push(vote)
    &&& q.status == Proposal { status: ProposalStatus::Pending, ..q }.resolved_status(n)
    &&& q.id == p.id
    &&& q.proposal_type == p.proposal_type
    &&& q.proposer_digest == p.proposer_digest
    &&& q.created_at == p.created_at
    &&& (q.status == ProposalStatus::Pending ==> q.resolved_at == p.resolved_at)
    &&& (q.status != ProposalStatus::Pending ==> q.resolved_at is Some)
}

/// Whether `after` is `before` once a proposal received from a peer under
/// `id` was recorded: only a new id from an active member is recorded.
pub open spec fn peer_proposal_recorded(
    before: GovernanceState,
    after: GovernanceState,
    id: Seq<char>,
    ptype: ProposalType,
    proposer: Seq<char>,
) -> bool {
    &&& (before.proposals@.contains_key(id) || !before.is_active(proposer) ==> after == before)
    &&& (!before.proposals@.contains_key(id) && before.is_active(proposer) ==> {
        &&& after.proposals@ == before.proposals@.insert(id, after.proposals@[id])
        &&& is_fresh_proposal(after.proposals@[id], ptype, proposer)
        &&& after.proposals@[id].id@ == id
        &&& after.network_name == before.network_name
        &&& after.members == before.members
        &&& after.rate_counters == before.rate_counters
        &&& after.accepted_file_paths == before.accepted_file_paths
        &&& after.epoch == before.epoch
    })
}

/// Whether `after` is `before` once `vote` on proposal `id` was counted and
/// the proposal resolved to `st` among the members active before the vote;
/// an accepted proposal is carried out and bumps the epoch by one.
pub open spec fn vote_counted(
    before: GovernanceState,
    after: GovernanceState,
    id: Seq<char>,
    vote: Vote,
    st: ProposalStatus,
) -> bool {
    let p = before.proposals@[id];
    let q = after.proposals@[id];
    &&& vote_refusal(before, id, vote.voter_digest@) is None
    &&& after.proposals@ == before.proposals@.insert(id, q)
    &&& voted_and_resolved(p, q, vote, before.active_count() as int)
    &&& st == q.status
    &&& after.network_name == before.network_name
    &&& after.rate_counters == before.rate_counters
    &&& (st == ProposalStatus::Accepted ==> effect_of(before, after, p.proposal_type) && after.epoch == before.epoch
        + 1)
    &&& (st != ProposalStatus::Accepted ==> after.members == before.members && after.accepted_file_paths
        == before.accepted_file_paths && after.epoch == before.epoch)
}

impl GovernanceState {
    /// Well-formedness: the maps and the set hold each key once, and every
    /// proposal holds at most one vote per voter.
    pub open spec fn wf(self) -> bool {
        &&& self.members.wf()
        &&& self.proposals.wf()
        &&& self.rate_counters.wf()
        &&& self.accepted_file_paths.wf()
        &&& forall|k: Seq<char>| #[trigger] self.proposals@.contains_key(k) ==> self.proposals@[k].wf()
    }

    /// The member records with status `st`, in the order the state holds them.
    pub open spec fn with_status(self, st: MemberStatus) -> Seq<MemberRecord> {
        self.members.value_order().filter(has_status(st))
    }

    /// The number of active members.
    pub open spec fn active_count(self) -> nat {
        digests_with_status(self.members@, MemberStatus::Active).len()
    }

    /// Whether `digest` names an active member.
    pub open spec fn is_active(self, digest: Seq<char>) -> bool {
        self.members@.contains_key(digest) && self.members@[digest].status == MemberStatus::Active
    }

    /// A network founded by one active member.
    pub fn new_genesis(network_name: &str, genesis_identity: MemberIdentity) -> (g: Self)
        ensures
            g.wf(),
            g.network_name@ == network_name@,
            g.members@.dom() == set![genesis_identity.digest@],
            g.members@[genesis_identity.digest@].identity == genesis_identity,
            g.members@[genesis_identity.digest@].status == MemberStatus::Active,
            g.members@[genesis_identity.digest@].joined_at is Some,
            g.members@[genesis_identity.digest@].expelled_at is None,
            g.active_count() == 1,
            g.proposals@.is_empty(),
            g.rate_counters@.is_empty(),
            g.accepted_file_paths@.is_empty(),
            g.epoch == 0,
    {
        let mut members = StrMap::new();
        let key = genesis_identity.digest.clone();
        let record = MemberRecord::new_genesis(genesis_identity);
        members.insert(key, record);
        proof {
            assert(members@.dom() =~= set![key@]);
            assert(digests_with_status(members@, MemberStatus::Active) =~= set![key@]);
        }
        GovernanceState {
            network_name: network_name.to_string(),
            members,
            proposals: StrMap::new(),
            rate_counters: StrMap::new(),
            accepted_file_paths: StrSet::new(),
            epoch: 0,
        }
    }

    /// An empty state for a node that joins an existing network and learns
    /// its members from peers.
    pub fn new_empty(network_name: &str) -> (g: Self)
        ensures
            g.wf(),
            g.network_name@ == network_name@,
            g.members@.is_empty(),
            g.members.value_order().len() == 0,
            g.proposals@.is_empty(),
            g.rate_counters@.is_empty(),
            g.accepted_file_paths@.is_empty(),
            g.epoch == 0,
    {
        GovernanceState {
            network_name: network_name.to_string(),
            members: StrMap::new(),
            proposals: StrMap::new(),
            rate_counters: StrMap::new(),
            accepted_file_paths: StrSet::new(),
            epoch: 0,
        }
    }

    fn members_with_status(&self, st: MemberStatus) -> (r: Vec<&MemberRecord>)
        ensures
            r@.map_values(|m: &MemberRecord| *m) == self.with_status(st),
    {
        let n = self.members.entry_count();
        let mut r: Vec<&MemberRecord> = Vec::new();
        let mut i: usize = 0;
        while i < n
            invariant
                n == self.members.value_order().len(),
                i <= n,
                r@.map_values(|m: &MemberRecord| *m) == self.members.value_order().take(i as int).filter(
                    has_status(st),
                ),
            decreases n - i,
        {
            let m = self.members.value_at(i);
            proof {
                let s = self.members.value_order();
                assert(s.take(i + 1) =~= s.take(i as int).push(s[i as int]));
                s.take(i as int).lemma_filter_push(s[i as int], has_status(st));
            }
            if m.status == st {
                r.push(m);
            }
            proof {
                let s = self.members.value_order();
                assert(r@.map_values(|m: &MemberRecord| *m) =~= s.take(i + 1).filter(has_status(st)));
            }
            i = i + 1;
        }
        proof {
            assert(self.members.value_order().take(n as int) =~= self.members.value_order());
        }
        r
    }

    /// The active members.
    pub fn active_members(&self) -> (r: Vec<&MemberRecord>)
        ensures
            r@.map_values(|m: &MemberRecord| *m) == self.with_status(MemberStatus::Active),
    {
        self.members_with_status(MemberStatus::Active)
    }

    /// The members waiting to join.
    pub fn pending_members(&self) -> (r: Vec<&MemberRecord>)
        ensures
            r@.map_values(|m: &MemberRecord| *m) == self.with_status(MemberStatus::PendingJoin),
    {
        self.members_with_status(MemberStatus::PendingJoin)
    }

    /// The expelled members.
    pub fn expelled_members(&self) -> (r: Vec<&MemberRecord>)
        ensures
            r@.map_values(|m: &MemberRecord| *m) == self.with_status(MemberStatus::Expelled),
    {
        self.members_with_status(MemberStatus::Expelled)
    }

    /// The number of active members.
    pub fn active_member_count(&self) -> (n: usize)
        requires
            self.wf(),
        ensures
            n == self.active_count(),
    {
        let r = self.active_members();
        proof {
            assert(r@.map_values(|m: &MemberRecord| *m).len() == r@.len());
            self.members.lemma_count_by_keys(has_status(MemberStatus::Active));
            assert(self.members@.dom().filter(|k: Seq<char>| has_status(MemberStatus::Active)(self.members@[k]))
                =~= digests_with_status(self.members@, MemberStatus::Active));
        }
        r.len()
    }

    /// Whether `digest` names an active member.
    pub fn is_active_member(&self, digest: &str) -> (b: bool)
        requires
            self.wf(),
        ensures
            b == self.is_active(digest@),
    {
        match self.members.get(digest) {
            Some(m) => m.status == MemberStatus::Active,
            None => false,
        }
    }
    /// Opens a vote on `proposal_type` by `proposer_digest`; answers the new
    /// proposal's id, or the error of `submit_refusal`, leaving the state
    /// unchanged.
    pub fn submit_proposal(&mut self, proposal_type: ProposalType, proposer_digest: &str) -> (r: Result<
        String,
        GovernanceError,
    >)
        requires
            old(self).wf(),
        ensures
            final(self).wf(),
            match r {
                Err(e) => submit_refusal(*old(self), proposal_type, proposer_digest@) == Some(e) && *final(self) == *old(self),
                Ok(id) => {
                    &&& submit_refusal(*old(self), proposal_type, proposer_digest@) is None
                    &&& id@.len() == 36
                    &&& final(self).proposals@ == old(self).proposals@.insert(id@, final(self).proposals@[id@])
                    &&& is_fresh_proposal(final(self).proposals@[id@], proposal_type, proposer_digest@)
                    &&& final(self).proposals@[id@].id == id
                    &&& final(self).network_name == old(self).network_name
                    &&& final(self).members == old(self).members
                    &&& final(self).rate_counters == old(self).rate_counters
                    &&& final(self).accepted_file_paths == old(self).accepted_file_paths
                    &&& final(self).epoch == old(self).epoch
                },
            },
    {
        if !self.is_active_member(proposer_digest) {
            return Err(GovernanceError::NotActiveMember);
        }
        match &proposal_type {
            ProposalType::AddMember { public_key_hex, .. } => {
                let target_digest = MemberIdentity::compute_digest(public_key_hex.as_str());
                if self.is_active_member(target_digest.as_str()) {
                    return Err(GovernanceError::AlreadyMember);
                }
            },
            ProposalType::ExpelMember { member_digest } => {
                if !self.is_active_member(member_digest.as_str()) {
                    return Err(GovernanceError::NotActiveMember);
                }
                if str_eq(member_digest.as_str(), proposer_digest) {
                    return Err(GovernanceError::CannotExpelSelf);
                }
            },
            _ => {},
        }
        let proposal = Proposal::new(proposal_type, proposer_digest);
        let id = proposal.id.clone();
        self.proposals.insert(id.clone(), proposal);
        Ok(id)
    }

    /// Records a proposal received from a peer under its own id, unless the
    /// id is known already or the proposer is not an active member.
    pub fn insert_proposal_from_peer(
        &mut self,
        proposal_id: &str,
        proposal_type: ProposalType,
        proposer_digest: &str,
    )
        requires
            old(self).wf(),
        ensures
            final(self).wf(),
            peer_proposal_recorded(*old(self), *final(self), proposal_id@, proposal_type, proposer_digest@),
    {
        if self.proposals.contains_key(proposal_id) {
            return;
        }
        if !self.is_active_member(proposer_digest) {
            return;
        }
        let proposal = Proposal::with_id(proposal_id.to_string(), proposal_type, proposer_digest);
        self.proposals.insert(proposal_id.to_string(), proposal);
    }

    /// Casts `vote` on proposal `proposal_id` and resolves the proposal among
    /// the members active before the vote. An accepted proposal is carried
    /// out at once and bumps the epoch by one. Answers the proposal's status,
    /// or the error of `vote_refusal`, leaving the state unchanged.
    pub fn cast_vote(&mut self, proposal_id: &str, vote: Vote) -> (r: Result<ProposalStatus, GovernanceError>)
        requires
            old(self).wf(),
            old(self).epoch < u64::MAX,
        ensures
            final(self).wf(),
            match r {
                Err(e) => vote_refusal(*old(self), proposal_id@, vote.voter_digest@) == Some(e) && *final(self) == *old(self),
                Ok(st) => vote_counted(*old(self), *final(self), proposal_id@, vote, st),
            },
    {
        if !self.is_active_member(vote.voter_digest.as_str()) {
            return Err(GovernanceError::NotActiveMember);
        }
        let total = self.active_member_count();
        match self.proposals.get(proposal_id) {
            None => {
                return Err(GovernanceError::ProposalNotFound);
            },
            Some(p) => {
                if p.status != ProposalStatus::Pending {
                    return Err(GovernanceError::ProposalAlreadyResolved);
                }
                if p.votes.contains_key(vote.voter_digest.as_str()) {
                    return Err(GovernanceError::AlreadyVoted);
                }
            },
        }
        let ghost g0 = *self;
        let mut proposal = match self.proposals.remove(proposal_id) {
            Some(p) => p,
            None => {
                return Err(GovernanceError::ProposalNotFound);
            },
        };
        let ghost p0 = proposal;
        proposal.add_vote(vote);
        let status = proposal.resolve(total);
        if status == ProposalStatus::Accepted {
            self.apply_accepted_proposal(&proposal.proposal_type);
            self.epoch = self.epoch + 1;
        }
        self.proposals.insert(proposal_id.to_string(), proposal);
        proof {
            assert(self.proposals@ =~= g0.proposals@.insert(proposal_id@, proposal));
            assert forall|k: Seq<char>| #[trigger] self.proposals@.contains_key(k) implies self.proposals@[k].wf() by {
                if k != proposal_id@ {
                    assert(g0.proposals@.contains_key(k));
                }
            }
        }
        Ok(status)
    }

    /// The proposals still pending.
    pub fn pending_proposals(&self) -> (r: Vec<&Proposal>)
        ensures
            r@.map_values(|p: &Proposal| *p) == self.proposals.value_order().filter(is_pending()),
    {
        let n = self.proposals.entry_count();
        let mut r: Vec<&Proposal> = Vec::new();
        let mut i: usize = 0;
        while i < n
            invariant
                n == self.proposals.value_order().len(),
                i <= n,
                r@.map_values(|p: &Proposal| *p) == self.proposals.value_order().take(i as int).filter(
                    is_pending(),
                ),
            decreases n - i,
        {
            let p = self.proposals.value_at(i);
            proof {
                let s = self.proposals.value_order();
                assert(s.take(i + 1) =~= s.take(i as int).push(s[i as int]));
                s.take(i as int).lemma_filter_push(s[i as int], is_pending());
            }
            if p.status == ProposalStatus::Pending {
                r.push(p);
            }
            proof {
                let s = self.proposals.value_order();
                assert(r@.map_values(|p: &Proposal| *p) =~= s.take(i + 1).filter(is_pending()));
            }
            i = i + 1;
        }
        proof {
            assert(self.proposals.value_order().take(n as int) =~= self.proposals.value_order());
        }
        r
    }

    /// How many proposals still wait for a vote of `member_digest`, see
    /// `awaits_vote_of`.
    pub fn proposals_awaiting_vote(&self, member_digest: &str) -> (n: usize)
        requires
            self.wf(),
        ensures
            n == count_where(self.proposals.value_order(), awaits_vote_of(member_digest@)),
    {
        proof {
            self.proposals.lemma_shape();
        }
        let count = self.proposals.entry_count();
        let mut n: usize = 0;
        let mut i: usize = 0;
        while i < count
            invariant
                self.wf(),
                count == self.proposals.value_order().len(),
                count == self.proposals.key_order().len(),
                forall|j: int|
                    #![trigger self.proposals.key_order()[j]]
                    0 <= j < self.proposals.key_order().len() ==> self.proposals@.contains_key(
                        self.proposals.key_order()[j],
                    ) && self.proposals@[self.proposals.key_order()[j]] == self.proposals.value_order()[j],
                i <= count,
                n <= i,
                n == count_where(self.proposals.value_order().take(i as int), awaits_vote_of(member_digest@)),
            decreases count - i,
        {
            let p = self.proposals.value_at(i);
            proof {
                let s = self.proposals.value_order();
                assert(s.take(i + 1) =~= s.take(i as int).push(s[i as int]));
                lemma_count_push(s.take(i as int), s[i as int], awaits_vote_of(member_digest@));
                let k = self.proposals.key_order()[i as int];
                assert(self.proposals@.contains_key(k));
            }
            let mut awaits = p.status == ProposalStatus::Pending && !p.votes.contains_key(member_digest);
            if awaits {
                match &p.proposal_type {
                    ProposalType::AddMember { public_key_hex, .. } => {
                        let target = MemberIdentity::compute_digest(trim(public_key_hex.as_str()));
                        if str_eq(target.as_str(), member_digest) {
                            awaits = false;
                        }
                    },
                    _ => {},
                }
            }
            if awaits {
                n = n + 1;
            }
            i = i + 1;
        }
        proof {
            assert(self.proposals.value_order().take(count as int) =~= self.proposals.value_order());
        }
        n
    }

    /// Whether one more request of `member_digest` is allowed on `today`: a
    /// member whose counter is of another day, or who has none, always may.
    pub fn check_rate_limit_on(&self, member_digest: &str, max_requests: u32, today: &str) -> (b: bool)
        requires
            self.wf(),
        ensures
            b == counter_allows(self.rate_counters@.get(member_digest@), today@, max_requests),
    {
        match self.rate_counters.get(member_digest) {
            Some(counter) => {
                if str_eq(counter.date.as_str(), today) {
                    counter.total_requests < max_requests
                } else {
                    true
                }
            },
            None => true,
        }
    }

    /// `check_rate_limit_on` for today's UTC date, read from the clock.
    pub fn check_rate_limit(&self, member_digest: &str, max_requests: u32) -> (b: bool)
        requires
            self.wf(),
        ensures
            !self.rate_counters@.contains_key(member_digest@) ==> b,
            exists|today: Seq<char>|
                b == #[trigger] counter_allows(self.rate_counters@.get(member_digest@), today, max_requests),
    {
        let today = today_utc();
        self.check_rate_limit_on(member_digest, max_requests, today.as_str())
    }

    /// Whether the network has accepted the file at `path`.
    pub fn is_network_file(&self, path: &str) -> (b: bool)
        requires
            self.wf(),
        ensures
            b == self.accepted_file_paths@.contains(path@),
    {
        self.accepted_file_paths.contains(path)
    }

    /// Counts one more request of `member_digest` on `today`; a counter of
    /// another day starts over.
    pub fn increment_rate_counter_on(&mut self, member_digest: &str, today: &str)
        requires
            old(self).wf(),
            old(self).rate_counters@.contains_key(member_digest@) && old(self).rate_counters@[member_digest@].date@
                == today@ ==> old(self).rate_counters@[member_digest@].total_requests < u32::MAX,
        ensures
            final(self).wf(),
            final(self).rate_counters@ == old(self).rate_counters@.insert(
                member_digest@,
                final(self).rate_counters@[member_digest@],
            ),
            counted_one_more(
                old(self).rate_counters@.get(member_digest@),
                final(self).rate_counters@[member_digest@],
                today@,
            ),
            final(self).network_name == old(self).network_name,
            final(self).members == old(self).members,
            final(self).proposals == old(self).proposals,
            final(self).accepted_file_paths == old(self).accepted_file_paths,
            final(self).epoch == old(self).epoch,
    {
        let counter = match self.rate_counters.remove(member_digest) {
            Some(c) => {
                if str_eq(c.date.as_str(), today) {
                    DailyRateCounter {
                        date: c.date,
                        new_files: c.new_files,
                        file_updates: c.file_updates,
                        total_requests: c.total_requests + 1,
                    }
                } else {
                    DailyRateCounter { date: today.to_string(), new_files: 0, file_updates: 0, total_requests: 1 }
                }
            },
            None => DailyRateCounter { date: today.to_string(), new_files: 0, file_updates: 0, total_requests: 1 },
        };
        self.rate_counters.insert(member_digest.to_string(), counter);
    }

    /// `increment_rate_counter_on` for today's UTC date, read from the clock.
    pub fn increment_rate_counter(&mut self, member_digest: &str)
        requires
            old(self).wf(),
            old(self).rate_counters@.contains_key(member_digest@) ==> old(self).rate_counters@[member_digest@].total_requests < u32::MAX,
        ensures
            final(self).wf(),
            final(self).rate_counters@ == old(self).rate_counters@.insert(
                member_digest@,
                final(self).rate_counters@[member_digest@],
            ),
            exists|today: Seq<char>|
                #[trigger] counted_one_more(
                    old(self).rate_counters@.get(member_digest@),
                    final(self).rate_counters@[member_digest@],
                    today,
                ),
            final(self).network_name == old(self).network_name,
            final(self).members == old(self).members,
            final(self).proposals == old(self).proposals,
            final(self).accepted_file_paths == old(self).accepted_file_paths,
            final(self).epoch == old(self).epoch,
    {
        let today = today_utc();
        self.increment_rate_counter_on(member_digest, today.as_str());
    }

    /// Carries out an accepted proposal on the members and accepted files;
    /// nothing else changes.
    fn apply_accepted_proposal(&mut self, proposal_type: &ProposalType)
        requires
            old(self).wf(),
        ensures
            final(self).wf(),
            effect_of(*old(self), *final(self), *proposal_type),
            final(self).network_name == old(self).network_name,
            final(self).proposals == old(self).proposals,
            final(self).rate_counters == old(self).rate_counters,
            final(self).epoch == old(self).epoch,
    {
        match proposal_type {
            ProposalType::AddMember { public_key_hex, display_name } => {
                let identity = MemberIdentity::new(public_key_hex.as_str(), display_name.clone());
                let key = identity.digest.clone();
                let record = MemberRecord {
                    identity,
                    status: MemberStatus::Active,
                    joined_at: Some(now_millis()),
                    expelled_at: None,
                };
                self.members.insert(key, record);
            },
            ProposalType::ExpelMember { member_digest } => {
                match self.members.remove(member_digest.as_str()) {
                    Some(mut member) => {
                        member.status = MemberStatus::Expelled;
                        member.expelled_at = Some(now_millis());
                        self.members.insert(member_digest.clone(), member);
                        proof {
                            assert(self.members@ =~= old(self).members@.insert(member_digest@, member));
                        }
                    },
                    None => {},
                }
            },
            ProposalType::ChangeMemberName { member_digest, new_name } => {
                match self.members.remove(member_digest.as_str()) {
                    Some(mut member) => {
                        member.identity.display_name = Some(new_name.clone());
                        self.members.insert(member_digest.clone(), member);
                        proof {
                            assert(self.members@ =~= old(self).members@.insert(member_digest@, member));
                        }
                    },
                    None => {},
                }
            },
            ProposalType::ChangeMemberKey { member_digest, new_public_key_hex } => {
                match self.members.remove(member_digest.as_str()) {
                    Some(mut member) => {
                        let new_digest = MemberIdentity::compute_digest(new_public_key_hex.as_str());
                        member.identity.public_key_hex = new_public_key_hex.clone();
                        member.identity.digest = new_digest.clone();
                        self.members.insert(new_digest, member);
                    },
                    None => {},
                }
            },
            ProposalType::AddFile { path, .. } => {
                self.accepted_file_paths.insert(path.clone());
            },
            ProposalType::RemoveFile { path } => {
                self.accepted_file_paths.remove(path.as_str());
            },
            ProposalType::ChangeFileName { path, new_name } => {
                if self.accepted_file_paths.remove(path.as_str()) {
                    let new_path = renamed_file_path(path.as_str(), new_name.as_str());
                    self.accepted_file_paths.insert(new_path);
                } else {
                    assert(self.accepted_file_paths@ =~= old(self).accepted_file_paths@);
                }
            },
            _ => {},
        }
    }
}

proof fn lemma_status_digests_insert(m: Map<Seq<char>, MemberRecord>, d: Seq<char>, r: MemberRecord, st: MemberStatus)
    requires
        m.dom().finite(),
    ensures
        digests_with_status(m, st).finite(),
        digests_with_status(m.insert(d, r), st).len() == digests_with_status(m, st).len()
            - (if m.dom().contains(d) && m[d].status == st { 1int } else { 0int })
            + (if r.status == st { 1int } else { 0int }),
{
    let before = digests_with_status(m, st);
    let after = digests_with_status(m.insert(d, r), st);
    m.dom().lemma_len_filter(|k: Seq<char>| m[k].status == st);
    if r.status == st {
        assert(after =~= before.insert(d));
    } else {
        assert(after =~= before.remove(d));
    }
}

proof fn lemma_status_digests_remove(m: Map<Seq<char>, MemberRecord>, d: Seq<char>, st: MemberStatus)
    requires
        m.dom().finite(),
    ensures
        digests_with_status(m.remove(d), st).len() == digests_with_status(m, st).len()
            - (if m.dom().contains(d) && m[d].status == st { 1int } else { 0int }),
{
    m.dom().lemma_len_filter(|k: Seq<char>| m[k].status == st);
    assert(digests_with_status(m.remove(d), st) =~= digests_with_status(m, st).remove(d));
}

/// Accepting the expulsion of a member leaves it inactive; if it was active,
/// the network has one active member fewer, and otherwise as many as before.
pub proof fn law_expulsion_deactivates(before: GovernanceState, after: GovernanceState, ptype: ProposalType)
    requires
        before.wf(),
        ptype is ExpelMember,
        effect_of(before, after, ptype),
    ensures
        !after.is_active(ptype->ExpelMember_member_digest@),
        before.is_active(ptype->ExpelMember_member_digest@) ==> after.active_count() + 1 == before.active_count(),
        !before.is_active(ptype->ExpelMember_member_digest@) ==> after.active_count() == before.active_count(),
{
    before.members.lemma_shape();
    let d = ptype->ExpelMember_member_digest@;
    if before.members@.contains_key(d) {
        lemma_status_digests_insert(before.members@, d, after.members@[d], MemberStatus::Active);
    }
}

/// Accepting the addition of a member makes the key's digest an active
/// member; the network gains one active member unless it was active already.
pub proof fn law_admission_activates(before: GovernanceState, after: GovernanceState, ptype: ProposalType)
    requires
        before.wf(),
        ptype is AddMember,
        effect_of(before, after, ptype),
    ensures
        after.is_active(digest_of(ptype->public_key_hex@)),
        before.is_active(digest_of(ptype->public_key_hex@)) ==> after.active_count() == before.active_count(),
        !before.is_active(digest_of(ptype->public_key_hex@)) ==> after.active_count() == before.active_count() + 1,
{
    before.members.lemma_shape();
    let d = digest_of(ptype->public_key_hex@);
    lemma_status_digests_insert(before.members@, d, after.members@[d], MemberStatus::Active);
}

/// Changing a member's key moves its record to the new key's digest and
/// keeps the number of active members, unless the new digest already named
/// another member, whose record it replaces.
pub proof fn law_rekey_keeps_member(before: GovernanceState, after: GovernanceState, ptype: ProposalType)
    requires
        before.wf(),
        ptype is ChangeMemberKey,
        effect_of(before, after, ptype),
        before.members@.contains_key(ptype->ChangeMemberKey_member_digest@),
        !before.members@.contains_key(digest_of(ptype->new_public_key_hex@)),
    ensures
        after.is_active(digest_of(ptype->new_public_key_hex@)) == before.is_active(ptype->ChangeMemberKey_member_digest@),
        !after.members@.contains_key(ptype->ChangeMemberKey_member_digest@),
        after.active_count() == before.active_count(),
{
    before.members.lemma_shape();
    let d = ptype->ChangeMemberKey_member_digest@;
    let nd = digest_of(ptype->new_public_key_hex@);
    let removed = before.members@.remove(d);
    lemma_status_digests_remove(before.members@, d, MemberStatus::Active);
    lemma_status_digests_insert(removed, nd, after.members@[nd], MemberStatus::Active);
}

/// Accepting a proposal about members leaves the network's files as they
/// are, and accepting a proposal about files leaves its members as they are.
pub proof fn law_members_and_files_are_separate(before: GovernanceState, after: GovernanceState, ptype: ProposalType)
    requires
        effect_of(before, after, ptype),
    ensures
        (ptype is AddMember || ptype is ExpelMember || ptype is ChangeMemberName || ptype is ChangeMemberKey)
            ==> after.accepted_file_paths@ == before.accepted_file_paths@,
        (ptype is AddFile || ptype is EditFile || ptype is RemoveFile || ptype is MarkFinal || ptype is ChangeFileName)
            ==> after.members@ == before.members@ && after.active_count() == before.active_count(),
{
}

/// Once a vote accepts a proposal to add a file, the file is a network file;
/// once a vote accepts a proposal to remove a file, it no longer is. Every
/// other network file stays one, and no other file becomes one.
pub proof fn law_accepted_file_proposals_update_network_files(
    before: GovernanceState,
    after: GovernanceState,
    id: Seq<char>,
    vote: Vote,
)
    requires
        vote_counted(before, after, id, vote, ProposalStatus::Accepted),
        before.proposals@[id].proposal_type is AddFile || before.proposals@[id].proposal_type is RemoveFile,
    ensures
        before.proposals@[id].proposal_type matches ProposalType::AddFile { path, .. } ==> {
            &&& after.accepted_file_paths@.contains(path@)
            &&& forall|q: Seq<char>|
                q != path@ ==> (#[trigger] after.accepted_file_paths@.contains(q)
                    == before.accepted_file_paths@.contains(q))
        },
        before.proposals@[id].proposal_type matches ProposalType::RemoveFile { path } ==> {
            &&& !after.accepted_file_paths@.contains(path@)
            &&& forall|q: Seq<char>|
                q != path@ ==> (#[trigger] after.accepted_file_paths@.contains(q)
                    == before.accepted_file_paths@.contains(q))
        },
{
}

/// An active member cannot propose to add a key whose digest already names
/// an active member: the proposal is refused as `AlreadyMember`. A key that
/// names no active member may be proposed by any active member.
pub proof fn law_active_members_are_not_added_again(
    g: GovernanceState,
    proposer: Seq<char>,
    public_key_hex: String,
    display_name: Option<String>,
)
    requires
        g.is_active(proposer),
    ensures
        g.is_active(digest_of(public_key_hex@)) ==> submit_refusal(
            g,
            ProposalType::AddMember { public_key_hex, display_name },
            proposer,
        ) == Some(GovernanceError::AlreadyMember),
        !g.is_active(digest_of(public_key_hex@)) ==> submit_refusal(
            g,
            ProposalType::AddMember { public_key_hex, display_name },
            proposer,
        ) is None,
{
}

/// A request counted on day `today` is counted on that day: the member's
/// counter is dated `today` and holds one request more than the count it
/// had for `today` (one, when it had none for that day). So once it holds
/// `max_requests` requests, no further request is allowed that day.
pub proof fn law_requests_are_counted_per_day(
    before: Option<DailyRateCounter>,
    after: DailyRateCounter,
    today: Seq<char>,
    max_requests: u32,
)
    requires
        counted_one_more(before, after, today),
    ensures
        after.date@ == today,
        after.total_requests == match before {
            Some(c) => if c.date@ == today {
                c.total_requests + 1
            } else {
                1
            },
            None => 1,
        },
        counter_allows(Some(after), today, max_requests) <==> after.total_requests < max_requests,
{
}

/// Only active members take part: whoever is not an active member can
/// neither open a proposal nor vote on one.
pub proof fn law_only_active_members_take_part(
    g: GovernanceState,
    digest: Seq<char>,
    ptype: ProposalType,
    proposal_id: Seq<char>,
)
    requires
        !g.is_active(digest),
    ensures
        submit_refusal(g, ptype, digest) == Some(GovernanceError::NotActiveMember),
        vote_refusal(g, proposal_id, digest) == Some(GovernanceError::NotActiveMember),
{
}

/// No active member can propose its own expulsion.
pub proof fn law_cannot_expel_self(g: GovernanceState, ptype: ProposalType)
    requires
        ptype is ExpelMember,
        g.is_active(ptype->ExpelMember_member_digest@),
    ensures
        submit_refusal(g, ptype, ptype->ExpelMember_member_digest@) == Some(GovernanceError::CannotExpelSelf),
{
}

} // verus!
