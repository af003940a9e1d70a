//! Proposals and the votes cast on them.
//!
//! A proposal is accepted once strictly more than two thirds of the active
//! members accept it, and rejected once two thirds or more reject it.

use vstd::prelude::*;
use crate::strmap::StrMap;
use crate::support::clock::now_millis;
use crate::support::ids::new_uuid;

verus! {

broadcast use vstd::seq_lib::group_seq_properties;

/// What a proposal asks the network to do.
#[derive(Debug, Clone)]
pub enum ProposalType {
    AddMember { public_key_hex: String, display_name: Option<String> },
    ExpelMember { member_digest: String },
    AddFile { path: String, content_hash: String, content: Option<String> },
    EditFile { path: String, diff: String, content_hash: String },
    RemoveFile { path: String },
    MarkFinal { path: String },
    ChangeMemberName { member_digest: String, new_name: String },
    ChangeMemberKey { member_digest: String, new_public_key_hex: String },
    ChangeFileName { path: String, new_name: String },
}

/// A member's answer to a proposal.
#[derive(Debug, Clone, Copy, PartialEq, Eq, Structural)]
pub enum VoteChoice {
    Accept,
    Reject,
}

/// Where a proposal stands.
#[derive(Debug, Clone, Copy, PartialEq, Eq, Structural)]
pub enum ProposalStatus {
    Pending,
    Accepted,
    Rejected,
    Expired,
}

/// A vote cast by a member; `timestamp` is in milliseconds since the Unix epoch.
#[derive(Debug, Clone)]
pub struct Vote {
    pub voter_digest: String,
    pub choice: VoteChoice,
    pub signature: Vec<u8>,
    pub timestamp: i64,
}

/// A governance proposal with the votes cast on it, keyed by voter digest.
/// Times are milliseconds since the Unix epoch.
#[derive(Debug, Clone)]
pub struct Proposal {
    pub id: String,
    pub proposal_type: ProposalType,
    pub proposer_digest: String,
    pub votes: StrMap<Vote>,
    pub status: ProposalStatus,
    pub created_at: i64,
    pub resolved_at: Option<i64>,
}

/// The least number of accepting votes that is more than two thirds of `n`.
pub open spec fn accept_threshold(n: int) -> int {
    (n * 2) / 3 + 1
}

/// The least number of rejecting votes that is two thirds of `n` or more.
pub open spec fn reject_threshold(n: int) -> int {
    (n * 2 + 2) / 3
}

/// How many of `votes` carry `choice`.
pub open spec fn count_choice(votes: Seq<Vote>, choice: VoteChoice) -> nat {
    votes.filter(|v: Vote| v.choice == choice).len()
}

proof fn lemma_count_split(votes: Seq<Vote>)
    ensures
        count_choice(votes, VoteChoice::Accept) + count_choice(votes, VoteChoice::Reject)
            == votes.len(),
    decreases votes.len(),
{
    if votes.len() > 0 {
        let rest = votes.drop_last();
        lemma_count_split(rest);
        assert(votes == rest.push(votes.last()));
        rest.lemma_filter_push(votes.last(), |v: Vote| v.choice == VoteChoice::Accept);
        rest.lemma_filter_push(votes.last(), |v: Vote| v.choice == VoteChoice::Reject);
    }
}

impl Proposal {
    /// Well-formedness: each voter holds at most one vote.
    pub open spec fn wf(self) -> bool {
        self.votes.wf()
    }

    /// The number of accepting votes.
    pub open spec fn accepts(self) -> nat {
        count_choice(self.votes.value_order(), VoteChoice::Accept)
    }

    /// The number of rejecting votes.
    pub open spec fn rejects(self) -> nat {
        count_choice(self.votes.value_order(), VoteChoice::Reject)
    }

    /// Whether the votes accept the proposal among `n` active members.
    pub open spec fn accepted_among(self, n: int) -> bool {
        n > 0 && self.accepts() >= accept_threshold(n)
    }

    /// Whether the votes reject the proposal among `n` active members.
    pub open spec fn rejected_among(self, n: int) -> bool {
        n > 0 && self.rejects() >= reject_threshold(n)
    }

    /// The status that resolving among `n` active members leads to.
    pub open spec fn resolved_status(self, n: int) -> ProposalStatus {
        if self.status != ProposalStatus::Pending {
            self.status
        } else if self.accepted_among(n) {
            ProposalStatus::Accepted
        } else if self.rejected_among(n) {
            ProposalStatus::Rejected
        } else {
            ProposalStatus::Pending
        }
    }

    /// A fresh pending proposal with a random id and no votes.
    pub fn new(proposal_type: ProposalType, proposer_digest: &str) -> (p: Self)
        ensures
            p.wf(),
            p.id@.len() == 36,
            p.proposal_type == proposal_type,
            p.proposer_digest@ == proposer_digest@,
            p.votes@ == Map::<Seq<char>, Vote>::empty(),
            p.votes.value_order() == Seq::<Vote>::empty(),
            p.status == ProposalStatus::Pending,
            p.resolved_at is None,
    {
        let id = new_uuid();
        Self::with_id(id, proposal_type, proposer_digest)
    }

    /// A pending proposal with the given id and no votes; used for proposals
    /// received from peers, so that their votes match.
    pub fn with_id(id: String, proposal_type: ProposalType, proposer_digest: &str) -> (p: Self)
        ensures
            p.wf(),
            p.id == id,
            p.proposal_type == proposal_type,
            p.proposer_digest@ == proposer_digest@,
            p.votes@ == Map::<Seq<char>, Vote>::empty(),
            p.votes.value_order() == Seq::<Vote>::empty(),
            p.status == ProposalStatus::Pending,
            p.resolved_at is None,
    {
        let created_at = now_millis();
        Proposal {
            id,
            proposal_type,
            proposer_digest: proposer_digest.to_string(),
            votes: StrMap::new(),
            status: ProposalStatus::Pending,
            created_at,
            resolved_at: None,
        }
    }

    /// Records `vote` unless the proposal is resolved or the voter has voted;
    /// answers whether it was recorded.
    pub fn add_vote(&mut self, vote: Vote) -> (added: bool)
        requires
            old(self).wf(),
        ensures
            final(self).wf(),
            added == (old(self).status == ProposalStatus::Pending && !old(
                self,
            ).votes@.contains_key(vote.voter_digest@)),
            added ==> final(self).votes@ == old(self).votes@.insert(vote.voter_digest@, vote),
            added ==> final(self).votes.value_order() == old(self).votes.value_order().push(vote),
            !added ==> final(self).votes == old(self).votes,
            final(self).id == old(self).id,
            final(self).proposal_type == old(self).proposal_type,
            final(self).proposer_digest == old(self).proposer_digest,
            final(self).status == old(self).status,
            final(self).created_at == old(self).created_at,
            final(self).resolved_at == old(self).resolved_at,
    {
        if self.status != ProposalStatus::Pending {
            return false;
        }
        if self.votes.contains_key(vote.voter_digest.as_str()) {
            return false;
        }
        proof {
            self.votes.lemma_shape();
        }
        let key = vote.voter_digest.clone();
        self.votes.insert(key, vote);
        true
    }

    fn count_votes(&self, choice: VoteChoice) -> (n: usize)
        ensures
            n == count_choice(self.votes.value_order(), choice),
    {
        let count = self.votes.entry_count();
        let mut n: usize = 0;
        let mut i: usize = 0;
        while i < count
            invariant
                count == self.votes.value_order().len(),
                i <= count,
                n == count_choice(self.votes.value_order().take(i as int), choice),
                n <= i,
            decreases count - i,
        {
            let v = self.votes.value_at(i);
            proof {
                let s = self.votes.value_order();
                assert(s.take(i + 1) == s.take(i as int).push(s[i as int]));
                s.take(i as int).lemma_filter_push(s[i as int], |v: Vote| v.choice == choice);
            }
            if v.choice == choice {
                n = n + 1;
            }
            i = i + 1;
        }
        assert(self.votes.value_order().take(count as int) == self.votes.value_order());
        n
    }

    /// The number of accepting votes.
    pub fn accept_count(&self) -> (n: usize)
        ensures
            n == self.accepts(),
    {
        self.count_votes(VoteChoice::Accept)
    }

    /// The number of rejecting votes.
    pub fn reject_count(&self) -> (n: usize)
        ensures
            n == self.rejects(),
    {
        self.count_votes(VoteChoice::Reject)
    }

    /// The number of votes cast.
    pub fn total_votes(&self) -> (n: usize)
        requires
            self.wf(),
        ensures
            n == self.votes@.len(),
    {
        self.votes.len()
    }

    /// Whether more than two thirds of `total_members` accept; never with no
    /// members.
    pub fn check_accepted(&self, total_members: usize) -> (b: bool)
        ensures
            b == self.accepted_among(total_members as int),
    {
        if total_members == 0 {
            return false;
        }
        let required: u128 = (total_members as u128) * 2 / 3 + 1;
        (self.accept_count() as u128) >= required
    }

    /// Whether two thirds or more of `total_members` reject; never with no
    /// members.
    pub fn check_rejected(&self, total_members: usize) -> (b: bool)
        ensures
            b == self.rejected_among(total_members as int),
    {
        if total_members == 0 {
            return false;
        }
        let reject_threshold: u128 = ((total_members as u128) * 2 + 2) / 3;
        (self.reject_count() as u128) >= reject_threshold
    }

    /// Settles a pending proposal among `total_members` active members:
    /// accepted first, then rejected, else still pending. A settled proposal
    /// is left as it is. Answers the resulting status.
    pub fn resolve(&mut self, total_members: usize) -> (status: ProposalStatus)
        requires
            old(self).wf(),
        ensures
            final(self).wf(),
            status == old(self).resolved_status(total_members as int),
            final(self).status == status,
            final(self).votes == old(self).votes,
            final(self).id == old(self).id,
            final(self).proposal_type == old(self).proposal_type,
            final(self).proposer_digest == old(self).proposer_digest,
            final(self).created_at == old(self).created_at,
            status == old(self).status ==> final(self).resolved_at == old(self).resolved_at,
            status != old(self).status ==> final(self).resolved_at is Some,
    {
        if self.status != ProposalStatus::Pending {
            return self.status;
        }
        if self.check_accepted(total_members) {
            self.status = ProposalStatus::Accepted;
            self.resolved_at = Some(now_millis());
        } else if self.check_rejected(total_members) {
            self.status = ProposalStatus::Rejected;
            self.resolved_at = Some(now_millis());
        }
        self.status
    }
}

/// Acceptance means strictly more than two thirds, rejection two thirds or
/// more, of the active members.
pub proof fn law_thresholds_are_two_thirds(p: Proposal, n: int)
    ensures
        p.accepted_among(n) <==> (n > 0 && 3 * p.accepts() > 2 * n),
        p.rejected_among(n) <==> (n > 0 && 3 * p.rejects() >= 2 * n),
{
}

/// As long as no more votes were cast than there are active members, a
/// proposal can never be both accepted and rejected.
pub proof fn law_accept_reject_exclusive(p: Proposal, n: int)
    requires
        p.wf(),
        p.votes@.len() <= n,
    ensures
        !(p.accepted_among(n) && p.rejected_among(n)),
{
    p.votes.lemma_shape();
    lemma_count_split(p.votes.value_order());
}

/// Resolving is idempotent: a second resolution, among any number of
/// members, changes nothing.
pub proof fn law_resolution_is_final(p: Proposal, n: int, m: int)
    ensures
        p.resolved_status(n) != ProposalStatus::Pending ==> ({
            let q = Proposal { status: p.resolved_status(n), ..p };
            q.resolved_status(m) == p.resolved_status(n)
        }),
{
}

} // verus!
