//! The rules behind the node's HTTP API: who may call it, how votes are
//! named, and what the status and proposal listings show.

use vstd::prelude::*;
use crate::governance::membership::{awaits_vote_of, is_pending, GovernanceState};
use crate::governance::voting::{Proposal, ProposalStatus, VoteChoice};
use crate::strmap::count_where;
use crate::text::str_eq;

verus! {

broadcast use vstd::seq_lib::group_to_multiset_ensures;

/// Whether a request may use the API: the key it carries (none counts as
/// the empty key) is the node's key.
pub fn api_key_matches(provided: Option<&str>, expected: &str) -> (ok: bool)
    ensures
        provided is Some ==> ok == (provided->0@ == expected@),
        provided is None ==> ok == (expected@.len() == 0),
{
    match provided {
        Some(k) => str_eq(k, expected),
        None => {
            let empty = "";
            proof {
                reveal_strlit("");
                if expected@.len() == 0 {
                    assert(empty@ =~= expected@);
                }
            }
            str_eq(empty, expected)
        },
    }
}

/// The vote a request names: `accept` or `reject`; anything else names none.
pub fn parse_vote_choice(choice: &str) -> (v: Option<VoteChoice>)
    ensures
        v == (if choice@ == "accept"@ {
            Some(VoteChoice::Accept)
        } else if choice@ == "reject"@ {
            Some(VoteChoice::Reject)
        } else {
            None
        }),
{
    if str_eq(choice, "accept") {
        Some(VoteChoice::Accept)
    } else if str_eq(choice, "reject") {
        Some(VoteChoice::Reject)
    } else {
        None
    }
}

/// What the status endpoint reports of governance for this node.
#[derive(Debug, Clone, Copy, PartialEq, Eq, Structural)]
pub struct StatusSummary {
    pub active_members: usize,
    pub pending_proposals: usize,
    /// Proposals that wait for this node's vote; none unless it is active.
    pub proposals_awaiting_my_vote: usize,
    pub is_active_member: bool,
}

/// The governance part of the status of the node whose member digest is
/// `my_digest`.
pub fn status_summary(g: &GovernanceState, my_digest: &str) -> (s: StatusSummary)
    requires
        g.wf(),
    ensures
        s.active_members == g.active_count(),
        s.pending_proposals == g.proposals.value_order().filter(is_pending()).len(),
        s.is_active_member == g.is_active(my_digest@),
        s.proposals_awaiting_my_vote == if g.is_active(my_digest@) {
            count_where(g.proposals.value_order(), awaits_vote_of(my_digest@))
        } else {
            0
        },
{
    let is_active = g.is_active_member(my_digest);
    let pending = g.pending_proposals();
    proof {
        assert(pending@.map_values(|p: &Proposal| *p).len() == pending@.len());
    }
    let awaiting = if is_active {
        g.proposals_awaiting_vote(my_digest)
    } else {
        0
    };
    StatusSummary {
        active_members: g.active_member_count(),
        pending_proposals: pending.len(),
        proposals_awaiting_my_vote: awaiting,
        is_active_member: is_active,
    }
}

/// Whether a sequence of proposals runs from the newest to the oldest.
pub open spec fn newest_first(s: Seq<Proposal>) -> bool {
    forall|i: int, j: int| 0 <= i < j < s.len() ==> s[i].created_at >= s[j].created_at
}

/// The proposals, newest first; proposals made at the same time keep the
/// order the state holds them in.
pub fn proposals_newest_first(g: &GovernanceState) -> (r: Vec<&Proposal>)
    ensures
        newest_first(r@.map_values(|p: &Proposal| *p)),
        r@.map_values(|p: &Proposal| *p).to_multiset() == g.proposals.value_order().to_multiset(),
{
    let n = g.proposals.entry_count();
    let mut r: Vec<&Proposal> = Vec::new();
    let mut i: usize = 0;
    proof {
        assert(r@.map_values(|p: &Proposal| *p) =~= g.proposals.value_order().take(0));
    }
    while i < n
        invariant
            n == g.proposals.value_order().len(),
            i <= n,
            newest_first(r@.map_values(|p: &Proposal| *p)),
            r@.map_values(|p: &Proposal| *p).to_multiset() == g.proposals.value_order().take(i as int).to_multiset(),
        decreases n - i,
    {
        let p = g.proposals.value_at(i);
        let ghost s0 = r@.map_values(|p: &Proposal| *p);
        let mut k: usize = 0;
        while k < r.len() && r[k].created_at >= p.created_at
            invariant
                k <= r@.len(),
                s0 == r@.map_values(|p: &Proposal| *p),
                forall|q: int| 0 <= q < k ==> (#[trigger] s0[q]).created_at >= p.created_at,
            decreases r@.len() - k,
        {
            k = k + 1;
        }
        r.insert(k, p);
        proof {
            let s1 = r@.map_values(|p: &Proposal| *p);
            assert(s1 =~= s0.insert(k as int, *p));
            assert forall|a: int, b: int| 0 <= a < b < s1.len() implies s1[a].created_at >= s1[b].created_at by {
                if b < k {
                    assert(s1[a] == s0[a] && s1[b] == s0[b]);
                } else if b == k {
                    assert(s1[a] == s0[a]);
                } else if a < k {
                    assert(s1[a] == s0[a] && s1[b] == s0[b - 1]);
                } else if a == k {
                    assert(s1[b] == s0[b - 1]);
                    assert(s0[k as int].created_at < p.created_at);
                } else {
                    assert(s1[a] == s0[a - 1] && s1[b] == s0[b - 1]);
                }
            }
            vstd::seq_lib::to_multiset_insert(s0, k as int, *p);
            let w = g.proposals.value_order();
            assert(w.take(i + 1) =~= w.take(i as int).push(w[i as int]));
            vstd::seq_lib::to_multiset_build(w.take(i as int), w[i as int]);
        }
        i = i + 1;
    }
    proof {
        assert(g.proposals.value_order().take(n as int) =~= g.proposals.value_order());
    }
    r
}

} // verus!
