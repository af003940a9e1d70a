//! What of the governance state is kept across restarts: the members, the
//! accepted files and the epoch. Proposals, votes and request counters are
//! not kept.

use vstd::prelude::*;
use crate::crypto::identity::MemberRecord;
use crate::governance::membership::GovernanceState;
use crate::strmap::{StrMap, StrSet};
use crate::support::paths::{path_join, path_join_of};
use crate::text::str_eq;

verus! {

/// The persisted part of a governance state.
#[derive(Debug, Clone)]
pub struct GovernanceSnapshot {
    pub network_name: String,
    pub members: StrMap<MemberRecord>,
    pub accepted_file_paths: StrSet,
    pub epoch: u64,
}

/// Whether `s` holds what is persisted of `g`.
pub open spec fn is_snapshot_of(s: GovernanceSnapshot, g: GovernanceState) -> bool {
    &&& s.network_name == g.network_name
    &&& s.members@ == g.members@
    &&& s.members.key_order() == g.members.key_order()
    &&& s.members.value_order() == g.members.value_order()
    &&& s.members.wf() == g.members.wf()
    &&& s.accepted_file_paths@ == g.accepted_file_paths@
    &&& s.accepted_file_paths.wf() == g.accepted_file_paths.wf()
    &&& s.epoch == g.epoch
}

/// Whether `g` is the state restored from `s`: its members, files and epoch,
/// with no proposals and no request counters.
pub open spec fn is_restored_from(g: GovernanceState, s: GovernanceSnapshot) -> bool {
    &&& g.network_name == s.network_name
    &&& g.members == s.members
    &&& g.accepted_file_paths == s.accepted_file_paths
    &&& g.epoch == s.epoch
    &&& g.proposals@.is_empty()
    &&& g.proposals.wf()
    &&& g.rate_counters@.is_empty()
    &&& g.rate_counters.wf()
}

/// The name of the file that holds the snapshot.
pub const GOVERNANCE_FILE: &'static str = "governance.json";

impl GovernanceSnapshot {
    /// Whether the snapshot's maps and set hold each key once.
    pub open spec fn wf(self) -> bool {
        self.members.wf() && self.accepted_file_paths.wf()
    }

    /// The persisted part of `gov`.
    pub fn from_state(gov: &GovernanceState) -> (s: Self)
        ensures
            is_snapshot_of(s, *gov),
    {
        let members = gov.members.clone();
        proof {
            assert(members.value_order() =~= gov.members.value_order());
            StrMap::lemma_same_entries(members, gov.members);
        }
        GovernanceSnapshot {
            network_name: gov.network_name.clone(),
            members,
            accepted_file_paths: gov.accepted_file_paths.clone(),
            epoch: gov.epoch,
        }
    }

    /// The state restored from the snapshot, with no proposals and no
    /// request counters.
    pub fn into_state(self) -> (g: GovernanceState)
        ensures
            is_restored_from(g, self),
            self.wf() ==> g.wf(),
    {
        GovernanceState {
            network_name: self.network_name,
            members: self.members,
            proposals: StrMap::new(),
            rate_counters: StrMap::new(),
            accepted_file_paths: self.accepted_file_paths,
            epoch: self.epoch,
        }
    }
}

/// The state restored from a snapshot that was read back, if the snapshot
/// belongs to the network `network_name`; one of another network is
/// ignored.
pub fn restore_for_network(s: GovernanceSnapshot, network_name: &str) -> (r: Option<GovernanceState>)
    ensures
        s.network_name@ != network_name@ ==> r is None,
        s.network_name@ == network_name@ ==> (r matches Some(g) && is_restored_from(g, s)),
        s.wf() ==> (r matches Some(g) ==> g.wf()),
{
    if str_eq(s.network_name.as_str(), network_name) {
        Some(s.into_state())
    } else {
        None
    }
}

/// Where the snapshot of a node lives: `governance.json` in its data
/// directory.
pub fn governance_path(data_dir: &str) -> (p: String)
    ensures
        p@ == path_join_of(data_dir@, GOVERNANCE_FILE@),
{
    path_join(data_dir, GOVERNANCE_FILE)
}

/// Saving and restoring a state keeps its name, members, accepted files and
/// epoch, and drops its proposals and request counters.
pub proof fn law_snapshot_round_trip(g: GovernanceState, s: GovernanceSnapshot, h: GovernanceState)
    requires
        g.wf(),
        is_snapshot_of(s, g),
        is_restored_from(h, s),
    ensures
        h.wf(),
        h.network_name == g.network_name,
        h.members@ == g.members@,
        h.active_count() == g.active_count(),
        h.accepted_file_paths@ == g.accepted_file_paths@,
        h.epoch == g.epoch,
        h.proposals@.is_empty(),
        h.rate_counters@.is_empty(),
{
}

} // verus!
