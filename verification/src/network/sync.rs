//! What a node does with the governance states its peers send: which state
//! to keep, and which X25519 keys to carry over, so that no node loses the
//! keys that threshold ceremonies encrypt key shares to.

use vstd::prelude::*;
use crate::crypto::identity::{MemberIdentity, MemberRecord, MemberStatus};
use crate::governance::membership::GovernanceState;
use crate::governance::voting::{Proposal, ProposalStatus, ProposalType};
use crate::text::str_eq;

verus! {

/// Whether the X25519 key of a record is `key`.
pub open spec fn has_x25519(r: MemberRecord, key: Option<String>) -> bool {
    r.identity.x25519_public_key_hex == key
}

/// `r` with its X25519 key set to `key`.
pub open spec fn with_x25519(r: MemberRecord, key: String) -> MemberRecord {
    MemberRecord { identity: MemberIdentity { x25519_public_key_hex: Some(key), ..r.identity }, ..r }
}

/// Whether member `d` of `target` has no X25519 key that `source` knows.
pub open spec fn gains_key(target: GovernanceState, source: GovernanceState, d: Seq<char>) -> bool {
    &&& target.members@.contains_key(d)
    &&& target.members@[d].identity.x25519_public_key_hex is None
    &&& source.members@.contains_key(d)
    &&& source.members@[d].identity.x25519_public_key_hex is Some
}

/// The members of `target`, each given the X25519 key that `source` knows
/// for it when it has none.
pub open spec fn keys_filled(target: GovernanceState, source: GovernanceState) -> Map<Seq<char>, MemberRecord> {
    Map::new(
        |d: Seq<char>| target.members@.contains_key(d),
        |d: Seq<char>|
            if gains_key(target, source, d) {
                with_x25519(target.members@[d], source.members@[d].identity.x25519_public_key_hex->0)
            } else {
                target.members@[d]
            },
    )
}

/// Whether taking `remote` would remove this node (`me`) from the active
/// members without a vote that expelled it.
pub open spec fn would_demote(local: GovernanceState, remote: GovernanceState, me: Seq<char>) -> bool {
    &&& local.is_active(me)
    &&& !remote.is_active(me)
    &&& !(remote.members@.contains_key(me) && remote.members@[me].status == MemberStatus::Expelled)
}

/// Whether `remote` knows more than `local`: a later epoch, more proposals or
/// more active members.
pub open spec fn is_ahead(remote: GovernanceState, local: GovernanceState) -> bool {
    ||| remote.epoch > local.epoch
    ||| remote.proposals@.len() > local.proposals@.len()
    ||| remote.active_count() > local.active_count()
}

/// What to do with a governance state received from a peer.
#[derive(Debug, Clone, Copy, PartialEq, Eq, Structural)]
pub enum SyncDecision {
    /// Refuse it: it would demote this node without a vote.
    RejectDemotion,
    /// Take it: it knows more.
    Adopt,
    /// Keep the local state: the remote one knows no more.
    Keep,
}

/// The decision on a received state, see `would_demote` and `is_ahead`.
pub open spec fn sync_decision_of(local: GovernanceState, remote: GovernanceState, me: Seq<char>) -> SyncDecision {
    if would_demote(local, remote, me) {
        SyncDecision::RejectDemotion
    } else if is_ahead(remote, local) {
        SyncDecision::Adopt
    } else {
        SyncDecision::Keep
    }
}

/// Decides what to do with `remote`, a state received from a peer, given
/// the local state and this node's digest `my_digest`.
pub fn decide_sync(local: &GovernanceState, remote: &GovernanceState, my_digest: &str) -> (d: SyncDecision)
    requires
        local.wf(),
        remote.wf(),
    ensures
        d == sync_decision_of(*local, *remote, my_digest@),
{
    let active_locally = local.is_active_member(my_digest);
    let active_remotely = remote.is_active_member(my_digest);
    let expelled_remotely = match remote.members.get(my_digest) {
        Some(m) => m.status == MemberStatus::Expelled,
        None => false,
    };
    if active_locally && !active_remotely && !expelled_remotely {
        return SyncDecision::RejectDemotion;
    }
    let ahead = remote.epoch > local.epoch || remote.proposals.len() > local.proposals.len()
        || remote.active_member_count() > local.active_member_count();
    if ahead {
        SyncDecision::Adopt
    } else {
        SyncDecision::Keep
    }
}

/// Gives each member of `target` that has no X25519 key the key that
/// `source` knows for it; answers how many keys were given. Nothing else
/// changes.
pub fn merge_x25519_keys(target: &mut GovernanceState, source: &GovernanceState) -> (merged: usize)
    requires
        old(target).wf(),
        source.wf(),
    ensures
        final(target).wf(),
        final(target).members@ == keys_filled(*old(target), *source),
        merged == source.members@.dom().filter(|d: Seq<char>| gains_key(*old(target), *source, d)).len(),
        final(target).network_name == old(target).network_name,
        final(target).proposals == old(target).proposals,
        final(target).rate_counters == old(target).rate_counters,
        final(target).accepted_file_paths == old(target).accepted_file_paths,
        final(target).epoch == old(target).epoch,
        final(target).active_count() == old(target).active_count(),
{
    let ghost t0 = *target;
    proof {
        source.members.lemma_shape();
    }
    let n = source.members.entry_count();
    let mut merged: usize = 0;
    let mut i: usize = 0;
    while i < n
        invariant
            source.wf(),
            t0.wf(),
            n == source.members.key_order().len(),
            n == source.members.value_order().len(),
            source.members.key_order().no_duplicates(),
            forall|j: int|
                #![trigger source.members.key_order()[j]]
                0 <= j < source.members.key_order().len() ==> source.members@.contains_key(
                    source.members.key_order()[j],
                ) && source.members@[source.members.key_order()[j]] == source.members.value_order()[j],
            i <= n,
            target.wf(),
            target.network_name == t0.network_name,
            target.proposals == t0.proposals,
            target.rate_counters == t0.rate_counters,
            target.accepted_file_paths == t0.accepted_file_paths,
            target.epoch == t0.epoch,
            target.members@.dom() == t0.members@.dom(),
            forall|d: Seq<char>|
                #[trigger] target.members@.contains_key(d) ==> target.members@[d] == if gains_key(t0, *source, d)
                    && source.members.key_order().take(i as int).contains(d) {
                    with_x25519(t0.members@[d], source.members@[d].identity.x25519_public_key_hex->0)
                } else {
                    t0.members@[d]
                },
            merged == source.members.key_order().take(i as int).filter(|d: Seq<char>| gains_key(t0, *source, d)).len(),
            merged <= i,
        decreases n - i,
    {
        let d = source.members.key_at(i);
        let rm = source.members.value_at(i);
        let ghost ks = source.members.key_order();
        proof {
            assert(ks.take(i + 1) =~= ks.take(i as int).push(ks[i as int]));
            ks.take(i as int).lemma_filter_push(ks[i as int], |d: Seq<char>| gains_key(t0, *source, d));
            assert(!ks.take(i as int).contains(ks[i as int]));
        }
        let ghost before = *target;
        match &rm.identity.x25519_public_key_hex {
            Some(key) => {
                match target.members.get_mut(d.as_str()) {
                    Some(local) => {
                        if local.identity.x25519_public_key_hex.is_none() {
                            local.identity.x25519_public_key_hex = Some(key.clone());
                            merged = merged + 1;
                        }
                    },
                    None => {},
                }
            },
            None => {},
        }
        proof {
            assert forall|x: Seq<char>| #[trigger] target.members@.contains_key(x) implies target.members@[x]
                == if gains_key(t0, *source, x) && ks.take(i + 1).contains(x) {
                with_x25519(t0.members@[x], source.members@[x].identity.x25519_public_key_hex->0)
            } else {
                t0.members@[x]
            } by {
                if x != ks[i as int] {
                    assert(ks.take(i + 1).contains(x) == ks.take(i as int).contains(x)) by {
                        if ks.take(i + 1).contains(x) {
                            let j = choose|j: int| 0 <= j < i + 1 && #[trigger] ks.take(i + 1)[j] == x;
                            assert(ks.take(i as int)[j] == x);
                        }
                        if ks.take(i as int).contains(x) {
                            let j = choose|j: int| 0 <= j < i && #[trigger] ks.take(i as int)[j] == x;
                            assert(ks.take(i + 1)[j] == x);
                        }
                    }
                } else {
                    assert(ks.take(i + 1)[i as int] == x);
                }
            }
            assert(target.members@.dom() =~= t0.members@.dom());
        }
        i = i + 1;
    }
    proof {
        let ks = source.members.key_order();
        assert(ks.take(n as int) =~= ks);
        assert(target.members@ =~= keys_filled(t0, *source)) by {
            assert forall|x: Seq<char>| #[trigger] target.members@.contains_key(x) implies gains_key(t0, *source, x)
                ==> ks.contains(x) by {
                if gains_key(t0, *source, x) {
                    assert(source.members@.dom().contains(x));
                }
            }
        }
        source.members.lemma_count_keys(|d: Seq<char>| gains_key(t0, *source, d));
        lemma_filled_keeps_active(t0, *source, *target);
    }
    merged
}

proof fn lemma_filled_keeps_active(t0: GovernanceState, source: GovernanceState, t1: GovernanceState)
    requires
        t1.members@ == keys_filled(t0, source),
    ensures
        t1.active_count() == t0.active_count(),
{
    assert(crate::governance::membership::digests_with_status(t1.members@, MemberStatus::Active)
        =~= crate::governance::membership::digests_with_status(t0.members@, MemberStatus::Active));
}

/// Gives this node's member record (at `my_digest`) the X25519 key
/// `x25519_hex` unless it has it already; answers whether it changed.
pub fn set_own_x25519(g: &mut GovernanceState, my_digest: &str, x25519_hex: &str) -> (changed: bool)
    requires
        old(g).wf(),
    ensures
        final(g).wf(),
        changed == (old(g).members@.contains_key(my_digest@) && !(old(g).members@[my_digest@].identity.x25519_public_key_hex matches Some(k) && k@ == x25519_hex@)),
        changed ==> final(g).members@ == old(g).members@.insert(my_digest@, final(g).members@[my_digest@]),
        changed ==> (final(g).members@[my_digest@].identity.x25519_public_key_hex matches Some(k) && k@ == x25519_hex@),
        changed ==> final(g).members@[my_digest@] == with_x25519(
            old(g).members@[my_digest@],
            final(g).members@[my_digest@].identity.x25519_public_key_hex->0,
        ),
        !changed ==> final(g).members@ == old(g).members@,
        final(g).network_name == old(g).network_name,
        final(g).proposals == old(g).proposals,
        final(g).rate_counters == old(g).rate_counters,
        final(g).accepted_file_paths == old(g).accepted_file_paths,
        final(g).epoch == old(g).epoch,
{
    match g.members.get_mut(my_digest) {
        Some(m) => {
            let same = match &m.identity.x25519_public_key_hex {
                Some(k) => str_eq(k.as_str(), x25519_hex),
                None => false,
            };
            if !same {
                m.identity.x25519_public_key_hex = Some(x25519_hex.to_string());
            }
            !same
        },
        None => false,
    }
}

/// The state taken from a peer: `remote`, with the X25519 keys that only
/// `local` knew put back on the members that lack one.
pub fn adopt_remote(local: &GovernanceState, remote: GovernanceState) -> (g: GovernanceState)
    requires
        local.wf(),
        remote.wf(),
    ensures
        g.wf(),
        g.members@ == keys_filled(remote, *local),
        g.network_name == remote.network_name,
        g.proposals == remote.proposals,
        g.rate_counters == remote.rate_counters,
        g.accepted_file_paths == remote.accepted_file_paths,
        g.epoch == remote.epoch,
        g.active_count() == remote.active_count(),
{
    let mut g = remote;
    merge_x25519_keys(&mut g, local);
    g
}

/// Whether `p` proposes adding the file at `path` with its content.
pub open spec fn carries_file(p: Proposal, path: Seq<char>) -> bool {
    p.proposal_type matches ProposalType::AddFile { path: pp, content: Some(_), .. } && pp@ == path
}

/// The content and proposer of the first proposal (in the order the state
/// holds them) that adds the file at `path` with its content, if any.
pub fn file_from_proposals(g: &GovernanceState, path: &str) -> (r: Option<(String, String)>)
    ensures
        match r {
            Some((content, proposer)) => exists|i: int|
                0 <= i < g.proposals.value_order().len() && carries_file(g.proposals.value_order()[i], path@)
                    && (forall|j: int|
                    0 <= j < i ==> !carries_file(#[trigger] g.proposals.value_order()[j], path@))
                    && g.proposals.value_order()[i].proposal_type->AddFile_content->0@ == content@
                    && g.proposals.value_order()[i].proposer_digest@ == proposer@,
            None => forall|j: int|
                0 <= j < g.proposals.value_order().len() ==> !carries_file(
                    #[trigger] g.proposals.value_order()[j],
                    path@,
                ),
        },
{
    let n = g.proposals.entry_count();
    let mut i: usize = 0;
    while i < n
        invariant
            n == g.proposals.value_order().len(),
            i <= n,
            forall|j: int| 0 <= j < i ==> !carries_file(#[trigger] g.proposals.value_order()[j], path@),
        decreases n - i,
    {
        let p = g.proposals.value_at(i);
        match &p.proposal_type {
            ProposalType::AddFile { path: pp, content: Some(c), .. } => {
                if str_eq(pp.as_str(), path) {
                    return Some((c.clone(), p.proposer_digest.clone()));
                }
            },
            _ => {},
        }
        i = i + 1;
    }
    None
}

/// Whether `p` is an accepted proposal to mark a file final.
pub open spec fn is_accepted_final() -> spec_fn(Proposal) -> bool {
    |p: Proposal| p.status == ProposalStatus::Accepted && p.proposal_type is MarkFinal
}

/// The paths of the accepted proposals that mark a file final, in the order
/// the state holds the proposals.
pub fn accepted_final_paths(g: &GovernanceState) -> (paths: Vec<String>)
    ensures
        paths@.map_values(|s: String| s@) == g.proposals.value_order().filter(is_accepted_final()).map_values(
            |p: Proposal| p.proposal_type->MarkFinal_path@,
        ),
{
    let n = g.proposals.entry_count();
    let mut paths: Vec<String> = Vec::new();
    let mut i: usize = 0;
    while i < n
        invariant
            n == g.proposals.value_order().len(),
            i <= n,
            paths@.map_values(|s: String| s@) == g.proposals.value_order().take(i as int).filter(
                is_accepted_final(),
            ).map_values(|p: Proposal| p.proposal_type->MarkFinal_path@),
        decreases n - i,
    {
        let p = g.proposals.value_at(i);
        let ghost s = g.proposals.value_order();
        proof {
            assert(s.take(i + 1) =~= s.take(i as int).push(s[i as int]));
            s.take(i as int).lemma_filter_push(s[i as int], is_accepted_final());
        }
        let ghost prev = paths@;
        if p.status == ProposalStatus::Accepted {
            match &p.proposal_type {
                ProposalType::MarkFinal { path } => {
                    paths.push(path.clone());
                    proof {
                        assert(paths@.map_values(|s: String| s@) =~= prev.map_values(|s: String| s@).push(
                            path@,
                        ));
                    }
                },
                _ => {},
            }
        }
        proof {
            assert(paths@.map_values(|s: String| s@) =~= s.take(i + 1).filter(is_accepted_final()).map_values(
                |p: Proposal| p.proposal_type->MarkFinal_path@,
            ));
        }
        i = i + 1;
    }
    proof {
        assert(g.proposals.value_order().take(n as int) =~= g.proposals.value_order());
    }
    paths
}

/// Whether some proposal of `g` adds the file at `path` with its content.
pub open spec fn has_file_content(g: GovernanceState, path: Seq<char>) -> bool {
    exists|i: int| 0 <= i < g.proposals.value_order().len() && carries_file(#[trigger] g.proposals.value_order()[i], path)
}

/// The accepted files for which no proposal of `g` carries the content, in
/// the order the state holds the files: those a peer could not rebuild
/// from the proposals alone.
pub fn paths_without_content(g: &GovernanceState) -> (paths: Vec<String>)
    ensures
        paths@.map_values(|s: String| s@) == g.accepted_file_paths.item_order().filter(
            |p: Seq<char>| !has_file_content(*g, p),
        ),
{
    let n = g.accepted_file_paths.item_count();
    let mut paths: Vec<String> = Vec::new();
    let mut i: usize = 0;
    while i < n
        invariant
            n == g.accepted_file_paths.item_order().len(),
            i <= n,
            paths@.map_values(|s: String| s@) == g.accepted_file_paths.item_order().take(i as int).filter(
                |p: Seq<char>| !has_file_content(*g, p),
            ),
        decreases n - i,
    {
        let path = g.accepted_file_paths.item_at(i);
        let ghost s = g.accepted_file_paths.item_order();
        proof {
            assert(s.take(i + 1) =~= s.take(i as int).push(s[i as int]));
            s.take(i as int).lemma_filter_push(s[i as int], |p: Seq<char>| !has_file_content(*g, p));
        }
        let found = file_from_proposals(g, path.as_str());
        let ghost prev = paths@;
        if found.is_none() {
            paths.push(path.clone());
            proof {
                assert(paths@.map_values(|s: String| s@) =~= prev.map_values(|s: String| s@).push(path@));
            }
        }
        i = i + 1;
    }
    proof {
        assert(g.accepted_file_paths.item_order().take(n as int) =~= g.accepted_file_paths.item_order());
    }
    paths
}

/// The id of the proposal that carries a file's content in a sync
/// response: `sync-file-` followed by the path with each `/` written `-`.
pub open spec fn synthetic_id_of(path: Seq<char>) -> Seq<char> {
    "sync-file-"@ + path.map_values(|c: char| if c == '/' { '-' } else { c })
}

/// The id of the proposal that carries the content of the file at `path`
/// in a sync response, see `synthetic_id_of`.
pub fn synthetic_file_proposal_id(path: &str) -> (id: String)
    ensures
        id@ == synthetic_id_of(path@),
{
    let mut id = String::from_str("sync-file-");
    proof {
        reveal_strlit("sync-file-");
    }
    let n = path.unicode_len();
    let mut i: usize = 0;
    while i < n
        invariant
            n == path@.len(),
            i <= n,
            id@ == "sync-file-"@ + path@.take(i as int).map_values(|c: char| if c == '/' { '-' } else { c }),
        decreases n - i,
    {
        let c = path.get_char(i);
        let ghost prev = id@;
        if c == '/' {
            id.append("-");
            proof {
                reveal_strlit("-");
            }
            assert("-"@ =~= seq!['-']);
        } else {
            let piece = path.substring_char(i, i + 1);
            assert(piece@ =~= seq![c]);
            id.append(piece);
        }
        proof {
            assert(id@ == prev.push(if c == '/' { '-' } else { c }));
            assert(path@.take(i + 1) =~= path@.take(i as int).push(c));
            assert(id@ =~= "sync-file-"@ + path@.take(i + 1).map_values(|c: char| if c == '/' { '-' } else { c }));
        }
        i = i + 1;
    }
    proof {
        assert(path@.take(n as int) =~= path@);
    }
    id
}

/// Adds to `state`, under its synthetic id, a proposal by `sync` that adds
/// the file at `path` with `content`; used to ship an accepted file's
/// content to peers that lack it.
pub fn add_synthetic_file_proposal(state: &mut GovernanceState, path: &str, content: String)
    requires
        old(state).wf(),
    ensures
        final(state).wf(),
        final(state).proposals@ == old(state).proposals@.insert(
            synthetic_id_of(path@),
            final(state).proposals@[synthetic_id_of(path@)],
        ),
        final(state).proposals@[synthetic_id_of(path@)].id@ == synthetic_id_of(path@),
        final(state).proposals@[synthetic_id_of(path@)].proposer_digest@ == "sync"@,
        final(state).proposals@[synthetic_id_of(path@)].proposal_type matches ProposalType::AddFile {
            path: pp,
            content_hash: h,
            content: Some(c),
        } && pp@ == path@ && h@.len() == 0 && c == content,
        final(state).proposals@[synthetic_id_of(path@)].status == ProposalStatus::Pending,
        final(state).proposals@[synthetic_id_of(path@)].votes@.is_empty(),
        final(state).network_name == old(state).network_name,
        final(state).members == old(state).members,
        final(state).rate_counters == old(state).rate_counters,
        final(state).accepted_file_paths == old(state).accepted_file_paths,
        final(state).epoch == old(state).epoch,
{
    let id = synthetic_file_proposal_id(path);
    let proposal_type = ProposalType::AddFile { path: path.to_string(), content_hash: String::new(), content: Some(content) };
    let proposal = Proposal::with_id(id.clone(), proposal_type, "sync");
    proof {
        reveal_strlit("sync");
    }
    state.proposals.insert(id, proposal);
    proof {
        assert forall|k: Seq<char>| #[trigger] state.proposals@.contains_key(k) implies state.proposals@[k].wf() by {
            if k != synthetic_id_of(path@) {
                assert(old(state).proposals@.contains_key(k));
            }
        }
    }
}

/// Whether a node that handles its messages directly, without the gossip
/// object, takes the state `remote` from a peer: only when it has more
/// active members, and never when taking it would drop this node (`me`)
/// from the active members without a recorded expulsion.
pub open spec fn simple_sync_takes(local: GovernanceState, remote: GovernanceState, me: Seq<char>) -> bool {
    !would_demote(local, remote, me) && remote.active_count() > local.active_count()
}

/// Whether a node that handles its messages directly takes `remote`, see
/// `simple_sync_takes`; `my_digest` is this node's member digest.
pub fn simple_sync_adopts(local: &GovernanceState, remote: &GovernanceState, my_digest: &str) -> (b: bool)
    requires
        local.wf(),
        remote.wf(),
    ensures
        b == simple_sync_takes(*local, *remote, my_digest@),
{
    let active_locally = local.is_active_member(my_digest);
    let active_remotely = remote.is_active_member(my_digest);
    let expelled_remotely = match remote.members.get(my_digest) {
        Some(m) => m.status == MemberStatus::Expelled,
        None => false,
    };
    if active_locally && !active_remotely && !expelled_remotely {
        return false;
    }
    remote.active_member_count() > local.active_member_count()
}

/// The state a node that handles its messages directly keeps after a peer
/// sent `remote`: when it takes it (see `simple_sync_takes`), `remote` with
/// the X25519 keys that only `local` knew put back; otherwise nothing, and
/// it keeps its own.
pub fn simple_sync(local: &GovernanceState, remote: GovernanceState, my_digest: &str) -> (r: Option<GovernanceState>)
    requires
        local.wf(),
        remote.wf(),
    ensures
        r is Some <==> simple_sync_takes(*local, remote, my_digest@),
        r matches Some(g) ==> {
            &&& g.wf()
            &&& g.members@ == keys_filled(remote, *local)
            &&& g.network_name == remote.network_name
            &&& g.proposals == remote.proposals
            &&& g.rate_counters == remote.rate_counters
            &&& g.accepted_file_paths == remote.accepted_file_paths
            &&& g.epoch == remote.epoch
            &&& g.active_count() == remote.active_count()
        },
{
    if simple_sync_adopts(local, &remote, my_digest) {
        Some(adopt_remote(local, remote))
    } else {
        None
    }
}

/// What a node decides on a state received from a peer: it refuses one that
/// would drop it from the active members without recording its expulsion;
/// otherwise it takes one with a later epoch, more proposals or more active
/// members, and keeps its own state when the peer's knows no more.
pub proof fn law_sync_takes_what_knows_more(local: GovernanceState, remote: GovernanceState, me: Seq<char>)
    ensures
        local.is_active(me) && !remote.is_active(me) && !(remote.members@.contains_key(me)
            && remote.members@[me].status == MemberStatus::Expelled) ==> sync_decision_of(local, remote, me)
            == SyncDecision::RejectDemotion,
        !would_demote(local, remote, me) && remote.epoch > local.epoch ==> sync_decision_of(local, remote, me)
            == SyncDecision::Adopt,
        !would_demote(local, remote, me) && remote.proposals@.len() > local.proposals@.len() ==> sync_decision_of(
            local,
            remote,
            me,
        ) == SyncDecision::Adopt,
        !would_demote(local, remote, me) && remote.active_count() > local.active_count() ==> sync_decision_of(
            local,
            remote,
            me,
        ) == SyncDecision::Adopt,
        !would_demote(local, remote, me) && remote.epoch <= local.epoch && remote.proposals@.len()
            <= local.proposals@.len() && remote.active_count() <= local.active_count() ==> sync_decision_of(
            local,
            remote,
            me,
        ) == SyncDecision::Keep,
{
}

/// Adopting a peer's state never loses an X25519 key: every member of the
/// adopted state that had a key locally or remotely has one afterwards, and
/// a key the peer sent is kept as it was.
pub proof fn law_adoption_keeps_keys(local: GovernanceState, remote: GovernanceState, g: GovernanceState, d: Seq<char>)
    requires
        g.members@ == keys_filled(remote, local),
        remote.members@.contains_key(d),
    ensures
        g.members@.contains_key(d),
        remote.members@[d].identity.x25519_public_key_hex is Some ==> g.members@[d] == remote.members@[d],
        local.members@.contains_key(d) && local.members@[d].identity.x25519_public_key_hex is Some
            ==> g.members@[d].identity.x25519_public_key_hex is Some,
        g.members@[d].status == remote.members@[d].status,
{
}

/// A node never takes a state that drops it from the active members unless
/// that state records its expulsion, whichever of the two sync rules it
/// follows.
pub proof fn law_no_self_demotion(local: GovernanceState, remote: GovernanceState, me: Seq<char>)
    requires
        sync_decision_of(local, remote, me) == SyncDecision::Adopt || simple_sync_takes(local, remote, me),
        local.is_active(me),
    ensures
        remote.is_active(me) || (remote.members@.contains_key(me) && remote.members@[me].status
            == MemberStatus::Expelled),
{
}

} // verus!
