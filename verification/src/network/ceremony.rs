//! Planning a threshold signing ceremony once a document is final: who
//! deals the key shares, how many signers are needed, and who receives a
//! share.

use vstd::prelude::*;
use vstd::utf8::encode_utf8;
use crate::crypto::identity::MemberRecord;
use crate::governance::membership::{has_status, GovernanceState};
use crate::crypto::identity::MemberStatus;
use crate::governance::voting::accept_threshold;
use crate::network::messages::KeyShareEnvelope;
use crate::text::str_eq;

verus! {

broadcast use vstd::seq_lib::group_to_multiset_ensures;

/// Byte-wise lexicographic order: `a` comes no later than `b`.
pub open spec fn bytes_le(a: Seq<u8>, b: Seq<u8>) -> bool
    decreases a.len(),
{
    if a.len() == 0 {
        true
    } else if b.len() == 0 {
        false
    } else if a[0] != b[0] {
        a[0] < b[0]
    } else {
        bytes_le(a.drop_first(), b.drop_first())
    }
}

/// The order of strings: that of their UTF-8 bytes.
pub open spec fn text_le(a: Seq<char>, b: Seq<char>) -> bool {
    bytes_le(encode_utf8(a), encode_utf8(b))
}

/// Whether a sequence of strings is in ascending order.
pub open spec fn is_sorted_texts(s: Seq<Seq<char>>) -> bool {
    forall|i: int, j: int| 0 <= i < j < s.len() ==> text_le(s[i], s[j])
}

proof fn lemma_bytes_le_total(a: Seq<u8>, b: Seq<u8>)
    ensures
        bytes_le(a, b) || bytes_le(b, a),
    decreases a.len(),
{
    if a.len() > 0 && b.len() > 0 && a[0] == b[0] {
        lemma_bytes_le_total(a.drop_first(), b.drop_first());
    }
}

proof fn lemma_bytes_le_reflexive(a: Seq<u8>)
    ensures
        bytes_le(a, a),
    decreases a.len(),
{
    if a.len() > 0 {
        lemma_bytes_le_reflexive(a.drop_first());
    }
}

proof fn lemma_bytes_le_transitive(a: Seq<u8>, b: Seq<u8>, c: Seq<u8>)
    requires
        bytes_le(a, b),
        bytes_le(b, c),
    ensures
        bytes_le(a, c),
    decreases a.len(),
{
    if a.len() > 0 && b.len() > 0 && c.len() > 0 && a[0] == b[0] && b[0] == c[0] {
        lemma_bytes_le_transitive(a.drop_first(), b.drop_first(), c.drop_first());
    }
}

proof fn lemma_bytes_le_skip(a: Seq<u8>, b: Seq<u8>, i: int)
    requires
        0 <= i <= a.len(),
        i <= b.len(),
        a.take(i) == b.take(i),
    ensures
        bytes_le(a, b) == bytes_le(a.skip(i), b.skip(i)),
    decreases i,
{
    if i > 0 {
        assert(a[0] == a.take(i)[0]);
        assert(b[0] == b.take(i)[0]);
        assert(a.drop_first().take(i - 1) =~= a.take(i).drop_first());
        assert(b.drop_first().take(i - 1) =~= b.take(i).drop_first());
        lemma_bytes_le_skip(a.drop_first(), b.drop_first(), i - 1);
        assert(a.drop_first().skip(i - 1) =~= a.skip(i));
        assert(b.drop_first().skip(i - 1) =~= b.skip(i));
    } else {
        assert(a.skip(0) =~= a);
        assert(b.skip(0) =~= b);
    }
}

/// Whether `a` comes no later than `b` in the order of their UTF-8 bytes,
/// the order in which Rust compares strings.
pub fn text_le_exec(a: &str, b: &str) -> (r: bool)
    ensures
        r == text_le(a@, b@),
{
    let ab = a.as_bytes();
    let bb = b.as_bytes();
    let mut i: usize = 0;
    while i < ab.len() && i < bb.len()
        invariant
            ab@ == encode_utf8(a@),
            bb@ == encode_utf8(b@),
            i <= ab@.len(),
            i <= bb@.len(),
            ab@.take(i as int) == bb@.take(i as int),
        decreases ab@.len() - i,
    {
        if ab[i] != bb[i] {
            proof {
                lemma_bytes_le_skip(ab@, bb@, i as int);
                assert(ab@.skip(i as int)[0] == ab@[i as int]);
                assert(bb@.skip(i as int)[0] == bb@[i as int]);
            }
            return ab[i] < bb[i];
        }
        proof {
            assert(ab@.take(i + 1) =~= ab@.take(i as int).push(ab@[i as int]));
            assert(bb@.take(i + 1) =~= bb@.take(i as int).push(bb@[i as int]));
        }
        i = i + 1;
    }
    proof {
        lemma_bytes_le_skip(ab@, bb@, i as int);
    }
    i == ab.len()
}

/// Sorts strings into ascending order (see `text_le`); the result holds the
/// same strings, as many times each.
pub fn sort_texts(items: Vec<String>) -> (r: Vec<String>)
    ensures
        is_sorted_texts(r@.map_values(|s: String| s@)),
        r@.map_values(|s: String| s@).to_multiset() == items@.map_values(|s: String| s@).to_multiset(),
{
    let mut r: Vec<String> = Vec::new();
    let mut rest = items;
    let ghost all = rest@.map_values(|s: String| s@);
    while rest.len() > 0
        invariant
            is_sorted_texts(r@.map_values(|s: String| s@)),
            r@.map_values(|s: String| s@).to_multiset().add(rest@.map_values(|s: String| s@).to_multiset())
                == all.to_multiset(),
        decreases rest@.len(),
    {
        let ghost rest0 = rest@;
        let x = rest.pop().unwrap();
        proof {
            assert(rest0 =~= rest@.push(x));
            assert(rest0.map_values(|s: String| s@) =~= rest@.map_values(|s: String| s@).push(x@));
        }
        let mut p: usize = 0;
        while p < r.len() && text_le_exec(r[p].as_str(), x.as_str())
            invariant
                p <= r@.len(),
                forall|q: int| 0 <= q < p ==> text_le(#[trigger] r@[q]@, x@),
            decreases r@.len() - p,
        {
            p = p + 1;
        }
        let ghost r0 = r@;
        let ghost s0 = r0.map_values(|s: String| s@);
        proof {
            if p < r@.len() {
                lemma_bytes_le_total(encode_utf8(r@[p as int]@), encode_utf8(x@));
                assert(s0[p as int] == r@[p as int]@);
            }
            assert forall|q: int| 0 <= q < p implies text_le(#[trigger] s0[q], x@) by {
                assert(s0[q] == r@[q]@);
            }
        }
        r.insert(p, x);
        proof {
            let s1 = r@.map_values(|s: String| s@);
            assert(s1 =~= s0.insert(p as int, x@));
            assert forall|a: int, b: int| 0 <= a < b < s1.len() implies text_le(s1[a], s1[b]) by {
                if b < p {
                    assert(s1[a] == s0[a] && s1[b] == s0[b]);
                } else if b == p {
                    assert(s1[a] == s0[a]);
                } else if a < p {
                    assert(s1[a] == s0[a] && s1[b] == s0[b - 1]);
                    assert(text_le(s0[a], s0[b - 1]));
                } else if a == p {
                    assert(s1[b] == s0[b - 1]);
                    assert(text_le(x@, s0[p as int]));
                    if b - 1 > p {
                        assert(text_le(s0[p as int], s0[b - 1]));
                        lemma_bytes_le_transitive(encode_utf8(x@), encode_utf8(s0[p as int]), encode_utf8(s0[b - 1]));
                    }
                } else {
                    assert(s1[a] == s0[a - 1] && s1[b] == s0[b - 1]);
                }
            }
            vstd::seq_lib::to_multiset_insert(s0, p as int, x@);
            vstd::seq_lib::to_multiset_build(rest@.map_values(|s: String| s@), x@);
        }
    }
    proof {
        assert(rest@.map_values(|s: String| s@) =~= Seq::<Seq<char>>::empty());
    }
    r
}

/// The digests of the active members, in the order the state holds them.
pub open spec fn active_digests(g: GovernanceState) -> Seq<Seq<char>> {
    g.with_status(MemberStatus::Active).map_values(|m: MemberRecord| m.identity.digest@)
}

/// The digests of the active members in ascending order: the order in which
/// key shares are dealt, the first being the dealer.
pub fn sorted_active_digests(g: &GovernanceState) -> (r: Vec<String>)
    requires
        g.wf(),
    ensures
        is_sorted_texts(r@.map_values(|s: String| s@)),
        r@.map_values(|s: String| s@).to_multiset() == active_digests(*g).to_multiset(),
{
    let active = g.active_members();
    let mut digests: Vec<String> = Vec::new();
    let mut i: usize = 0;
    while i < active.len()
        invariant
            i <= active@.len(),
            active@.map_values(|m: &MemberRecord| *m) == g.with_status(MemberStatus::Active),
            digests@.map_values(|s: String| s@) == g.with_status(MemberStatus::Active).take(i as int).map_values(
                |m: MemberRecord| m.identity.digest@,
            ),
        decreases active@.len() - i,
    {
        let d = active[i].identity.digest.clone();
        let ghost prev = digests@;
        digests.push(d);
        proof {
            let w = g.with_status(MemberStatus::Active);
            assert(active@.map_values(|m: &MemberRecord| *m)[i as int] == *active@[i as int]);
            assert(w.take(i + 1) =~= w.take(i as int).push(w[i as int]));
            assert(digests@.map_values(|s: String| s@) =~= prev.map_values(|s: String| s@).push(d@));
            assert(digests@.map_values(|s: String| s@) =~= w.take(i + 1).map_values(|m: MemberRecord| m.identity.digest@));
        }
        i = i + 1;
    }
    proof {
        let w = g.with_status(MemberStatus::Active);
        assert(active@.map_values(|m: &MemberRecord| *m).len() == active@.len());
        assert(w.take(i as int) =~= w);
    }
    sort_texts(digests)
}

/// The number of signers a FROST key is made for among `n` members: one for
/// a single member, else more than two thirds.
pub open spec fn frost_threshold_of(n: int) -> int {
    if n == 1 {
        1
    } else {
        (n * 2) / 3 + 1
    }
}

/// The number of signers needed among `n` members, see `frost_threshold_of`.
pub fn frost_threshold(n: usize) -> (t: usize)
    requires
        n <= usize::MAX / 2,
    ensures
        t == frost_threshold_of(n as int),
{
    if n == 1 {
        1
    } else {
        (n * 2) / 3 + 1
    }
}

/// For every positive number of members, the signing threshold is the
/// acceptance threshold of governance votes.
pub proof fn law_threshold_matches_governance(n: int)
    requires
        n >= 1,
    ensures
        frost_threshold_of(n) == accept_threshold(n),
        frost_threshold_of(n) <= n,
{
}

/// The dealer's plan for a ceremony.
#[derive(Debug)]
pub struct DealerPlan {
    /// The active members' digests in ascending order; share `i` goes to
    /// member `i`.
    pub digests: Vec<String>,
    /// The number of signers needed.
    pub threshold: usize,
}

/// The plan for a ceremony if this node (`my_digest`) is its dealer, that is
/// the active member whose digest comes first; otherwise nothing.
pub fn dealer_plan(g: &GovernanceState, my_digest: &str) -> (plan: Option<DealerPlan>)
    requires
        g.wf(),
        g.members@.len() <= usize::MAX / 2,
    ensures
        match plan {
            Some(p) => {
                &&& is_sorted_texts(p.digests@.map_values(|s: String| s@))
                &&& p.digests@.map_values(|s: String| s@).to_multiset() == active_digests(*g).to_multiset()
                &&& p.digests@.len() > 0
                &&& p.digests@[0]@ == my_digest@
                &&& p.threshold == frost_threshold_of(p.digests@.len() as int)
            },
            None => forall|r: Vec<String>|
                is_sorted_texts(r@.map_values(|s: String| s@)) && r@.map_values(|s: String| s@).to_multiset()
                    == #[trigger] active_digests(*g).to_multiset() ==> r@.len() == 0 || r@[0]@ != my_digest@,
        },
{
    let digests = sorted_active_digests(g);
    proof {
        g.members.lemma_shape();
        let w = g.members.value_order();
        w.lemma_filter_len(has_status(MemberStatus::Active));
        assert(digests@.map_values(|s: String| s@).len() == digests@.len());
        assert(active_digests(*g).to_multiset().len() == active_digests(*g).len());
    }
    let n = digests.len();
    if n == 0 || !str_eq(digests[0].as_str(), my_digest) {
        proof {
            lemma_sorted_first_is_least(digests@.map_values(|s: String| s@), active_digests(*g));
        }
        return None;
    }
    let threshold = frost_threshold(n);
    Some(DealerPlan { digests, threshold })
}

proof fn lemma_sorted_first_is_least(s: Seq<Seq<char>>, all: Seq<Seq<char>>)
    requires
        is_sorted_texts(s),
        s.to_multiset() == all.to_multiset(),
    ensures
        forall|r: Vec<String>|
            is_sorted_texts(r@.map_values(|x: String| x@)) && r@.map_values(|x: String| x@).to_multiset()
                == #[trigger] all.to_multiset() ==> (r@.len() == 0 <==> s.len() == 0) && (s.len() > 0 ==> r@[0]@ == s[0]),
{
    assert forall|r: Vec<String>|
        is_sorted_texts(r@.map_values(|x: String| x@)) && r@.map_values(|x: String| x@).to_multiset()
            == #[trigger] all.to_multiset() implies (r@.len() == 0 <==> s.len() == 0) && (s.len() > 0 ==> r@[0]@
        == s[0]) by {
        let t = r@.map_values(|x: String| x@);
        assert(t.to_multiset() == s.to_multiset());
        s.to_multiset_ensures();
        t.to_multiset_ensures();
        assert(t.len() == s.len());
        if s.len() > 0 {
            lemma_sorted_same_first(s, t);
            assert(t[0] == r@[0]@);
        }
    }
}

proof fn lemma_sorted_same_first(s: Seq<Seq<char>>, t: Seq<Seq<char>>)
    requires
        is_sorted_texts(s),
        is_sorted_texts(t),
        s.to_multiset() == t.to_multiset(),
        s.len() > 0,
    ensures
        s[0] == t[0],
{
    s.to_multiset_ensures();
    t.to_multiset_ensures();
    assert(s.to_multiset().contains(s[0]));
    assert(t.to_multiset().contains(t[0]));
    assert(t.contains(s[0]));
    assert(s.contains(t[0]));
    let i = choose|i: int| 0 <= i < t.len() && t[i] == s[0];
    let j = choose|j: int| 0 <= j < s.len() && s[j] == t[0];
    if i > 0 {
        assert(text_le(t[0], t[i]));
    } else {
        lemma_bytes_le_reflexive(encode_utf8(t[0]));
    }
    if j > 0 {
        assert(text_le(s[0], s[j]));
    } else {
        lemma_bytes_le_reflexive(encode_utf8(s[0]));
    }
    lemma_text_le_antisymmetric(s[0], t[0]);
}

proof fn lemma_text_le_antisymmetric(a: Seq<char>, b: Seq<char>)
    requires
        text_le(a, b),
        text_le(b, a),
    ensures
        a == b,
{
    lemma_bytes_le_antisymmetric(encode_utf8(a), encode_utf8(b));
    vstd::utf8::encode_utf8_decode_utf8(a);
    vstd::utf8::encode_utf8_decode_utf8(b);
}

proof fn lemma_bytes_le_antisymmetric(a: Seq<u8>, b: Seq<u8>)
    requires
        bytes_le(a, b),
        bytes_le(b, a),
    ensures
        a == b,
    decreases a.len(),
{
    if a.len() > 0 && b.len() > 0 {
        lemma_bytes_le_antisymmetric(a.drop_first(), b.drop_first());
        assert(a =~= seq![a[0]] + a.drop_first());
        assert(b =~= seq![b[0]] + b.drop_first());
    } else {
        assert(a =~= b);
    }
}

/// The members that can receive a key share: for each position `i` of
/// `digests` whose member has a non-empty X25519 key, the position and that
/// key, in order.
pub fn share_recipients(g: &GovernanceState, digests: &Vec<String>) -> (r: Vec<(usize, String)>)
    requires
        g.wf(),
    ensures
        r@.map_values(|e: (usize, String)| e.0 as int) == Seq::new(digests@.len(), |i: int| i).filter(
            |i: int| recipient_key(*g, digests@[i]@) is Some,
        ),
        forall|k: int| 0 <= k < r@.len() ==> (#[trigger] r@[k]).0 < digests@.len(),
        forall|k: int| 0 <= k < r@.len() ==> recipient_key(*g, digests@[r@[k].0 as int]@) == Some(
            #[trigger] r@[k].1@,
        ),
{
    let mut r: Vec<(usize, String)> = Vec::new();
    let mut i: usize = 0;
    let ghost idx = Seq::new(digests@.len(), |i: int| i);
    while i < digests.len()
        invariant
            g.wf(),
            i <= digests@.len(),
            idx == Seq::new(digests@.len(), |i: int| i),
            r@.map_values(|e: (usize, String)| e.0 as int) == idx.take(i as int).filter(
                |i: int| recipient_key(*g, digests@[i]@) is Some,
            ),
            forall|k: int| 0 <= k < r@.len() ==> (#[trigger] r@[k]).0 < i,
            forall|k: int| 0 <= k < r@.len() ==> recipient_key(*g, digests@[r@[k].0 as int]@) == Some(
                #[trigger] r@[k].1@,
            ),
        decreases digests@.len() - i,
    {
        proof {
            assert(idx.take(i + 1) =~= idx.take(i as int).push(i as int));
            idx.take(i as int).lemma_filter_push(i as int, |i: int| recipient_key(*g, digests@[i]@) is Some);
        }
        let ghost prev = r@;
        match g.members.get(digests[i].as_str()) {
            Some(m) => match &m.identity.x25519_public_key_hex {
                Some(k) => {
                    if k.as_str().unicode_len() > 0 {
                        r.push((i, k.clone()));
                        proof {
                            assert(r@.map_values(|e: (usize, String)| e.0 as int) =~= prev.map_values(
                                |e: (usize, String)| e.0 as int,
                            ).push(i as int));
                        }
                    }
                },
                None => {},
            },
            None => {},
        }
        i = i + 1;
    }
    proof {
        assert(idx.take(digests@.len() as int) =~= idx);
    }
    r
}

/// The X25519 key a share for member `d` is encrypted to: its key when it
/// has a non-empty one.
pub open spec fn recipient_key(g: GovernanceState, d: Seq<char>) -> Option<Seq<char>> {
    if g.members@.contains_key(d) && g.members@[d].identity.x25519_public_key_hex is Some
        && g.members@[d].identity.x25519_public_key_hex->0@.len() > 0 {
        Some(g.members@[d].identity.x25519_public_key_hex->0@)
    } else {
        None
    }
}

/// The position of this node (`my_digest`) among `digests`, the last one if
/// it occurs more than once; the dealer keeps the share at that position.
pub fn my_share_position(digests: &Vec<String>, my_digest: &str) -> (r: Option<usize>)
    ensures
        match r {
            Some(i) => i < digests@.len() && digests@[i as int]@ == my_digest@ && forall|j: int|
                i < j < digests@.len() ==> (#[trigger] digests@[j])@ != my_digest@,
            None => forall|j: int| 0 <= j < digests@.len() ==> (#[trigger] digests@[j])@ != my_digest@,
        },
{
    let mut found: Option<usize> = None;
    let mut i: usize = 0;
    while i < digests.len()
        invariant
            i <= digests@.len(),
            match found {
                Some(f) => f < i && digests@[f as int]@ == my_digest@ && forall|j: int|
                    f < j < i ==> (#[trigger] digests@[j])@ != my_digest@,
                None => forall|j: int| 0 <= j < i ==> (#[trigger] digests@[j])@ != my_digest@,
            },
        decreases digests@.len() - i,
    {
        if str_eq(digests[i].as_str(), my_digest) {
            found = Some(i);
        }
        i = i + 1;
    }
    found
}

/// The position of the first envelope addressed to this node
/// (`my_digest`), if any.
pub fn find_envelope(envelopes: &Vec<KeyShareEnvelope>, my_digest: &str) -> (r: Option<usize>)
    ensures
        match r {
            Some(i) => i < envelopes@.len() && envelopes@[i as int].recipient_digest@ == my_digest@ && forall|j: int|
                0 <= j < i ==> (#[trigger] envelopes@[j]).recipient_digest@ != my_digest@,
            None => forall|j: int| 0 <= j < envelopes@.len() ==> (#[trigger] envelopes@[j]).recipient_digest@ != my_digest@,
        },
{
    let mut i: usize = 0;
    while i < envelopes.len()
        invariant
            i <= envelopes@.len(),
            forall|j: int| 0 <= j < i ==> (#[trigger] envelopes@[j]).recipient_digest@ != my_digest@,
        decreases envelopes@.len() - i,
    {
        if str_eq(envelopes[i].recipient_digest.as_str(), my_digest) {
            return Some(i);
        }
        i = i + 1;
    }
    None
}

/// The associated data that binds an encrypted key share to its ceremony:
/// `frost-share-` followed by the session id.
pub fn share_context(session_id: &str) -> (c: String)
    ensures
        c@ == "frost-share-"@ + session_id@,
{
    let mut c = String::from_str("frost-share-");
    c.append(session_id);
    c
}

} // verus!
