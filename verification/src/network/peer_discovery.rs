//! The table of peers a node has heard of, keyed by `address:port`.

use vstd::prelude::*;
use crate::network::messages::PeerInfo;
use crate::strmap::StrMap;
use crate::text::str_eq;

verus! {

/// The decimal digit for a value below ten.
pub open spec fn digit_char(d: int) -> char {
    ('0' as int + d) as char
}

/// The decimal numeral of a number, without leading zeros.
pub open spec fn decimal_of(n: nat) -> Seq<char>
    decreases n,
{
    if n < 10 {
        seq![digit_char(n as int)]
    } else {
        decimal_of(n / 10).push(digit_char((n % 10) as int))
    }
}

fn digit_text(d: u16) -> (s: &'static str)
    requires
        d < 10,
    ensures
        s@ == seq![digit_char(d as int)],
{
    proof {
        reveal_strlit("0");
        reveal_strlit("1");
        reveal_strlit("2");
        reveal_strlit("3");
        reveal_strlit("4");
        reveal_strlit("5");
        reveal_strlit("6");
        reveal_strlit("7");
        reveal_strlit("8");
        reveal_strlit("9");
    }
    let s = if d == 0 {
        "0"
    } else if d == 1 {
        "1"
    } else if d == 2 {
        "2"
    } else if d == 3 {
        "3"
    } else if d == 4 {
        "4"
    } else if d == 5 {
        "5"
    } else if d == 6 {
        "6"
    } else if d == 7 {
        "7"
    } else if d == 8 {
        "8"
    } else {
        "9"
    };
    assert(s@ =~= seq![digit_char(d as int)]);
    s
}

/// The decimal numeral of `n`.
pub fn decimal_text(n: u16) -> (s: String)
    ensures
        s@ == decimal_of(n as nat),
    decreases n,
{
    if n < 10 {
        String::from_str(digit_text(n))
    } else {
        let mut s = decimal_text(n / 10);
        s.append(digit_text(n % 10));
        s
    }
}

/// The key of a peer in the table: its address, a colon and its port.
pub open spec fn peer_key_of(address: Seq<char>, port: u16) -> Seq<char> {
    address + ":"@ + decimal_of(port as nat)
}

/// The key of a peer in the table, see `peer_key_of`.
pub fn peer_key(address: &str, port: u16) -> (k: String)
    ensures
        k@ == peer_key_of(address@, port),
{
    let mut k = String::from_str(address);
    k.append(":");
    k.append(decimal_text(port).as_str());
    k
}

proof fn lemma_decimal_no_colon(n: nat)
    ensures
        !decimal_of(n).contains(':'),
        decimal_of(n).len() >= 1,
    decreases n,
{
    if n >= 10 {
        lemma_decimal_no_colon(n / 10);
        let d = decimal_of(n / 10);
        let e = d.push(digit_char((n % 10) as int));
        assert(e == decimal_of(n));
        assert forall|i: int| 0 <= i < e.len() implies #[trigger] e[i] != ':' by {
            if i < d.len() {
                assert(e[i] == d[i]);
                assert(!d.contains(':'));
            }
        }
    }
}

proof fn lemma_decimal_injective(n: nat, m: nat)
    requires
        decimal_of(n) == decimal_of(m),
    ensures
        n == m,
    decreases n,
{
    lemma_decimal_no_colon(n);
    lemma_decimal_no_colon(m);
    if n < 10 && m < 10 {
        assert(decimal_of(n)[0] == digit_char(n as int));
    } else if n >= 10 && m >= 10 {
        let dn = decimal_of(n / 10);
        let dm = decimal_of(m / 10);
        assert(decimal_of(n).last() == digit_char((n % 10) as int));
        assert(decimal_of(m).last() == digit_char((m % 10) as int));
        assert(decimal_of(n).drop_last() =~= dn);
        assert(decimal_of(m).drop_last() =~= dm);
        lemma_decimal_injective(n / 10, m / 10);
    } else {
        lemma_decimal_short(n);
        lemma_decimal_short(m);
        if n < 10 {
            lemma_decimal_long(m);
        } else {
            lemma_decimal_long(n);
        }
    }
}

proof fn lemma_decimal_short(n: nat)
    ensures
        n < 10 ==> decimal_of(n).len() == 1,
{
}

proof fn lemma_decimal_long(n: nat)
    requires
        n >= 10,
    ensures
        decimal_of(n).len() >= 2,
{
    lemma_decimal_no_colon(n / 10);
}

/// Two peers share a key only when they share both address and port, so
/// the table keeps one entry per address and port.
pub proof fn law_peer_key_injective(a1: Seq<char>, p1: u16, a2: Seq<char>, p2: u16)
    requires
        peer_key_of(a1, p1) == peer_key_of(a2, p2),
    ensures
        a1 == a2,
        p1 == p2,
{
    let d1 = decimal_of(p1 as nat);
    let d2 = decimal_of(p2 as nat);
    lemma_decimal_no_colon(p1 as nat);
    lemma_decimal_no_colon(p2 as nat);
    let k = peer_key_of(a1, p1);
    reveal_strlit(":");
    assert(k =~= a1 + seq![':'] + d1);
    assert(k =~= a2 + seq![':'] + d2);
    if a1.len() < a2.len() {
        assert(k[a2.len() as int] == ':');
        assert(d1[a2.len() - a1.len() - 1] == k[a2.len() as int]);
    } else if a1.len() > a2.len() {
        assert(k[a1.len() as int] == ':');
        assert(d2[a1.len() - a2.len() - 1] == k[a1.len() as int]);
    }
    assert(a1 =~= k.take(a1.len() as int));
    assert(a2 =~= k.take(a2.len() as int));
    assert(d1 =~= k.skip((a1.len() + 1) as int));
    assert(d2 =~= k.skip((a2.len() + 1) as int));
    lemma_decimal_injective(p1 as nat, p2 as nat);
}

/// The peers a node knows of, keyed by `address:port`.
#[derive(Debug)]
pub struct PeerTable {
    peers: StrMap<PeerInfo>,
}

/// The table `table` after merging `known` from a peer exchange, skipping
/// the node's own address and port.
pub open spec fn merged_peers(
    table: Map<Seq<char>, PeerInfo>,
    known: Seq<PeerInfo>,
    self_address: Seq<char>,
    self_port: u16,
) -> Map<Seq<char>, PeerInfo>
    decreases known.len(),
{
    if known.len() == 0 {
        table
    } else {
        let before = merged_peers(table, known.drop_last(), self_address, self_port);
        let p = known.last();
        if p.address@ == self_address && p.port == self_port {
            before
        } else {
            before.insert(peer_key_of(p.address@, p.port), p)
        }
    }
}

/// Whether a peer is at the given address and port.
pub open spec fn is_at(address: Seq<char>, port: u16) -> spec_fn(PeerInfo) -> bool {
    |p: PeerInfo| p.address@ == address && p.port == port
}

impl Default for PeerTable {
    fn default() -> (t: Self)
        ensures
            t.wf(),
            t@.is_empty(),
    {
        PeerTable { peers: StrMap::new() }
    }
}

impl PeerTable {
    /// Well-formedness: each key once.
    pub closed spec fn wf(self) -> bool {
        self.peers.wf()
    }

    /// The peers in the order the table holds them.
    pub closed spec fn peer_order(self) -> Seq<PeerInfo> {
        self.peers.value_order()
    }

    /// Each peer is recorded under its own key.
    pub closed spec fn keyed_by_address(self) -> bool {
        forall|k: Seq<char>| #[trigger] self.peers@.contains_key(k) ==> k == peer_key_of(
            self.peers@[k].address@,
            self.peers@[k].port,
        )
    }

    /// Adds a peer, or replaces the one known at its address and port.
    pub fn upsert(&mut self, peer: PeerInfo)
        requires
            old(self).wf(),
        ensures
            final(self).wf(),
            final(self)@ == old(self)@.insert(peer_key_of(peer.address@, peer.port), peer),
            old(self).keyed_by_address() ==> final(self).keyed_by_address(),
    {
        let key = peer_key(peer.address.as_str(), peer.port);
        self.peers.insert(key, peer);
    }

    /// The known peers except the one at `exclude_address` and
    /// `exclude_port`, in the order the table holds them.
    pub fn get_others(&self, exclude_address: &str, exclude_port: u16) -> (r: Vec<PeerInfo>)
        ensures
            r@ == self.peer_order().filter(|p: PeerInfo| !is_at(exclude_address@, exclude_port)(p)),
    {
        let n = self.peers.entry_count();
        let mut r: Vec<PeerInfo> = Vec::new();
        let mut i: usize = 0;
        while i < n
            invariant
                n == self.peers.value_order().len(),
                i <= n,
                r@ == self.peers.value_order().take(i as int).filter(
                    |p: PeerInfo| !is_at(exclude_address@, exclude_port)(p),
                ),
            decreases n - i,
        {
            let p = self.peers.value_at(i);
            proof {
                let s = self.peers.value_order();
                assert(s.take(i + 1) =~= s.take(i as int).push(s[i as int]));
                s.take(i as int).lemma_filter_push(s[i as int], |p: PeerInfo| !is_at(exclude_address@, exclude_port)(p));
            }
            if !(str_eq(p.address.as_str(), exclude_address) && p.port == exclude_port) {
                r.push(p.clone());
            }
            i = i + 1;
        }
        assert(self.peers.value_order().take(n as int) =~= self.peers.value_order());
        r
    }

    /// All known peers, in the order the table holds them.
    pub fn get_all(&self) -> (r: Vec<PeerInfo>)
        ensures
            r@ == self.peer_order(),
    {
        let n = self.peers.entry_count();
        let mut r: Vec<PeerInfo> = Vec::new();
        let mut i: usize = 0;
        while i < n
            invariant
                n == self.peers.value_order().len(),
                i <= n,
                r@ == self.peers.value_order().take(i as int),
            decreases n - i,
        {
            r.push(self.peers.value_at(i).clone());
            i = i + 1;
            assert(r@ =~= self.peers.value_order().take(i as int));
        }
        assert(self.peers.value_order().take(n as int) =~= self.peers.value_order());
        r
    }

    /// The number of known peers.
    pub fn len(&self) -> (n: usize)
        requires
            self.wf(),
        ensures
            n == self@.len(),
    {
        self.peers.len()
    }

    /// Merges the peers of a peer exchange, skipping the node's own address
    /// and port (see `merged_peers`).
    pub fn merge_from_exchange(&mut self, known_peers: &[PeerInfo], self_address: &str, self_port: u16)
        requires
            old(self).wf(),
        ensures
            final(self).wf(),
            final(self)@ == merged_peers(old(self)@, known_peers@, self_address@, self_port),
            old(self).keyed_by_address() ==> final(self).keyed_by_address(),
    {
        let ghost start = self@;
        let ghost keyed = self.keyed_by_address();
        let mut i: usize = 0;
        while i < known_peers.len()
            invariant
                self.wf(),
                i <= known_peers@.len(),
                self@ == merged_peers(start, known_peers@.take(i as int), self_address@, self_port),
                keyed ==> self.keyed_by_address(),
            decreases known_peers@.len() - i,
        {
            let peer = &known_peers[i];
            proof {
                let t = known_peers@.take(i + 1);
                assert(t.drop_last() =~= known_peers@.take(i as int));
                assert(t.last() == known_peers@[i as int]);
            }
            if !(str_eq(peer.address.as_str(), self_address) && peer.port == self_port) {
                self.upsert(peer.clone());
            }
            i = i + 1;
        }
        assert(known_peers@.take(known_peers@.len() as int) =~= known_peers@);
    }
}

impl View for PeerTable {
    type V = Map<Seq<char>, PeerInfo>;

    closed spec fn view(&self) -> Map<Seq<char>, PeerInfo> {
        self.peers@
    }
}

/// Merging a peer exchange records every exchanged peer that is not the
/// node itself (another address, or the same address with another port)
/// under its `address:port` key, and keeps every peer the table knew.
pub proof fn law_merge_records_other_peers(
    table: Map<Seq<char>, PeerInfo>,
    known: Seq<PeerInfo>,
    self_address: Seq<char>,
    self_port: u16,
)
    ensures
        forall|i: int|
            0 <= i < known.len() && !(known[i].address@ == self_address && known[i].port == self_port)
                ==> #[trigger] merged_peers(table, known, self_address, self_port).contains_key(
                peer_key_of(known[i].address@, known[i].port),
            ),
        forall|k: Seq<char>|
            table.contains_key(k) ==> #[trigger] merged_peers(table, known, self_address, self_port).contains_key(k),
    decreases known.len(),
{
    if known.len() > 0 {
        let rest = known.drop_last();
        law_merge_records_other_peers(table, rest, self_address, self_port);
        assert forall|i: int|
            0 <= i < known.len() && !(known[i].address@ == self_address && known[i].port == self_port)
                implies #[trigger] merged_peers(table, known, self_address, self_port).contains_key(
                peer_key_of(known[i].address@, known[i].port),
            ) by {
            if i < known.len() - 1 {
                assert(rest[i] == known[i]);
                assert(merged_peers(table, rest, self_address, self_port).contains_key(
                    peer_key_of(rest[i].address@, rest[i].port),
                ));
            }
        }
        assert forall|k: Seq<char>| table.contains_key(k) implies #[trigger] merged_peers(
            table,
            known,
            self_address,
            self_port,
        ).contains_key(k) by {
            assert(merged_peers(table, rest, self_address, self_port).contains_key(k));
        }
    }
}

/// A node never records itself from a peer exchange: if it was not in the
/// table, it is not after merging.
pub proof fn law_merge_skips_self(
    table: Map<Seq<char>, PeerInfo>,
    known: Seq<PeerInfo>,
    self_address: Seq<char>,
    self_port: u16,
)
    requires
        !table.contains_key(peer_key_of(self_address, self_port)),
    ensures
        !merged_peers(table, known, self_address, self_port).contains_key(peer_key_of(self_address, self_port)),
    decreases known.len(),
{
    if known.len() > 0 {
        law_merge_skips_self(table, known.drop_last(), self_address, self_port);
        let p = known.last();
        if !(p.address@ == self_address && p.port == self_port) {
            if peer_key_of(p.address@, p.port) == peer_key_of(self_address, self_port) {
                law_peer_key_injective(p.address@, p.port, self_address, self_port);
            }
        }
    }
}

} // verus!
