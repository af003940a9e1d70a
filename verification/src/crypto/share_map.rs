//! Byte strings keyed by FROST share id, held in ascending id order.

use vstd::prelude::*;

verus! {

/// A finite map from share ids to byte strings whose entries are kept in
/// ascending order of id.
#[derive(Debug)]
pub struct ShareMap {
    entries: Vec<(u16, Vec<u8>)>,
}

impl ShareMap {
    /// The ids, in the order in which the map holds them.
    pub closed spec fn ids(self) -> Seq<u16> {
        self.entries@.map_values(|e: (u16, Vec<u8>)| e.0)
    }

    /// The byte strings, in the order of `ids`.
    pub closed spec fn values(self) -> Seq<Seq<u8>> {
        self.entries@.map_values(|e: (u16, Vec<u8>)| e.1@)
    }

    /// Well-formedness: the ids ascend strictly.
    pub closed spec fn wf(self) -> bool {
        forall|i: int, j: int| 0 <= i < j < self.ids().len() ==> self.ids()[i] < self.ids()[j]
    }

    /// The map that the entries stand for.
    pub closed spec fn as_map(self) -> Map<u16, Seq<u8>> {
        Map::new(|id: u16| self.ids().contains(id), |id: u16| self.values()[self.ids().index_of(id)])
    }

    /// The ids are the keys of the map, each once, in ascending order, and
    /// each stands beside its byte string.
    pub proof fn lemma_shape(&self)
        requires
            self.wf(),
        ensures
            self.ids().no_duplicates(),
            self.ids().len() == self.values().len(),
            forall|i: int, j: int| 0 <= i < j < self.ids().len() ==> self.ids()[i] < self.ids()[j],
            self@.dom() == self.ids().to_set(),
            self@.dom().finite(),
            self@.len() == self.ids().len(),
            forall|i: int|
                #![trigger self.ids()[i]]
                0 <= i < self.ids().len() ==> self@.contains_key(self.ids()[i]) && self@[self.ids()[i]]
                    == self.values()[i],
    {
        self.lemma_index_of();
        assert(self@.dom() =~= self.ids().to_set());
        self.ids().unique_seq_to_set();
    }

    proof fn lemma_index_of(&self)
        requires
            self.wf(),
        ensures
            self.ids().no_duplicates(),
            forall|i: int|
                #![trigger self.ids()[i]]
                0 <= i < self.ids().len() ==> self.ids().index_of(self.ids()[i]) == i && self@.contains_key(
                    self.ids()[i],
                ) && self@[self.ids()[i]] == self.values()[i],
    {
        assert(self.ids().no_duplicates()) by {
            assert forall|i: int, j: int|
                0 <= i < self.ids().len() && 0 <= j < self.ids().len() && i != j implies self.ids()[i]
                != self.ids()[j] by {
                if i < j {
                } else {
                }
            }
        }
        assert forall|i: int| 0 <= i < self.ids().len() implies self.ids().index_of(
            #[trigger] self.ids()[i],
        ) == i && self@.contains_key(self.ids()[i]) && self@[self.ids()[i]] == self.values()[i] by {
            let k = self.ids()[i];
            assert(self.ids().contains(k));
            let j = self.ids().index_of(k);
            assert(0 <= j < self.ids().len() && self.ids()[j] == k);
        }
    }

    /// An empty map.
    pub fn new() -> (m: Self)
        ensures
            m.wf(),
            m@ == Map::<u16, Seq<u8>>::empty(),
            m.ids() == Seq::<u16>::empty(),
    {
        let m = ShareMap { entries: Vec::new() };
        assert(m@ =~= Map::<u16, Seq<u8>>::empty());
        assert(m.ids() =~= Seq::<u16>::empty());
        m
    }

    /// The number of ids.
    pub fn len(&self) -> (n: usize)
        requires
            self.wf(),
        ensures
            n == self@.len(),
            n == self.ids().len(),
    {
        proof {
            self.lemma_shape();
        }
        self.entries.len()
    }

    /// The first position whose id is not below `id`.
    fn position(&self, id: u16) -> (p: usize)
        requires
            self.wf(),
        ensures
            p <= self.ids().len(),
            forall|i: int| 0 <= i < p ==> self.ids()[i] < id,
            forall|i: int| p <= i < self.ids().len() ==> self.ids()[i] >= id,
    {
        let mut p: usize = 0;
        while p < self.entries.len() && self.entries[p].0 < id
            invariant
                self.wf(),
                p <= self.entries@.len(),
                forall|i: int| 0 <= i < p ==> self.ids()[i] < id,
            decreases self.entries@.len() - p,
        {
            p = p + 1;
        }
        assert forall|i: int| p <= i < self.ids().len() implies self.ids()[i] >= id by {
            if i > p {
                assert(self.ids()[p as int] < self.ids()[i]);
            }
        }
        p
    }

    /// Binds `id` to `bytes`, keeping the ids in ascending order.
    pub fn insert(&mut self, id: u16, bytes: Vec<u8>)
        requires
            old(self).wf(),
        ensures
            final(self).wf(),
            final(self)@ == old(self)@.insert(id, bytes@),
    {
        let ghost old_self = *self;
        proof {
            old_self.lemma_index_of();
        }
        let p = self.position(id);
        let ghost bv = bytes@;
        if p < self.entries.len() && self.entries[p].0 == id {
            proof {
                assert(old_self.ids()[p as int] == id);
            }
            self.entries.set(p, (id, bytes));
            proof {
                assert(self.ids() =~= old_self.ids());
                assert(self.wf());
                assert(self.values() =~= old_self.values().update(p as int, bv));
                self.lemma_index_of();
                assert forall|k: u16| #[trigger] self@.contains_key(k) implies self@[k] == old_self@.insert(id, bv)[k] by {
                    let j = choose|j: int| 0 <= j < self.ids().len() && self.ids()[j] == k;
                    assert(self@[self.ids()[j]] == self.values()[j]);
                    assert(old_self@[old_self.ids()[j]] == old_self.values()[j]);
                }
                assert forall|k: u16| #[trigger] self@.contains_key(k) == old_self@.insert(id, bv).contains_key(k) by {
                    if old_self@.contains_key(k) {
                        assert(old_self.ids().contains(k));
                    }
                }
                assert(self@ =~= old_self@.insert(id, bv));
            }
        } else {
            self.entries.insert(p, (id, bytes));
            proof {
                assert(self.ids() =~= old_self.ids().insert(p as int, id));
                assert(self.values() =~= old_self.values().insert(p as int, bv));
                if p < old_self.ids().len() {
                    assert(old_self.ids()[p as int] > id);
                }
                assert forall|a: int, b: int| 0 <= a < b < self.ids().len() implies self.ids()[a] < self.ids()[b] by {
                    if b < p {
                        assert(self.ids()[a] == old_self.ids()[a] && self.ids()[b] == old_self.ids()[b]);
                    } else if a < p && b == p {
                        assert(self.ids()[a] == old_self.ids()[a]);
                    } else if a < p {
                        assert(self.ids()[a] == old_self.ids()[a] && self.ids()[b] == old_self.ids()[b - 1]);
                    } else if a == p {
                        assert(self.ids()[b] == old_self.ids()[b - 1]);
                        if b - 1 > p {
                            assert(old_self.ids()[p as int] < old_self.ids()[b - 1]);
                        }
                    } else {
                        assert(self.ids()[a] == old_self.ids()[a - 1] && self.ids()[b] == old_self.ids()[b - 1]);
                    }
                }
                assert(self.wf());
                self.lemma_index_of();
                assert forall|k: u16| #[trigger] self@.contains_key(k) implies self@[k] == old_self@.insert(id, bv)[k] by {
                    let j = choose|j: int| 0 <= j < self.ids().len() && self.ids()[j] == k;
                    assert(self@[self.ids()[j]] == self.values()[j]);
                    if j < p {
                        assert(old_self@[old_self.ids()[j]] == old_self.values()[j]);
                    } else if j > p {
                        assert(old_self@[old_self.ids()[j - 1]] == old_self.values()[j - 1]);
                    }
                }
                assert forall|k: u16| #[trigger] self@.contains_key(k) == old_self@.insert(id, bv).contains_key(k) by {
                    if k == id {
                        assert(self.ids()[p as int] == k);
                    }
                    if old_self@.contains_key(k) {
                        assert(old_self.ids().contains(k));
                        let j = choose|j: int| 0 <= j < old_self.ids().len() && old_self.ids()[j] == k;
                        if j < p {
                            assert(self.ids()[j] == k);
                        } else {
                            assert(self.ids()[j + 1] == k);
                        }
                    }
                    if self@.contains_key(k) {
                        let j = choose|j: int| 0 <= j < self.ids().len() && self.ids()[j] == k;
                        if j < p {
                            assert(old_self.ids()[j] == k);
                        } else if j > p {
                            assert(old_self.ids()[j - 1] == k);
                        }
                    }
                }
                assert(self@ =~= old_self@.insert(id, bv));
            }
        }
    }

    /// The first `n` ids in ascending order, or all of them if there are
    /// fewer.
    pub fn lowest_ids(&self, n: usize) -> (r: Vec<u16>)
        requires
            self.wf(),
        ensures
            r@ == self.ids().take(if n < self.ids().len() { n as int } else { self.ids().len() as int }),
    {
        let mut r: Vec<u16> = Vec::new();
        let mut i: usize = 0;
        while i < self.entries.len() && i < n
            invariant
                i <= self.entries@.len(),
                i <= n,
                r@ == self.ids().take(i as int),
            decreases self.entries@.len() - i,
        {
            r.push(self.entries[i].0);
            i = i + 1;
            assert(r@ =~= self.ids().take(i as int));
        }
        r
    }

    /// The byte strings of the first `n` ids in ascending order, or of all
    /// of them if there are fewer.
    pub fn lowest_values(&self, n: usize) -> (r: Vec<Vec<u8>>)
        requires
            self.wf(),
        ensures
            r@.map_values(|v: Vec<u8>| v@) == self.values().take(
                if n < self.ids().len() { n as int } else { self.ids().len() as int },
            ),
    {
        let mut r: Vec<Vec<u8>> = Vec::new();
        let mut i: usize = 0;
        while i < self.entries.len() && i < n
            invariant
                i <= self.entries@.len(),
                i <= n,
                r@.map_values(|v: Vec<u8>| v@) == self.values().take(i as int),
            decreases self.entries@.len() - i,
        {
            let v = self.entries[i].1.clone();
            assert(v@ =~= self.entries@[i as int].1@);
            assert(self.values()[i as int] == v@);
            let ghost prev = r@;
            r.push(v);
            proof {
                assert(r@ == prev.push(v));
                assert(r@.map_values(|v: Vec<u8>| v@) =~= prev.map_values(|v: Vec<u8>| v@).push(v@));
                assert(self.values().take(i + 1) =~= self.values().take(i as int).push(v@));
            }
            i = i + 1;
        }
        r
    }
}

impl View for ShareMap {
    type V = Map<u16, Seq<u8>>;

    closed spec fn view(&self) -> Map<u16, Seq<u8>> {
        self.as_map()
    }
}

} // verus!
