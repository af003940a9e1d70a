//! String-keyed maps and sets held as association lists.
//!
//! `StrMap<V>` behaves as a finite map from strings to values and `StrSet`
//! as a finite set of strings. Both keep their entries in the order in which
//! keys were first inserted, which gives every query that lists entries a
//! definite order.

use vstd::prelude::*;
use crate::text::str_eq;

verus! {

/// A finite map from strings to values.
#[derive(Debug)]
pub struct StrMap<V> {
    entries: Vec<(String, V)>,
}

impl<V> StrMap<V> {
    /// The keys, in the order in which the map holds them.
    pub closed spec fn key_order(self) -> Seq<Seq<char>> {
        self.entries@.map_values(|e: (String, V)| e.0@)
    }

    /// The values, in the order of `key_order`.
    pub closed spec fn value_order(self) -> Seq<V> {
        self.entries@.map_values(|e: (String, V)| e.1)
    }

    /// Well-formedness: no key occurs twice.
    pub closed spec fn wf(self) -> bool {
        self.key_order().no_duplicates()
    }

    /// The map that this association list stands for.
    pub closed spec fn as_map(self) -> Map<Seq<char>, V> {
        Map::new(
            |k: Seq<char>| self.key_order().contains(k),
            |k: Seq<char>| self.value_order()[self.key_order().index_of(k)],
        )
    }

    /// The facts that relate the ordered entries to the map they stand for.
    pub proof fn lemma_shape(&self)
        requires
            self.wf(),
        ensures
            self.key_order().no_duplicates(),
            self.key_order().len() == self.value_order().len(),
            self@.dom() == self.key_order().to_set(),
            self@.dom().finite(),
            self@.len() == self.key_order().len(),
            forall|i: int|
                #![trigger self.key_order()[i]]
                0 <= i < self.key_order().len() ==> self@.contains_key(self.key_order()[i])
                    && self@[self.key_order()[i]] == self.value_order()[i],
    {
        self.lemma_index_of();
        assert(self@.dom() =~= self.key_order().to_set());
        self.key_order().unique_seq_to_set();
    }

    proof fn lemma_index_of(&self)
        requires
            self.key_order().no_duplicates(),
        ensures
            forall|i: int|
                #![trigger self.key_order()[i]]
                0 <= i < self.key_order().len() ==> self.key_order().index_of(self.key_order()[i])
                    == i && self@.contains_key(self.key_order()[i]) && self@[self.key_order()[i]]
                    == self.value_order()[i],
    {
        assert forall|i: int| 0 <= i < self.key_order().len() implies self.key_order().index_of(
            #[trigger] self.key_order()[i],
        ) == i && self@.contains_key(self.key_order()[i]) && self@[self.key_order()[i]]
            == self.value_order()[i] by {
            let k = self.key_order()[i];
            assert(self.key_order().contains(k));
            let j = self.key_order().index_of(k);
            assert(0 <= j < self.key_order().len() && self.key_order()[j] == k);
        }
    }

    /// The number of values that satisfy `p` is the number of keys whose
    /// value satisfies it.
    pub proof fn lemma_count_by_keys(&self, p: spec_fn(V) -> bool)
        requires
            self.wf(),
        ensures
            count_where(self.value_order(), p) == self@.dom().filter(|k: Seq<char>| p(self@[k])).len(),
    {
        self.lemma_shape();
        let ks = self.key_order();
        let q = |k: Seq<char>| p(self@[k]);
        assert forall|i: int| 0 <= i < ks.len() implies q(#[trigger] ks[i]) == p(self.value_order()[i]) by {}
        lemma_count_pointwise(ks, self.value_order(), q, p);
        lemma_filter_no_duplicates(ks, q);
        ks.filter(q).unique_seq_to_set();
        assert forall|k: Seq<char>| #[trigger] ks.filter(q).to_set().contains(k) == self@.dom().filter(q).contains(k) by {
            if ks.filter(q).contains(k) {
                ks.lemma_filter_contains_rev(q, k);
                let j = choose|j: int| 0 <= j < ks.filter(q).len() && ks.filter(q)[j] == k;
                ks.lemma_filter_pred(q, j);
            }
            if self@.dom().filter(q).contains(k) {
                assert(ks.contains(k));
                let j = choose|j: int| 0 <= j < ks.len() && ks[j] == k;
                ks.lemma_filter_contains(q, j);
            }
        }
        assert(ks.filter(q).to_set() =~= self@.dom().filter(q));
    }

    /// The number of keys in `key_order` that satisfy `q` is the number of
    /// keys of the map that do.
    pub proof fn lemma_count_keys(&self, q: spec_fn(Seq<char>) -> bool)
        requires
            self.wf(),
        ensures
            count_where(self.key_order(), q) == self@.dom().filter(q).len(),
    {
        self.lemma_shape();
        let ks = self.key_order();
        lemma_filter_no_duplicates(ks, q);
        ks.filter(q).unique_seq_to_set();
        assert forall|k: Seq<char>| #[trigger] ks.filter(q).to_set().contains(k) == self@.dom().filter(q).contains(k) by {
            if ks.filter(q).contains(k) {
                ks.lemma_filter_contains_rev(q, k);
                let j = choose|j: int| 0 <= j < ks.filter(q).len() && ks.filter(q)[j] == k;
                ks.lemma_filter_pred(q, j);
            }
            if self@.dom().filter(q).contains(k) {
                assert(ks.contains(k));
                let j = choose|j: int| 0 <= j < ks.len() && ks[j] == k;
                ks.lemma_filter_contains(q, j);
            }
        }
        assert(ks.filter(q).to_set() =~= self@.dom().filter(q));
    }

    /// An empty map.
    pub fn new() -> (m: Self)
        ensures
            m.wf(),
            m@ == Map::<Seq<char>, V>::empty(),
            m.key_order() == Seq::<Seq<char>>::empty(),
            m.value_order() == Seq::<V>::empty(),
    {
        let m = StrMap { entries: Vec::new() };
        assert(m@ =~= Map::<Seq<char>, V>::empty());
        assert(m.key_order() =~= Seq::<Seq<char>>::empty());
        assert(m.value_order() =~= Seq::<V>::empty());
        m
    }

    /// The position of `k` among the entries, if it is a key.
    fn find(&self, k: &str) -> (r: Option<usize>)
        ensures
            match r {
                Some(i) => i < self.key_order().len() && self.key_order()[i as int] == k@,
                None => !self.key_order().contains(k@),
            },
    {
        let mut i: usize = 0;
        while i < self.entries.len()
            invariant
                i <= self.entries@.len(),
                forall|j: int| 0 <= j < i ==> self.key_order()[j] != k@,
            decreases self.entries@.len() - i,
        {
            if str_eq(self.entries[i].0.as_str(), k) {
                return Some(i);
            }
            i = i + 1;
        }
        None
    }

    /// The number of keys.
    pub fn len(&self) -> (n: usize)
        requires
            self.wf(),
        ensures
            n == self@.len(),
    {
        proof {
            self.lemma_shape();
        }
        self.entries.len()
    }

    /// Whether the map has no key.
    pub fn is_empty(&self) -> (b: bool)
        requires
            self.wf(),
        ensures
            b == (self@.len() == 0),
    {
        proof {
            self.lemma_shape();
        }
        self.entries.len() == 0
    }

    /// Whether `k` is a key.
    pub fn contains_key(&self, k: &str) -> (b: bool)
        requires
            self.wf(),
        ensures
            b == self@.contains_key(k@),
    {
        proof {
            self.lemma_shape();
        }
        self.find(k).is_some()
    }

    /// The value at key `k`, if there is one.
    pub fn get(&self, k: &str) -> (r: Option<&V>)
        requires
            self.wf(),
        ensures
            match r {
                Some(v) => self@.contains_key(k@) && *v == self@[k@],
                None => !self@.contains_key(k@),
            },
    {
        proof {
            self.lemma_shape();
        }
        match self.find(k) {
            Some(i) => Some(&self.entries[i].1),
            None => None,
        }
    }

    /// The key at position `i` of `key_order`.
    pub fn key_at(&self, i: usize) -> (k: &String)
        requires
            i < self.key_order().len(),
        ensures
            k@ == self.key_order()[i as int],
    {
        &self.entries[i].0
    }

    /// The value at position `i` of `value_order`.
    pub fn value_at(&self, i: usize) -> (v: &V)
        requires
            i < self.value_order().len(),
        ensures
            *v == self.value_order()[i as int],
    {
        &self.entries[i].1
    }

    /// The values, in the order of `value_order`.
    pub fn values(&self) -> (r: Vec<&V>)
        ensures
            r@.map_values(|v: &V| *v) == self.value_order(),
    {
        let mut r: Vec<&V> = Vec::new();
        let mut i: usize = 0;
        while i < self.entries.len()
            invariant
                i <= self.entries@.len(),
                r@.map_values(|v: &V| *v) == self.value_order().take(i as int),
            decreases self.entries@.len() - i,
        {
            let ghost prev = r@;
            r.push(&self.entries[i].1);
            assert(r@.map_values(|v: &V| *v) =~= prev.map_values(|v: &V| *v).push(self.entries@[i as int].1));
            assert(self.value_order().take(i + 1) =~= self.value_order().take(i as int).push(self.entries@[i as int].1));
            i = i + 1;
        }
        assert(self.value_order().take(self.entries@.len() as int) =~= self.value_order());
        r
    }

    /// The number of entries, that is the length of `key_order`.
    pub fn entry_count(&self) -> (n: usize)
        ensures
            n == self.key_order().len(),
            n == self.value_order().len(),
    {
        self.entries.len()
    }

    /// Binds `k` to `v`; a key already present keeps its position.
    pub fn insert(&mut self, k: String, v: V)
        requires
            old(self).wf(),
        ensures
            final(self).wf(),
            final(self)@ == old(self)@.insert(k@, v),
            old(self).key_order().contains(k@) ==> final(self).key_order() == old(self).key_order(),
            !old(self).key_order().contains(k@) ==> final(self).key_order() == old(self).key_order().push(k@),
            !old(self).key_order().contains(k@) ==> final(self).value_order() == old(self).value_order().push(v),
            old(self).key_order().contains(k@) ==> final(self).value_order() == old(self).value_order().update(
                old(self).key_order().index_of(k@),
                v,
            ),
    {
        proof {
            self.lemma_shape();
        }
        let ghost old_self = *self;
        match self.find(k.as_str()) {
            Some(i) => {
                let ghost kv = k@;
                self.entries.set(i, (k, v));
                proof {
                    old_self.lemma_index_of();
                    assert(self.key_order() =~= old_self.key_order());
                    assert(self.value_order() =~= old_self.value_order().update(i as int, v));
                    self.lemma_index_of();
                    assert(self@ =~= old_self@.insert(kv, v));
                }
            },
            None => {
                let ghost kv = k@;
                self.entries.push((k, v));
                proof {
                    assert(self.key_order() =~= old_self.key_order().push(kv));
                    assert(self.value_order() =~= old_self.value_order().push(v));
                    assert(self.key_order().no_duplicates());
                    self.lemma_index_of();
                    old_self.lemma_index_of();
                    let n = old_self.key_order().len();
                    assert(self.key_order()[n as int] == kv);
                    assert forall|x: Seq<char>| #[trigger]
                        self@.contains_key(x) == old_self@.insert(kv, v).contains_key(x) by {
                        if self.key_order().contains(x) && x != kv {
                            let j = choose|j: int|
                                0 <= j < self.key_order().len() && self.key_order()[j] == x;
                            assert(j < n);
                            assert(old_self.key_order()[j] == x);
                        }
                        if old_self.key_order().contains(x) {
                            let j = choose|j: int|
                                0 <= j < old_self.key_order().len() && old_self.key_order()[j] == x;
                            assert(self.key_order()[j] == x);
                        }
                    }
                    assert forall|x: Seq<char>| #[trigger]
                        self@.contains_key(x) implies self@[x] == old_self@.insert(kv, v)[x] by {
                        if x != kv {
                            let j = choose|j: int|
                                0 <= j < self.key_order().len() && self.key_order()[j] == x;
                            assert(j < n);
                            assert(old_self.key_order()[j] == x);
                        }
                    }
                    assert(self@ =~= old_self@.insert(kv, v));
                }
            },
        }
    }

    /// Removes the key `k` and hands back its value, if it was a key.
    pub fn remove(&mut self, k: &str) -> (r: Option<V>)
        requires
            old(self).wf(),
        ensures
            final(self).wf(),
            final(self)@ == old(self)@.remove(k@),
            match r {
                Some(v) => old(self)@.contains_key(k@) && v == old(self)@[k@],
                None => !old(self)@.contains_key(k@),
            },
            forall|x: Seq<char>|
                old(self).key_order().contains(x) && x != k@ ==> #[trigger] final(self).key_order().contains(x),
            old(self)@.contains_key(k@) ==> final(self).value_order() == old(self).value_order().remove(
                old(self).key_order().index_of(k@),
            ),
            !old(self)@.contains_key(k@) ==> *final(self) == *old(self),
    {
        proof {
            self.lemma_shape();
        }
        let ghost old_self = *self;
        match self.find(k) {
            Some(i) => {
                let e = self.entries.remove(i);
                proof {
                    old_self.lemma_index_of();
                    assert(self.key_order() =~= old_self.key_order().remove(i as int));
                    assert(self.value_order() =~= old_self.value_order().remove(i as int));
                    assert(self.key_order().no_duplicates());
                    self.lemma_index_of();
                    assert forall|x: Seq<char>|
                        old_self.key_order().contains(x) && x != k@ implies #[trigger] self.key_order().contains(
                        x,
                    ) by {
                        let j = choose|j: int|
                            0 <= j < old_self.key_order().len() && old_self.key_order()[j] == x;
                        if j < i {
                            assert(self.key_order()[j] == x);
                        } else {
                            assert(self.key_order()[j - 1] == x);
                        }
                    }
                    assert forall|x: Seq<char>| self@.contains_key(x) implies old_self@.remove(
                        k@,
                    ).contains_key(x) by {
                        let j = choose|j: int|
                            0 <= j < self.key_order().len() && self.key_order()[j] == x;
                        if j < i {
                            assert(old_self.key_order()[j] == x);
                        } else {
                            assert(old_self.key_order()[j + 1] == x);
                        }
                    }
                    assert(self@ =~= old_self@.remove(k@));
                }
                Some(e.1)
            },
            None => {
                proof {
                    assert(self@ =~= old_self@.remove(k@));
                }
                None
            },
        }
    }
}

impl<V> StrMap<V> {
    /// Two maps with the same entries in the same order stand for the same map.
    pub proof fn lemma_same_entries(a: Self, b: Self)
        requires
            a.key_order() == b.key_order(),
            a.value_order() == b.value_order(),
        ensures
            a@ == b@,
            a.wf() == b.wf(),
    {
        assert(a@ =~= b@);
    }
}

impl<V: Clone> Clone for StrMap<V> {
    fn clone(&self) -> (c: Self)
        ensures
            c.key_order() == self.key_order(),
            c.value_order().len() == self.value_order().len(),
            forall|i: int| 0 <= i < self.value_order().len() ==> cloned::<V>(self.value_order()[i], #[trigger] c.value_order()[i]),
    {
        let mut entries: Vec<(String, V)> = Vec::new();
        let mut i: usize = 0;
        while i < self.entries.len()
            invariant
                i <= self.entries@.len(),
                entries@.len() == i,
                forall|j: int| 0 <= j < i ==> (#[trigger] entries@[j]).0@ == self.entries@[j].0@,
                forall|j: int| 0 <= j < i ==> cloned::<V>(self.entries@[j].1, (#[trigger] entries@[j]).1),
            decreases self.entries@.len() - i,
        {
            let k = self.entries[i].0.clone();
            let v = self.entries[i].1.clone();
            entries.push((k, v));
            i = i + 1;
        }
        let c = StrMap { entries };
        assert(c.key_order() =~= self.key_order());
        c
    }
}

impl Clone for StrSet {
    fn clone(&self) -> (c: Self)
        ensures
            c.item_order() == self.item_order(),
            c@ == self@,
            c.wf() == self.wf(),
    {
        let mut items: Vec<String> = Vec::new();
        let mut i: usize = 0;
        while i < self.items.len()
            invariant
                i <= self.items@.len(),
                items@.len() == i,
                forall|j: int| 0 <= j < i ==> (#[trigger] items@[j])@ == self.items@[j]@,
            decreases self.items@.len() - i,
        {
            items.push(self.items[i].clone());
            i = i + 1;
        }
        let c = StrSet { items };
        assert(c.item_order() =~= self.item_order());
        c
    }
}

impl<V> StrMap<V> {
    proof fn lemma_update_entry(m: Self, i: int)
        requires
            m.wf(),
            0 <= i < m.entries@.len(),
        ensures
            forall|x: Self, w: V|
                #![trigger x.entries@, m.entries@.update(i, (m.entries@[i].0, w))]
                x.entries@ == m.entries@.update(i, (m.entries@[i].0, w)) ==> {
                    &&& x.wf()
                    &&& x@ == m@.insert(m.key_order()[i], w)
                    &&& x.key_order() == m.key_order()
                },
    {
        m.lemma_index_of();
        assert forall|x: Self, w: V|
            #![trigger x.entries@, m.entries@.update(i, (m.entries@[i].0, w))]
            x.entries@ == m.entries@.update(i, (m.entries@[i].0, w)) implies {
                &&& x.wf()
                &&& x@ == m@.insert(m.key_order()[i], w)
                &&& x.key_order() == m.key_order()
            } by {
            assert(x.key_order() =~= m.key_order());
            assert(x.value_order() =~= m.value_order().update(i, w));
            x.lemma_index_of();
            let ki = m.key_order()[i];
            assert forall|kk: Seq<char>| #[trigger] x@.contains_key(kk) implies x@[kk] == m@.insert(ki, w)[kk] by {
                let j = choose|j: int| 0 <= j < x.key_order().len() && x.key_order()[j] == kk;
                assert(x@[x.key_order()[j]] == x.value_order()[j]);
                assert(m@[m.key_order()[j]] == m.value_order()[j]);
            }
            assert forall|kk: Seq<char>| #[trigger] x@.contains_key(kk) == m@.insert(ki, w).contains_key(kk) by {
                if m@.contains_key(kk) {
                    assert(m.key_order().contains(kk));
                }
            }
            assert(x@ =~= m@.insert(ki, w));
        }
    }

    /// A mutable borrow of the value at key `k`, if there is one; what is
    /// written through it becomes the key's value.
    pub fn get_mut(&mut self, k: &str) -> (r: Option<&mut V>)
        requires
            old(self).wf(),
        ensures
            match r {
                Some(v) => {
                    &&& old(self)@.contains_key(k@)
                    &&& *v == old(self)@[k@]
                    &&& final(self).wf()
                    &&& final(self)@ == old(self)@.insert(k@, *final(v))
                    &&& final(self).key_order() == old(self).key_order()
                },
                None => !old(self)@.contains_key(k@) && *final(self) == *old(self),
            },
    {
        proof {
            self.lemma_shape();
        }
        match self.find(k) {
            Some(i) => {
                proof {
                    Self::lemma_update_entry(*self, i as int);
                }
                let e = &mut self.entries[i];
                Some(&mut e.1)
            },
            None => None,
        }
    }
}

impl<V> View for StrMap<V> {
    type V = Map<Seq<char>, V>;

    closed spec fn view(&self) -> Map<Seq<char>, V> {
        self.as_map()
    }
}

/// A finite set of strings.
#[derive(Debug)]
pub struct StrSet {
    items: Vec<String>,
}

impl StrSet {
    /// The members, in the order in which the set holds them.
    pub closed spec fn item_order(self) -> Seq<Seq<char>> {
        self.items@.map_values(|s: String| s@)
    }

    /// Well-formedness: no member occurs twice.
    pub closed spec fn wf(self) -> bool {
        self.item_order().no_duplicates()
    }

    /// The facts that relate the ordered members to the set they stand for.
    pub proof fn lemma_shape(&self)
        requires
            self.wf(),
        ensures
            self@ == self.item_order().to_set(),
            self@.finite(),
            self@.len() == self.item_order().len(),
    {
        self.item_order().unique_seq_to_set();
    }

    /// An empty set.
    pub fn new() -> (s: Self)
        ensures
            s.wf(),
            s@ == Set::<Seq<char>>::empty(),
            s.item_order() == Seq::<Seq<char>>::empty(),
    {
        let s = StrSet { items: Vec::new() };
        assert(s.item_order() =~= Seq::<Seq<char>>::empty());
        assert(s@ =~= Set::<Seq<char>>::empty());
        s
    }

    /// The position of `k` among the members, if it is one.
    fn find(&self, k: &str) -> (r: Option<usize>)
        ensures
            match r {
                Some(i) => i < self.item_order().len() && self.item_order()[i as int] == k@,
                None => !self.item_order().contains(k@),
            },
    {
        let mut i: usize = 0;
        while i < self.items.len()
            invariant
                i <= self.items@.len(),
                forall|j: int| 0 <= j < i ==> self.item_order()[j] != k@,
            decreases self.items@.len() - i,
        {
            if str_eq(self.items[i].as_str(), k) {
                return Some(i);
            }
            i = i + 1;
        }
        None
    }

    /// The number of members.
    pub fn len(&self) -> (n: usize)
        requires
            self.wf(),
        ensures
            n == self@.len(),
    {
        proof {
            self.lemma_shape();
        }
        self.items.len()
    }

    /// Whether the set has no member.
    pub fn is_empty(&self) -> (b: bool)
        requires
            self.wf(),
        ensures
            b == (self@.len() == 0),
    {
        proof {
            self.lemma_shape();
        }
        self.items.len() == 0
    }

    /// Whether `k` is a member.
    pub fn contains(&self, k: &str) -> (b: bool)
        ensures
            b == self@.contains(k@),
    {
        self.find(k).is_some()
    }

    /// The member at position `i` of `item_order`.
    pub fn item_at(&self, i: usize) -> (k: &String)
        requires
            i < self.item_order().len(),
        ensures
            k@ == self.item_order()[i as int],
    {
        &self.items[i]
    }

    /// The number of members, that is the length of `item_order`.
    pub fn item_count(&self) -> (n: usize)
        ensures
            n == self.item_order().len(),
    {
        self.items.len()
    }

    /// Adds `k`; answers whether it was not a member before.
    pub fn insert(&mut self, k: String) -> (added: bool)
        requires
            old(self).wf(),
        ensures
            final(self).wf(),
            final(self)@ == old(self)@.insert(k@),
            added == !old(self)@.contains(k@),
    {
        let ghost old_self = *self;
        match self.find(k.as_str()) {
            Some(_) => {
                proof {
                    assert(self@ =~= old_self@.insert(k@));
                }
                false
            },
            None => {
                let ghost kv = k@;
                self.items.push(k);
                proof {
                    assert(self.item_order() =~= old_self.item_order().push(kv));
                    assert(self.item_order().no_duplicates());
                    let n = old_self.item_order().len();
                    assert(self.item_order()[n as int] == kv);
                    assert forall|x: Seq<char>| #[trigger]
                        self@.contains(x) == old_self@.insert(kv).contains(x) by {
                        if self.item_order().contains(x) && x != kv {
                            let j = choose|j: int|
                                0 <= j < self.item_order().len() && self.item_order()[j] == x;
                            assert(old_self.item_order()[j] == x);
                        }
                        if old_self.item_order().contains(x) {
                            let j = choose|j: int|
                                0 <= j < old_self.item_order().len() && old_self.item_order()[j] == x;
                            assert(self.item_order()[j] == x);
                        }
                    }
                    assert(self@ =~= old_self@.insert(kv));
                }
                true
            },
        }
    }

    /// Removes `k`; answers whether it was a member.
    pub fn remove(&mut self, k: &str) -> (removed: bool)
        requires
            old(self).wf(),
        ensures
            final(self).wf(),
            final(self)@ == old(self)@.remove(k@),
            removed == old(self)@.contains(k@),
    {
        let ghost old_self = *self;
        match self.find(k) {
            Some(i) => {
                self.items.remove(i);
                proof {
                    assert(self.item_order() =~= old_self.item_order().remove(i as int));
                    assert(self.item_order().no_duplicates());
                    assert forall|x: Seq<char>| #[trigger]
                        old_self@.remove(k@).contains(x) implies self@.contains(x) by {
                        let j = choose|j: int|
                            0 <= j < old_self.item_order().len() && old_self.item_order()[j] == x;
                        if j < i {
                            assert(self.item_order()[j] == x);
                        } else {
                            assert(self.item_order()[j - 1] == x);
                        }
                    }
                    assert forall|x: Seq<char>| #[trigger] self@.contains(x) implies old_self@.remove(
                        k@,
                    ).contains(x) by {
                        let j = choose|j: int|
                            0 <= j < self.item_order().len() && self.item_order()[j] == x;
                        if j < i {
                            assert(old_self.item_order()[j] == x);
                        } else {
                            assert(old_self.item_order()[j + 1] == x);
                        }
                    }
                    assert(self@ =~= old_self@.remove(k@));
                }
                true
            },
            None => {
                proof {
                    assert(self@ =~= old_self@.remove(k@));
                }
                false
            },
        }
    }
}

impl View for StrSet {
    type V = Set<Seq<char>>;

    closed spec fn view(&self) -> Set<Seq<char>> {
        self.item_order().to_set()
    }
}

/// How many elements of `s` satisfy `p`.
pub open spec fn count_where<A>(s: Seq<A>, p: spec_fn(A) -> bool) -> nat {
    s.filter(p).len()
}

/// Counting over a sequence with one more element.
pub proof fn lemma_count_push<A>(s: Seq<A>, v: A, p: spec_fn(A) -> bool)
    ensures
        count_where(s.push(v), p) == count_where(s, p) + (if p(v) { 1nat } else { 0nat }),
{
    s.lemma_filter_push(v, p);
}

/// Counting over a sequence with the element at `i` replaced.
pub proof fn lemma_count_update<A>(s: Seq<A>, i: int, v: A, p: spec_fn(A) -> bool)
    requires
        0 <= i < s.len(),
    ensures
        count_where(s.update(i, v), p) == count_where(s, p) - (if p(s[i]) { 1int } else { 0int }) + (
        if p(v) { 1int } else { 0int }),
{
    let a = s.take(i);
    let b = s.skip(i + 1);
    assert(s =~= a + seq![s[i]] + b);
    assert(s.update(i, v) =~= a + seq![v] + b);
    Seq::filter_distributes_over_add(a + seq![s[i]], b, p);
    Seq::filter_distributes_over_add(a, seq![s[i]], p);
    Seq::filter_distributes_over_add(a + seq![v], b, p);
    Seq::filter_distributes_over_add(a, seq![v], p);
    reveal_with_fuel(Seq::filter, 2);
}

/// Counting over a sequence with the element at `i` taken out.
pub proof fn lemma_count_remove<A>(s: Seq<A>, i: int, p: spec_fn(A) -> bool)
    requires
        0 <= i < s.len(),
    ensures
        count_where(s.remove(i), p) == count_where(s, p) - (if p(s[i]) { 1int } else { 0int }),
{
    let a = s.take(i);
    let b = s.skip(i + 1);
    assert(s =~= a + seq![s[i]] + b);
    assert(s.remove(i) =~= a + b);
    Seq::filter_distributes_over_add(a + seq![s[i]], b, p);
    Seq::filter_distributes_over_add(a, seq![s[i]], p);
    Seq::filter_distributes_over_add(a, b, p);
    reveal_with_fuel(Seq::filter, 2);
}

/// Two sequences that agree, position by position, on which elements pass
/// their filters keep the same number of elements.
pub proof fn lemma_count_pointwise<A, B>(a: Seq<A>, b: Seq<B>, p: spec_fn(A) -> bool, q: spec_fn(B) -> bool)
    requires
        a.len() == b.len(),
        forall|i: int| 0 <= i < a.len() ==> p(#[trigger] a[i]) == q(b[i]),
    ensures
        count_where(a, p) == count_where(b, q),
    decreases a.len(),
{
    if a.len() > 0 {
        let a0 = a.drop_last();
        let b0 = b.drop_last();
        assert forall|i: int| 0 <= i < a0.len() implies p(#[trigger] a0[i]) == q(b0[i]) by {
            assert(a0[i] == a[i] && b0[i] == b[i]);
        }
        lemma_count_pointwise(a0, b0, p, q);
        assert(a == a0.push(a.last()));
        assert(b == b0.push(b.last()));
        a0.lemma_filter_push(a.last(), p);
        b0.lemma_filter_push(b.last(), q);
    }
}

/// Filtering keeps a sequence free of duplicates.
pub proof fn lemma_filter_no_duplicates<A>(s: Seq<A>, p: spec_fn(A) -> bool)
    requires
        s.no_duplicates(),
    ensures
        s.filter(p).no_duplicates(),
    decreases s.len(),
{
    if s.len() > 0 {
        let t = s.drop_last();
        let x = s.last();
        assert(s == t.push(x));
        assert(t.no_duplicates());
        lemma_filter_no_duplicates(t, p);
        t.lemma_filter_push(x, p);
        if t.filter(p).contains(x) {
            t.lemma_filter_contains_rev(p, x);
            let j = choose|j: int| 0 <= j < t.len() && t[j] == x;
            assert(s[j] == s[s.len() - 1]);
        }
    }
}

} // verus!
