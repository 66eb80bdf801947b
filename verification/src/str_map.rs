//! Maps and sets keyed by strings.
//!
//! Everything the orchestrator remembers is filed under a device id or a message id. `StrMap` is
//! that filing cabinet: at most one value per key, found by the characters of the key. Its view is
//! the mathematical map from characters to what the value stands for.

use vstd::prelude::*;

use crate::strings::same_str;
use crate::vecs;

verus! {

/// What a map holds under a key, if anything.
pub open spec fn lookup<V>(m: Map<Seq<char>, V>, k: Seq<char>) -> Option<V> {
    if m.contains_key(k) {
        Some(m[k])
    } else {
        None
    }
}

/// The map with the value under `k` replaced, or removed when there is none.
pub open spec fn store<V>(m: Map<Seq<char>, V>, k: Seq<char>, v: Option<V>) -> Map<Seq<char>, V> {
    match v {
        Some(v) => m.insert(k, v),
        None => m.remove(k),
    }
}

/// A list that names every key of a map exactly once.
pub open spec fn names_keys<V>(order: Seq<Seq<char>>, m: Map<Seq<char>, V>) -> bool {
    &&& order.no_duplicates()
    &&& forall|k: Seq<char>| #[trigger] order.contains(k) <==> m.contains_key(k)
}

/// A map from strings to values.
pub struct StrMap<V> {
    entries: Vec<(String, V)>,
}

impl<V> StrMap<V> {
    spec fn key(self, i: int) -> Seq<char> {
        self.entries@[i].0@
    }

    spec fn at(self, i: int, k: Seq<char>) -> bool {
        0 <= i < self.entries@.len() && self.key(i) == k
    }

    #[verifier::type_invariant]
    spec fn unique(self) -> bool {
        forall|i: int, j: int|
            0 <= i < self.entries@.len() && 0 <= j < self.entries@.len() && #[trigger] self.key(i)
                == #[trigger] self.key(j) ==> i == j
    }
}

impl<V: DeepView> View for StrMap<V> {
    type V = Map<Seq<char>, V::V>;

    closed spec fn view(&self) -> Map<Seq<char>, V::V> {
        Map::new(
            |k: Seq<char>| exists|i: int| self.at(i, k),
            |k: Seq<char>| self.entries@[choose|i: int| self.at(i, k)].1.deep_view(),
        )
    }
}

impl<V: DeepView> DeepView for StrMap<V> {
    type V = Map<Seq<char>, V::V>;

    open spec fn deep_view(&self) -> Map<Seq<char>, V::V> {
        self@
    }
}

impl<V: DeepView> StrMap<V> {
    proof fn lemma_at(self, i: int)
        requires
            self.unique(),
            0 <= i < self.entries@.len(),
        ensures
            self@.contains_key(self.key(i)),
            self@[self.key(i)] == self.entries@[i].1.deep_view(),
    {
        assert(self.at(i, self.key(i)));
    }

    proof fn lemma_absent(self, k: Seq<char>)
        requires
            forall|i: int| 0 <= i < self.entries@.len() ==> #[trigger] self.key(i) != k,
        ensures
            !self@.contains_key(k),
    {
        assert(forall|i: int| !self.at(i, k));
    }

    /// The empty map.
    pub fn new() -> (r: Self)
        ensures
            r@ == Map::<Seq<char>, V::V>::empty(),
    {
        let r = StrMap { entries: Vec::new() };
        proof {
            assert forall|k: Seq<char>| !r@.contains_key(k) by {
                r.lemma_absent(k);
            }
            assert(r@ =~= Map::<Seq<char>, V::V>::empty());
        }
        r
    }

    fn position(&self, k: &str) -> (r: Option<usize>)
        ensures
            match r {
                Some(i) => self.at(i as int, k@),
                None => forall|i: int| 0 <= i < self.entries@.len() ==> #[trigger] self.key(i)
                    != k@,
            },
    {
        let mut i: usize = 0;
        while i < self.entries.len()
            invariant
                i <= self.entries@.len(),
                forall|j: int| 0 <= j < i ==> #[trigger] self.key(j) != k@,
            decreases self.entries@.len() - i,
        {
            if same_str(self.entries[i].0.as_str(), k) {
                assert(self.key(i as int) == k@);
                return Some(i);
            }
            assert(self.key(i as int) != k@);
            i = i + 1;
        }
        None
    }

    /// Whether there is a value under `k`.
    pub fn contains_key(&self, k: &str) -> (r: bool)
        ensures
            r == self@.contains_key(k@),
    {
        proof {
            use_type_invariant(self);
        }
        match self.position(k) {
            Some(i) => {
                proof {
                    self.lemma_at(i as int);
                }
                true
            },
            None => {
                proof {
                    self.lemma_absent(k@);
                }
                false
            },
        }
    }

    /// The value under `k`.
    pub fn get(&self, k: &str) -> (r: Option<&V>)
        ensures
            r.deep_view() == lookup(self@, k@),
    {
        proof {
            use_type_invariant(self);
        }
        match self.position(k) {
            Some(i) => {
                proof {
                    self.lemma_at(i as int);
                }
                Some(&self.entries[i].1)
            },
            None => {
                proof {
                    self.lemma_absent(k@);
                }
                None
            },
        }
    }

    /// Puts `v` under `k`, in place of what was there.
    pub fn insert(&mut self, k: String, v: V)
        ensures
            final(self)@ == old(self)@.insert(k@, v.deep_view()),
    {
        proof {
            use_type_invariant(&*self);
        }
        let mut entries: Vec<(String, V)> = Vec::new();
        let ghost before = *self;
        match self.position(k.as_str()) {
            Some(i) => {
                std::mem::swap(&mut entries, &mut self.entries);
                entries.set(i, (k, v));
                proof {
                    let after = StrMap { entries };
                    assert forall|a: int, b: int|
                        0 <= a < after.entries@.len() && 0 <= b < after.entries@.len()
                            && #[trigger] after.key(a) == #[trigger] after.key(b) implies a == b by {
                        assert(after.key(a) == before.key(a));
                        assert(after.key(b) == before.key(b));
                    }
                    assert(after.unique());
                    Self::lemma_insert(before, after, k@, v.deep_view(), i as int);
                }
                self.entries = entries;
            },
            None => {
                std::mem::swap(&mut entries, &mut self.entries);
                let ghost n = entries@.len() as int;
                entries.push((k, v));
                proof {
                    let after = StrMap { entries };
                    assert forall|a: int, b: int|
                        0 <= a < after.entries@.len() && 0 <= b < after.entries@.len()
                            && #[trigger] after.key(a) == #[trigger] after.key(b) implies a == b by {
                        if a < n {
                            assert(after.key(a) == before.key(a));
                        }
                        if b < n {
                            assert(after.key(b) == before.key(b));
                        }
                    }
                    assert(after.unique());
                    Self::lemma_insert(before, after, k@, v.deep_view(), n);
                }
                self.entries = entries;
            },
        }
    }

    proof fn lemma_insert(before: Self, after: Self, k: Seq<char>, v: V::V, at: int)
        requires
            before.unique(),
            after.unique(),
            after.at(at, k),
            after.entries@[at].1.deep_view() == v,
            forall|i: int|
                0 <= i < before.entries@.len() && i != at ==> i < after.entries@.len()
                    && #[trigger] after.entries@[i] == before.entries@[i],
            after.entries@.len() == before.entries@.len() || (after.entries@.len()
                == before.entries@.len() + 1 && at == before.entries@.len()),
            at < before.entries@.len() ==> before.key(at) == k,
        ensures
            after@ == before@.insert(k, v),
    {
        after.lemma_at(at);
        assert forall|q: Seq<char>| after@.contains_key(q) == before@.insert(
            k,
            v,
        ).contains_key(q) by {
            if q != k {
                if after@.contains_key(q) {
                    let i = choose|i: int| after.at(i, q);
                    assert(before.at(i, q));
                }
                if before@.contains_key(q) {
                    let i = choose|i: int| before.at(i, q);
                    assert(after.at(i, q));
                }
            }
        }
        assert forall|q: Seq<char>| after@.contains_key(q) implies after@[q] == before@.insert(
            k,
            v,
        )[q] by {
            if q != k {
                let i = choose|i: int| after.at(i, q);
                after.lemma_at(i);
                before.lemma_at(i);
            }
        }
        assert(after@ =~= before@.insert(k, v));
    }

    /// Takes out what is under `k`.
    pub fn remove(&mut self, k: &str) -> (r: Option<V>)
        ensures
            final(self)@ == old(self)@.remove(k@),
            r.deep_view() == lookup(old(self)@, k@),
    {
        proof {
            use_type_invariant(&*self);
        }
        let ghost before = *self;
        match self.position(k) {
            Some(i) => {
                let mut entries: Vec<(String, V)> = Vec::new();
                std::mem::swap(&mut entries, &mut self.entries);
                let e = entries.remove(i);
                proof {
                    let after = StrMap { entries };
                    assert forall|a: int, b: int|
                        0 <= a < after.entries@.len() && 0 <= b < after.entries@.len()
                            && #[trigger] after.key(a) == #[trigger] after.key(b) implies a == b by {
                        let a0 = if a < i { a } else { a + 1 };
                        let b0 = if b < i { b } else { b + 1 };
                        assert(after.key(a) == before.key(a0));
                        assert(after.key(b) == before.key(b0));
                    }
                    assert(after.unique());
                    before.lemma_at(i as int);
                    assert forall|q: Seq<char>| after@.contains_key(q) == before@.remove(
                        k@,
                    ).contains_key(q) by {
                        if after@.contains_key(q) {
                            let a = choose|a: int| after.at(a, q);
                            let a0 = if a < i { a } else { a + 1 };
                            assert(before.at(a0, q));
                            assert(before.key(a0) != before.key(i as int));
                        }
                        if before@.contains_key(q) && q != k@ {
                            let a = choose|a: int| before.at(a, q);
                            let a1 = if a < i { a } else { a - 1 };
                            assert(after.at(a1, q));
                        }
                    }
                    assert forall|q: Seq<char>| after@.contains_key(q) implies after@[q]
                        == before@.remove(k@)[q] by {
                        let a = choose|a: int| after.at(a, q);
                        let a0 = if a < i { a } else { a + 1 };
                        after.lemma_at(a);
                        before.lemma_at(a0);
                    }
                    assert(after@ =~= before@.remove(k@));
                }
                self.entries = entries;
                Some(e.1)
            },
            None => {
                proof {
                    self.lemma_absent(k@);
                    assert(self@.remove(k@) =~= self@);
                }
                None
            },
        }
    }

    /// Every key, once.
    pub fn keys(&self) -> (r: Vec<String>)
        ensures
            names_keys(r.deep_view(), self@),
    {
        proof {
            use_type_invariant(self);
        }
        let mut out: Vec<String> = vecs::none();
        let mut i: usize = 0;
        while i < self.entries.len()
            invariant
                i <= self.entries@.len(),
                out.deep_view().len() == i,
                forall|j: int| 0 <= j < i ==> #[trigger] out.deep_view()[j] == self.key(j),
            decreases self.entries@.len() - i,
        {
            vecs::push(&mut out, self.entries[i].0.clone());
            i = i + 1;
        }
        proof {
            let d = out.deep_view();
            assert forall|a: int, b: int| 0 <= a < d.len() && 0 <= b < d.len() && a != b implies d[a]
                != d[b] by {
                assert(d[a] == self.key(a));
                assert(d[b] == self.key(b));
            }
            assert forall|k: Seq<char>| #[trigger] d.contains(k) <==> self@.contains_key(k) by {
                if d.contains(k) {
                    let a = choose|a: int| 0 <= a < d.len() && d[a] == k;
                    self.lemma_at(a);
                    assert(d[a] == self.key(a));
                }
                if self@.contains_key(k) {
                    let a = choose|a: int| self.at(a, k);
                    assert(d[a] == k);
                }
            }
        }
        out
    }

    /// How many keys the map holds.
    pub fn len(&self) -> (r: usize)
        ensures
            r == self@.dom().len(),
            self@.dom().finite(),
    {
        proof {
            use_type_invariant(self);
            let ks = Seq::new(self.entries@.len(), |i: int| self.key(i));
            assert(ks.no_duplicates());
            ks.unique_seq_to_set();
            vstd::seq_lib::seq_to_set_is_finite(ks);
            assert forall|k: Seq<char>| ks.to_set().contains(k) <==> self@.dom().contains(k) by {
                if ks.contains(k) {
                    let i = choose|i: int| 0 <= i < ks.len() && ks[i] == k;
                    self.lemma_at(i);
                }
                if self@.contains_key(k) {
                    let i = choose|i: int| self.at(i, k);
                    assert(ks[i] == k);
                }
            }
            assert(ks.to_set() =~= self@.dom());
        }
        self.entries.len()
    }
}

/// A set of strings.
pub struct StrSet {
    items: StrMap<bool>,
}

impl View for StrSet {
    type V = Set<Seq<char>>;

    closed spec fn view(&self) -> Set<Seq<char>> {
        self.items@.dom()
    }
}

impl StrSet {
    /// The empty set.
    pub fn new() -> (r: Self)
        ensures
            r@ == Set::<Seq<char>>::empty(),
    {
        let r = StrSet { items: StrMap::new() };
        assert(r@ =~= Set::<Seq<char>>::empty());
        r
    }

    /// Whether `s` is in the set.
    pub fn contains(&self, s: &str) -> (r: bool)
        ensures
            r == self@.contains(s@),
    {
        self.items.contains_key(s)
    }

    /// Puts `s` in the set.
    pub fn insert(&mut self, s: String)
        ensures
            final(self)@ == old(self)@.insert(s@),
    {
        self.items.insert(s, true);
        assert(self@ =~= old(self)@.insert(s@));
    }

    /// Takes `s` out of the set.
    pub fn remove(&mut self, s: &str)
        ensures
            final(self)@ == old(self)@.remove(s@),
    {
        let _ = self.items.remove(s);
        assert(self@ =~= old(self)@.remove(s@));
    }
}

/// What is stored is found, what is taken away is not, and no other key is touched; and a listing of
/// the keys names each of them once and nothing else.
pub proof fn what_is_stored_is_found<V>(
    m: Map<Seq<char>, V>,
    k: Seq<char>,
    v: V,
    other: Seq<char>,
    order: Seq<Seq<char>>,
)
    requires
        names_keys(order, m),
    ensures
        lookup(m, k) is Some <==> m.contains_key(k),
        lookup(m, k) matches Some(x) ==> x == m[k],
        lookup(store(m, k, Some(v)), k) == Some(v),
        lookup(store(m, k, None), k) is None,
        other != k ==> lookup(store(m, k, Some(v)), other) == lookup(m, other) && lookup(
            store(m, k, None),
            other,
        ) == lookup(m, other),
        order.contains(k) <==> m.contains_key(k),
        order.no_duplicates(),
{
}

} // verus!
