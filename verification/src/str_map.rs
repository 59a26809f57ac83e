//! A finite map keyed by strings, with at most one entry per key.

use vstd::prelude::*;
use vstd::std_specs::cmp::PartialEqSpecImpl;
use crate::write_once::Element;

verus! {

/// A map from strings to values, viewed as a mathematical map from the
/// keys' character sequences to the values' views.
pub struct StrMap<V: View> {
    entries: Vec<(String, V)>,
    model: Ghost<Map<Seq<char>, V::V>>,
}

impl<V: View> View for StrMap<V> {
    type V = Map<Seq<char>, V::V>;

    closed spec fn view(&self) -> Map<Seq<char>, V::V> {
        self.model@
    }
}

/// Each key occurs in one entry, and the entries are those of the map.
spec fn entries_match<V: View>(entries: Seq<(String, V)>, model: Map<Seq<char>, V::V>) -> bool {
    &&& forall|i: int, j: int|
        0 <= i < entries.len() && 0 <= j < entries.len() && i != j
            ==> #[trigger] entries[i].0@ != #[trigger] entries[j].0@
    &&& forall|i: int|
        0 <= i < entries.len() ==> model.contains_key(#[trigger] entries[i].0@)
            && model[entries[i].0@] == entries[i].1@
    &&& forall|k: Seq<char>|
        #[trigger] model.contains_key(k) ==> exists|i: int|
            0 <= i < entries.len() && #[trigger] entries[i].0@ == k
}

impl<V: View> StrMap<V> {
    /// Each key occurs in one entry, and the entries are the model's.
    #[verifier::type_invariant]
    closed spec fn consistent(self) -> bool {
        entries_match(self.entries@, self.model@)
    }

    /// The keys, in the order in which the entries are stored.
    pub closed spec fn keys(self) -> Seq<Seq<char>> {
        self.entries@.map_values(|e: (String, V)| e.0@)
    }

    /// The empty map.
    pub fn new() -> (r: Self)
        ensures
            r@ == Map::<Seq<char>, V::V>::empty(),
    {
        StrMap { entries: Vec::new(), model: Ghost(Map::empty()) }
    }

    /// The number of entries, and how the keys make up the map's domain.
    pub fn len(&self) -> (n: usize)
        ensures
            n == self.keys().len(),
            self.keys().no_duplicates(),
            forall|k: Seq<char>| #[trigger] self@.contains_key(k) <==> self.keys().contains(k),
            self@.dom() == self.keys().to_set(),
            self@.dom().finite(),
            self@.dom().len() == n,
    {
        proof {
            use_type_invariant(self);
            let ks = self.keys();
            assert forall|k: Seq<char>| #[trigger] self@.contains_key(k) <==> ks.contains(k) by {
                if self@.contains_key(k) {
                    let i = choose|i: int| 0 <= i < self.entries@.len() && #[trigger] self.entries@[i].0@ == k;
                    assert(ks[i] == k);
                }
                if ks.contains(k) {
                    let i = choose|i: int| 0 <= i < ks.len() && ks[i] == k;
                    assert(self.entries@[i].0@ == k);
                }
            }
            assert forall|i: int, j: int| 0 <= i < ks.len() && 0 <= j < ks.len() && i != j
                implies ks[i] != ks[j] by {
                assert(self.entries@[i].0@ != self.entries@[j].0@);
            }
            assert(self@.dom() =~= ks.to_set());
            ks.unique_seq_to_set();
        }
        self.entries.len()
    }

    /// The key of the `i`th entry.
    pub fn key_at(&self, i: usize) -> (k: &String)
        requires
            i < self.keys().len(),
        ensures
            k@ == self.keys()[i as int],
    {
        &self.entries[i].0
    }

    /// The value of the `i`th entry.
    pub fn value_at(&self, i: usize) -> (v: &V)
        requires
            i < self.keys().len(),
        ensures
            self@.contains_key(self.keys()[i as int]),
            v@ == self@[self.keys()[i as int]],
    {
        proof {
            use_type_invariant(self);
        }
        &self.entries[i].1
    }

    /// The index of the entry with key `k`, if there is one.
    fn find(&self, k: &String) -> (r: Option<usize>)
        ensures
            match r {
                Some(i) => i < self.entries@.len() && self.entries@[i as int].0@ == k@,
                None => !self@.contains_key(k@),
            },
    {
        proof {
            use_type_invariant(self);
        }
        let mut i: usize = 0;
        while i < self.entries.len()
            invariant
                i <= self.entries@.len(),
                forall|j: int| 0 <= j < i ==> #[trigger] self.entries@[j].0@ != k@,
            decreases self.entries.len() - i,
        {
            if self.entries[i].0 == *k {
                return Some(i);
            }
            i = i + 1;
        }
        None
    }

    /// Whether the map has an entry with key `k`.
    pub fn contains_key(&self, k: &String) -> (r: bool)
        ensures
            r == self@.contains_key(k@),
    {
        proof {
            use_type_invariant(self);
        }
        match self.find(k) {
            Some(i) => true,
            None => false,
        }
    }

    /// The value under key `k`, if there is one.
    pub fn get(&self, k: &String) -> (r: Option<&V>)
        ensures
            match r {
                Some(v) => self@.contains_key(k@) && v@ == self@[k@],
                None => !self@.contains_key(k@),
            },
    {
        proof {
            use_type_invariant(self);
        }
        match self.find(k) {
            Some(i) => Some(&self.entries[i].1),
            None => None,
        }
    }

    /// Puts `v` under key `k`, in place of the value there was.
    pub fn insert(&mut self, k: String, v: V)
        ensures
            final(self)@ == old(self)@.insert(k@, v@),
    {
        proof {
            use_type_invariant(&*self);
        }
        let found = self.find(&k);
        let mut taken = StrMap::new();
        std::mem::swap(self, &mut taken);
        let StrMap { entries: mut entries, model: Ghost(model) } = taken;
        let ghost prev = entries@;
        let ghost kv = k@;
        let ghost vv = v@;
        match found {
            Some(i) => {
                entries.set(i, (k, v));
                proof {
                    assert forall|j: int| 0 <= j < entries@.len() && j != i implies entries@[j] == prev[j] by {}
                }
            },
            None => {
                entries.push((k, v));
            },
        }
        let ghost new_model = model.insert(kv, vv);
        proof {
            assert(prev == old(self).entries@);
            assert(model == old(self).model@);
            assert forall|a: int, b: int|
                0 <= a < entries@.len() && 0 <= b < entries@.len() && a != b
                    implies #[trigger] entries@[a].0@ != #[trigger] entries@[b].0@ by {
                match found {
                    Some(i) => {
                        if a != i && b != i {
                            assert(prev[a].0@ != prev[b].0@);
                        } else if a == i {
                            assert(prev[b].0@ != prev[i as int].0@);
                        } else {
                            assert(prev[a].0@ != prev[i as int].0@);
                        }
                    },
                    None => {
                        if a < prev.len() && b < prev.len() {
                            assert(prev[a].0@ != prev[b].0@);
                        } else if a < prev.len() {
                            assert(model.contains_key(prev[a].0@));
                        } else {
                            assert(model.contains_key(prev[b].0@));
                        }
                    },
                }
            }
            assert forall|j: int| 0 <= j < entries@.len() implies new_model.contains_key(
                #[trigger] entries@[j].0@,
            ) && new_model[entries@[j].0@] == entries@[j].1@ by {
                if j < prev.len() && entries@[j] == prev[j] {
                    assert(model.contains_key(prev[j].0@));
                }
            }
            assert forall|kk: Seq<char>| #[trigger] new_model.contains_key(kk) implies exists|j: int|
                0 <= j < entries@.len() && #[trigger] entries@[j].0@ == kk by {
                if kk == kv {
                    match found {
                        Some(i) => { assert(entries@[i as int].0@ == kk); },
                        None => { assert(entries@[prev.len() as int].0@ == kk); },
                    }
                } else {
                    let j = choose|j: int| 0 <= j < prev.len() && #[trigger] prev[j].0@ == kk;
                    assert(entries@[j] == prev[j]);
                }
            }
        }
        assert(entries_match(entries@, new_model));
        let r = StrMap { entries, model: Ghost(new_model) };
        *self = r;
    }
}

/// A value that can be copied with the same view.
pub trait Duplicate: View + Sized {
    /// A copy with the same view.
    fn duplicate(&self) -> (r: Self)
        ensures
            r@ == self@,
    ;
}

impl Duplicate for String {
    fn duplicate(&self) -> (r: String) {
        self.clone()
    }
}

impl<V: Duplicate> Clone for StrMap<V> {
    /// A copy with the same entries.
    fn clone(&self) -> (r: Self)
        ensures
            r@ == self@,
    {
        proof {
            use_type_invariant(self);
        }
        let mut entries: Vec<(String, V)> = Vec::new();
        let mut i: usize = 0;
        while i < self.entries.len()
            invariant
                i <= self.entries@.len(),
                entries@.len() == i,
                forall|j: int| 0 <= j < i ==> #[trigger] entries@[j].0@ == self.entries@[j].0@ && entries@[j].1@
                    == self.entries@[j].1@,
            decreases self.entries.len() - i,
        {
            let k = self.entries[i].0.clone();
            let v = self.entries[i].1.duplicate();
            entries.push((k, v));
            i = i + 1;
        }
        proof {
            let e = entries@;
            let o = self.entries@;
            assert forall|a: int, b: int| 0 <= a < e.len() && 0 <= b < e.len() && a != b
                implies #[trigger] e[a].0@ != #[trigger] e[b].0@ by {
                assert(o[a].0@ != o[b].0@);
            }
            assert forall|a: int| 0 <= a < e.len() implies self.model@.contains_key(#[trigger] e[a].0@)
                && self.model@[e[a].0@] == e[a].1@ by {
                assert(self.model@.contains_key(o[a].0@));
            }
            assert forall|k: Seq<char>| #[trigger] self.model@.contains_key(k) implies exists|a: int|
                0 <= a < e.len() && #[trigger] e[a].0@ == k by {
                let a = choose|a: int| 0 <= a < o.len() && #[trigger] o[a].0@ == k;
                assert(e[a].0@ == k);
            }
        }
        StrMap { entries, model: Ghost(self.model@) }
    }
}

impl<V: Element> PartialEq for StrMap<V> {
    /// Whether the two maps have the same keys, with the same value under
    /// each.
    fn eq(&self, other: &Self) -> (r: bool) {
        let n = self.len();
        let m = other.len();
        if n != m {
            return false;
        }
        let mut i: usize = 0;
        while i < n
            invariant
                n == self.keys().len(),
                forall|k: Seq<char>| #[trigger] self@.contains_key(k) <==> self.keys().contains(k),
                i <= n,
                forall|k: Seq<char>| #[trigger] self.keys().take(i as int).contains(k) ==> other@.contains_key(k)
                    && other@[k] == self@[k],
            decreases n - i,
        {
            let k = self.key_at(i);
            let v = self.value_at(i);
            proof {
                crate::map_lattice::lemma_take_one_more(self.keys(), i as int);
            }
            match other.get(k) {
                None => {
                    return false;
                },
                Some(w) => {
                    if !v.same_element(w) {
                        return false;
                    }
                },
            }
            i = i + 1;
        }
        proof {
            assert(self.keys().take(n as int) =~= self.keys());
            assert(self@.dom().subset_of(other@.dom()));
            vstd::set_lib::lemma_subset_equality(self@.dom(), other@.dom());
            assert(self@ =~= other@);
        }
        true
    }
}

impl<V: Element> PartialEqSpecImpl for StrMap<V> {
    open spec fn obeys_eq_spec() -> bool {
        true
    }

    open spec fn eq_spec(&self, other: &Self) -> bool {
        self@ == other@
    }
}

} // verus!
