//! A set that grows by joins: the lattice of values written at most once,
//! where two different writes show up as two members.

use vstd::prelude::*;
use std::cmp::Ordering;
use crate::lattice::{Lattice, OrderBot, lattice_le, lemma_meet_is_greatest_lower_bound};
use vstd::std_specs::cmp::{PartialEqSpecImpl, PartialOrdSpecImpl};

verus! {

/// A value that a `WriteOnce` can hold: copied and compared by its view.
pub trait Element: View + Clone + Sized {
    /// A copy with the same view.
    fn copy_element(&self) -> (r: Self)
        ensures
            r@ == self@,
    ;

    /// Whether two values have the same view.
    fn same_element(&self, other: &Self) -> (r: bool)
        ensures
            r == (self@ == other@),
    ;
}

impl Element for String {
    fn copy_element(&self) -> (r: String) {
        self.clone()
    }

    fn same_element(&self, other: &String) -> (r: bool) {
        *self == *other
    }
}

impl Element for u64 {
    fn copy_element(&self) -> (r: u64) {
        *self
    }

    fn same_element(&self, other: &u64) -> (r: bool) {
        *self == *other
    }
}

/// The views of the items of a sequence.
pub open spec fn item_views<T: View>(items: Seq<T>) -> Seq<T::V> {
    items.map_values(|x: T| x@)
}

/// A set of values; joining is union, meeting is intersection.
#[derive(Debug)]
pub struct WriteOnce<T: Element> {
    items: Vec<T>,
}

impl<T: Element> View for WriteOnce<T> {
    type V = Set<T::V>;

    closed spec fn view(&self) -> Set<T::V> {
        item_views(self.items@).to_set()
    }
}

impl<T: Element> WriteOnce<T> {
    /// No value occurs twice.
    #[verifier::type_invariant]
    closed spec fn distinct(self) -> bool {
        item_views(self.items@).no_duplicates()
    }

    /// The set holding the one value `val`.
    pub fn new(val: T) -> (r: Self)
        ensures
            r@ == Set::<T::V>::empty().insert(val@),
    {
        let mut items: Vec<T> = Vec::new();
        items.push(val);
        let r = WriteOnce { items };
        proof {
            assert(item_views(r.items@) =~= seq![val@]);
            assert forall|v: T::V| r@.contains(v) == Set::<T::V>::empty().insert(val@).contains(v) by {
                if v == val@ {
                    assert(item_views(r.items@)[0] == v);
                }
            }
            assert(r@ =~= Set::<T::V>::empty().insert(val@));
        }
        r
    }

    /// The empty set.
    pub fn empty() -> (r: Self)
        ensures
            r@ == Set::<T::V>::empty(),
    {
        let r = WriteOnce { items: Vec::new() };
        assert(r@ =~= Set::<T::V>::empty());
        r
    }

    /// Chooses a member of the set: some member, or `None` when it is empty.
    /// Which member is given is not promised when there are several. (The
    /// name `choose` is a word of Verus, so the operation is called `pick`.)
    pub fn pick(&self) -> (r: Option<T>)
        ensures
            r is None <==> self@.is_empty(),
            r matches Some(x) ==> self@.contains(x@),
    {
        if self.items.len() == 0 {
            proof {
                assert(self@ =~= Set::<T::V>::empty());
            }
            None
        } else {
            let x = self.items[0].copy_element();
            assert(item_views(self.items@)[0] == self.items@[0]@);
            assert(self@.contains(x@));
            Some(x)
        }
    }

    /// Whether the set has a member with the view of `x`.
    pub fn contains(&self, x: &T) -> (r: bool)
        ensures
            r == self@.contains(x@),
    {
        let mut i: usize = 0;
        while i < self.items.len()
            invariant
                i <= self.items@.len(),
                forall|j: int| 0 <= j < i ==> self.items@[j]@ != x@,
            decreases self.items.len() - i,
        {
            if self.items[i].same_element(x) {
                assert(item_views(self.items@)[i as int] == x@);
                return true;
            }
            i = i + 1;
        }
        proof {
            if item_views(self.items@).contains(x@) {
                let j = choose|j: int| 0 <= j < item_views(self.items@).len() && item_views(self.items@)[j] == x@;
                assert(self.items@[j]@ == x@);
            }
        }
        false
    }

    /// Adds the value `x` to the set, unless a member has its view already.
    pub fn insert(&mut self, x: T)
        ensures
            final(self)@ == old(self)@.insert(x@),
    {
        proof {
            use_type_invariant(&*self);
        }
        if !self.contains(&x) {
            let mut taken = WriteOnce::empty();
            std::mem::swap(self, &mut taken);
            let WriteOnce { items: mut items } = taken;
            let ghost prev = items@;
            items.push(x);
            proof {
                assert(item_views(items@) =~= item_views(prev).push(x@));
                assert(item_views(prev) == item_views(old(self).items@));
            }
            *self = WriteOnce { items };
            proof {
                assert(item_views(self.items@) =~= item_views(prev).push(x@));
                assert(self@ =~= old(self)@.insert(x@)) by {
                    assert forall|v: T::V| #[trigger] self@.contains(v) == old(self)@.insert(x@).contains(v) by {
                        if v == x@ {
                            assert(item_views(self.items@)[prev.len() as int] == v);
                        } else if old(self)@.contains(v) {
                            let j = choose|j: int| 0 <= j < item_views(prev).len() && item_views(prev)[j] == v;
                            assert(item_views(self.items@)[j] == v);
                        } else if self@.contains(v) {
                            let j = choose|j: int| 0 <= j < item_views(self.items@).len() && item_views(self.items@)[j] == v;
                            assert(item_views(prev)[j] == v);
                        }
                    }
                }
            }
        } else {
            assert(old(self)@.insert(x@) =~= old(self)@);
        }
    }

    /// The members of the set, each once.
    pub fn to_vec(&self) -> (r: Vec<T>)
        ensures
            item_views(r@).to_set() == self@,
            item_views(r@).no_duplicates(),
    {
        proof {
            use_type_invariant(self);
        }
        let c = self.clone();
        proof {
            use_type_invariant(&c);
        }
        let WriteOnce { items } = c;
        items
    }

    /// Whether the set is empty.
    pub fn is_empty(&self) -> (r: bool)
        ensures
            r == self@.is_empty(),
    {
        if self.items.len() == 0 {
            assert(self@ =~= Set::<T::V>::empty());
            true
        } else {
            assert(self@.contains(item_views(self.items@)[0]));
            false
        }
    }

    /// Whether every member of this set is a member of `other`.
    pub fn is_subset(&self, other: &Self) -> (r: bool)
        ensures
            r == self@.subset_of(other@),
    {
        let mut i: usize = 0;
        while i < self.items.len()
            invariant
                i <= self.items@.len(),
                forall|j: int| 0 <= j < i ==> other@.contains(#[trigger] self.items@[j]@),
            decreases self.items.len() - i,
        {
            if !other.contains(&self.items[i]) {
                assert(self@.contains(item_views(self.items@)[i as int]));
                return false;
            }
            i = i + 1;
        }
        proof {
            assert forall|v: T::V| self@.contains(v) implies other@.contains(v) by {
                let j = choose|j: int| 0 <= j < item_views(self.items@).len() && item_views(self.items@)[j] == v;
                assert(self.items@[j]@ == v);
            }
        }
        true
    }

}

impl<T: Element> Clone for WriteOnce<T> {
    /// A copy holding the same values.
    fn clone(&self) -> (r: Self)
        ensures
            r@ == self@,
    {
        proof {
            use_type_invariant(self);
        }
        let mut items: Vec<T> = Vec::new();
        let mut i: usize = 0;
        while i < self.items.len()
            invariant
                i <= self.items@.len(),
                items@.len() == i,
                item_views(items@) == item_views(self.items@).take(i as int),
            decreases self.items.len() - i,
        {
            let x = self.items[i].copy_element();
            let ghost prev = items@;
            items.push(x);
            proof {
                assert forall|j: int| 0 <= j < i + 1 implies #[trigger] item_views(items@)[j]
                    == item_views(self.items@).take(i + 1)[j] by {
                    assert(items@[j] == if j < i { prev[j] } else { x });
                    if j < i {
                        assert(item_views(prev)[j] == item_views(self.items@).take(i as int)[j]);
                        assert(item_views(prev)[j] == prev[j]@);
                    } else {
                        assert(x@ == self.items@[j]@);
                    }
                }
            }
            i = i + 1;
            assert(item_views(items@) =~= item_views(self.items@).take(i as int));
        }
        assert(item_views(self.items@).take(i as int) =~= item_views(self.items@));
        WriteOnce { items }
    }
}

impl<T: Element> WriteOnce<T> {
    /// The set of the views of the first `n` items.
    closed spec fn prefix_view(self, n: int) -> Set<T::V> {
        item_views(self.items@).take(n).to_set()
    }

    /// The number of items, and how the prefixes of the items make up the view.
    fn item_count(&self) -> (n: usize)
        ensures
            n == self.items@.len(),
            self.prefix_view(0) == Set::<T::V>::empty(),
            self.prefix_view(n as int) == self@,
    {
        assert(self.prefix_view(0) =~= Set::<T::V>::empty());
        assert(item_views(self.items@).take(self.items@.len() as int) =~= item_views(self.items@));
        self.items.len()
    }

    proof fn lemma_prefix_step(self, i: int)
        requires
            0 <= i < self.items@.len(),
        ensures
            self.prefix_view(i + 1) == self.prefix_view(i).insert(self.items@[i]@),
    {
        let s = item_views(self.items@);
        let t1 = s.take(i + 1);
        let t0 = s.take(i);
        assert(t1 =~= t0.push(self.items@[i]@));
        assert forall|v: T::V| #[trigger] self.prefix_view(i + 1).contains(v)
            == self.prefix_view(i).insert(self.items@[i]@).contains(v) by {
            if self.prefix_view(i + 1).contains(v) {
                let j = choose|j: int| 0 <= j < t1.len() && t1[j] == v;
                if j < i {
                    assert(t0[j] == v);
                }
            }
            if self.prefix_view(i).contains(v) {
                let j = choose|j: int| 0 <= j < t0.len() && t0[j] == v;
                assert(t1[j] == v);
            }
            if v == self.items@[i]@ {
                assert(t1[i] == v);
            }
        }
        assert(self.prefix_view(i + 1) =~= self.prefix_view(i).insert(self.items@[i]@));
    }
}

impl<T: Element> Lattice for WriteOnce<T> {
    open spec fn spec_join(a: Set<T::V>, b: Set<T::V>) -> Set<T::V> {
        a.union(b)
    }

    open spec fn spec_meet(a: Set<T::V>, b: Set<T::V>) -> Set<T::V> {
        a.intersect(b)
    }

    /// The union of the two sets.
    fn join(&self, other: &Self) -> (r: Self) {
        let mut r = self.clone();
        let n = other.item_count();
        let mut i: usize = 0;
        while i < n
            invariant
                n == other.items@.len(),
                i <= n,
                r@ == self@.union(other.prefix_view(i as int)),
                other.prefix_view(n as int) == other@,
            decreases n - i,
        {
            proof {
                other.lemma_prefix_step(i as int);
            }
            let x = other.items[i].copy_element();
            r.insert(x);
            i = i + 1;
            assert(r@ =~= self@.union(other.prefix_view(i as int)));
        }
        r
    }

    /// The intersection of the two sets.
    fn meet(&self, other: &Self) -> (r: Self) {
        let mut r = WriteOnce::empty();
        let n = self.item_count();
        let mut i: usize = 0;
        while i < n
            invariant
                n == self.items@.len(),
                i <= n,
                r@ == self.prefix_view(i as int).intersect(other@),
                self.prefix_view(n as int) == self@,
            decreases n - i,
        {
            proof {
                self.lemma_prefix_step(i as int);
            }
            if other.contains(&self.items[i]) {
                let x = self.items[i].copy_element();
                r.insert(x);
            }
            i = i + 1;
            assert(r@ =~= self.prefix_view(i as int).intersect(other@));
        }
        r
    }

    proof fn lemma_join_commutative(a: Set<T::V>, b: Set<T::V>) {
        assert(a.union(b) =~= b.union(a));
    }

    proof fn lemma_join_associative(a: Set<T::V>, b: Set<T::V>, c: Set<T::V>) {
        assert(a.union(b).union(c) =~= a.union(b.union(c)));
    }

    proof fn lemma_join_idempotent(a: Set<T::V>) {
        assert(a.union(a) =~= a);
    }

    proof fn lemma_meet_commutative(a: Set<T::V>, b: Set<T::V>) {
        assert(a.intersect(b) =~= b.intersect(a));
    }

    proof fn lemma_meet_associative(a: Set<T::V>, b: Set<T::V>, c: Set<T::V>) {
        assert(a.intersect(b).intersect(c) =~= a.intersect(b.intersect(c)));
    }

    proof fn lemma_join_absorbs_meet(a: Set<T::V>, b: Set<T::V>) {
        assert(a.union(a.intersect(b)) =~= a);
    }
}

impl<T: Element> OrderBot for WriteOnce<T> {
    open spec fn spec_bot() -> Set<T::V> {
        Set::empty()
    }

    /// The empty set.
    fn bot() -> (r: Self) {
        WriteOnce::empty()
    }

    fn is_bot(&self) -> (r: bool) {
        let r = self.is_empty();
        proof {
            if r {
                assert(self@ =~= Set::<T::V>::empty());
            }
        }
        r
    }

    proof fn lemma_bot_join(a: Set<T::V>) {
        assert(Set::<T::V>::empty().union(a) =~= a);
    }

    proof fn lemma_bot_meet(a: Set<T::V>) {
        assert(Set::<T::V>::empty().intersect(a) =~= Set::<T::V>::empty());
    }
}

impl<T: Element> Default for WriteOnce<T> {
    /// The empty set.
    fn default() -> (r: Self)
        ensures
            r@ == Set::<T::V>::empty(),
    {
        WriteOnce::empty()
    }
}

/// Meeting a set with itself gives it back.
pub proof fn lemma_write_once_meet_idempotent<T: Element>(a: Set<T::V>)
    ensures
        <WriteOnce<T> as Lattice>::spec_meet(a, a) == a,
{
    assert(a.intersect(a) =~= a);
}

/// Meeting a set with its join with another set gives it back.
pub proof fn lemma_write_once_meet_absorbs_join<T: Element>(a: Set<T::V>, b: Set<T::V>)
    ensures
        <WriteOnce<T> as Lattice>::spec_meet(a, <WriteOnce<T> as Lattice>::spec_join(a, b)) == a,
{
    assert(a.intersect(a.union(b)) =~= a);
}

/// The intersection of two sets is their greatest lower bound.
pub proof fn lemma_write_once_meet_is_greatest_lower_bound<T: Element>(a: Set<T::V>, b: Set<T::V>, c: Set<T::V>)
    ensures
        lattice_le::<WriteOnce<T>>(a.intersect(b), a),
        lattice_le::<WriteOnce<T>>(a.intersect(b), b),
        lattice_le::<WriteOnce<T>>(c, a) && lattice_le::<WriteOnce<T>>(c, b) ==> lattice_le::<WriteOnce<T>>(
            c,
            a.intersect(b),
        ),
{
    lemma_write_once_meet_absorbs_join::<T>(c, a);
    lemma_write_once_meet_absorbs_join::<T>(c, b);
    lemma_meet_is_greatest_lower_bound::<WriteOnce<T>>(a, b, c);
}

/// The inclusion order that `partial_cmp` reports is the order that `join`
/// induces: `a` compares `Less` or `Equal` to `b` exactly when joining them
/// gives `b`.
pub proof fn lemma_write_once_order_matches_join<T: Element>(a: Set<T::V>, b: Set<T::V>)
    ensures
        (set_order(a, b) == Some(Ordering::Less) || set_order(a, b) == Some(Ordering::Equal))
            <==> crate::lattice::lattice_le::<WriteOnce<T>>(a, b),
        set_order(a, b) == Some(Ordering::Greater) <==> set_order(b, a) == Some(Ordering::Less),
{
    if a.union(b) == b {
        assert forall|v: T::V| a.contains(v) implies b.contains(v) by {
            assert(a.union(b).contains(v));
        }
    }
    if a.subset_of(b) {
        assert(a.union(b) =~= b);
    }
    if a.subset_of(b) && b.subset_of(a) {
        assert(a =~= b);
    }
}

impl<T: Element> PartialEq for WriteOnce<T> {
    /// Whether the two sets have the same members.
    fn eq(&self, other: &Self) -> (r: bool) {
        let r = self.is_subset(other) && other.is_subset(self);
        proof {
            if r {
                assert(self@ =~= other@);
            }
        }
        r
    }
}

impl<T: Element> PartialEqSpecImpl for WriteOnce<T> {
    open spec fn obeys_eq_spec() -> bool {
        true
    }

    open spec fn eq_spec(&self, other: &Self) -> bool {
        self@ == other@
    }
}

impl<T: Element> PartialOrd for WriteOnce<T> {
    /// Compares two sets by inclusion: `Equal` for the same set, `Less` for a
    /// proper subset, `Greater` for a proper superset, `None` otherwise.
    fn partial_cmp(&self, other: &Self) -> (r: Option<Ordering>)
    {
        let le = self.is_subset(other);
        let ge = other.is_subset(self);
        if le && ge {
            assert(self@ =~= other@);
            Some(Ordering::Equal)
        } else if le {
            Some(Ordering::Less)
        } else if ge {
            Some(Ordering::Greater)
        } else {
            None
        }
    }
}

impl<T: Element> PartialOrdSpecImpl for WriteOnce<T> {
    open spec fn obeys_partial_cmp_spec() -> bool {
        true
    }

    open spec fn partial_cmp_spec(&self, other: &Self) -> Option<Ordering> {
        set_order(self@, other@)
    }
}

/// How two sets compare by inclusion.
pub open spec fn set_order<A>(a: Set<A>, b: Set<A>) -> Option<Ordering> {
    if a == b {
        Some(Ordering::Equal)
    } else if a.subset_of(b) {
        Some(Ordering::Less)
    } else if b.subset_of(a) {
        Some(Ordering::Greater)
    } else {
        None
    }
}

} // verus!
