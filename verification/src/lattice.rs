//! The algebra that state convergence rests on: join-semilattices with a
//! bottom element.

use vstd::prelude::*;

verus! {

/// A lattice whose operations are stated over the type's view.
///
/// `join` is the least upper bound and `meet` the greatest lower bound of
/// two states. Every implementation proves the lattice laws below; that
/// `meet` is the greatest lower bound is proved for each type below its
/// impl (for `Facts`, in the order that compares id by id).
pub trait Lattice: View + Sized {
    /// What `join` computes, over views.
    spec fn spec_join(a: Self::V, b: Self::V) -> Self::V;

    /// What `meet` computes, over views.
    spec fn spec_meet(a: Self::V, b: Self::V) -> Self::V;

    /// Computes the least upper bound of two states.
    fn join(&self, other: &Self) -> (r: Self)
        ensures
            r@ == Self::spec_join(self@, other@),
    ;

    /// Computes the greatest lower bound of two states.
    fn meet(&self, other: &Self) -> (r: Self)
        ensures
            r@ == Self::spec_meet(self@, other@),
    ;

    /// Joining is commutative.
    proof fn lemma_join_commutative(a: Self::V, b: Self::V)
        ensures
            Self::spec_join(a, b) == Self::spec_join(b, a),
    ;

    /// Joining is associative.
    proof fn lemma_join_associative(a: Self::V, b: Self::V, c: Self::V)
        ensures
            Self::spec_join(Self::spec_join(a, b), c) == Self::spec_join(a, Self::spec_join(b, c)),
    ;

    /// Joining a state with itself gives it back.
    proof fn lemma_join_idempotent(a: Self::V)
        ensures
            Self::spec_join(a, a) == a,
    ;

    /// Meeting is commutative.
    proof fn lemma_meet_commutative(a: Self::V, b: Self::V)
        ensures
            Self::spec_meet(a, b) == Self::spec_meet(b, a),
    ;

    /// Meeting is associative.
    proof fn lemma_meet_associative(a: Self::V, b: Self::V, c: Self::V)
        ensures
            Self::spec_meet(Self::spec_meet(a, b), c) == Self::spec_meet(a, Self::spec_meet(b, c)),
    ;

    /// Joining a state with its meet with another state gives it back.
    proof fn lemma_join_absorbs_meet(a: Self::V, b: Self::V)
        ensures
            Self::spec_join(a, Self::spec_meet(a, b)) == a,
    ;
}

/// A lattice with a least element.
pub trait OrderBot: Lattice {
    /// The bottom element, over views.
    spec fn spec_bot() -> Self::V;

    /// The bottom element of the lattice.
    fn bot() -> (r: Self)
        ensures
            r@ == Self::spec_bot(),
    ;

    /// Whether this state is the bottom element.
    fn is_bot(&self) -> (r: bool)
        ensures
            r == (self@ == Self::spec_bot()),
    ;

    /// The bottom element is neutral for `join`.
    proof fn lemma_bot_join(a: Self::V)
        ensures
            Self::spec_join(Self::spec_bot(), a) == a,
    ;

    /// The bottom element absorbs `meet`.
    proof fn lemma_bot_meet(a: Self::V)
        ensures
            Self::spec_meet(Self::spec_bot(), a) == Self::spec_bot(),
    ;
}

/// The order that `join` induces: `a` lies below `b` when joining them gives `b`.
pub open spec fn lattice_le<L: Lattice>(a: L::V, b: L::V) -> bool {
    L::spec_join(a, b) == b
}

/// `join` is an upper bound of both arguments and lies below every common
/// upper bound: it is the least upper bound in the order that `join` induces.
pub proof fn lemma_join_is_least_upper_bound<L: Lattice>(a: L::V, b: L::V, c: L::V)
    ensures
        lattice_le::<L>(a, L::spec_join(a, b)),
        lattice_le::<L>(b, L::spec_join(a, b)),
        lattice_le::<L>(a, c) && lattice_le::<L>(b, c) ==> lattice_le::<L>(L::spec_join(a, b), c),
{
    L::lemma_join_associative(a, a, b);
    L::lemma_join_idempotent(a);
    L::lemma_join_commutative(a, b);
    L::lemma_join_associative(b, b, a);
    L::lemma_join_idempotent(b);
    L::lemma_join_associative(a, b, c);
}

/// `meet` is a lower bound of both arguments, and lies above every common
/// lower bound `c` for which meeting with a join gives `c` back.
pub proof fn lemma_meet_is_greatest_lower_bound<L: Lattice>(a: L::V, b: L::V, c: L::V)
    requires
        L::spec_meet(c, L::spec_join(c, a)) == c,
        L::spec_meet(c, L::spec_join(c, b)) == c,
    ensures
        lattice_le::<L>(L::spec_meet(a, b), a),
        lattice_le::<L>(L::spec_meet(a, b), b),
        lattice_le::<L>(c, a) && lattice_le::<L>(c, b) ==> lattice_le::<L>(c, L::spec_meet(a, b)),
{
    let m = L::spec_meet(a, b);
    L::lemma_join_commutative(m, a);
    L::lemma_join_absorbs_meet(a, b);
    L::lemma_meet_commutative(a, b);
    L::lemma_join_commutative(m, b);
    L::lemma_join_absorbs_meet(b, a);
    if lattice_le::<L>(c, a) && lattice_le::<L>(c, b) {
        L::lemma_meet_associative(c, a, b);
        L::lemma_meet_commutative(m, c);
        L::lemma_join_commutative(c, m);
        L::lemma_join_absorbs_meet(m, c);
    }
}

/// Meeting a number with its join with another gives it back.
pub proof fn lemma_u64_meet_absorbs_join(a: u64, b: u64)
    ensures
        <u64 as Lattice>::spec_meet(a, <u64 as Lattice>::spec_join(a, b)) == a,
{
}

/// Meeting a boolean with its join with another gives it back.
pub proof fn lemma_bool_meet_absorbs_join(a: bool, b: bool)
    ensures
        <bool as Lattice>::spec_meet(a, <bool as Lattice>::spec_join(a, b)) == a,
{
}

/// The minimum of two numbers is their greatest lower bound.
pub proof fn lemma_u64_meet_is_greatest_lower_bound(a: u64, b: u64, c: u64)
    ensures
        lattice_le::<u64>(<u64 as Lattice>::spec_meet(a, b), a),
        lattice_le::<u64>(<u64 as Lattice>::spec_meet(a, b), b),
        lattice_le::<u64>(c, a) && lattice_le::<u64>(c, b) ==> lattice_le::<u64>(
            c,
            <u64 as Lattice>::spec_meet(a, b),
        ),
{
    lemma_meet_is_greatest_lower_bound::<u64>(a, b, c);
}

/// The conjunction of two booleans is their greatest lower bound.
pub proof fn lemma_bool_meet_is_greatest_lower_bound(a: bool, b: bool, c: bool)
    ensures
        lattice_le::<bool>(<bool as Lattice>::spec_meet(a, b), a),
        lattice_le::<bool>(<bool as Lattice>::spec_meet(a, b), b),
        lattice_le::<bool>(c, a) && lattice_le::<bool>(c, b) ==> lattice_le::<bool>(
            c,
            <bool as Lattice>::spec_meet(a, b),
        ),
{
    lemma_meet_is_greatest_lower_bound::<bool>(a, b, c);
}

/// The induced order is reflexive, antisymmetric and transitive.
pub proof fn lemma_lattice_le_is_partial_order<L: Lattice>(a: L::V, b: L::V, c: L::V)
    ensures
        lattice_le::<L>(a, a),
        lattice_le::<L>(a, b) && lattice_le::<L>(b, a) ==> a == b,
        lattice_le::<L>(a, b) && lattice_le::<L>(b, c) ==> lattice_le::<L>(a, c),
{
    L::lemma_join_idempotent(a);
    L::lemma_join_commutative(a, b);
    L::lemma_join_associative(a, b, c);
}

/// The bottom element lies below every state.
pub proof fn lemma_bot_is_least<L: OrderBot>(a: L::V)
    ensures
        lattice_le::<L>(L::spec_bot(), a),
{
    L::lemma_bot_join(a);
}

impl Lattice for u64 {
    open spec fn spec_join(a: u64, b: u64) -> u64 {
        if a >= b { a } else { b }
    }

    open spec fn spec_meet(a: u64, b: u64) -> u64 {
        if a <= b { a } else { b }
    }

    fn join(&self, other: &u64) -> (r: u64) {
        if *self >= *other { *self } else { *other }
    }

    fn meet(&self, other: &u64) -> (r: u64) {
        if *self <= *other { *self } else { *other }
    }

    proof fn lemma_join_commutative(a: u64, b: u64) {}

    proof fn lemma_join_associative(a: u64, b: u64, c: u64) {}

    proof fn lemma_join_idempotent(a: u64) {}

    proof fn lemma_meet_commutative(a: u64, b: u64) {}

    proof fn lemma_meet_associative(a: u64, b: u64, c: u64) {}

    proof fn lemma_join_absorbs_meet(a: u64, b: u64) {}
}

impl OrderBot for u64 {
    open spec fn spec_bot() -> u64 {
        0
    }

    fn bot() -> (r: u64) {
        0
    }

    fn is_bot(&self) -> (r: bool) {
        *self == 0
    }

    proof fn lemma_bot_join(a: u64) {}

    proof fn lemma_bot_meet(a: u64) {}
}

impl Lattice for bool {
    open spec fn spec_join(a: bool, b: bool) -> bool {
        a || b
    }

    open spec fn spec_meet(a: bool, b: bool) -> bool {
        a && b
    }

    fn join(&self, other: &bool) -> (r: bool) {
        *self || *other
    }

    fn meet(&self, other: &bool) -> (r: bool) {
        *self && *other
    }

    proof fn lemma_join_commutative(a: bool, b: bool) {}

    proof fn lemma_join_associative(a: bool, b: bool, c: bool) {}

    proof fn lemma_join_idempotent(a: bool) {}

    proof fn lemma_meet_commutative(a: bool, b: bool) {}

    proof fn lemma_meet_associative(a: bool, b: bool, c: bool) {}

    proof fn lemma_join_absorbs_meet(a: bool, b: bool) {}
}

impl OrderBot for bool {
    open spec fn spec_bot() -> bool {
        false
    }

    fn bot() -> (r: bool) {
        false
    }

    fn is_bot(&self) -> (r: bool) {
        !*self
    }

    proof fn lemma_bot_join(a: bool) {}

    proof fn lemma_bot_meet(a: bool) {}
}

} // verus!
