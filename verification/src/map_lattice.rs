//! Maps from string keys to lattice values, ordered pointwise, where a
//! missing key stands for the bottom element.

use vstd::prelude::*;
use crate::lattice::{Lattice, OrderBot};
use crate::str_map::StrMap;
use crate::facts::Comparable;

verus! {

/// The value under `k`, or the bottom element when `k` is missing.
pub open spec fn value_or_bot<L: OrderBot>(m: Map<Seq<char>, L::V>, k: Seq<char>) -> L::V {
    if m.contains_key(k) {
        m[k]
    } else {
        L::spec_bot()
    }
}

/// The pointwise join: every key of either map, under the join of the two
/// values.
pub open spec fn map_join<L: OrderBot>(a: Map<Seq<char>, L::V>, b: Map<Seq<char>, L::V>) -> Map<
    Seq<char>,
    L::V,
> {
    Map::new(
        |k: Seq<char>| a.contains_key(k) || b.contains_key(k),
        |k: Seq<char>| L::spec_join(value_or_bot::<L>(a, k), value_or_bot::<L>(b, k)),
    )
}

/// The pointwise meet: every key of either map whose two values meet above
/// the bottom element, under that meet.
pub open spec fn map_meet<L: OrderBot>(a: Map<Seq<char>, L::V>, b: Map<Seq<char>, L::V>) -> Map<
    Seq<char>,
    L::V,
> {
    Map::new(
        |k: Seq<char>|
            (a.contains_key(k) || b.contains_key(k)) && L::spec_meet(
                value_or_bot::<L>(a, k),
                value_or_bot::<L>(b, k),
            ) != L::spec_bot(),
        |k: Seq<char>| L::spec_meet(value_or_bot::<L>(a, k), value_or_bot::<L>(b, k)),
    )
}

/// No key of the map holds the bottom element.
pub open spec fn no_bot_values<L: OrderBot>(m: Map<Seq<char>, L::V>) -> bool {
    forall|k: Seq<char>| #[trigger] m.contains_key(k) ==> m[k] != L::spec_bot()
}

/// Whether `a` lies at most `b` key by key: under every key of either map,
/// the value in `a` compares `Less` or `Equal` to the value in `b`, the
/// least element standing in for a missing key.
pub open spec fn map_le_flag<L: OrderBot + Comparable>(
    a: Map<Seq<char>, <L as View>::V>,
    b: Map<Seq<char>, <L as View>::V>,
) -> bool {
    forall|k: Seq<char>|
        #![trigger a.contains_key(k)]
        #![trigger b.contains_key(k)]
        (a.contains_key(k) || b.contains_key(k)) ==> L::spec_at_most(value_or_bot::<L>(a, k), value_or_bot::<L>(b, k))
}

/// Whether `a` lies at least `b` key by key: under every key of either
/// map, the value in `a` compares `Greater` or `Equal` to the value in `b`,
/// the least element standing in for a missing key.
pub open spec fn map_ge_flag<L: OrderBot + Comparable>(
    a: Map<Seq<char>, <L as View>::V>,
    b: Map<Seq<char>, <L as View>::V>,
) -> bool {
    forall|k: Seq<char>|
        #![trigger a.contains_key(k)]
        #![trigger b.contains_key(k)]
        (a.contains_key(k) || b.contains_key(k)) ==> L::spec_at_least(value_or_bot::<L>(a, k), value_or_bot::<L>(b, k))
}

/// Whether two maps hold the same value under every key, the least element
/// standing in for a missing key.
pub open spec fn same_values<L: OrderBot>(a: Map<Seq<char>, L::V>, b: Map<Seq<char>, L::V>) -> bool {
    forall|k: Seq<char>| #[trigger] value_or_bot::<L>(a, k) == value_or_bot::<L>(b, k)
}

/// `a` lies at most `b` key by key exactly when `b` lies at least `a`.
pub proof fn lemma_map_flags_dual<L: OrderBot + Comparable>(
    a: Map<Seq<char>, <L as View>::V>,
    b: Map<Seq<char>, <L as View>::V>,
)
    ensures
        map_le_flag::<L>(a, b) == map_ge_flag::<L>(b, a),
        map_ge_flag::<L>(a, b) == map_le_flag::<L>(b, a),
{
    assert forall|k: Seq<char>| (a.contains_key(k) || b.contains_key(k)) implies (L::spec_at_most(
        value_or_bot::<L>(a, k),
        value_or_bot::<L>(b, k),
    ) == L::spec_at_least(value_or_bot::<L>(b, k), value_or_bot::<L>(a, k))) && (L::spec_at_least(
        value_or_bot::<L>(a, k),
        value_or_bot::<L>(b, k),
    ) == L::spec_at_most(value_or_bot::<L>(b, k), value_or_bot::<L>(a, k))) by {
        L::lemma_order_dual(value_or_bot::<L>(a, k), value_or_bot::<L>(b, k));
        L::lemma_order_dual(value_or_bot::<L>(b, k), value_or_bot::<L>(a, k));
    }
}

/// `a` lies both at most and at least `b` key by key exactly when they
/// hold the same value under every key.
pub proof fn lemma_map_flags_equal<L: OrderBot + Comparable>(
    a: Map<Seq<char>, <L as View>::V>,
    b: Map<Seq<char>, <L as View>::V>,
)
    ensures
        (map_le_flag::<L>(a, b) && map_ge_flag::<L>(a, b)) <==> same_values::<L>(a, b),
{
    if map_le_flag::<L>(a, b) && map_ge_flag::<L>(a, b) {
        assert forall|k: Seq<char>| #[trigger] value_or_bot::<L>(a, k) == value_or_bot::<L>(b, k) by {
            if a.contains_key(k) || b.contains_key(k) {
                L::lemma_order_antisymmetric(value_or_bot::<L>(a, k), value_or_bot::<L>(b, k));
            }
        }
    }
    if same_values::<L>(a, b) {
        assert forall|k: Seq<char>| (a.contains_key(k) || b.contains_key(k)) implies L::spec_at_most(
            value_or_bot::<L>(a, k),
            value_or_bot::<L>(b, k),
        ) && L::spec_at_least(value_or_bot::<L>(a, k), value_or_bot::<L>(b, k)) by {
            assert(value_or_bot::<L>(a, k) == value_or_bot::<L>(b, k));
            L::lemma_order_antisymmetric(value_or_bot::<L>(a, k), value_or_bot::<L>(b, k));
        }
    }
}

/// The value under a key of the pointwise join is the join of the values,
/// whether or not the key is there.
pub proof fn lemma_map_join_value<L: OrderBot>(a: Map<Seq<char>, L::V>, b: Map<Seq<char>, L::V>, k: Seq<char>)
    ensures
        value_or_bot::<L>(map_join::<L>(a, b), k) == L::spec_join(value_or_bot::<L>(a, k), value_or_bot::<L>(b, k)),
{
    if !(a.contains_key(k) || b.contains_key(k)) {
        L::lemma_bot_join(L::spec_bot());
    }
}

/// The value under a key of the pointwise meet is the meet of the values,
/// whether or not the key is there.
pub proof fn lemma_map_meet_value<L: OrderBot>(a: Map<Seq<char>, L::V>, b: Map<Seq<char>, L::V>, k: Seq<char>)
    ensures
        value_or_bot::<L>(map_meet::<L>(a, b), k) == L::spec_meet(value_or_bot::<L>(a, k), value_or_bot::<L>(b, k)),
{
    if !(a.contains_key(k) || b.contains_key(k)) {
        L::lemma_bot_meet(L::spec_bot());
    }
}

/// Meeting with the bottom element from either side gives the bottom element.
proof fn lemma_meet_bot_either_side<L: OrderBot>(x: L::V)
    ensures
        L::spec_meet(L::spec_bot(), x) == L::spec_bot(),
        L::spec_meet(x, L::spec_bot()) == L::spec_bot(),
{
    L::lemma_bot_meet(x);
    L::lemma_meet_commutative(x, L::spec_bot());
}

/// The pointwise join is commutative.
pub proof fn lemma_map_join_commutative<L: OrderBot>(a: Map<Seq<char>, L::V>, b: Map<Seq<char>, L::V>)
    ensures
        map_join::<L>(a, b) == map_join::<L>(b, a),
{
    assert forall|k: Seq<char>| #[trigger] map_join::<L>(a, b).contains_key(k) implies map_join::<L>(a, b)[k]
        == map_join::<L>(b, a)[k] by {
        L::lemma_join_commutative(value_or_bot::<L>(a, k), value_or_bot::<L>(b, k));
    }
    assert(map_join::<L>(a, b) =~= map_join::<L>(b, a));
}

/// The pointwise join is associative.
pub proof fn lemma_map_join_associative<L: OrderBot>(
    a: Map<Seq<char>, L::V>,
    b: Map<Seq<char>, L::V>,
    c: Map<Seq<char>, L::V>,
)
    ensures
        map_join::<L>(map_join::<L>(a, b), c) == map_join::<L>(a, map_join::<L>(b, c)),
{
    let l = map_join::<L>(map_join::<L>(a, b), c);
    let r = map_join::<L>(a, map_join::<L>(b, c));
    assert forall|k: Seq<char>| #[trigger] l.contains_key(k) implies l[k] == r[k] by {
        lemma_map_join_value::<L>(a, b, k);
        lemma_map_join_value::<L>(b, c, k);
        L::lemma_join_associative(value_or_bot::<L>(a, k), value_or_bot::<L>(b, k), value_or_bot::<L>(c, k));
    }
    assert(l =~= r);
}

/// Joining a map with itself gives it back.
pub proof fn lemma_map_join_idempotent<L: OrderBot>(a: Map<Seq<char>, L::V>)
    ensures
        map_join::<L>(a, a) == a,
{
    assert forall|k: Seq<char>| #[trigger] a.contains_key(k) implies map_join::<L>(a, a)[k] == a[k] by {
        L::lemma_join_idempotent(a[k]);
    }
    assert(map_join::<L>(a, a) =~= a);
}

/// The pointwise meet is commutative.
pub proof fn lemma_map_meet_commutative<L: OrderBot>(a: Map<Seq<char>, L::V>, b: Map<Seq<char>, L::V>)
    ensures
        map_meet::<L>(a, b) == map_meet::<L>(b, a),
{
    assert forall|k: Seq<char>| #[trigger] map_meet::<L>(a, b).contains_key(k) <==> map_meet::<L>(
        b,
        a,
    ).contains_key(k) by {
        L::lemma_meet_commutative(value_or_bot::<L>(a, k), value_or_bot::<L>(b, k));
    }
    assert forall|k: Seq<char>| #[trigger] map_meet::<L>(a, b).contains_key(k) implies map_meet::<L>(a, b)[k]
        == map_meet::<L>(b, a)[k] by {
        L::lemma_meet_commutative(value_or_bot::<L>(a, k), value_or_bot::<L>(b, k));
    }
    assert(map_meet::<L>(a, b) =~= map_meet::<L>(b, a));
}

/// The pointwise meet is associative.
pub proof fn lemma_map_meet_associative<L: OrderBot>(
    a: Map<Seq<char>, L::V>,
    b: Map<Seq<char>, L::V>,
    c: Map<Seq<char>, L::V>,
)
    ensures
        map_meet::<L>(map_meet::<L>(a, b), c) == map_meet::<L>(a, map_meet::<L>(b, c)),
{
    let l = map_meet::<L>(map_meet::<L>(a, b), c);
    let r = map_meet::<L>(a, map_meet::<L>(b, c));
    assert forall|k: Seq<char>| #[trigger] l.contains_key(k) <==> r.contains_key(k) by {
        let (x, y, z) = (value_or_bot::<L>(a, k), value_or_bot::<L>(b, k), value_or_bot::<L>(c, k));
        lemma_map_meet_value::<L>(a, b, k);
        lemma_map_meet_value::<L>(b, c, k);
        L::lemma_meet_associative(x, y, z);
        lemma_meet_bot_either_side::<L>(L::spec_meet(x, y));
        lemma_meet_bot_either_side::<L>(y);
        lemma_meet_bot_either_side::<L>(x);
        lemma_meet_bot_either_side::<L>(L::spec_meet(y, z));
        lemma_meet_bot_either_side::<L>(L::spec_bot());
    }
    assert forall|k: Seq<char>| #[trigger] l.contains_key(k) implies l[k] == r[k] by {
        lemma_map_meet_value::<L>(a, b, k);
        lemma_map_meet_value::<L>(b, c, k);
        L::lemma_meet_associative(value_or_bot::<L>(a, k), value_or_bot::<L>(b, k), value_or_bot::<L>(c, k));
    }
    assert(l =~= r);
}

/// Joining a map with its meet with another map gives it back.
pub proof fn lemma_map_join_absorbs_meet<L: OrderBot>(a: Map<Seq<char>, L::V>, b: Map<Seq<char>, L::V>)
    ensures
        map_join::<L>(a, map_meet::<L>(a, b)) == a,
{
    let m = map_meet::<L>(a, b);
    let l = map_join::<L>(a, m);
    assert forall|k: Seq<char>| #[trigger] l.contains_key(k) <==> a.contains_key(k) by {
        if !a.contains_key(k) {
            L::lemma_bot_meet(value_or_bot::<L>(b, k));
        }
    }
    assert forall|k: Seq<char>| #[trigger] a.contains_key(k) implies l[k] == a[k] by {
        lemma_map_meet_value::<L>(a, b, k);
        L::lemma_join_absorbs_meet(a[k], value_or_bot::<L>(b, k));
    }
    assert(l =~= a);
}

/// The empty map is neutral for the pointwise join.
pub proof fn lemma_map_bot_join<L: OrderBot>(a: Map<Seq<char>, L::V>)
    ensures
        map_join::<L>(Map::empty(), a) == a,
{
    assert forall|k: Seq<char>| #[trigger] a.contains_key(k) implies map_join::<L>(Map::empty(), a)[k] == a[k] by {
        L::lemma_bot_join(a[k]);
    }
    assert(map_join::<L>(Map::empty(), a) =~= a);
}

/// The empty map absorbs the pointwise meet.
pub proof fn lemma_map_bot_meet<L: OrderBot>(a: Map<Seq<char>, L::V>)
    ensures
        map_meet::<L>(Map::empty(), a) == Map::<Seq<char>, L::V>::empty(),
{
    assert forall|k: Seq<char>| !#[trigger] map_meet::<L>(Map::empty(), a).contains_key(k) by {
        L::lemma_bot_meet(value_or_bot::<L>(a, k));
    }
    assert(map_meet::<L>(Map::empty(), a) =~= Map::<Seq<char>, L::V>::empty());
}

/// Meeting a map with itself gives it back when no key holds the bottom
/// element (the meet drops such keys).
pub proof fn lemma_map_meet_idempotent<L: OrderBot>(a: Map<Seq<char>, L::V>)
    requires
        forall|x: L::V| #[trigger] L::spec_meet(x, x) == x,
    ensures
        no_bot_values::<L>(a) <==> map_meet::<L>(a, a) == a,
{
    if no_bot_values::<L>(a) {
        assert(map_meet::<L>(a, a) =~= a);
    }
    if map_meet::<L>(a, a) == a {
        assert forall|k: Seq<char>| #[trigger] a.contains_key(k) implies a[k] != L::spec_bot() by {
            assert(map_meet::<L>(a, a).contains_key(k));
        }
    }
}

/// A prefix one longer holds what the shorter one holds and the next item.
pub proof fn lemma_take_one_more<A>(s: Seq<A>, i: int)
    requires
        0 <= i < s.len(),
    ensures
        forall|x: A| #[trigger] s.take(i + 1).contains(x) <==> (s.take(i).contains(x) || x == s[i]),
{
    let t1 = s.take(i + 1);
    let t0 = s.take(i);
    assert forall|x: A| #[trigger] t1.contains(x) <==> (t0.contains(x) || x == s[i]) by {
        if t1.contains(x) && x != s[i] {
            let j = choose|j: int| 0 <= j < t1.len() && t1[j] == x;
            assert(t0[j] == x);
        }
        if t0.contains(x) {
            let j = choose|j: int| 0 <= j < t0.len() && t0[j] == x;
            assert(t1[j] == x);
        }
        if x == s[i] {
            assert(t1[i] == x);
        }
    }
}

/// The pointwise join of two maps.
pub fn join_maps<L: OrderBot>(a: &StrMap<L>, b: &StrMap<L>) -> (r: StrMap<L>)
    ensures
        r@ == map_join::<L>(a@, b@),
{
    let target = Ghost(map_join::<L>(a@, b@));
    let mut r: StrMap<L> = StrMap::new();
    let n = a.len();
    let mut i: usize = 0;
    while i < n
        invariant
            n == a.keys().len(),
            forall|k: Seq<char>| #[trigger] a@.contains_key(k) <==> a.keys().contains(k),
            target@ == map_join::<L>(a@, b@),
            i <= n,
            forall|k: Seq<char>| #[trigger] r@.contains_key(k) <==> a.keys().take(i as int).contains(k),
            forall|k: Seq<char>| #[trigger] r@.contains_key(k) ==> r@[k] == target@[k],
        decreases n - i,
    {
        let k = a.key_at(i);
        let v = a.value_at(i);
        let joined = match b.get(k) {
            Some(w) => v.join(w),
            None => v.join(&L::bot()),
        };
        let ghost prev = r@;
        r.insert(k.clone(), joined);
        proof {
            lemma_take_one_more(a.keys(), i as int);
        }
        i = i + 1;
    }
    proof {
        assert(a.keys().take(n as int) =~= a.keys());
    }
    let m = b.len();
    let mut j: usize = 0;
    while j < m
        invariant
            m == b.keys().len(),
            forall|k: Seq<char>| #[trigger] b@.contains_key(k) <==> b.keys().contains(k),
            target@ == map_join::<L>(a@, b@),
            j <= m,
            forall|k: Seq<char>|
                #[trigger] r@.contains_key(k) <==> (a@.contains_key(k) || b.keys().take(j as int).contains(k)),
            forall|k: Seq<char>| #[trigger] r@.contains_key(k) ==> r@[k] == target@[k],
        decreases m - j,
    {
        let k = b.key_at(j);
        let w = b.value_at(j);
        proof {
            lemma_take_one_more(b.keys(), j as int);
        }
        if !a.contains_key(k) {
            let joined = L::bot().join(w);
            r.insert(k.clone(), joined);
        }
        j = j + 1;
    }
    proof {
        assert(b.keys().take(m as int) =~= b.keys());
        assert(r@ =~= target@);
    }
    r
}

/// The pointwise meet of two maps.
pub fn meet_maps<L: OrderBot>(a: &StrMap<L>, b: &StrMap<L>) -> (r: StrMap<L>)
    ensures
        r@ == map_meet::<L>(a@, b@),
{
    let target = Ghost(map_meet::<L>(a@, b@));
    let mut r: StrMap<L> = StrMap::new();
    let n = a.len();
    let mut i: usize = 0;
    while i < n
        invariant
            n == a.keys().len(),
            forall|k: Seq<char>| #[trigger] a@.contains_key(k) <==> a.keys().contains(k),
            target@ == map_meet::<L>(a@, b@),
            i <= n,
            forall|k: Seq<char>| #[trigger] r@.contains_key(k) <==> (a.keys().take(i as int).contains(k)
                && target@.contains_key(k)),
            forall|k: Seq<char>| #[trigger] r@.contains_key(k) ==> r@[k] == target@[k],
        decreases n - i,
    {
        let k = a.key_at(i);
        let v = a.value_at(i);
        let met = match b.get(k) {
            Some(w) => v.meet(w),
            None => v.meet(&L::bot()),
        };
        proof {
            lemma_take_one_more(a.keys(), i as int);
        }
        if !met.is_bot() {
            r.insert(k.clone(), met);
        }
        i = i + 1;
    }
    proof {
        assert(a.keys().take(n as int) =~= a.keys());
    }
    let m = b.len();
    let mut j: usize = 0;
    while j < m
        invariant
            m == b.keys().len(),
            forall|k: Seq<char>| #[trigger] b@.contains_key(k) <==> b.keys().contains(k),
            target@ == map_meet::<L>(a@, b@),
            j <= m,
            forall|k: Seq<char>|
                #[trigger] r@.contains_key(k) <==> ((a@.contains_key(k) || b.keys().take(j as int).contains(k))
                    && target@.contains_key(k)),
            forall|k: Seq<char>| #[trigger] r@.contains_key(k) ==> r@[k] == target@[k],
        decreases m - j,
    {
        let k = b.key_at(j);
        let w = b.value_at(j);
        proof {
            lemma_take_one_more(b.keys(), j as int);
        }
        if !a.contains_key(k) {
            let met = L::bot().meet(w);
            if !met.is_bot() {
                r.insert(k.clone(), met);
            }
        }
        j = j + 1;
    }
    proof {
        assert(b.keys().take(m as int) =~= b.keys());
        assert(r@ =~= target@);
    }
    r
}

/// Whether `a` lies at most `b`, and whether at least `b`, key by key.
pub fn order_flags<L: OrderBot + Comparable>(a: &StrMap<L>, b: &StrMap<L>) -> (r: (bool, bool))
    ensures
        r.0 == map_le_flag::<L>(a@, b@),
        r.1 == map_ge_flag::<L>(a@, b@),
{
    let mut le = true;
    let mut ge = true;
    let n = a.len();
    let mut i: usize = 0;
    while i < n
        invariant
            n == a.keys().len(),
            forall|k: Seq<char>| #[trigger] a@.contains_key(k) <==> a.keys().contains(k),
            i <= n,
            le == forall|k: Seq<char>| #[trigger] a.keys().take(i as int).contains(k)
                ==> L::spec_at_most(a@[k], value_or_bot::<L>(b@, k)),
            ge == forall|k: Seq<char>| #[trigger] a.keys().take(i as int).contains(k)
                ==> L::spec_at_least(a@[k], value_or_bot::<L>(b@, k)),
        decreases n - i,
    {
        let k = a.key_at(i);
        let v = a.value_at(i);
        let bot = L::bot();
        let w = match b.get(k) {
            Some(w) => w,
            None => &bot,
        };
        let ghost old_le = le;
        let ghost old_ge = ge;
        if !v.at_most(w) {
            le = false;
        }
        if !v.at_least(w) {
            ge = false;
        }
        proof {
            let ks = a.keys();
            let kk = ks[i as int];
            lemma_take_one_more(ks, i as int);
            assert(w@ == value_or_bot::<L>(b@, kk));
            assert(le == forall|x: Seq<char>| #[trigger] ks.take(i + 1).contains(x)
                ==> L::spec_at_most(a@[x], value_or_bot::<L>(b@, x))) by {
                if !le {
                    if old_le {
                        assert(ks.take(i + 1).contains(kk));
                    } else {
                        let x0 = choose|x: Seq<char>| #[trigger] ks.take(i as int).contains(x)
                            && !L::spec_at_most(a@[x], value_or_bot::<L>(b@, x));
                        assert(ks.take(i + 1).contains(x0));
                    }
                }
            }
            assert(ge == forall|x: Seq<char>| #[trigger] ks.take(i + 1).contains(x)
                ==> L::spec_at_least(a@[x], value_or_bot::<L>(b@, x))) by {
                if !ge {
                    if old_ge {
                        assert(ks.take(i + 1).contains(kk));
                    } else {
                        let x0 = choose|x: Seq<char>| #[trigger] ks.take(i as int).contains(x)
                            && !L::spec_at_least(a@[x], value_or_bot::<L>(b@, x));
                        assert(ks.take(i + 1).contains(x0));
                    }
                }
            }
        }
        i = i + 1;
    }
    proof {
        assert(a.keys().take(n as int) =~= a.keys());
    }
    let mut le_b = true;
    let mut ge_b = true;
    let m = b.len();
    let mut j: usize = 0;
    let bot = L::bot();
    while j < m
        invariant
            m == b.keys().len(),
            forall|k: Seq<char>| #[trigger] b@.contains_key(k) <==> b.keys().contains(k),
            bot@ == L::spec_bot(),
            j <= m,
            le_b == forall|k: Seq<char>|
                #[trigger] b.keys().take(j as int).contains(k) && !a@.contains_key(k)
                ==> L::spec_at_most(L::spec_bot(), b@[k]),
            ge_b == forall|k: Seq<char>|
                #[trigger] b.keys().take(j as int).contains(k) && !a@.contains_key(k)
                ==> L::spec_at_least(L::spec_bot(), b@[k]),
        decreases m - j,
    {
        let k = b.key_at(j);
        let w = b.value_at(j);
        let ghost old_le = le_b;
        let ghost old_ge = ge_b;
        if !a.contains_key(k) {
            if !bot.at_most(w) {
                le_b = false;
            }
            if !bot.at_least(w) {
                ge_b = false;
            }
        }
        proof {
            let ks = b.keys();
            let kk = ks[j as int];
            lemma_take_one_more(ks, j as int);
            assert(le_b == forall|x: Seq<char>| #[trigger] ks.take(j + 1).contains(x) && !a@.contains_key(x)
                ==> L::spec_at_most(L::spec_bot(), b@[x])) by {
                if !le_b {
                    if old_le {
                        assert(ks.take(j + 1).contains(kk));
                    } else {
                        let x0 = choose|x: Seq<char>| #[trigger] ks.take(j as int).contains(x) && !a@.contains_key(x)
                            && !L::spec_at_most(L::spec_bot(), b@[x]);
                        assert(ks.take(j + 1).contains(x0));
                    }
                }
            }
            assert(ge_b == forall|x: Seq<char>| #[trigger] ks.take(j + 1).contains(x) && !a@.contains_key(x)
                ==> L::spec_at_least(L::spec_bot(), b@[x])) by {
                if !ge_b {
                    if old_ge {
                        assert(ks.take(j + 1).contains(kk));
                    } else {
                        let x0 = choose|x: Seq<char>| #[trigger] ks.take(j as int).contains(x) && !a@.contains_key(x)
                            && !L::spec_at_least(L::spec_bot(), b@[x]);
                        assert(ks.take(j + 1).contains(x0));
                    }
                }
            }
        }
        j = j + 1;
    }
    proof {
        assert(b.keys().take(m as int) =~= b.keys());
        let (am, bm) = (a@, b@);
        assert((le && le_b) == map_le_flag::<L>(am, bm)) by {
            if le && le_b {
                assert forall|k: Seq<char>| (am.contains_key(k) || bm.contains_key(k)) implies L::spec_at_most(
                    value_or_bot::<L>(am, k),
                    value_or_bot::<L>(bm, k),
                ) by {
                    if am.contains_key(k) {
                        assert(a.keys().take(n as int).contains(k));
                    } else {
                        assert(b.keys().take(m as int).contains(k));
                    }
                }
            }
            if !le {
                let x0 = choose|x: Seq<char>| #[trigger] a.keys().take(n as int).contains(x)
                    && !L::spec_at_most(am[x], value_or_bot::<L>(bm, x));
                assert(am.contains_key(x0));
            }
            if !le_b {
                let x0 = choose|x: Seq<char>| #[trigger] b.keys().take(m as int).contains(x) && !am.contains_key(x)
                    && !L::spec_at_most(L::spec_bot(), bm[x]);
                assert(bm.contains_key(x0));
            }
        }
        assert((ge && ge_b) == map_ge_flag::<L>(am, bm)) by {
            if ge && ge_b {
                assert forall|k: Seq<char>| (am.contains_key(k) || bm.contains_key(k)) implies L::spec_at_least(
                    value_or_bot::<L>(am, k),
                    value_or_bot::<L>(bm, k),
                ) by {
                    if am.contains_key(k) {
                        assert(a.keys().take(n as int).contains(k));
                    } else {
                        assert(b.keys().take(m as int).contains(k));
                    }
                }
            }
            if !ge {
                let x0 = choose|x: Seq<char>| #[trigger] a.keys().take(n as int).contains(x)
                    && !L::spec_at_least(am[x], value_or_bot::<L>(bm, x));
                assert(am.contains_key(x0));
            }
            if !ge_b {
                let x0 = choose|x: Seq<char>| #[trigger] b.keys().take(m as int).contains(x) && !am.contains_key(x)
                    && !L::spec_at_least(L::spec_bot(), bm[x]);
                assert(bm.contains_key(x0));
            }
        }
    }
    (le && le_b, ge && ge_b)
}

/// Whether two maps have the same keys, with the same value under each.
pub fn maps_equal<L: OrderBot + Comparable>(a: &StrMap<L>, b: &StrMap<L>) -> (r: bool)
    ensures
        r == (a@ == b@),
{
    let n = a.len();
    let m = b.len();
    if n != m {
        return false;
    }
    let mut i: usize = 0;
    while i < n
        invariant
            n == a.keys().len(),
            forall|k: Seq<char>| #[trigger] a@.contains_key(k) <==> a.keys().contains(k),
            i <= n,
            forall|k: Seq<char>| #[trigger] a.keys().take(i as int).contains(k) ==> b@.contains_key(k) && b@[k] == a@[k],
        decreases n - i,
    {
        let k = a.key_at(i);
        let v = a.value_at(i);
        proof {
            lemma_take_one_more(a.keys(), i as int);
        }
        match b.get(k) {
            None => {
                return false;
            },
            Some(w) => {
                proof {
                    L::lemma_order_antisymmetric(v@, w@);
                }
                if !(v.at_most(w) && v.at_least(w)) {
                    return false;
                }
            },
        }
        i = i + 1;
    }
    proof {
        assert(a.keys().take(n as int) =~= a.keys());
        assert(a@.dom().subset_of(b@.dom()));
        vstd::set_lib::lemma_subset_equality(a@.dom(), b@.dom());
        assert(a@ =~= b@);
    }
    true
}

} // verus!
