//! The domain's state: what is known of each job and each node, ordered as
//! lattices so that states from several sources converge by joining.

use vstd::prelude::*;
use std::cmp::Ordering;
use crate::lattice::{Lattice, OrderBot, lattice_le, lemma_meet_is_greatest_lower_bound};
use crate::write_once::{WriteOnce, set_order, lemma_write_once_order_matches_join};
use crate::str_map::{StrMap, Duplicate};
use vstd::std_specs::cmp::{PartialEqSpecImpl, PartialOrdSpecImpl};
use crate::map_lattice::{
    map_join, map_meet, map_le_flag, map_ge_flag, no_bot_values, value_or_bot, join_maps, meet_maps,
    order_flags, maps_equal, same_values, lemma_map_flags_dual, lemma_map_flags_equal, lemma_map_join_value, lemma_map_meet_value,
    lemma_map_join_commutative, lemma_map_join_associative, lemma_map_join_idempotent,
    lemma_map_meet_commutative, lemma_map_meet_associative, lemma_map_join_absorbs_meet,
    lemma_map_bot_join, lemma_map_bot_meet, lemma_map_meet_idempotent,
};

verus! {

/// How two numbers compare.
pub open spec fn u64_order(a: u64, b: u64) -> Option<Ordering> {
    if a < b {
        Some(Ordering::Less)
    } else if a == b {
        Some(Ordering::Equal)
    } else {
        Some(Ordering::Greater)
    }
}

/// How two booleans compare, `false` before `true`.
pub open spec fn bool_order(a: bool, b: bool) -> Option<Ordering> {
    if a == b {
        Some(Ordering::Equal)
    } else if !a {
        Some(Ordering::Less)
    } else {
        Some(Ordering::Greater)
    }
}

/// Chains two comparisons field by field: the first decides unless it
/// finds the fields equal.
pub open spec fn then_order(first: Option<Ordering>, rest: Option<Ordering>) -> Option<Ordering> {
    if first == Some(Ordering::Equal) {
        rest
    } else {
        first
    }
}

fn compare_u64(a: u64, b: u64) -> (r: Option<Ordering>)
    ensures
        r == u64_order(a, b),
{
    if a < b {
        Some(Ordering::Less)
    } else if a == b {
        Some(Ordering::Equal)
    } else {
        Some(Ordering::Greater)
    }
}

fn compare_bool(a: bool, b: bool) -> (r: Option<Ordering>)
    ensures
        r == bool_order(a, b),
{
    if a == b {
        Some(Ordering::Equal)
    } else if !a {
        Some(Ordering::Less)
    } else {
        Some(Ordering::Greater)
    }
}

fn is_equal(o: &Option<Ordering>) -> (r: bool)
    ensures
        r == (*o == Some(Ordering::Equal)),
{
    match o {
        Some(Ordering::Equal) => true,
        _ => false,
    }
}

/// The same comparison seen from the other side: `Less` and `Greater`
/// swap, `Equal` and `None` stay.
pub open spec fn reverse_order(o: Option<Ordering>) -> Option<Ordering> {
    match o {
        Some(Ordering::Less) => Some(Ordering::Greater),
        Some(Ordering::Greater) => Some(Ordering::Less),
        _ => o,
    }
}

/// Numbers compare the other way round from the other side.
pub proof fn lemma_u64_order_dual(a: u64, b: u64)
    ensures
        u64_order(a, b) == reverse_order(u64_order(b, a)),
{
}

/// Booleans compare the other way round from the other side.
pub proof fn lemma_bool_order_dual(a: bool, b: bool)
    ensures
        bool_order(a, b) == reverse_order(bool_order(b, a)),
{
}

/// Sets compare the other way round from the other side.
pub proof fn lemma_set_order_dual<A>(a: Set<A>, b: Set<A>)
    ensures
        set_order(a, b) == reverse_order(set_order(b, a)),
        set_order(a, b) == Some(Ordering::Equal) <==> a == b,
{
    if a.subset_of(b) && b.subset_of(a) {
        assert(a =~= b);
    }
}

/// Chaining comparisons commutes with looking from the other side.
pub proof fn lemma_then_order_dual(f: Option<Ordering>, r: Option<Ordering>)
    ensures
        then_order(reverse_order(f), reverse_order(r)) == reverse_order(then_order(f, r)),
        then_order(f, r) == Some(Ordering::Equal) <==> (f == Some(Ordering::Equal) && r == Some(Ordering::Equal)),
{
}

/// The "at most" and "at least" of a state type, as its `partial_cmp`
/// reports them: comparing `Less` or `Equal`, and `Greater` or `Equal`.
pub trait Comparable: View + Sized {
    /// `a` compares `Less` or `Equal` to `b`.
    spec fn spec_at_most(a: Self::V, b: Self::V) -> bool;

    /// `a` compares `Greater` or `Equal` to `b`.
    spec fn spec_at_least(a: Self::V, b: Self::V) -> bool;

    /// Whether `self` compares `Less` or `Equal` to `other`.
    fn at_most(&self, other: &Self) -> (r: bool)
        ensures
            r == Self::spec_at_most(self@, other@),
    ;

    /// Whether `self` compares `Greater` or `Equal` to `other`.
    fn at_least(&self, other: &Self) -> (r: bool)
        ensures
            r == Self::spec_at_least(self@, other@),
    ;

    /// `a` is at most `b` exactly when `b` is at least `a`.
    proof fn lemma_order_dual(a: Self::V, b: Self::V)
        ensures
            Self::spec_at_most(a, b) == Self::spec_at_least(b, a),
    ;

    /// Two states compare `Equal` exactly when they are the same state.
    proof fn lemma_order_antisymmetric(a: Self::V, b: Self::V)
        ensures
            (Self::spec_at_most(a, b) && Self::spec_at_least(a, b)) <==> a == b,
    ;
}

/// What is known of a job.
#[verifier::ext_equal]
pub struct JobInfoView {
    pub phase: u64,
    pub namespace_id: Set<Seq<char>>,
    pub priority: u64,
    pub resources: Set<u64>,
}

/// What is known of a job: its phase, the namespace it was submitted to,
/// its priority and the resources it asked for.
#[derive(Debug)]
pub struct JobInfo {
    pub phase: u64,
    pub namespace_id: WriteOnce<String>,
    pub priority: u64,
    pub resources: WriteOnce<u64>,
}

impl View for JobInfo {
    type V = JobInfoView;

    open spec fn view(&self) -> JobInfoView {
        JobInfoView {
            phase: self.phase,
            namespace_id: self.namespace_id@,
            priority: self.priority,
            resources: self.resources@,
        }
    }
}

/// The least job state: phase 0, priority 0, nothing recorded.
pub open spec fn job_info_bot() -> JobInfoView {
    JobInfoView { phase: 0, namespace_id: Set::empty(), priority: 0, resources: Set::empty() }
}

/// How two job states compare, field by field in the order phase,
/// namespace, priority, resources.
pub open spec fn job_info_order(a: JobInfoView, b: JobInfoView) -> Option<Ordering> {
    then_order(
        u64_order(a.phase, b.phase),
        then_order(
            set_order(a.namespace_id, b.namespace_id),
            then_order(u64_order(a.priority, b.priority), set_order(a.resources, b.resources)),
        ),
    )
}

impl PartialOrd for JobInfo {
    /// Compares two job states field by field, in the order phase,
    /// namespace, priority, resources; the first field that is not equal
    /// decides.
    fn partial_cmp(&self, other: &Self) -> (r: Option<Ordering>)
    {
        let c = compare_u64(self.phase, other.phase);
        if !is_equal(&c) {
            return c;
        }
        let c = self.namespace_id.partial_cmp(&other.namespace_id);
        if !is_equal(&c) {
            return c;
        }
        let c = compare_u64(self.priority, other.priority);
        if !is_equal(&c) {
            return c;
        }
        self.resources.partial_cmp(&other.resources)
    }
}

impl PartialOrdSpecImpl for JobInfo {
    open spec fn obeys_partial_cmp_spec() -> bool {
        true
    }

    open spec fn partial_cmp_spec(&self, other: &Self) -> Option<Ordering> {
        job_info_order(self@, other@)
    }
}

impl Clone for JobInfo {
    /// A copy with the same state.
    fn clone(&self) -> (r: Self)
        ensures
            r@ == self@,
    {
        JobInfo {
            phase: self.phase,
            namespace_id: self.namespace_id.clone(),
            priority: self.priority,
            resources: self.resources.clone(),
        }
    }
}

impl Duplicate for JobInfo {
    fn duplicate(&self) -> (r: Self) {
        self.clone()
    }
}

impl Default for JobInfo {
    /// The least job state.
    fn default() -> (r: Self)
        ensures
            r@ == job_info_bot(),
    {
        JobInfo::bot()
    }
}

impl Comparable for JobInfo {
    open spec fn spec_at_most(a: JobInfoView, b: JobInfoView) -> bool {
        job_info_order(a, b) == Some(Ordering::Less) || job_info_order(a, b) == Some(Ordering::Equal)
    }

    open spec fn spec_at_least(a: JobInfoView, b: JobInfoView) -> bool {
        job_info_order(a, b) == Some(Ordering::Greater) || job_info_order(a, b) == Some(Ordering::Equal)
    }

    fn at_most(&self, other: &Self) -> (r: bool) {
        match self.partial_cmp(other) {
            Some(Ordering::Less) => true,
            Some(Ordering::Equal) => true,
            _ => false,
        }
    }

    fn at_least(&self, other: &Self) -> (r: bool) {
        match self.partial_cmp(other) {
            Some(Ordering::Greater) => true,
            Some(Ordering::Equal) => true,
            _ => false,
        }
    }

    proof fn lemma_order_dual(a: JobInfoView, b: JobInfoView) {
        lemma_job_info_order_dual(a, b);
    }

    proof fn lemma_order_antisymmetric(a: JobInfoView, b: JobInfoView) {
        lemma_job_info_order_dual(a, b);
    }
}

impl PartialEq for JobInfo {
    /// Whether the two states are the same, field by field.
    fn eq(&self, other: &Self) -> (r: bool) {
        proof {
            lemma_job_info_order_dual(self@, other@);
        }
        is_equal(&self.partial_cmp(other))
    }
}

impl PartialEqSpecImpl for JobInfo {
    open spec fn obeys_eq_spec() -> bool {
        true
    }

    open spec fn eq_spec(&self, other: &Self) -> bool {
        self@ == other@
    }
}

impl Lattice for JobInfo {
    open spec fn spec_join(a: JobInfoView, b: JobInfoView) -> JobInfoView {
        JobInfoView {
            phase: <u64 as Lattice>::spec_join(a.phase, b.phase),
            namespace_id: a.namespace_id.union(b.namespace_id),
            priority: <u64 as Lattice>::spec_join(a.priority, b.priority),
            resources: a.resources.union(b.resources),
        }
    }

    open spec fn spec_meet(a: JobInfoView, b: JobInfoView) -> JobInfoView {
        JobInfoView {
            phase: <u64 as Lattice>::spec_meet(a.phase, b.phase),
            namespace_id: a.namespace_id.intersect(b.namespace_id),
            priority: <u64 as Lattice>::spec_meet(a.priority, b.priority),
            resources: a.resources.intersect(b.resources),
        }
    }

    /// Joins field by field.
    fn join(&self, other: &Self) -> (r: Self) {
        JobInfo {
            phase: self.phase.join(&other.phase),
            namespace_id: self.namespace_id.join(&other.namespace_id),
            priority: self.priority.join(&other.priority),
            resources: self.resources.join(&other.resources),
        }
    }

    /// Meets field by field.
    fn meet(&self, other: &Self) -> (r: Self) {
        JobInfo {
            phase: self.phase.meet(&other.phase),
            namespace_id: self.namespace_id.meet(&other.namespace_id),
            priority: self.priority.meet(&other.priority),
            resources: self.resources.meet(&other.resources),
        }
    }

    proof fn lemma_join_commutative(a: JobInfoView, b: JobInfoView) {
        assert(Self::spec_join(a, b) =~= Self::spec_join(b, a));
    }

    proof fn lemma_join_associative(a: JobInfoView, b: JobInfoView, c: JobInfoView) {
        assert(Self::spec_join(Self::spec_join(a, b), c) =~= Self::spec_join(a, Self::spec_join(b, c)));
    }

    proof fn lemma_join_idempotent(a: JobInfoView) {
        assert(Self::spec_join(a, a) =~= a);
    }

    proof fn lemma_meet_commutative(a: JobInfoView, b: JobInfoView) {
        assert(Self::spec_meet(a, b) =~= Self::spec_meet(b, a));
    }

    proof fn lemma_meet_associative(a: JobInfoView, b: JobInfoView, c: JobInfoView) {
        assert(Self::spec_meet(Self::spec_meet(a, b), c) =~= Self::spec_meet(a, Self::spec_meet(b, c)));
    }

    proof fn lemma_join_absorbs_meet(a: JobInfoView, b: JobInfoView) {
        assert(Self::spec_join(a, Self::spec_meet(a, b)) =~= a);
    }
}

impl OrderBot for JobInfo {
    open spec fn spec_bot() -> JobInfoView {
        job_info_bot()
    }

    fn bot() -> (r: Self) {
        let r = JobInfo { phase: 0, namespace_id: WriteOnce::empty(), priority: 0, resources: WriteOnce::empty() };
        assert(r@ =~= job_info_bot());
        r
    }

    fn is_bot(&self) -> (r: bool) {
        let r = self.phase == 0 && self.namespace_id.is_empty() && self.priority == 0
            && self.resources.is_empty();
        proof {
            if r {
                assert(self@ =~= job_info_bot());
            }
        }
        r
    }

    proof fn lemma_bot_join(a: JobInfoView) {
        assert(Self::spec_join(job_info_bot(), a) =~= a);
    }

    proof fn lemma_bot_meet(a: JobInfoView) {
        assert(Self::spec_meet(job_info_bot(), a) =~= job_info_bot());
    }
}

/// What is known of a node.
#[verifier::ext_equal]
pub struct NodeInfoView {
    pub down: bool,
    pub capacity: Set<u64>,
}

/// What is known of a node: whether it went down, and the capacities
/// reported for it.
#[derive(Debug)]
pub struct NodeInfo {
    pub down: bool,
    pub capacity: WriteOnce<u64>,
}

impl View for NodeInfo {
    type V = NodeInfoView;

    open spec fn view(&self) -> NodeInfoView {
        NodeInfoView { down: self.down, capacity: self.capacity@ }
    }
}

/// The least node state: up, nothing recorded.
pub open spec fn node_info_bot() -> NodeInfoView {
    NodeInfoView { down: false, capacity: Set::empty() }
}

/// How two node states compare, first by `down`, then by capacity.
pub open spec fn node_info_order(a: NodeInfoView, b: NodeInfoView) -> Option<Ordering> {
    then_order(bool_order(a.down, b.down), set_order(a.capacity, b.capacity))
}

impl PartialOrd for NodeInfo {
    /// Compares two node states, first by `down`, then by capacity.
    fn partial_cmp(&self, other: &Self) -> (r: Option<Ordering>)
    {
        let c = compare_bool(self.down, other.down);
        if !is_equal(&c) {
            return c;
        }
        self.capacity.partial_cmp(&other.capacity)
    }
}

impl PartialOrdSpecImpl for NodeInfo {
    open spec fn obeys_partial_cmp_spec() -> bool {
        true
    }

    open spec fn partial_cmp_spec(&self, other: &Self) -> Option<Ordering> {
        node_info_order(self@, other@)
    }
}

impl Clone for NodeInfo {
    /// A copy with the same state.
    fn clone(&self) -> (r: Self)
        ensures
            r@ == self@,
    {
        NodeInfo { down: self.down, capacity: self.capacity.clone() }
    }
}

impl Duplicate for NodeInfo {
    fn duplicate(&self) -> (r: Self) {
        self.clone()
    }
}

impl Default for NodeInfo {
    /// The least node state.
    fn default() -> (r: Self)
        ensures
            r@ == node_info_bot(),
    {
        NodeInfo::bot()
    }
}

impl Comparable for NodeInfo {
    open spec fn spec_at_most(a: NodeInfoView, b: NodeInfoView) -> bool {
        node_info_order(a, b) == Some(Ordering::Less) || node_info_order(a, b) == Some(Ordering::Equal)
    }

    open spec fn spec_at_least(a: NodeInfoView, b: NodeInfoView) -> bool {
        node_info_order(a, b) == Some(Ordering::Greater) || node_info_order(a, b) == Some(Ordering::Equal)
    }

    fn at_most(&self, other: &Self) -> (r: bool) {
        match self.partial_cmp(other) {
            Some(Ordering::Less) => true,
            Some(Ordering::Equal) => true,
            _ => false,
        }
    }

    fn at_least(&self, other: &Self) -> (r: bool) {
        match self.partial_cmp(other) {
            Some(Ordering::Greater) => true,
            Some(Ordering::Equal) => true,
            _ => false,
        }
    }

    proof fn lemma_order_dual(a: NodeInfoView, b: NodeInfoView) {
        lemma_node_info_order_dual(a, b);
    }

    proof fn lemma_order_antisymmetric(a: NodeInfoView, b: NodeInfoView) {
        lemma_node_info_order_dual(a, b);
    }
}

impl PartialEq for NodeInfo {
    /// Whether the two states are the same, field by field.
    fn eq(&self, other: &Self) -> (r: bool) {
        proof {
            lemma_node_info_order_dual(self@, other@);
        }
        is_equal(&self.partial_cmp(other))
    }
}

impl PartialEqSpecImpl for NodeInfo {
    open spec fn obeys_eq_spec() -> bool {
        true
    }

    open spec fn eq_spec(&self, other: &Self) -> bool {
        self@ == other@
    }
}

impl Lattice for NodeInfo {
    open spec fn spec_join(a: NodeInfoView, b: NodeInfoView) -> NodeInfoView {
        NodeInfoView { down: a.down || b.down, capacity: a.capacity.union(b.capacity) }
    }

    open spec fn spec_meet(a: NodeInfoView, b: NodeInfoView) -> NodeInfoView {
        NodeInfoView { down: a.down && b.down, capacity: a.capacity.intersect(b.capacity) }
    }

    /// Joins field by field.
    fn join(&self, other: &Self) -> (r: Self) {
        NodeInfo { down: self.down.join(&other.down), capacity: self.capacity.join(&other.capacity) }
    }

    /// Meets field by field.
    fn meet(&self, other: &Self) -> (r: Self) {
        NodeInfo { down: self.down.meet(&other.down), capacity: self.capacity.meet(&other.capacity) }
    }

    proof fn lemma_join_commutative(a: NodeInfoView, b: NodeInfoView) {
        assert(Self::spec_join(a, b) =~= Self::spec_join(b, a));
    }

    proof fn lemma_join_associative(a: NodeInfoView, b: NodeInfoView, c: NodeInfoView) {
        assert(Self::spec_join(Self::spec_join(a, b), c) =~= Self::spec_join(a, Self::spec_join(b, c)));
    }

    proof fn lemma_join_idempotent(a: NodeInfoView) {
        assert(Self::spec_join(a, a) =~= a);
    }

    proof fn lemma_meet_commutative(a: NodeInfoView, b: NodeInfoView) {
        assert(Self::spec_meet(a, b) =~= Self::spec_meet(b, a));
    }

    proof fn lemma_meet_associative(a: NodeInfoView, b: NodeInfoView, c: NodeInfoView) {
        assert(Self::spec_meet(Self::spec_meet(a, b), c) =~= Self::spec_meet(a, Self::spec_meet(b, c)));
    }

    proof fn lemma_join_absorbs_meet(a: NodeInfoView, b: NodeInfoView) {
        assert(Self::spec_join(a, Self::spec_meet(a, b)) =~= a);
    }
}

impl OrderBot for NodeInfo {
    open spec fn spec_bot() -> NodeInfoView {
        node_info_bot()
    }

    fn bot() -> (r: Self) {
        let r = NodeInfo { down: false, capacity: WriteOnce::empty() };
        assert(r@ =~= node_info_bot());
        r
    }

    fn is_bot(&self) -> (r: bool) {
        let r = !self.down && self.capacity.is_empty();
        proof {
            if r {
                assert(self@ =~= node_info_bot());
            }
        }
        r
    }

    proof fn lemma_bot_join(a: NodeInfoView) {
        assert(Self::spec_join(node_info_bot(), a) =~= a);
    }

    proof fn lemma_bot_meet(a: NodeInfoView) {
        assert(Self::spec_meet(node_info_bot(), a) =~= node_info_bot());
    }
}

/// Job states compare the other way round from the other side, and
/// compare `Equal` exactly when they are the same.
pub proof fn lemma_job_info_order_dual(a: JobInfoView, b: JobInfoView)
    ensures
        job_info_order(a, b) == reverse_order(job_info_order(b, a)),
        job_info_order(a, b) == Some(Ordering::Equal) <==> a == b,
{
    lemma_u64_order_dual(a.phase, b.phase);
    lemma_u64_order_dual(a.priority, b.priority);
    lemma_set_order_dual(a.namespace_id, b.namespace_id);
    lemma_set_order_dual(a.resources, b.resources);
    let r3 = set_order(a.resources, b.resources);
    let r2 = then_order(u64_order(a.priority, b.priority), r3);
    let r1 = then_order(set_order(a.namespace_id, b.namespace_id), r2);
    lemma_then_order_dual(u64_order(a.priority, b.priority), r3);
    lemma_then_order_dual(set_order(a.namespace_id, b.namespace_id), r2);
    lemma_then_order_dual(u64_order(a.phase, b.phase), r1);
    if job_info_order(a, b) == Some(Ordering::Equal) {
        assert(a =~= b);
    }
}

/// Node states compare the other way round from the other side, and
/// compare `Equal` exactly when they are the same.
pub proof fn lemma_node_info_order_dual(a: NodeInfoView, b: NodeInfoView)
    ensures
        node_info_order(a, b) == reverse_order(node_info_order(b, a)),
        node_info_order(a, b) == Some(Ordering::Equal) <==> a == b,
{
    lemma_bool_order_dual(a.down, b.down);
    lemma_set_order_dual(a.capacity, b.capacity);
    lemma_then_order_dual(bool_order(a.down, b.down), set_order(a.capacity, b.capacity));
    if node_info_order(a, b) == Some(Ordering::Equal) {
        assert(a =~= b);
    }
}

/// Meeting a job state with itself gives it back.
pub proof fn lemma_job_info_meet_idempotent(a: JobInfoView)
    ensures
        JobInfo::spec_meet(a, a) == a,
{
    assert(JobInfo::spec_meet(a, a) =~= a);
}

/// Meeting a node state with itself gives it back.
pub proof fn lemma_node_info_meet_idempotent(a: NodeInfoView)
    ensures
        NodeInfo::spec_meet(a, a) == a,
{
    assert(NodeInfo::spec_meet(a, a) =~= a);
}

/// Meeting a job state with its join with another gives it back.
pub proof fn lemma_job_info_meet_absorbs_join(a: JobInfoView, b: JobInfoView)
    ensures
        JobInfo::spec_meet(a, JobInfo::spec_join(a, b)) == a,
{
    assert(JobInfo::spec_meet(a, JobInfo::spec_join(a, b)) =~= a);
}

/// Meeting a node state with its join with another gives it back.
pub proof fn lemma_node_info_meet_absorbs_join(a: NodeInfoView, b: NodeInfoView)
    ensures
        NodeInfo::spec_meet(a, NodeInfo::spec_join(a, b)) == a,
{
    assert(NodeInfo::spec_meet(a, NodeInfo::spec_join(a, b)) =~= a);
}

/// The fieldwise meet of two job states is their greatest lower bound.
pub proof fn lemma_job_info_meet_is_greatest_lower_bound(a: JobInfoView, b: JobInfoView, c: JobInfoView)
    ensures
        lattice_le::<JobInfo>(JobInfo::spec_meet(a, b), a),
        lattice_le::<JobInfo>(JobInfo::spec_meet(a, b), b),
        lattice_le::<JobInfo>(c, a) && lattice_le::<JobInfo>(c, b) ==> lattice_le::<JobInfo>(
            c,
            JobInfo::spec_meet(a, b),
        ),
{
    lemma_job_info_meet_absorbs_join(c, a);
    lemma_job_info_meet_absorbs_join(c, b);
    lemma_meet_is_greatest_lower_bound::<JobInfo>(a, b, c);
}

/// The fieldwise meet of two node states is their greatest lower bound.
pub proof fn lemma_node_info_meet_is_greatest_lower_bound(a: NodeInfoView, b: NodeInfoView, c: NodeInfoView)
    ensures
        lattice_le::<NodeInfo>(NodeInfo::spec_meet(a, b), a),
        lattice_le::<NodeInfo>(NodeInfo::spec_meet(a, b), b),
        lattice_le::<NodeInfo>(c, a) && lattice_le::<NodeInfo>(c, b) ==> lattice_le::<NodeInfo>(
            c,
            NodeInfo::spec_meet(a, b),
        ),
{
    lemma_node_info_meet_absorbs_join(c, a);
    lemma_node_info_meet_absorbs_join(c, b);
    lemma_meet_is_greatest_lower_bound::<NodeInfo>(a, b, c);
}

/// A job state that lies below another in the order that `join` induces
/// never compares greater than it: it compares `Less` or `Equal`.
pub proof fn lemma_job_info_order_refines_join(a: JobInfoView, b: JobInfoView)
    requires
        lattice_le::<JobInfo>(a, b),
    ensures
        job_info_order(a, b) == Some(Ordering::Less) || job_info_order(a, b) == Some(Ordering::Equal),
{
    assert(a.namespace_id.union(b.namespace_id) == b.namespace_id);
    assert(a.resources.union(b.resources) == b.resources);
    lemma_write_once_order_matches_join::<String>(a.namespace_id, b.namespace_id);
    lemma_write_once_order_matches_join::<u64>(a.resources, b.resources);
}

/// A node state that lies below another in the order that `join` induces
/// never compares greater than it: it compares `Less` or `Equal`.
pub proof fn lemma_node_info_order_refines_join(a: NodeInfoView, b: NodeInfoView)
    requires
        lattice_le::<NodeInfo>(a, b),
    ensures
        node_info_order(a, b) == Some(Ordering::Less) || node_info_order(a, b) == Some(Ordering::Equal),
{
    assert(a.capacity.union(b.capacity) == b.capacity);
    lemma_write_once_order_matches_join::<u64>(a.capacity, b.capacity);
}

/// The state of the whole system.
#[verifier::ext_equal]
pub struct FactsView {
    pub jobs: Map<Seq<char>, JobInfoView>,
    pub nodes: Map<Seq<char>, NodeInfoView>,
}

/// The state of the whole system: what is known of each job and each
/// node, by id. A missing id stands for the least state.
pub struct Facts {
    pub jobs: StrMap<JobInfo>,
    pub nodes: StrMap<NodeInfo>,
}

impl View for Facts {
    type V = FactsView;

    open spec fn view(&self) -> FactsView {
        FactsView { jobs: self.jobs@, nodes: self.nodes@ }
    }
}

/// The least state: nothing known of any job or node.
pub open spec fn facts_bot() -> FactsView {
    FactsView { jobs: Map::empty(), nodes: Map::empty() }
}

/// How two states compare, job by job and node by node, the least state
/// standing in for an id that one side does not know: `Equal` when every
/// job and node compares `Equal`, `Less` when every one compares `Less` or
/// `Equal`, `Greater` when every one compares `Greater` or `Equal`, and
/// `None` otherwise.
pub open spec fn facts_order(a: FactsView, b: FactsView) -> Option<Ordering> {
    let le = map_le_flag::<JobInfo>(a.jobs, b.jobs) && map_le_flag::<NodeInfo>(a.nodes, b.nodes);
    let ge = map_ge_flag::<JobInfo>(a.jobs, b.jobs) && map_ge_flag::<NodeInfo>(a.nodes, b.nodes);
    if le && ge {
        Some(Ordering::Equal)
    } else if le {
        Some(Ordering::Less)
    } else if ge {
        Some(Ordering::Greater)
    } else {
        None
    }
}

impl Facts {
    /// The empty state.
    pub fn new() -> (r: Self)
        ensures
            r@ == facts_bot(),
    {
        Facts { jobs: StrMap::new(), nodes: StrMap::new() }
    }

}

impl PartialEq for Facts {
    /// Whether the two states know the same job ids and node ids, with the
    /// same state for each.
    fn eq(&self, other: &Self) -> (r: bool) {
        let r = maps_equal(&self.jobs, &other.jobs) && maps_equal(&self.nodes, &other.nodes);
        proof {
            if r {
                assert(self@ =~= other@);
            }
        }
        r
    }
}

impl PartialEqSpecImpl for Facts {
    open spec fn obeys_eq_spec() -> bool {
        true
    }

    open spec fn eq_spec(&self, other: &Self) -> bool {
        self@ == other@
    }
}

impl Clone for Facts {
    /// A copy with the same state.
    fn clone(&self) -> (r: Self)
        ensures
            r@ == self@,
    {
        let r = self.join(&Facts::bot());
        proof {
            Facts::lemma_join_commutative(self@, facts_bot());
            Facts::lemma_bot_join(self@);
        }
        r
    }
}

impl PartialOrd for Facts {
    /// Compares two states job by job and node by node (see `facts_order`).
    fn partial_cmp(&self, other: &Self) -> (r: Option<Ordering>)
    {
        let (jobs_le, jobs_ge) = order_flags(&self.jobs, &other.jobs);
        let (nodes_le, nodes_ge) = order_flags(&self.nodes, &other.nodes);
        let le = jobs_le && nodes_le;
        let ge = jobs_ge && nodes_ge;
        if le && ge {
            Some(Ordering::Equal)
        } else if le {
            Some(Ordering::Less)
        } else if ge {
            Some(Ordering::Greater)
        } else {
            None
        }
    }
}

impl PartialOrdSpecImpl for Facts {
    open spec fn obeys_partial_cmp_spec() -> bool {
        true
    }

    open spec fn partial_cmp_spec(&self, other: &Self) -> Option<Ordering> {
        facts_order(self@, other@)
    }
}

impl Default for Facts {
    /// The empty state.
    fn default() -> (r: Self)
        ensures
            r@ == facts_bot(),
    {
        Facts::new()
    }
}

impl Lattice for Facts {
    open spec fn spec_join(a: FactsView, b: FactsView) -> FactsView {
        FactsView { jobs: map_join::<JobInfo>(a.jobs, b.jobs), nodes: map_join::<NodeInfo>(a.nodes, b.nodes) }
    }

    open spec fn spec_meet(a: FactsView, b: FactsView) -> FactsView {
        FactsView { jobs: map_meet::<JobInfo>(a.jobs, b.jobs), nodes: map_meet::<NodeInfo>(a.nodes, b.nodes) }
    }

    /// Joins job by job and node by node; an id that only one side knows
    /// keeps its state.
    fn join(&self, other: &Self) -> (r: Self) {
        Facts { jobs: join_maps(&self.jobs, &other.jobs), nodes: join_maps(&self.nodes, &other.nodes) }
    }

    /// Meets job by job and node by node; ids whose meet is the least state
    /// are left out.
    fn meet(&self, other: &Self) -> (r: Self) {
        Facts { jobs: meet_maps(&self.jobs, &other.jobs), nodes: meet_maps(&self.nodes, &other.nodes) }
    }

    proof fn lemma_join_commutative(a: FactsView, b: FactsView) {
        lemma_map_join_commutative::<JobInfo>(a.jobs, b.jobs);
        lemma_map_join_commutative::<NodeInfo>(a.nodes, b.nodes);
    }

    proof fn lemma_join_associative(a: FactsView, b: FactsView, c: FactsView) {
        lemma_map_join_associative::<JobInfo>(a.jobs, b.jobs, c.jobs);
        lemma_map_join_associative::<NodeInfo>(a.nodes, b.nodes, c.nodes);
    }

    proof fn lemma_join_idempotent(a: FactsView) {
        lemma_map_join_idempotent::<JobInfo>(a.jobs);
        lemma_map_join_idempotent::<NodeInfo>(a.nodes);
    }

    proof fn lemma_meet_commutative(a: FactsView, b: FactsView) {
        lemma_map_meet_commutative::<JobInfo>(a.jobs, b.jobs);
        lemma_map_meet_commutative::<NodeInfo>(a.nodes, b.nodes);
    }

    proof fn lemma_meet_associative(a: FactsView, b: FactsView, c: FactsView) {
        lemma_map_meet_associative::<JobInfo>(a.jobs, b.jobs, c.jobs);
        lemma_map_meet_associative::<NodeInfo>(a.nodes, b.nodes, c.nodes);
    }

    proof fn lemma_join_absorbs_meet(a: FactsView, b: FactsView) {
        lemma_map_join_absorbs_meet::<JobInfo>(a.jobs, b.jobs);
        lemma_map_join_absorbs_meet::<NodeInfo>(a.nodes, b.nodes);
    }
}

impl OrderBot for Facts {
    open spec fn spec_bot() -> FactsView {
        facts_bot()
    }

    fn bot() -> (r: Self) {
        Facts::new()
    }

    fn is_bot(&self) -> (r: bool) {
        let r = self.jobs.len() == 0 && self.nodes.len() == 0;
        proof {
            if r {
                assert(self.jobs@ =~= Map::empty());
                assert(self.nodes@ =~= Map::empty());
            } else if self.jobs.keys().len() != 0 {
                assert(self.jobs@.contains_key(self.jobs.keys()[0]));
            } else {
                assert(self.nodes@.contains_key(self.nodes.keys()[0]));
            }
        }
        r
    }

    proof fn lemma_bot_join(a: FactsView) {
        lemma_map_bot_join::<JobInfo>(a.jobs);
        lemma_map_bot_join::<NodeInfo>(a.nodes);
    }

    proof fn lemma_bot_meet(a: FactsView) {
        lemma_map_bot_meet::<JobInfo>(a.jobs);
        lemma_map_bot_meet::<NodeInfo>(a.nodes);
    }
}

/// Meeting a state with itself gives it back exactly when no job and no
/// node is recorded with the least state (the meet leaves such ids out).
pub proof fn lemma_facts_meet_idempotent(a: FactsView)
    ensures
        (no_bot_values::<JobInfo>(a.jobs) && no_bot_values::<NodeInfo>(a.nodes)) <==> Facts::spec_meet(a, a) == a,
{
    assert forall|x: JobInfoView| #[trigger] JobInfo::spec_meet(x, x) == x by {
        lemma_job_info_meet_idempotent(x);
    }
    assert forall|x: NodeInfoView| #[trigger] NodeInfo::spec_meet(x, x) == x by {
        lemma_node_info_meet_idempotent(x);
    }
    lemma_map_meet_idempotent::<JobInfo>(a.jobs);
    lemma_map_meet_idempotent::<NodeInfo>(a.nodes);
}

/// Every state compares `Equal` to itself.
pub proof fn lemma_facts_order_reflexive(a: FactsView)
    ensures
        facts_order(a, a) == Some(Ordering::Equal),
{
    lemma_map_flags_equal::<JobInfo>(a.jobs, a.jobs);
    lemma_map_flags_equal::<NodeInfo>(a.nodes, a.nodes);
}

/// Two states compare the other way round from the other side: `a` is
/// below `b` exactly when `b` is above `a`.
pub proof fn lemma_facts_order_dual(a: FactsView, b: FactsView)
    ensures
        facts_order(a, b) == reverse_order(facts_order(b, a)),
{
    lemma_map_flags_dual::<JobInfo>(a.jobs, b.jobs);
    lemma_map_flags_dual::<NodeInfo>(a.nodes, b.nodes);
}

/// Two states compare `Equal` exactly when they hold the same state for
/// every job id and every node id, the least state standing in for an id
/// that one side does not know.
pub proof fn lemma_facts_order_equal(a: FactsView, b: FactsView)
    ensures
        facts_order(a, b) == Some(Ordering::Equal) <==> (same_values::<JobInfo>(a.jobs, b.jobs)
            && same_values::<NodeInfo>(a.nodes, b.nodes)),
{
    lemma_map_flags_equal::<JobInfo>(a.jobs, b.jobs);
    lemma_map_flags_equal::<NodeInfo>(a.nodes, b.nodes);
}

/// A state that lies below another in the order that `join` induces is
/// reported `Less` or `Equal`.
pub proof fn lemma_facts_order_refines_join(a: FactsView, b: FactsView)
    requires
        lattice_le::<Facts>(a, b),
    ensures
        facts_order(a, b) == Some(Ordering::Less) || facts_order(a, b) == Some(Ordering::Equal),
{
    assert forall|k: Seq<char>| (a.jobs.contains_key(k) || b.jobs.contains_key(k)) implies JobInfo::spec_at_most(
        value_or_bot::<JobInfo>(a.jobs, k),
        value_or_bot::<JobInfo>(b.jobs, k),
    ) by {
        lemma_map_join_value::<JobInfo>(a.jobs, b.jobs, k);
        lemma_job_info_order_refines_join(value_or_bot::<JobInfo>(a.jobs, k), value_or_bot::<JobInfo>(b.jobs, k));
    }
    assert forall|k: Seq<char>| (a.nodes.contains_key(k) || b.nodes.contains_key(k)) implies NodeInfo::spec_at_most(
        value_or_bot::<NodeInfo>(a.nodes, k),
        value_or_bot::<NodeInfo>(b.nodes, k),
    ) by {
        lemma_map_join_value::<NodeInfo>(a.nodes, b.nodes, k);
        lemma_node_info_order_refines_join(
            value_or_bot::<NodeInfo>(a.nodes, k),
            value_or_bot::<NodeInfo>(b.nodes, k),
        );
    }
}

/// `a` lies below `b` id by id: every job's and every node's state in `a`
/// lies below its state in `b` in the order that `join` induces, the least
/// state standing in for an id that one side does not know.
pub open spec fn facts_pointwise_le(a: FactsView, b: FactsView) -> bool {
    &&& forall|k: Seq<char>|
        #[trigger] lattice_le::<JobInfo>(value_or_bot::<JobInfo>(a.jobs, k), value_or_bot::<JobInfo>(b.jobs, k))
    &&& forall|k: Seq<char>|
        #[trigger] lattice_le::<NodeInfo>(value_or_bot::<NodeInfo>(a.nodes, k), value_or_bot::<NodeInfo>(b.nodes, k))
}

/// The meet of two states is their greatest lower bound id by id: it lies
/// below both, and every state below both lies below it. (In the order
/// that `join` induces on whole states this fails for a state that records
/// an id with the least state: the meet leaves such ids out.)
pub proof fn lemma_facts_meet_is_greatest_lower_bound(a: FactsView, b: FactsView, c: FactsView)
    ensures
        facts_pointwise_le(Facts::spec_meet(a, b), a),
        facts_pointwise_le(Facts::spec_meet(a, b), b),
        facts_pointwise_le(c, a) && facts_pointwise_le(c, b) ==> facts_pointwise_le(c, Facts::spec_meet(a, b)),
{
    let m = Facts::spec_meet(a, b);
    assert forall|k: Seq<char>| #[trigger] lattice_le::<JobInfo>(value_or_bot::<JobInfo>(m.jobs, k), value_or_bot::<JobInfo>(a.jobs, k)) by {
        lemma_map_meet_value::<JobInfo>(a.jobs, b.jobs, k);
        lemma_job_info_meet_is_greatest_lower_bound(value_or_bot::<JobInfo>(a.jobs, k), value_or_bot::<JobInfo>(b.jobs, k), value_or_bot::<JobInfo>(a.jobs, k));
    }
    assert forall|k: Seq<char>| #[trigger] lattice_le::<JobInfo>(value_or_bot::<JobInfo>(m.jobs, k), value_or_bot::<JobInfo>(b.jobs, k)) by {
        lemma_map_meet_value::<JobInfo>(a.jobs, b.jobs, k);
        lemma_job_info_meet_is_greatest_lower_bound(value_or_bot::<JobInfo>(a.jobs, k), value_or_bot::<JobInfo>(b.jobs, k), value_or_bot::<JobInfo>(a.jobs, k));
    }
    assert forall|k: Seq<char>| #[trigger] lattice_le::<NodeInfo>(value_or_bot::<NodeInfo>(m.nodes, k), value_or_bot::<NodeInfo>(a.nodes, k)) by {
        lemma_map_meet_value::<NodeInfo>(a.nodes, b.nodes, k);
        lemma_node_info_meet_is_greatest_lower_bound(value_or_bot::<NodeInfo>(a.nodes, k), value_or_bot::<NodeInfo>(b.nodes, k), value_or_bot::<NodeInfo>(a.nodes, k));
    }
    assert forall|k: Seq<char>| #[trigger] lattice_le::<NodeInfo>(value_or_bot::<NodeInfo>(m.nodes, k), value_or_bot::<NodeInfo>(b.nodes, k)) by {
        lemma_map_meet_value::<NodeInfo>(a.nodes, b.nodes, k);
        lemma_node_info_meet_is_greatest_lower_bound(value_or_bot::<NodeInfo>(a.nodes, k), value_or_bot::<NodeInfo>(b.nodes, k), value_or_bot::<NodeInfo>(a.nodes, k));
    }
    if facts_pointwise_le(c, a) && facts_pointwise_le(c, b) {
        assert forall|k: Seq<char>| #[trigger] lattice_le::<JobInfo>(value_or_bot::<JobInfo>(c.jobs, k), value_or_bot::<JobInfo>(m.jobs, k)) by {
            lemma_map_meet_value::<JobInfo>(a.jobs, b.jobs, k);
            assert(lattice_le::<JobInfo>(value_or_bot::<JobInfo>(c.jobs, k), value_or_bot::<JobInfo>(a.jobs, k)));
            assert(lattice_le::<JobInfo>(value_or_bot::<JobInfo>(c.jobs, k), value_or_bot::<JobInfo>(b.jobs, k)));
            lemma_job_info_meet_is_greatest_lower_bound(value_or_bot::<JobInfo>(a.jobs, k), value_or_bot::<JobInfo>(b.jobs, k), value_or_bot::<JobInfo>(c.jobs, k));
        }
        assert forall|k: Seq<char>| #[trigger] lattice_le::<NodeInfo>(value_or_bot::<NodeInfo>(c.nodes, k), value_or_bot::<NodeInfo>(m.nodes, k)) by {
            lemma_map_meet_value::<NodeInfo>(a.nodes, b.nodes, k);
            assert(lattice_le::<NodeInfo>(value_or_bot::<NodeInfo>(c.nodes, k), value_or_bot::<NodeInfo>(a.nodes, k)));
            assert(lattice_le::<NodeInfo>(value_or_bot::<NodeInfo>(c.nodes, k), value_or_bot::<NodeInfo>(b.nodes, k)));
            lemma_node_info_meet_is_greatest_lower_bound(value_or_bot::<NodeInfo>(a.nodes, k), value_or_bot::<NodeInfo>(b.nodes, k), value_or_bot::<NodeInfo>(c.nodes, k));
        }
    }
}

/// The least state is reported `Less` than, or `Equal` to, every state.
pub proof fn lemma_facts_bot_order(b: FactsView)
    ensures
        facts_order(facts_bot(), b) == Some(Ordering::Less) || facts_order(facts_bot(), b) == Some(Ordering::Equal),
{
    Facts::lemma_bot_join(b);
    lemma_facts_order_refines_join(facts_bot(), b);
}

} // verus!
