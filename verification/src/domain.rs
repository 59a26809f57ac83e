//! The domain's data: events and their payloads, namespace and generator
//! specifications, and the control plane's requests.

use vstd::prelude::*;
use crate::str_map::{StrMap, Duplicate};
use vstd::std_specs::cmp::PartialEqSpecImpl;

verus! {

/// The view of an optional string.
pub open spec fn opt_str(o: Option<String>) -> Option<Seq<char>> {
    match o {
        Some(s) => Some(s@),
        None => None,
    }
}

/// A copy of an optional string.
pub fn copy_opt_str(o: &Option<String>) -> (r: Option<String>)
    ensures
        opt_str(r) == opt_str(*o),
{
    match o {
        Some(s) => Some(s.clone()),
        None => None,
    }
}

/// A job's work specification: named fields with textual values.
pub type WorkSpec = StrMap<String>;

/// Whether the event's kind is `kind`.
pub fn kind_is(e: &Event, kind: &str) -> (r: bool)
    ensures
        r == (e.kind@ == kind@),
{
    let k = kind.to_owned();
    e.kind == k
}

/// The value of a field of a work specification, if it is there.
pub fn field<'a>(spec: &'a WorkSpec, key: &str) -> (r: Option<&'a String>)
    ensures
        match r {
            Some(v) => spec@.contains_key(key@) && v@ == spec@[key@],
            None => !spec@.contains_key(key@),
        },
{
    let k = key.to_owned();
    spec.get(&k)
}

/// The system-level context of an event.
#[verifier::ext_equal]
pub struct SysContextView {
    pub job_id: Option<Seq<char>>,
    pub ns_id: Option<Seq<char>>,
    pub node_id: Option<Seq<char>>,
    pub target: Option<Seq<char>>,
    pub priority: Option<u64>,
    pub slots: Option<u64>,
}

/// The system-level context of an event: which job, namespace, node and
/// generator it concerns, and the job's priority and slots.
#[derive(Debug, PartialOrd)]
pub struct SysContext {
    pub job_id: Option<String>,
    pub ns_id: Option<String>,
    pub node_id: Option<String>,
    pub target: Option<String>,
    pub priority: Option<u64>,
    pub slots: Option<u64>,
}

impl View for SysContext {
    type V = SysContextView;

    open spec fn view(&self) -> SysContextView {
        SysContextView {
            job_id: opt_str(self.job_id),
            ns_id: opt_str(self.ns_id),
            node_id: opt_str(self.node_id),
            target: opt_str(self.target),
            priority: self.priority,
            slots: self.slots,
        }
    }
}

impl Default for SysContext {
    /// The context that names nothing.
    fn default() -> (r: Self)
        ensures
            r@ == (SysContextView {
                job_id: None,
                ns_id: None,
                node_id: None,
                target: None,
                priority: None,
                slots: None,
            }),
    {
        SysContext { job_id: None, ns_id: None, node_id: None, target: None, priority: None, slots: None }
    }
}

/// What an event carries.
#[verifier::ext_equal]
pub struct PayloadView {
    pub ctx: SysContextView,
    pub spec: Map<Seq<char>, Seq<char>>,
}

/// What an event carries: its context and the work specification.
pub struct Payload {
    pub ctx: SysContext,
    pub spec: WorkSpec,
}

impl View for Payload {
    type V = PayloadView;

    open spec fn view(&self) -> PayloadView {
        PayloadView { ctx: self.ctx@, spec: self.spec@ }
    }
}

/// An event of the data plane.
#[verifier::ext_equal]
pub struct EventView {
    pub kind: Seq<char>,
    pub payload: PayloadView,
}

/// An event of the data plane: what happened, and its payload.
pub struct Event {
    pub kind: String,
    pub payload: Payload,
}

impl View for Event {
    type V = EventView;

    open spec fn view(&self) -> EventView {
        EventView { kind: self.kind@, payload: self.payload@ }
    }
}

/// The type that a field of a work specification must have.
#[derive(Clone, Copy, Debug, PartialEq, Eq, Structural)]
pub enum FieldType {
    String,
    Int,
    Bool,
}

impl View for FieldType {
    type V = FieldType;

    open spec fn view(&self) -> FieldType {
        *self
    }
}

/// A requirement on one field of a work specification.
#[verifier::ext_equal]
pub struct FieldReqView {
    pub key: Seq<char>,
    pub required: bool,
    pub expected_type: FieldType,
}

/// A requirement on one field of a work specification: its key, whether it
/// must be present, and the type its value must have.
#[derive(Debug)]
pub struct FieldReq {
    pub key: String,
    pub required: bool,
    pub expected_type: FieldType,
}

impl View for FieldReq {
    type V = FieldReqView;

    open spec fn view(&self) -> FieldReqView {
        FieldReqView { key: self.key@, required: self.required, expected_type: self.expected_type }
    }
}

/// The views of a sequence of field requirements.
pub open spec fn schema_view(schema: Seq<FieldReq>) -> Seq<FieldReqView> {
    schema.map_values(|r: FieldReq| r@)
}

/// What a namespace declares.
#[verifier::ext_equal]
pub struct NamespaceSpecView {
    pub preemptible: bool,
    pub handler_type: Seq<char>,
    pub schema: Seq<FieldReqView>,
}

/// What a namespace declares: whether its jobs may be preempted, which
/// handler runs them, and the schema of their work specifications.
#[derive(Debug)]
pub struct NamespaceSpec {
    pub preemptible: bool,
    pub handler_type: String,
    pub schema: Vec<FieldReq>,
}

impl View for NamespaceSpec {
    type V = NamespaceSpecView;

    open spec fn view(&self) -> NamespaceSpecView {
        NamespaceSpecView {
            preemptible: self.preemptible,
            handler_type: self.handler_type@,
            schema: schema_view(self.schema@),
        }
    }
}

/// Which delta function turns an event into facts.
#[derive(Clone, Copy, Debug, PartialEq, Eq, Structural)]
pub enum DeltaFn {
    /// Every event gives the least state.
    Bottom,
    /// The batch namespace's delta function.
    Batch,
    /// The simulation namespace's delta function.
    Simulation,
    /// The resource monitor's delta function.
    Monitor,
}

impl View for DeltaFn {
    type V = DeltaFn;

    open spec fn view(&self) -> DeltaFn {
        *self
    }
}

/// The delta function of a generator whose own was not transmitted: it
/// gives the least state for every event.
pub fn dummy_delta_fn() -> (r: DeltaFn)
    ensures
        r == DeltaFn::Bottom,
{
    DeltaFn::Bottom
}

/// What a generator declares.
#[verifier::ext_equal]
pub struct GeneratorSpecView {
    pub delta_fn: DeltaFn,
    pub kind: Seq<char>,
    pub callback_url: Option<Seq<char>>,
}

/// What a generator declares: its delta function, its kind, and the URL at
/// which it wants to be poked, if any.
#[derive(Debug)]
pub struct GeneratorSpec {
    pub delta_fn: DeltaFn,
    pub kind: String,
    pub callback_url: Option<String>,
}

impl View for GeneratorSpec {
    type V = GeneratorSpecView;

    open spec fn view(&self) -> GeneratorSpecView {
        GeneratorSpecView { delta_fn: self.delta_fn, kind: self.kind@, callback_url: opt_str(self.callback_url) }
    }
}

/// The registered namespaces and generators, by id.
pub struct Registration {
    pub namespaces: StrMap<NamespaceSpec>,
    pub generators: StrMap<GeneratorSpec>,
}

impl Default for Registration {
    /// No namespace and no generator.
    fn default() -> (r: Self)
        ensures
            r.namespaces@ == Map::<Seq<char>, NamespaceSpecView>::empty(),
            r.generators@ == Map::<Seq<char>, GeneratorSpecView>::empty(),
    {
        Registration { namespaces: StrMap::new(), generators: StrMap::new() }
    }
}

/// A request of the control plane.
#[derive(Debug)]
pub enum ControlRequest {
    /// Registers (or replaces) a namespace under an id.
    RegisterNamespace(String, NamespaceSpec),
    /// Registers (or replaces) a generator under an id.
    RegisterGenerator(String, GeneratorSpec),
}

/// A notification to a generator that there is news for it.
#[derive(Debug)]
pub struct Poke {
    pub gid: String,
}

/// The parameters of a pull: which generator, and from which cursor on.
#[derive(Debug)]
pub struct PullParams {
    pub gid: String,
    pub cursor: u64,
}

/// Whether two optional strings are the same.
pub fn opt_str_eq(a: &Option<String>, b: &Option<String>) -> (r: bool)
    ensures
        r == (opt_str(*a) == opt_str(*b)),
{
    match (a, b) {
        (Some(x), Some(y)) => *x == *y,
        (None, None) => true,
        _ => false,
    }
}

impl Clone for SysContext {
    /// A copy naming the same job, namespace, node and generator.
    fn clone(&self) -> (r: Self)
        ensures
            r@ == self@,
    {
        SysContext {
            job_id: copy_opt_str(&self.job_id),
            ns_id: copy_opt_str(&self.ns_id),
            node_id: copy_opt_str(&self.node_id),
            target: copy_opt_str(&self.target),
            priority: self.priority,
            slots: self.slots,
        }
    }
}

impl PartialEq for SysContext {
    /// Whether the two contexts name the same job, namespace, node and
    /// generator, with the same priority and slots.
    fn eq(&self, other: &Self) -> (r: bool) {
        let r = opt_str_eq(&self.job_id, &other.job_id) && opt_str_eq(&self.ns_id, &other.ns_id) && opt_str_eq(
            &self.node_id,
            &other.node_id,
        ) && opt_str_eq(&self.target, &other.target) && self.priority == other.priority && self.slots
            == other.slots;
        proof {
            if r {
                assert(self@ =~= other@);
            }
        }
        r
    }
}

impl PartialEqSpecImpl for SysContext {
    open spec fn obeys_eq_spec() -> bool {
        true
    }

    open spec fn eq_spec(&self, other: &Self) -> bool {
        self@ == other@
    }
}

impl Clone for Payload {
    /// A copy with the same context and work specification.
    fn clone(&self) -> (r: Self)
        ensures
            r@ == self@,
    {
        Payload { ctx: self.ctx.clone(), spec: self.spec.clone() }
    }
}

impl PartialEq for Payload {
    /// Whether the two payloads have the same context and work
    /// specification.
    fn eq(&self, other: &Self) -> (r: bool) {
        let r = self.ctx == other.ctx && self.spec == other.spec;
        proof {
            if r {
                assert(self@ =~= other@);
            }
        }
        r
    }
}

impl PartialEqSpecImpl for Payload {
    open spec fn obeys_eq_spec() -> bool {
        true
    }

    open spec fn eq_spec(&self, other: &Self) -> bool {
        self@ == other@
    }
}

impl Clone for Event {
    /// A copy of the same kind with the same payload.
    fn clone(&self) -> (r: Self)
        ensures
            r@ == self@,
    {
        Event { kind: self.kind.clone(), payload: self.payload.clone() }
    }
}

impl PartialEq for Event {
    /// Whether the two events are of the same kind with the same payload.
    fn eq(&self, other: &Self) -> (r: bool) {
        let r = self.kind == other.kind && self.payload == other.payload;
        proof {
            if r {
                assert(self@ =~= other@);
            }
        }
        r
    }
}

impl PartialEqSpecImpl for Event {
    open spec fn obeys_eq_spec() -> bool {
        true
    }

    open spec fn eq_spec(&self, other: &Self) -> bool {
        self@ == other@
    }
}

impl Clone for FieldReq {
    /// A copy of the same requirement.
    fn clone(&self) -> (r: Self)
        ensures
            r@ == self@,
    {
        FieldReq { key: self.key.clone(), required: self.required, expected_type: self.expected_type }
    }
}

impl PartialEq for FieldReq {
    /// Whether the two requirements are the same.
    fn eq(&self, other: &Self) -> (r: bool) {
        let r = self.key == other.key && self.required == other.required && self.expected_type
            == other.expected_type;
        proof {
            if r {
                assert(self@ =~= other@);
            }
        }
        r
    }
}

impl PartialEqSpecImpl for FieldReq {
    open spec fn obeys_eq_spec() -> bool {
        true
    }

    open spec fn eq_spec(&self, other: &Self) -> bool {
        self@ == other@
    }
}

impl Clone for NamespaceSpec {
    /// A copy declaring the same namespace.
    fn clone(&self) -> (r: Self)
        ensures
            r@ == self@,
    {
        let mut schema: Vec<FieldReq> = Vec::new();
        let mut i: usize = 0;
        while i < self.schema.len()
            invariant
                i <= self.schema@.len(),
                schema_view(schema@) == schema_view(self.schema@).take(i as int),
                schema@.len() == i,
            decreases self.schema.len() - i,
        {
            let ghost prev = schema@;
            schema.push(self.schema[i].clone());
            proof {
                assert forall|j: int| 0 <= j < i + 1 implies #[trigger] schema_view(schema@)[j]
                    == schema_view(self.schema@).take(i + 1)[j] by {
                    if j < i {
                        assert(schema_view(prev)[j] == schema_view(self.schema@).take(i as int)[j]);
                    }
                }
            }
            i = i + 1;
            assert(schema_view(schema@) =~= schema_view(self.schema@).take(i as int));
        }
        assert(schema_view(self.schema@).take(i as int) =~= schema_view(self.schema@));
        NamespaceSpec { preemptible: self.preemptible, handler_type: self.handler_type.clone(), schema }
    }
}

impl PartialEq for NamespaceSpec {
    /// Whether the two namespaces are declared alike.
    fn eq(&self, other: &Self) -> (r: bool) {
        if !(self.preemptible == other.preemptible && self.handler_type == other.handler_type) {
            return false;
        }
        if self.schema.len() != other.schema.len() {
            assert(schema_view(self.schema@).len() != schema_view(other.schema@).len());
            return false;
        }
        let mut i: usize = 0;
        while i < self.schema.len()
            invariant
                i <= self.schema@.len(),
                self.schema@.len() == other.schema@.len(),
                forall|j: int| 0 <= j < i ==> #[trigger] schema_view(self.schema@)[j] == schema_view(other.schema@)[j],
            decreases self.schema.len() - i,
        {
            if !(self.schema[i] == other.schema[i]) {
                assert(schema_view(self.schema@)[i as int] != schema_view(other.schema@)[i as int]);
                return false;
            }
            i = i + 1;
        }
        assert(schema_view(self.schema@) =~= schema_view(other.schema@));
        assert(self@ =~= other@);
        true
    }
}

impl PartialEqSpecImpl for NamespaceSpec {
    open spec fn obeys_eq_spec() -> bool {
        true
    }

    open spec fn eq_spec(&self, other: &Self) -> bool {
        self@ == other@
    }
}

impl Duplicate for NamespaceSpec {
    fn duplicate(&self) -> (r: Self) {
        self.clone()
    }
}

impl Clone for GeneratorSpec {
    /// A copy declaring the same generator.
    fn clone(&self) -> (r: Self)
        ensures
            r@ == self@,
    {
        GeneratorSpec {
            delta_fn: self.delta_fn,
            kind: self.kind.clone(),
            callback_url: copy_opt_str(&self.callback_url),
        }
    }
}

impl Duplicate for GeneratorSpec {
    fn duplicate(&self) -> (r: Self) {
        self.clone()
    }
}

impl Duplicate for DeltaFn {
    fn duplicate(&self) -> (r: Self) {
        *self
    }
}

impl Clone for Registration {
    /// A copy with the same namespaces and generators.
    fn clone(&self) -> (r: Self)
        ensures
            r.namespaces@ == self.namespaces@,
            r.generators@ == self.generators@,
    {
        Registration { namespaces: self.namespaces.clone(), generators: self.generators.clone() }
    }
}

impl Clone for ControlRequest {
    /// A copy of the same request.
    fn clone(&self) -> (r: Self)
        ensures
            match (*self, r) {
                (ControlRequest::RegisterNamespace(a, s), ControlRequest::RegisterNamespace(b, t)) => a@ == b@
                    && s@ == t@,
                (ControlRequest::RegisterGenerator(a, s), ControlRequest::RegisterGenerator(b, t)) => a@ == b@
                    && s@ == t@,
                _ => false,
            },
    {
        match self {
            ControlRequest::RegisterNamespace(id, spec) => ControlRequest::RegisterNamespace(id.clone(), spec.clone()),
            ControlRequest::RegisterGenerator(id, spec) => ControlRequest::RegisterGenerator(id.clone(), spec.clone()),
        }
    }
}

impl Clone for Poke {
    /// A poke for the same generator.
    fn clone(&self) -> (r: Self)
        ensures
            r.gid@ == self.gid@,
    {
        Poke { gid: self.gid.clone() }
    }
}

impl Clone for PullParams {
    /// The same pull parameters.
    fn clone(&self) -> (r: Self)
        ensures
            r.gid@ == self.gid@,
            r.cursor == self.cursor,
    {
        PullParams { gid: self.gid.clone(), cursor: self.cursor }
    }
}

} // verus!
