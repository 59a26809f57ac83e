//! The hub's decisions: which control requests change the registry, which
//! events are well formed, what each generator learns from an event, whom
//! to poke, and what a generator pulls.

use vstd::prelude::*;
use crate::batch::{batch_delta, batch_delta_fn, submit_job_kind};
use crate::decimal::{parse_u64, parse_u64_spec};
use crate::domain::{
    Event, EventView, WorkSpec, FieldReq, kind_is, FieldReqView, FieldType, NamespaceSpecView, GeneratorSpecView,
    DeltaFn, Registration, ControlRequest, Poke, opt_str, copy_opt_str, schema_view,
};
use crate::facts::{Facts, FactsView, NodeInfoView};
use crate::lattice::{Lattice, OrderBot};
use crate::monitor::{monitor_delta, monitor_delta_fn};
use crate::simulation::{simulation_delta, simulation_delta_fn, SIM_NS_ID};
use crate::monitor::MONITOR_NS_ID;
use crate::str_map::StrMap;

verus! {

/// What delta function `f` learns from event `e`; `cpu_reading` is the
/// event's CPU usage as the monitor reads it (see `monitor_delta`).
pub open spec fn delta_of(f: DeltaFn, e: EventView, cpu_reading: u64) -> FactsView {
    match f {
        DeltaFn::Bottom => Facts::spec_bot(),
        DeltaFn::Batch => batch_delta(e),
        DeltaFn::Simulation => simulation_delta(e),
        DeltaFn::Monitor => monitor_delta(e, cpu_reading),
    }
}

/// Applies delta function `f` to event `e` (see `delta_of`).
pub fn apply_delta(f: DeltaFn, e: &Event, cpu_reading: u64) -> (r: Facts)
    ensures
        r@ == delta_of(f, e@, cpu_reading),
        f == DeltaFn::Bottom ==> r@ == (FactsView { jobs: Map::empty(), nodes: Map::empty() }),
{
    match f {
        DeltaFn::Bottom => Facts::bot(),
        DeltaFn::Batch => batch_delta_fn(e),
        DeltaFn::Simulation => simulation_delta_fn(e),
        DeltaFn::Monitor => monitor_delta_fn(e, cpu_reading),
    }
}

/// Whether a field requirement holds of a work specification: a missing
/// field must not be required; a present one must have the expected type
/// (any text is a string, an integer reads as a `u64`, a boolean is `true`
/// or `false`).
pub open spec fn field_satisfied(req: FieldReqView, spec: Map<Seq<char>, Seq<char>>) -> bool {
    if spec.contains_key(req.key) {
        match req.expected_type {
            FieldType::String => true,
            FieldType::Int => parse_u64_spec(spec[req.key]) is Some,
            FieldType::Bool => spec[req.key] == "true"@ || spec[req.key] == "false"@,
        }
    } else {
        !req.required
    }
}

/// Whether a work specification meets every requirement of a schema.
pub open spec fn spec_valid(schema: Seq<FieldReqView>, spec: Map<Seq<char>, Seq<char>>) -> bool {
    forall|i: int| 0 <= i < schema.len() ==> #[trigger] field_satisfied(schema[i], spec)
}

/// The hub's registry and delta functions.
pub struct HubView {
    pub namespaces: Map<Seq<char>, NamespaceSpecView>,
    pub generators: Map<Seq<char>, GeneratorSpecView>,
    pub delta_fns: Map<Seq<char>, DeltaFn>,
}

/// Whether the hub accepts an event: a `SubmitJob` event must name a
/// registered namespace and meet its schema; every other event is accepted.
pub open spec fn event_well_formed(h: HubView, e: EventView) -> bool {
    if e.kind == submit_job_kind() {
        match e.payload.ctx.ns_id {
            Some(ns) => h.namespaces.contains_key(ns) && spec_valid(h.namespaces[ns].schema, e.payload.spec),
            None => false,
        }
    } else {
        true
    }
}

/// The delta function that serves generator `gid`: the hub's own for the
/// generator's kind if it has one, else the generator's.
pub open spec fn generator_delta_fn(h: HubView, gid: Seq<char>) -> DeltaFn {
    let g = h.generators[gid];
    if h.delta_fns.contains_key(g.kind) {
        h.delta_fns[g.kind]
    } else {
        g.delta_fn
    }
}

/// What generator `gid` learns from event `e`: nothing if it is not
/// registered.
pub open spec fn generator_delta(h: HubView, gid: Seq<char>, e: EventView, cpu_reading: u64) -> FactsView {
    if h.generators.contains_key(gid) {
        delta_of(generator_delta_fn(h, gid), e, cpu_reading)
    } else {
        Facts::spec_bot()
    }
}

/// What generator `gid` learns from a sequence of events: the join of what
/// it learns from each, the least state for none.
pub open spec fn pulled(h: HubView, gid: Seq<char>, events: Seq<EventView>, readings: Seq<u64>) -> FactsView
    decreases events.len(),
{
    if events.len() == 0 {
        Facts::spec_bot()
    } else {
        Facts::spec_join(
            pulled(h, gid, events.drop_last(), readings.drop_last()),
            generator_delta(h, gid, events.last(), readings.last()),
        )
    }
}

/// The views of a sequence of events.
pub open spec fn events_view(events: Seq<Event>) -> Seq<EventView> {
    events.map_values(|e: Event| e@)
}

/// A poke to deliver, and where to deliver it: to the generator's callback
/// URL, or through the transport when it has none.
pub struct Delivery {
    pub poke: Poke,
    pub callback_url: Option<String>,
}

/// The library's delta functions by generator kind: `batch`, `simulation`
/// and `monitor` to theirs. A hub that holds them serves generators whose
/// own delta function did not travel with their registration.
pub fn known_delta_fns() -> (r: StrMap<DeltaFn>)
    ensures
        r@ == Map::<Seq<char>, DeltaFn>::empty().insert("batch"@, DeltaFn::Batch).insert(
            SIM_NS_ID@,
            DeltaFn::Simulation,
        ).insert(MONITOR_NS_ID@, DeltaFn::Monitor),
{
    let mut r: StrMap<DeltaFn> = StrMap::new();
    r.insert("batch".to_owned(), DeltaFn::Batch);
    r.insert(SIM_NS_ID.to_owned(), DeltaFn::Simulation);
    r.insert(MONITOR_NS_ID.to_owned(), DeltaFn::Monitor);
    r
}

/// The hub: the registered namespaces and generators, and delta functions
/// by generator kind that take precedence over the generators' own.
pub struct Hub {
    pub registry: Registration,
    pub delta_fns: StrMap<DeltaFn>,
}

impl View for Hub {
    type V = HubView;

    open spec fn view(&self) -> HubView {
        HubView {
            namespaces: self.registry.namespaces@,
            generators: self.registry.generators@,
            delta_fns: self.delta_fns@,
        }
    }
}

impl Hub {
    /// A hub with nothing registered.
    pub fn new() -> (r: Self)
        ensures
            r@.namespaces == Map::<Seq<char>, NamespaceSpecView>::empty(),
            r@.generators == Map::<Seq<char>, GeneratorSpecView>::empty(),
            r@.delta_fns == Map::<Seq<char>, DeltaFn>::empty(),
    {
        Hub { registry: Registration::default(), delta_fns: StrMap::new() }
    }

    /// Handles a control request: registers the namespace or the
    /// generator under its id, replacing what was there.
    pub fn process_control(&mut self, req: ControlRequest)
        ensures
            match req {
                ControlRequest::RegisterNamespace(ns, spec) => final(self)@.namespaces == old(self)@.namespaces.insert(
                    ns@,
                    spec@,
                ) && final(self)@.generators == old(self)@.generators,
                ControlRequest::RegisterGenerator(gid, spec) => final(self)@.generators == old(self)@.generators.insert(
                    gid@,
                    spec@,
                ) && final(self)@.namespaces == old(self)@.namespaces,
            },
            final(self)@.delta_fns == old(self)@.delta_fns,
    {
        match req {
            ControlRequest::RegisterNamespace(ns, spec) => {
                self.registry.namespaces.insert(ns, spec);
            },
            ControlRequest::RegisterGenerator(gid, spec) => {
                self.registry.generators.insert(gid, spec);
            },
        }
    }

    /// Whether a work specification meets every requirement of a schema
    /// (see `field_satisfied`).
    pub fn validate_spec(schema: &[FieldReq], spec: &WorkSpec) -> (r: bool)
        ensures
            r == spec_valid(schema_view(schema@), spec@),
    {
        let ghost sv = schema_view(schema@);
        let mut i: usize = 0;
        while i < schema.len()
            invariant
                i <= schema@.len(),
                sv == schema_view(schema@),
                forall|j: int| 0 <= j < i ==> #[trigger] field_satisfied(sv[j], spec@),
            decreases schema.len() - i,
        {
            let req = &schema[i];
            assert(sv[i as int] == req@);
            let ok = match spec.get(&req.key) {
                None => !req.required,
                Some(val) => match req.expected_type {
                    FieldType::String => true,
                    FieldType::Int => parse_u64(val.as_str()).is_some(),
                    FieldType::Bool => {
                        let t = "true".to_owned();
                        let f = "false".to_owned();
                        *val == t || *val == f
                    },
                },
            };
            assert(ok == field_satisfied(sv[i as int], spec@));
            if !ok {
                return false;
            }
            i = i + 1;
        }
        true
    }

    /// Whether the hub accepts an event (see `event_well_formed`).
    pub fn check_wf(&self, e: &Event) -> (r: bool)
        ensures
            r == event_well_formed(self@, e@),
            e@.kind != "SubmitJob"@ ==> r,
    {
        if kind_is(e, "SubmitJob") {
            if let Some(ns_id) = &e.payload.ctx.ns_id {
                if let Some(ns_spec) = self.registry.namespaces.get(ns_id) {
                    return Self::validate_spec(ns_spec.schema.as_slice(), &e.payload.spec);
                }
            }
            false
        } else {
            true
        }
    }

    /// What generator `gid` learns from event `e` (see `generator_delta`);
    /// `cpu_reading` is the event's CPU usage as the monitor reads it.
    pub fn compute_delta(&self, gid: &String, e: &Event, cpu_reading: u64) -> (r: Facts)
        ensures
            r@ == generator_delta(self@, gid@, e@, cpu_reading),
    {
        match self.registry.generators.get(gid) {
            Some(spec) => match self.delta_fns.get(&spec.kind) {
                Some(f) => apply_delta(*f, e, cpu_reading),
                None => apply_delta(spec.delta_fn, e, cpu_reading),
            },
            None => Facts::bot(),
        }
    }

    /// A poke for generator `gid` when it learns something from event `e`;
    /// `cpu_reading` is the event's CPU usage as the monitor reads it.
    pub fn check_poke(&self, gid: &String, e: &Event, cpu_reading: u64) -> (r: Option<Poke>)
        ensures
            match r {
                Some(p) => p.gid@ == gid@ && generator_delta(self@, gid@, e@, cpu_reading) != Facts::spec_bot(),
                None => generator_delta(self@, gid@, e@, cpu_reading) == Facts::spec_bot(),
            },
            ({
                let g = self@.generators[gid@];
                self@.generators.contains_key(gid@) && g.delta_fn == DeltaFn::Bottom
                    && !self@.delta_fns.contains_key(g.kind)
            }) ==> r is None,
    {
        if !self.compute_delta(gid, e, cpu_reading).is_bot() {
            Some(Poke { gid: gid.clone() })
        } else {
            None
        }
    }

    /// What ingesting event `e` calls for: nothing if the hub rejects it;
    /// else, once it is logged, a poke for each registered generator that
    /// learns something from it, each to the generator's callback URL.
    /// `cpu_reading` is the event's CPU usage as the monitor reads it.
    pub fn plan_ingest(&self, e: &Event, cpu_reading: u64) -> (r: Option<Vec<Delivery>>)
        ensures
            r is None <==> !event_well_formed(self@, e@),
            e@.kind != "SubmitJob"@ ==> r is Some,
            r matches Some(ds) ==> {
                &&& forall|i: int|
                    0 <= i < ds@.len() ==> {
                        let g = #[trigger] ds@[i].poke.gid@;
                        &&& self@.generators.contains_key(g)
                        &&& generator_delta(self@, g, e@, cpu_reading) != Facts::spec_bot()
                        &&& opt_str(ds@[i].callback_url) == self@.generators[g].callback_url
                    }
                &&& forall|g: Seq<char>|
                    #[trigger] self@.generators.contains_key(g) && generator_delta(self@, g, e@, cpu_reading)
                        != Facts::spec_bot() ==> exists|i: int| 0 <= i < ds@.len() && #[trigger] ds@[i].poke.gid@ == g
                &&& forall|i: int, j: int|
                    0 <= i < ds@.len() && 0 <= j < ds@.len() && i != j ==> #[trigger] ds@[i].poke.gid@
                        != #[trigger] ds@[j].poke.gid@
            },
    {
        if !self.check_wf(e) {
            return None;
        }
        let gens = &self.registry.generators;
        let n = gens.len();
        let mut ds: Vec<Delivery> = Vec::new();
        let mut i: usize = 0;
        while i < n
            invariant
                n == gens.keys().len(),
                gens.keys().no_duplicates(),
                forall|k: Seq<char>| #[trigger] gens@.contains_key(k) <==> gens.keys().contains(k),
                gens@ == self@.generators,
                i <= n,
                forall|x: int|
                    0 <= x < ds@.len() ==> {
                        let g = #[trigger] ds@[x].poke.gid@;
                        &&& gens.keys().take(i as int).contains(g)
                        &&& self@.generators.contains_key(g)
                        &&& generator_delta(self@, g, e@, cpu_reading) != Facts::spec_bot()
                        &&& opt_str(ds@[x].callback_url) == self@.generators[g].callback_url
                    },
                forall|g: Seq<char>|
                    #[trigger] gens.keys().take(i as int).contains(g) && generator_delta(
                        self@,
                        g,
                        e@,
                        cpu_reading,
                    ) != Facts::spec_bot() ==> exists|x: int| 0 <= x < ds@.len() && #[trigger] ds@[x].poke.gid@ == g,
                forall|x: int, y: int|
                    0 <= x < ds@.len() && 0 <= y < ds@.len() && x != y ==> #[trigger] ds@[x].poke.gid@
                        != #[trigger] ds@[y].poke.gid@,
            decreases n - i,
        {
            let gid = gens.key_at(i);
            let spec = gens.value_at(i);
            let ghost ks = gens.keys();
            proof {
                crate::map_lattice::lemma_take_one_more(ks, i as int);
                assert(!ks.take(i as int).contains(ks[i as int])) by {
                    if ks.take(i as int).contains(ks[i as int]) {
                        let x = choose|x: int| 0 <= x < ks.take(i as int).len() && ks.take(i as int)[x] == ks[i as int];
                        assert(ks[x] == ks[i as int]);
                    }
                }
            }
            let ghost prev = ds@;
            if let Some(poke) = self.check_poke(gid, e, cpu_reading) {
                let url = copy_opt_str(&spec.callback_url);
                ds.push(Delivery { poke, callback_url: url });
                proof {
                    assert forall|x: int| 0 <= x < prev.len() implies #[trigger] ds@[x] == prev[x] by {}
                }
            }
            proof {
                assert forall|g: Seq<char>|
                    #[trigger] ks.take(i + 1).contains(g) && generator_delta(self@, g, e@, cpu_reading)
                        != Facts::spec_bot() implies exists|x: int| 0 <= x < ds@.len() && #[trigger] ds@[x].poke.gid@ == g by {
                    if g == ks[i as int] {
                        assert(ds@[ds@.len() - 1].poke.gid@ == g);
                    } else {
                        let x = choose|x: int| 0 <= x < prev.len() && #[trigger] prev[x].poke.gid@ == g;
                        assert(ds@[x].poke.gid@ == g);
                    }
                }
            }
            i = i + 1;
        }
        proof {
            assert(gens.keys().take(n as int) =~= gens.keys());
        }
        Some(ds)
    }

    /// What generator `gid` learns from the events it pulls, each given
    /// with its CPU reading: the join of what it learns from each event.
    pub fn pull_delta(&self, gid: &String, events: &Vec<Event>, cpu_readings: &Vec<u64>) -> (r: Facts)
        requires
            events@.len() == cpu_readings@.len(),
        ensures
            r@ == pulled(self@, gid@, events_view(events@), cpu_readings@),
            events@.len() == 1 ==> r@ == generator_delta(self@, gid@, events@[0]@, cpu_readings@[0]),
    {
        let mut delta = Facts::bot();
        let mut i: usize = 0;
        while i < events.len()
            invariant
                i <= events@.len(),
                events@.len() == cpu_readings@.len(),
                delta@ == pulled(self@, gid@, events_view(events@).take(i as int), cpu_readings@.take(i as int)),
            decreases events.len() - i,
        {
            let d = self.compute_delta(gid, &events[i], cpu_readings[i]);
            delta = delta.join(&d);
            proof {
                let evs = events_view(events@);
                assert(evs.take(i + 1).drop_last() =~= evs.take(i as int));
                assert(cpu_readings@.take(i + 1).drop_last() =~= cpu_readings@.take(i as int));
                assert(evs.take(i + 1).last() == events@[i as int]@);
            }
            i = i + 1;
        }
        proof {
            assert(events_view(events@).take(i as int) =~= events_view(events@));
            assert(cpu_readings@.take(i as int) =~= cpu_readings@);
            if events@.len() == 1 {
                let evs = events_view(events@);
                assert(evs =~= seq![events@[0]@]);
                assert(cpu_readings@ =~= seq![cpu_readings@[0]]);
                lemma_pull_single(self@, gid@, events@[0]@, cpu_readings@[0]);
            }
        }
        delta
    }
}

/// Pulling two runs of events one after the other learns the join of what
/// each run teaches: the generator's state does not depend on where a pull
/// is cut.
pub proof fn lemma_pull_concat(
    h: HubView,
    gid: Seq<char>,
    e1: Seq<EventView>,
    r1: Seq<u64>,
    e2: Seq<EventView>,
    r2: Seq<u64>,
)
    requires
        e1.len() == r1.len(),
        e2.len() == r2.len(),
    ensures
        pulled(h, gid, e1 + e2, r1 + r2) == Facts::spec_join(pulled(h, gid, e1, r1), pulled(h, gid, e2, r2)),
    decreases e2.len(),
{
    if e2.len() == 0 {
        assert(e1 + e2 =~= e1);
        assert(r1 + r2 =~= r1);
        Facts::lemma_join_commutative(pulled(h, gid, e1, r1), Facts::spec_bot());
        Facts::lemma_bot_join(pulled(h, gid, e1, r1));
    } else {
        let e2p = e2.drop_last();
        let r2p = r2.drop_last();
        lemma_pull_concat(h, gid, e1, r1, e2p, r2p);
        assert((e1 + e2).drop_last() =~= e1 + e2p);
        assert((r1 + r2).drop_last() =~= r1 + r2p);
        assert((e1 + e2).last() == e2.last());
        assert((r1 + r2).last() == r2.last());
        Facts::lemma_join_associative(
            pulled(h, gid, e1, r1),
            pulled(h, gid, e2p, r2p),
            generator_delta(h, gid, e2.last(), r2.last()),
        );
    }
}

/// Pulling the same events twice learns no more than pulling them once:
/// events delivered again change nothing.
pub proof fn lemma_pull_repeat(h: HubView, gid: Seq<char>, es: Seq<EventView>, rs: Seq<u64>)
    requires
        es.len() == rs.len(),
    ensures
        pulled(h, gid, es + es, rs + rs) == pulled(h, gid, es, rs),
{
    lemma_pull_concat(h, gid, es, rs, es, rs);
    Facts::lemma_join_idempotent(pulled(h, gid, es, rs));
}

/// The order in which two runs of events arrive does not change what is
/// learnt from them.
pub proof fn lemma_pull_order_independent(
    h: HubView,
    gid: Seq<char>,
    e1: Seq<EventView>,
    r1: Seq<u64>,
    e2: Seq<EventView>,
    r2: Seq<u64>,
)
    requires
        e1.len() == r1.len(),
        e2.len() == r2.len(),
    ensures
        pulled(h, gid, e1 + e2, r1 + r2) == pulled(h, gid, e2 + e1, r2 + r1),
{
    lemma_pull_concat(h, gid, e1, r1, e2, r2);
    lemma_pull_concat(h, gid, e2, r2, e1, r1);
    Facts::lemma_join_commutative(pulled(h, gid, e1, r1), pulled(h, gid, e2, r2));
}

/// Pulling a single event learns what that event teaches with its own CPU
/// reading.
pub proof fn lemma_pull_single(h: HubView, gid: Seq<char>, e: EventView, r: u64)
    ensures
        pulled(h, gid, seq![e], seq![r]) == generator_delta(h, gid, e, r),
{
    let es = seq![e];
    let rs = seq![r];
    assert(es.drop_last() =~= Seq::<EventView>::empty());
    assert(rs.drop_last() =~= Seq::<u64>::empty());
    assert(pulled(h, gid, es.drop_last(), rs.drop_last()) == Facts::spec_bot());
    Facts::lemma_bot_join(generator_delta(h, gid, e, r));
}

/// Whatever event `i` of a pull teaches, read with its own CPU reading
/// `rs[i]`, is already part of what the whole pull learns: joining it in
/// again changes nothing.
pub proof fn lemma_pull_learns_each_event(h: HubView, gid: Seq<char>, es: Seq<EventView>, rs: Seq<u64>, i: int)
    requires
        es.len() == rs.len(),
        0 <= i < es.len(),
    ensures
        Facts::spec_join(pulled(h, gid, es, rs), generator_delta(h, gid, es[i], rs[i])) == pulled(h, gid, es, rs),
{
    let a = pulled(h, gid, es.take(i), rs.take(i));
    let d = generator_delta(h, gid, es[i], rs[i]);
    let b = pulled(h, gid, es.skip(i + 1), rs.skip(i + 1));
    assert(es.take(i + 1).drop_last() =~= es.take(i));
    assert(rs.take(i + 1).drop_last() =~= rs.take(i));
    assert(es.take(i + 1).last() == es[i]);
    assert(rs.take(i + 1).last() == rs[i]);
    assert(pulled(h, gid, es.take(i + 1), rs.take(i + 1)) == Facts::spec_join(a, d));
    lemma_pull_concat(h, gid, es.take(i + 1), rs.take(i + 1), es.skip(i + 1), rs.skip(i + 1));
    assert(es.take(i + 1) + es.skip(i + 1) =~= es);
    assert(rs.take(i + 1) + rs.skip(i + 1) =~= rs);
    let ad = Facts::spec_join(a, d);
    Facts::lemma_join_associative(ad, b, d);
    Facts::lemma_join_commutative(b, d);
    Facts::lemma_join_associative(ad, d, b);
    Facts::lemma_join_associative(a, d, d);
    Facts::lemma_join_idempotent(d);
}

/// A generator served by the monitor's delta function that pulls a single
/// hardware report from node `n` learns exactly that the node is up, with
/// the report's CPU reading as its capacity.
pub proof fn lemma_monitor_pull_single(h: HubView, gid: Seq<char>, e: EventView, n: Seq<char>, r: u64)
    requires
        h.generators.contains_key(gid),
        h.generators[gid].delta_fn == DeltaFn::Monitor,
        !h.delta_fns.contains_key(h.generators[gid].kind) || h.delta_fns[h.generators[gid].kind]
            == DeltaFn::Monitor,
        e.kind == "HardwareStats"@,
        e.payload.ctx.node_id == Some(n),
    ensures
        pulled(h, gid, seq![e], seq![r]) == (FactsView {
            jobs: Map::empty(),
            nodes: Map::empty().insert(n, NodeInfoView { down: false, capacity: Set::empty().insert(r) }),
        }),
{
    lemma_pull_single(h, gid, e, r);
}

/// In a pull by a generator served by the monitor's delta function, every
/// hardware report from node `n` leaves the node known, with the report's
/// own CPU reading among its capacities.
pub proof fn lemma_monitor_pull_records_each_reading(
    h: HubView,
    gid: Seq<char>,
    es: Seq<EventView>,
    rs: Seq<u64>,
    i: int,
    n: Seq<char>,
)
    requires
        es.len() == rs.len(),
        0 <= i < es.len(),
        h.generators.contains_key(gid),
        h.generators[gid].delta_fn == DeltaFn::Monitor,
        !h.delta_fns.contains_key(h.generators[gid].kind) || h.delta_fns[h.generators[gid].kind]
            == DeltaFn::Monitor,
        es[i].kind == "HardwareStats"@,
        es[i].payload.ctx.node_id == Some(n),
    ensures
        pulled(h, gid, es, rs).nodes.contains_key(n),
        pulled(h, gid, es, rs).nodes[n].capacity.contains(rs[i]),
{
    let p = pulled(h, gid, es, rs);
    let d = generator_delta(h, gid, es[i], rs[i]);
    lemma_pull_learns_each_event(h, gid, es, rs, i);
    assert(d.nodes.contains_key(n));
    assert(d.nodes[n].capacity.contains(rs[i]));
    let j = Facts::spec_join(p, d);
    assert(j == p);
    assert(j.nodes.contains_key(n));
    assert(j.nodes[n].capacity.contains(rs[i]));
}

/// Only a job submission is checked against a namespace: an event of any
/// other kind is always well formed.
pub proof fn lemma_only_submissions_checked(h: HubView, e: EventView)
    requires
        e.kind != "SubmitJob"@,
    ensures
        event_well_formed(h, e),
{
}

/// A job submission is well formed exactly when it names a registered
/// namespace and meets that namespace's schema; one that names no
/// namespace, or one that is not registered, is refused.
pub proof fn lemma_submission_needs_registered_namespace(h: HubView, e: EventView)
    requires
        e.kind == "SubmitJob"@,
    ensures
        event_well_formed(h, e) <==> (e.payload.ctx.ns_id is Some && h.namespaces.contains_key(
            e.payload.ctx.ns_id->0,
        ) && spec_valid(h.namespaces[e.payload.ctx.ns_id->0].schema, e.payload.spec)),
        e.payload.ctx.ns_id is None ==> !event_well_formed(h, e),
        (e.payload.ctx.ns_id is Some && !h.namespaces.contains_key(e.payload.ctx.ns_id->0)) ==> !event_well_formed(
            h,
            e,
        ),
{
}

/// The dummy delta function learns nothing from any event.
pub proof fn lemma_dummy_delta_learns_nothing(e: EventView, r: u64)
    ensures
        delta_of(DeltaFn::Bottom, e, r) == (FactsView { jobs: Map::empty(), nodes: Map::empty() }),
{
}

/// A generator registered with the dummy delta function, whose kind has no
/// delta function of the hub's, learns nothing from any event, so it is
/// never poked, and learns nothing from any pull.
pub proof fn lemma_dummy_generator_learns_nothing(
    h: HubView,
    gid: Seq<char>,
    es: Seq<EventView>,
    rs: Seq<u64>,
)
    requires
        h.generators.contains_key(gid),
        h.generators[gid].delta_fn == DeltaFn::Bottom,
        !h.delta_fns.contains_key(h.generators[gid].kind),
    ensures
        forall|e: EventView, r: u64|
            #[trigger] generator_delta(h, gid, e, r) == (FactsView { jobs: Map::empty(), nodes: Map::empty() }),
        pulled(h, gid, es, rs) == (FactsView { jobs: Map::empty(), nodes: Map::empty() }),
    decreases es.len(),
{
    if es.len() > 0 {
        lemma_dummy_generator_learns_nothing(h, gid, es.drop_last(), rs.drop_last());
        Facts::lemma_join_idempotent(Facts::spec_bot());
    }
}

/// A delta function the hub holds for a generator's kind takes precedence
/// over the generator's own; an unregistered generator learns nothing.
pub proof fn lemma_hub_delta_fn_takes_precedence(h: HubView, gid: Seq<char>, e: EventView, r: u64)
    ensures
        h.generators.contains_key(gid) && h.delta_fns.contains_key(h.generators[gid].kind) ==> generator_delta(
            h,
            gid,
            e,
            r,
        ) == delta_of(h.delta_fns[h.generators[gid].kind], e, r),
        h.generators.contains_key(gid) && !h.delta_fns.contains_key(h.generators[gid].kind) ==> generator_delta(
            h,
            gid,
            e,
            r,
        ) == delta_of(h.generators[gid].delta_fn, e, r),
        !h.generators.contains_key(gid) ==> generator_delta(h, gid, e, r) == (FactsView {
            jobs: Map::empty(),
            nodes: Map::empty(),
        }),
{
}

/// A work specification that lacks a field the schema requires does not
/// meet the schema.
pub proof fn lemma_missing_required_field_refused(
    schema: Seq<FieldReqView>,
    spec: Map<Seq<char>, Seq<char>>,
    i: int,
)
    requires
        0 <= i < schema.len(),
        schema[i].required,
        !spec.contains_key(schema[i].key),
    ensures
        !spec_valid(schema, spec),
{
    assert(!field_satisfied(schema[i], spec));
}

/// A work specification whose value for a field that the schema types as a
/// number does not read as a `u64`, or whose value for a field typed as a
/// boolean is neither `true` nor `false`, does not meet the schema.
pub proof fn lemma_mistyped_field_refused(schema: Seq<FieldReqView>, spec: Map<Seq<char>, Seq<char>>, i: int)
    requires
        0 <= i < schema.len(),
        spec.contains_key(schema[i].key),
        (schema[i].expected_type == FieldType::Int && parse_u64_spec(spec[schema[i].key]) is None) || (
        schema[i].expected_type == FieldType::Bool && spec[schema[i].key] != "true"@ && spec[schema[i].key]
            != "false"@),
    ensures
        !spec_valid(schema, spec),
{
    assert(!field_satisfied(schema[i], spec));
}

/// Adding a field that the schema does not mention to a work specification
/// does not change whether it meets the schema.
pub proof fn lemma_unmentioned_field_irrelevant(
    schema: Seq<FieldReqView>,
    spec: Map<Seq<char>, Seq<char>>,
    k: Seq<char>,
    v: Seq<char>,
)
    requires
        forall|i: int| 0 <= i < schema.len() ==> #[trigger] schema[i].key != k,
    ensures
        spec_valid(schema, spec.insert(k, v)) == spec_valid(schema, spec),
{
    let s2 = spec.insert(k, v);
    assert forall|i: int| 0 <= i < schema.len() implies #[trigger] field_satisfied(schema[i], s2) == field_satisfied(
        schema[i],
        spec,
    ) by {
        assert(schema[i].key != k);
        assert(s2.contains_key(schema[i].key) == spec.contains_key(schema[i].key));
    }
    if spec_valid(schema, spec) {
        assert forall|i: int| 0 <= i < schema.len() implies #[trigger] field_satisfied(schema[i], s2) by {
            assert(field_satisfied(schema[i], spec));
        }
    }
    if spec_valid(schema, s2) {
        assert forall|i: int| 0 <= i < schema.len() implies #[trigger] field_satisfied(schema[i], spec) by {
            assert(field_satisfied(schema[i], s2));
        }
    }
}

} // verus!
