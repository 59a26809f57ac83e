//! The resource monitor's namespace: nodes report their hardware load.

use vstd::prelude::*;
use crate::decimal::{render_u64, decimal_digits};
use crate::domain::{
    Event, EventView, SysContext, SysContextView, kind_is, Payload, WorkSpec, FieldReq, FieldReqView, FieldType,
    NamespaceSpec, NamespaceSpecView, GeneratorSpec, GeneratorSpecView, DeltaFn, schema_view,
};
use crate::facts::{Facts, FactsView, NodeInfo, NodeInfoView};
use crate::lattice::OrderBot;
use crate::str_map::StrMap;
use crate::write_once::WriteOnce;

verus! {

/// The id of the monitor namespace.
pub const MONITOR_NS_ID: &'static str = "monitor";

/// The id of the monitor generator.
pub const MONITOR_GEN_ID: &'static str = "monitor_generator";

/// What the monitor learns from an event: a `HardwareStats` event from a
/// node records the node as up, with `cpu_reading` as its capacity; other
/// events, and events without a node id, teach nothing.
///
/// `cpu_reading` is the event's `cpu_usage` field read as a number and
/// truncated, or 0 when it is missing or does not read as one; that reading
/// is floating-point work done outside this library.
pub open spec fn monitor_delta(e: EventView, cpu_reading: u64) -> FactsView {
    if e.kind == "HardwareStats"@ && e.payload.ctx.node_id is Some {
        FactsView {
            jobs: Map::empty(),
            nodes: Map::empty().insert(
                e.payload.ctx.node_id->0,
                NodeInfoView { down: false, capacity: Set::empty().insert(cpu_reading) },
            ),
        }
    } else {
        Facts::spec_bot()
    }
}

/// The monitor's delta function (see `monitor_delta`).
pub fn monitor_delta_fn(e: &Event, cpu_reading: u64) -> (r: Facts)
    ensures
        r@ == monitor_delta(e@, cpu_reading),
{
    let mut facts = Facts::bot();
    if kind_is(e, "HardwareStats") {
        if let Some(node_id) = &e.payload.ctx.node_id {
            let node_info = NodeInfo { down: false, capacity: WriteOnce::new(cpu_reading) };
            facts.nodes.insert(node_id.clone(), node_info);
        }
    }
    assert(facts@ =~= monitor_delta(e@, cpu_reading));
    facts
}

/// The monitor namespace: preemptible, run by the resource logger, and
/// asking for a `cpu_usage` (text), a `mem_used_kb` and a `mem_total_kb`
/// (numbers).
pub open spec fn monitor_namespace() -> NamespaceSpecView {
    NamespaceSpecView {
        preemptible: true,
        handler_type: "resource_logger"@,
        schema: seq![
            FieldReqView { key: "cpu_usage"@, required: true, expected_type: FieldType::String },
            FieldReqView { key: "mem_used_kb"@, required: true, expected_type: FieldType::Int },
            FieldReqView { key: "mem_total_kb"@, required: true, expected_type: FieldType::Int },
        ],
    }
}

/// The specification of the monitor namespace (see `monitor_namespace`).
pub fn get_monitor_namespace_spec() -> (r: NamespaceSpec)
    ensures
        r@ == monitor_namespace(),
{
    let r = NamespaceSpec {
        preemptible: true,
        handler_type: "resource_logger".to_owned(),
        schema: vec![
            FieldReq { key: "cpu_usage".to_owned(), required: true, expected_type: FieldType::String },
            FieldReq { key: "mem_used_kb".to_owned(), required: true, expected_type: FieldType::Int },
            FieldReq { key: "mem_total_kb".to_owned(), required: true, expected_type: FieldType::Int },
        ],
    };
    assert(schema_view(r.schema@) =~= monitor_namespace().schema);
    r
}

/// The specification of the monitor generator: the monitor's delta
/// function, kind `monitor`, no callback URL.
pub fn get_monitor_generator_spec() -> (r: GeneratorSpec)
    ensures
        r@ == (GeneratorSpecView { delta_fn: DeltaFn::Monitor, kind: MONITOR_NS_ID@, callback_url: None }),
{
    GeneratorSpec { delta_fn: DeltaFn::Monitor, kind: MONITOR_NS_ID.to_owned(), callback_url: None }
}

/// The `HardwareStats` event that node `node_id` sends to the monitor
/// namespace: the CPU usage as given, the memory figures in decimal.
pub fn hardware_stats_event(node_id: String, cpu_usage: String, mem_used_kb: u64, mem_total_kb: u64) -> (r: Event)
    ensures
        r@ == (EventView {
            kind: "HardwareStats"@,
            payload: crate::domain::PayloadView {
                ctx: SysContextView {
                    job_id: None,
                    ns_id: Some(MONITOR_NS_ID@),
                    node_id: Some(node_id@),
                    target: None,
                    priority: None,
                    slots: None,
                },
                spec: Map::empty().insert("cpu_usage"@, cpu_usage@).insert(
                    "mem_used_kb"@,
                    decimal_digits(mem_used_kb as nat),
                ).insert("mem_total_kb"@, decimal_digits(mem_total_kb as nat)),
            },
        }),
{
    let mut stats: WorkSpec = StrMap::new();
    stats.insert("cpu_usage".to_owned(), cpu_usage);
    stats.insert("mem_used_kb".to_owned(), render_u64(mem_used_kb));
    stats.insert("mem_total_kb".to_owned(), render_u64(mem_total_kb));
    let r = Event {
        kind: "HardwareStats".to_owned(),
        payload: Payload {
            ctx: SysContext {
                job_id: None,
                ns_id: Some(MONITOR_NS_ID.to_owned()),
                node_id: Some(node_id),
                target: None,
                priority: None,
                slots: None,
            },
            spec: stats,
        },
    };
    assert(r@ =~= (EventView {
        kind: "HardwareStats"@,
        payload: crate::domain::PayloadView {
            ctx: SysContextView {
                job_id: None,
                ns_id: Some(MONITOR_NS_ID@),
                node_id: Some(node_id@),
                target: None,
                priority: None,
                slots: None,
            },
            spec: Map::empty().insert("cpu_usage"@, cpu_usage@).insert(
                "mem_used_kb"@,
                decimal_digits(mem_used_kb as nat),
            ).insert("mem_total_kb"@, decimal_digits(mem_total_kb as nat)),
        },
    }));
    r
}

/// A node's hardware report teaches the monitor that the node is up, with
/// the reading of its CPU usage as its capacity.
pub proof fn lemma_stats_recorded(e: EventView, node_id: Seq<char>, cpu_reading: u64)
    requires
        e.kind == "HardwareStats"@,
        e.payload.ctx.node_id == Some(node_id),
    ensures
        monitor_delta(e, cpu_reading) == (FactsView {
            jobs: Map::empty(),
            nodes: Map::empty().insert(node_id, NodeInfoView { down: false, capacity: Set::empty().insert(cpu_reading) }),
        }),
{
}

/// The monitor learns only from hardware reports that name a node: any
/// other event teaches it nothing.
pub proof fn lemma_monitor_learns_only_from_reports(e: EventView, cpu_reading: u64)
    requires
        e.kind != "HardwareStats"@ || e.payload.ctx.node_id is None,
    ensures
        monitor_delta(e, cpu_reading) == (FactsView { jobs: Map::empty(), nodes: Map::empty() }),
{
}

} // verus!
