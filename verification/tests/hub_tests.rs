use hpc::batch::{get_batch_generator_spec, get_batch_namespace_spec, BatchJob};
use hpc::domain::{
    dummy_delta_fn, ControlRequest, DeltaFn, Event, FieldReq, FieldType, GeneratorSpec, NamespaceSpec, Payload,
    SysContext, WorkSpec,
};
use hpc::facts::{Facts, JobInfo};
use hpc::hub::{apply_delta, Hub};
use hpc::lattice::{Lattice, OrderBot};
use hpc::monitor::get_monitor_generator_spec;
use hpc::relay::{cursor_after_pull, jobs_ready, should_relay, Job, RelayExecutor};
use hpc::simulation::get_simulation_generator_spec;
use hpc::str_map::StrMap;
use hpc::write_once::WriteOnce;

fn work(fields: &[(&str, &str)]) -> WorkSpec {
    let mut m = StrMap::new();
    for (k, v) in fields {
        m.insert(k.to_string(), v.to_string());
    }
    m
}

fn event(kind: &str, job_id: Option<&str>, ns_id: Option<&str>, spec: WorkSpec) -> Event {
    Event {
        kind: kind.to_string(),
        payload: Payload {
            ctx: SysContext {
                job_id: job_id.map(|s| s.to_string()),
                ns_id: ns_id.map(|s| s.to_string()),
                ..Default::default()
            },
            spec,
        },
    }
}

fn batch_submission(job_id: &str) -> Event {
    event("SubmitJob", Some(job_id), Some("batch"), work(&[("command", "ls"), ("cpu", "2"), ("memory", "8")]))
}

fn batch_hub() -> Hub {
    let mut hub = Hub::new();
    hub.process_control(ControlRequest::RegisterNamespace("batch".to_string(), get_batch_namespace_spec()));
    let mut g = get_batch_generator_spec();
    g.callback_url = Some("http://localhost:8081/poke".to_string());
    hub.process_control(ControlRequest::RegisterGenerator("batch_generator".to_string(), g));
    hub
}

fn req(key: &str, required: bool, t: FieldType) -> FieldReq {
    FieldReq { key: key.to_string(), required, expected_type: t }
}

#[test]
fn process_control_registers_and_replaces() {
    let mut hub = Hub::new();
    assert_eq!(hub.registry.namespaces.len(), 0);
    hub.process_control(ControlRequest::RegisterNamespace("batch".to_string(), get_batch_namespace_spec()));
    assert_eq!(hub.registry.namespaces.len(), 1);
    let replacement = NamespaceSpec { preemptible: true, handler_type: "other".to_string(), schema: vec![] };
    hub.process_control(ControlRequest::RegisterNamespace("batch".to_string(), replacement));
    assert_eq!(hub.registry.namespaces.len(), 1);
    assert!(hub.registry.namespaces.get(&"batch".to_string()).unwrap().preemptible);
    hub.process_control(ControlRequest::RegisterGenerator("g".to_string(), get_batch_generator_spec()));
    assert_eq!(hub.registry.generators.len(), 1);
    assert_eq!(hub.registry.namespaces.len(), 1);
}

#[test]
fn validate_spec_checks_types_and_presence() {
    let schema = vec![req("s", true, FieldType::String), req("n", true, FieldType::Int), req("b", false, FieldType::Bool)];
    assert!(Hub::validate_spec(&schema, &work(&[("s", "x"), ("n", "12")])));
    assert!(Hub::validate_spec(&schema, &work(&[("s", "x"), ("n", "12"), ("b", "true")])));
    assert!(Hub::validate_spec(&schema, &work(&[("s", "x"), ("n", "12"), ("b", "false")])));
    assert!(!Hub::validate_spec(&schema, &work(&[("s", "x"), ("n", "12"), ("b", "yes")])));
    assert!(!Hub::validate_spec(&schema, &work(&[("s", "x"), ("n", "1.5")])));
    assert!(!Hub::validate_spec(&schema, &work(&[("n", "1")])));
    assert!(Hub::validate_spec(&[], &work(&[])));
}

#[test]
fn check_wf_needs_registered_namespace_for_submissions() {
    let hub = batch_hub();
    assert!(hub.check_wf(&batch_submission("j1")));
    assert!(!hub.check_wf(&event("SubmitJob", Some("j1"), Some("unknown"), work(&[]))));
    assert!(!hub.check_wf(&event("SubmitJob", Some("j1"), None, work(&[("command", "ls"), ("cpu", "2"), ("memory", "8")]))));
    assert!(!hub.check_wf(&event("SubmitJob", Some("j1"), Some("batch"), work(&[("command", "ls"), ("cpu", "two"), ("memory", "8")]))));
    assert!(hub.check_wf(&event("Anything", None, None, work(&[]))));
}

#[test]
fn compute_delta_uses_the_generators_function() {
    let hub = batch_hub();
    let d = hub.compute_delta(&"batch_generator".to_string(), &batch_submission("j1"), 0);
    assert_eq!(d.jobs.get(&"j1".to_string()).unwrap().phase, 1);
    assert!(hub.compute_delta(&"unknown".to_string(), &batch_submission("j1"), 0).is_bot());
}

#[test]
fn compute_delta_prefers_the_hubs_function_for_a_kind() {
    let mut hub = batch_hub();
    hub.delta_fns.insert("batch".to_string(), DeltaFn::Bottom);
    assert!(hub.compute_delta(&"batch_generator".to_string(), &batch_submission("j1"), 0).is_bot());
    let mut hub2 = Hub::new();
    let g = GeneratorSpec { delta_fn: dummy_delta_fn(), kind: "batch".to_string(), callback_url: None };
    hub2.process_control(ControlRequest::RegisterGenerator("g".to_string(), g));
    assert!(hub2.compute_delta(&"g".to_string(), &batch_submission("j1"), 0).is_bot());
    hub2.delta_fns.insert("batch".to_string(), DeltaFn::Batch);
    assert!(!hub2.compute_delta(&"g".to_string(), &batch_submission("j1"), 0).is_bot());
}

#[test]
fn check_poke_when_generator_learns_something() {
    let hub = batch_hub();
    let p = hub.check_poke(&"batch_generator".to_string(), &batch_submission("j1"), 0).unwrap();
    assert_eq!(p.gid, "batch_generator");
    assert!(hub.check_poke(&"batch_generator".to_string(), &event("Noise", None, None, work(&[])), 0).is_none());
}

#[test]
fn plan_ingest_rejects_ill_formed_events() {
    let hub = batch_hub();
    assert!(hub.plan_ingest(&event("SubmitJob", Some("j"), Some("nope"), work(&[])), 0).is_none());
}

#[test]
fn plan_ingest_pokes_interested_generators() {
    let mut hub = batch_hub();
    hub.process_control(ControlRequest::RegisterGenerator("sim_generator".to_string(), get_simulation_generator_spec()));
    hub.process_control(ControlRequest::RegisterGenerator("monitor_generator".to_string(), get_monitor_generator_spec()));
    let ds = hub.plan_ingest(&batch_submission("j1"), 0).unwrap();
    assert_eq!(ds.len(), 1);
    assert_eq!(ds[0].poke.gid, "batch_generator");
    assert_eq!(ds[0].callback_url.as_deref(), Some("http://localhost:8081/poke"));
    let none = hub.plan_ingest(&event("Noise", None, None, work(&[])), 0).unwrap();
    assert!(none.is_empty());
    let mut stats = event("HardwareStats", None, None, work(&[("cpu_usage", "1.0")]));
    stats.payload.ctx.node_id = Some("n1".to_string());
    let ds = hub.plan_ingest(&stats, 1).unwrap();
    assert_eq!(ds.len(), 1);
    assert_eq!(ds[0].poke.gid, "monitor_generator");
    assert_eq!(ds[0].callback_url, None);
}

#[test]
fn pull_delta_joins_the_events() {
    let hub = batch_hub();
    let gid = "batch_generator".to_string();
    let events = vec![batch_submission("j1"), event("Noise", None, None, work(&[])), batch_submission("j2")];
    let d = hub.pull_delta(&gid, &events, &vec![0, 0, 0]);
    assert_eq!(d.jobs.len(), 2);
    assert!(d.jobs.contains_key(&"j1".to_string()));
    assert!(d.jobs.contains_key(&"j2".to_string()));
    assert!(hub.pull_delta(&gid, &vec![], &vec![]).is_bot());
}

#[test]
fn pulling_twice_or_in_another_order_learns_the_same() {
    let hub = batch_hub();
    let gid = "batch_generator".to_string();
    let once = hub.pull_delta(&gid, &vec![batch_submission("a"), batch_submission("b")], &vec![0, 0]);
    let twice = hub.pull_delta(
        &gid,
        &vec![batch_submission("a"), batch_submission("b"), batch_submission("a"), batch_submission("b")],
        &vec![0, 0, 0, 0],
    );
    let swapped = hub.pull_delta(&gid, &vec![batch_submission("b"), batch_submission("a")], &vec![0, 0]);
    assert_eq!(once.partial_cmp(&twice), Some(std::cmp::Ordering::Equal));
    assert_eq!(once.partial_cmp(&swapped), Some(std::cmp::Ordering::Equal));
    let first = hub.pull_delta(&gid, &vec![batch_submission("a")], &vec![0]);
    let second = hub.pull_delta(&gid, &vec![batch_submission("b")], &vec![0]);
    assert_eq!(first.join(&second).partial_cmp(&once), Some(std::cmp::Ordering::Equal));
}

#[test]
fn apply_delta_dispatches() {
    let e = batch_submission("j");
    assert!(apply_delta(DeltaFn::Bottom, &e, 0).is_bot());
    assert!(!apply_delta(DeltaFn::Batch, &e, 0).is_bot());
    assert!(apply_delta(DeltaFn::Simulation, &e, 0).is_bot());
    assert!(apply_delta(DeltaFn::Monitor, &e, 0).is_bot());
    assert_eq!(dummy_delta_fn(), DeltaFn::Bottom);
}

#[test]
fn jobs_ready_lists_submitted_jobs() {
    let mut f = Facts::new();
    let mk = |phase: u64| JobInfo { phase, namespace_id: WriteOnce::empty(), priority: 0, resources: WriteOnce::empty() };
    f.jobs.insert("a".to_string(), mk(1));
    f.jobs.insert("b".to_string(), mk(2));
    f.jobs.insert("c".to_string(), mk(1));
    let mut r = jobs_ready(&f);
    r.sort();
    assert_eq!(r, vec!["a".to_string(), "c".to_string()]);
    assert!(jobs_ready(&Facts::bot()).is_empty());
}

#[test]
fn should_relay_gpu_jobs() {
    assert!(should_relay(&Job { tags: vec!["cpu".to_string(), "gpu".to_string()] }));
    assert!(!should_relay(&Job { tags: vec!["cpu".to_string()] }));
    assert!(!should_relay(&Job { tags: vec![] }));
    let _ = RelayExecutor::new();
}

#[test]
fn batch_job_submission_flows_through_the_hub() {
    let hub = batch_hub();
    let e = BatchJob { command: "echo".to_string(), cpu: 2, memory: 512 }.submit_event("dist-job-001".to_string(), 1);
    assert!(hub.check_wf(&e));
    let ds = hub.plan_ingest(&e, 0).unwrap();
    assert_eq!(ds.len(), 1);
    let pulled = hub.pull_delta(&"batch_generator".to_string(), &vec![e], &vec![0]);
    assert_eq!(jobs_ready(&pulled), vec!["dist-job-001".to_string()]);
}

#[test]
fn relay_cursor_steps_after_successful_pull() {
    assert_eq!(cursor_after_pull(0, true), 1);
    assert_eq!(cursor_after_pull(41, true), 42);
    assert_eq!(cursor_after_pull(7, false), 7);
    assert_eq!(cursor_after_pull(u64::MAX, false), u64::MAX);
}

#[test]
fn known_delta_fns_serve_generators_by_kind() {
    let m = hpc::hub::known_delta_fns();
    assert_eq!(m.len(), 3);
    assert_eq!(m.get(&"batch".to_string()), Some(&DeltaFn::Batch));
    assert_eq!(m.get(&"simulation".to_string()), Some(&DeltaFn::Simulation));
    assert_eq!(m.get(&"monitor".to_string()), Some(&DeltaFn::Monitor));
    let mut hub = Hub::new();
    hub.delta_fns = m;
    let g = GeneratorSpec { delta_fn: dummy_delta_fn(), kind: "batch".to_string(), callback_url: None };
    hub.process_control(ControlRequest::RegisterGenerator("g".to_string(), g));
    assert!(hub.check_poke(&"g".to_string(), &batch_submission("j1"), 0).is_some());
}

#[test]
fn events_copy_and_compare() {
    let e = batch_submission("j1");
    let c = e.clone();
    assert!(c == e);
    let mut d = e.clone();
    d.payload.spec.insert("cpu".to_string(), "3".to_string());
    assert!(d != e);
    let mut f = e.clone();
    f.payload.ctx.priority = Some(2);
    assert!(f != e);
    assert!(e.payload.ctx.clone() == e.payload.ctx);
    assert!(SysContext::default() < f.payload.ctx);
    let ns = get_batch_namespace_spec();
    assert!(ns.clone() == ns);
    assert!(ns != NamespaceSpec { preemptible: true, ..ns.clone() });
    assert!(req("a", true, FieldType::Int) == req("a", true, FieldType::Int));
    assert!(req("a", true, FieldType::Int) != req("a", false, FieldType::Int));
    let w = work(&[("a", "1"), ("b", "2")]);
    assert!(w.clone() == w);
    assert!(w == work(&[("b", "2"), ("a", "1")]));
    assert!(w != work(&[("a", "1")]));
    let r = ControlRequest::RegisterNamespace("batch".to_string(), ns);
    let rc = r.clone();
    assert!(matches!(rc, ControlRequest::RegisterNamespace(ref id, _) if id == "batch"));
    let hub = batch_hub();
    let reg = hub.registry.clone();
    assert_eq!(reg.generators.len(), 1);
    assert_eq!(reg.namespaces.len(), 1);
    println!("{:?}", get_batch_generator_spec());
}
