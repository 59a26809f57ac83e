use hpc::batch::{
    batch_delta_fn, get_batch_generator_spec, get_batch_namespace_spec, BatchJob, BATCH_GEN_ID, BATCH_NS_ID,
};
use hpc::domain::{DeltaFn, Event, FieldType, Payload, SysContext, WorkSpec};
use hpc::lattice::OrderBot;
use hpc::monitor::{
    get_monitor_generator_spec, get_monitor_namespace_spec, hardware_stats_event, monitor_delta_fn, MONITOR_GEN_ID,
    MONITOR_NS_ID,
};
use hpc::simulation::{
    get_simulation_generator_spec, get_simulation_namespace_spec, simulation_delta_fn, SimulationJob, SIM_NS_ID,
};
use hpc::str_map::StrMap;

fn work(fields: &[(&str, &str)]) -> WorkSpec {
    let mut m = StrMap::new();
    for (k, v) in fields {
        m.insert(k.to_string(), v.to_string());
    }
    m
}

fn event(kind: &str, job_id: Option<&str>, node_id: Option<&str>, priority: Option<u64>, spec: WorkSpec) -> Event {
    Event {
        kind: kind.to_string(),
        payload: Payload {
            ctx: SysContext {
                job_id: job_id.map(|s| s.to_string()),
                node_id: node_id.map(|s| s.to_string()),
                priority,
                ..Default::default()
            },
            spec,
        },
    }
}

#[test]
fn batch_constants() {
    assert_eq!(BATCH_NS_ID, "batch");
    assert_eq!(BATCH_GEN_ID, "batch_generator");
    assert_eq!(SIM_NS_ID, "simulation");
    assert_eq!(MONITOR_NS_ID, "monitor");
    assert_eq!(MONITOR_GEN_ID, "monitor_generator");
}

#[test]
fn batch_job_from_spec_reads_fields() {
    let j = BatchJob::from_spec(&work(&[("command", "ls"), ("cpu", "4"), ("memory", "1024")])).unwrap();
    assert_eq!(j.command, "ls");
    assert_eq!(j.cpu, 4);
    assert_eq!(j.memory, 1024);
    assert!(BatchJob::from_spec(&work(&[("cpu", "4"), ("memory", "1024")])).is_none());
    assert!(BatchJob::from_spec(&work(&[("command", "ls"), ("cpu", "four"), ("memory", "1024")])).is_none());
    assert!(BatchJob::from_spec(&work(&[("command", "ls"), ("cpu", "4")])).is_none());
    assert!(BatchJob::from_spec(&work(&[("command", "ls"), ("cpu", "4"), ("memory", "-1")])).is_none());
}

#[test]
fn batch_job_spec_round_trip() {
    let j = BatchJob { command: "echo hi".to_string(), cpu: 2, memory: 512 };
    let spec = j.to_spec();
    assert_eq!(spec.len(), 3);
    assert_eq!(spec.get(&"cpu".to_string()).unwrap(), "2");
    assert_eq!(spec.get(&"memory".to_string()).unwrap(), "512");
    let back = BatchJob::from_spec(&spec).unwrap();
    assert_eq!(back.command, j.command);
    assert_eq!(back.cpu, j.cpu);
    assert_eq!(back.memory, j.memory);
}

#[test]
fn batch_delta_records_submitted_job() {
    let e = event("SubmitJob", Some("job-1"), None, Some(10), work(&[("command", "ls"), ("cpu", "4"), ("memory", "64")]));
    let f = batch_delta_fn(&e);
    assert_eq!(f.jobs.len(), 1);
    assert_eq!(f.nodes.len(), 0);
    let info = f.jobs.get(&"job-1".to_string()).unwrap();
    assert_eq!(info.phase, 1);
    assert_eq!(info.priority, 10);
    assert_eq!(info.namespace_id.to_vec(), vec!["batch".to_string()]);
    assert_eq!(info.resources.to_vec(), vec![4]);
}

#[test]
fn batch_delta_defaults_priority_to_zero() {
    let e = event("SubmitJob", Some("j"), None, None, work(&[("command", "ls"), ("cpu", "1"), ("memory", "1")]));
    assert_eq!(batch_delta_fn(&e).jobs.get(&"j".to_string()).unwrap().priority, 0);
}

#[test]
fn batch_delta_ignores_other_events() {
    let spec = || work(&[("command", "ls"), ("cpu", "4"), ("memory", "64")]);
    assert!(batch_delta_fn(&event("JobFinished", Some("j"), None, None, spec())).is_bot());
    assert!(batch_delta_fn(&event("SubmitJob", None, None, None, spec())).is_bot());
    assert!(batch_delta_fn(&event("SubmitJob", Some("j"), None, None, work(&[("command", "ls")]))).is_bot());
}

#[test]
fn batch_submit_event_is_accepted_by_batch_delta() {
    let j = BatchJob { command: "ls -R /".to_string(), cpu: 4, memory: 1024 };
    let e = j.submit_event("batch-job-001".to_string(), 10);
    assert_eq!(e.kind, "SubmitJob");
    assert_eq!(e.payload.ctx.ns_id.as_deref(), Some("batch"));
    assert_eq!(e.payload.ctx.priority, Some(10));
    let f = batch_delta_fn(&e);
    let info = f.jobs.get(&"batch-job-001".to_string()).unwrap();
    assert_eq!(info.phase, 1);
    assert_eq!(info.resources.to_vec(), vec![4]);
}

#[test]
fn batch_specs() {
    let ns = get_batch_namespace_spec();
    assert!(!ns.preemptible);
    assert_eq!(ns.handler_type, "batch_executor");
    let keys: Vec<&str> = ns.schema.iter().map(|r| r.key.as_str()).collect();
    assert_eq!(keys, vec!["command", "cpu", "memory"]);
    assert!(ns.schema.iter().all(|r| r.required));
    assert_eq!(ns.schema[0].expected_type, FieldType::String);
    assert_eq!(ns.schema[1].expected_type, FieldType::Int);
    assert_eq!(ns.schema[2].expected_type, FieldType::Int);
    let g = get_batch_generator_spec();
    assert_eq!(g.delta_fn, DeltaFn::Batch);
    assert_eq!(g.kind, "batch");
    assert_eq!(g.callback_url, None);
}

#[test]
fn simulation_job_round_trip() {
    let j = SimulationJob { env_cmd: "env".to_string(), policy_cmd: "policy".to_string() };
    let back = SimulationJob::from_spec(&j.to_spec()).unwrap();
    assert_eq!(back.env_cmd, "env");
    assert_eq!(back.policy_cmd, "policy");
    assert!(SimulationJob::from_spec(&work(&[("env_cmd", "e")])).is_none());
}

#[test]
fn simulation_delta_phases() {
    let sub = event("SubmitSimulation", Some("s1"), None, Some(3), work(&[("env_cmd", "e"), ("policy_cmd", "p")]));
    let f = simulation_delta_fn(&sub);
    let info = f.jobs.get(&"s1".to_string()).unwrap();
    assert_eq!(info.phase, 1);
    assert_eq!(info.priority, 0);
    assert_eq!(info.namespace_id.to_vec(), vec!["simulation".to_string()]);
    assert!(info.resources.is_empty());

    let started = simulation_delta_fn(&event("SimulationStarted", Some("s1"), None, None, work(&[])));
    assert_eq!(started.jobs.get(&"s1".to_string()).unwrap().phase, 2);
    let finished = simulation_delta_fn(&event("SimulationFinished", Some("s1"), None, None, work(&[])));
    assert_eq!(finished.jobs.get(&"s1".to_string()).unwrap().phase, 3);
}

#[test]
fn simulation_delta_port_reports() {
    let f = simulation_delta_fn(&event("PortAllocated", Some("s1"), None, None, work(&[("port", "4242")])));
    let info = f.jobs.get(&"s1".to_string()).unwrap();
    assert_eq!(info.resources.to_vec(), vec![4242]);
    assert_eq!(info.phase, 0);
    // a port that does not read as a number still records the job, in the least state
    let g = simulation_delta_fn(&event("PortAllocated", Some("s1"), None, None, work(&[("port", "http")])));
    assert_eq!(g.jobs.len(), 1);
    assert!(g.jobs.get(&"s1".to_string()).unwrap().is_bot());
    assert!(!g.is_bot());
}

#[test]
fn simulation_delta_ignores_other_events() {
    assert!(simulation_delta_fn(&event("SimulationStarted", None, None, None, work(&[]))).is_bot());
    assert!(simulation_delta_fn(&event("Other", Some("s1"), None, None, work(&[]))).is_bot());
    assert!(simulation_delta_fn(&event("SubmitSimulation", Some("s1"), None, None, work(&[("env_cmd", "e")]))).is_bot());
}

#[test]
fn simulation_specs() {
    let ns = get_simulation_namespace_spec();
    assert_eq!(ns.handler_type, "simulation_executor");
    assert_eq!(ns.schema.len(), 2);
    assert_eq!(ns.schema[0].key, "env_cmd");
    assert_eq!(ns.schema[1].key, "policy_cmd");
    let g = get_simulation_generator_spec();
    assert_eq!(g.delta_fn, DeltaFn::Simulation);
    assert_eq!(g.kind, "simulation");
}

#[test]
fn monitor_delta_records_node() {
    let e = event("HardwareStats", None, Some("node-1"), None, work(&[("cpu_usage", "12.50")]));
    let f = monitor_delta_fn(&e, 12);
    assert_eq!(f.jobs.len(), 0);
    let n = f.nodes.get(&"node-1".to_string()).unwrap();
    assert!(!n.down);
    assert_eq!(n.capacity.to_vec(), vec![12]);
    assert!(monitor_delta_fn(&event("HardwareStats", None, None, None, work(&[])), 3).is_bot());
    assert!(monitor_delta_fn(&event("SubmitJob", None, Some("n"), None, work(&[])), 3).is_bot());
}

#[test]
fn monitor_specs_and_stats_event() {
    let ns = get_monitor_namespace_spec();
    assert!(ns.preemptible);
    assert_eq!(ns.handler_type, "resource_logger");
    let keys: Vec<&str> = ns.schema.iter().map(|r| r.key.as_str()).collect();
    assert_eq!(keys, vec!["cpu_usage", "mem_used_kb", "mem_total_kb"]);
    assert_eq!(ns.schema[0].expected_type, FieldType::String);
    let g = get_monitor_generator_spec();
    assert_eq!(g.delta_fn, DeltaFn::Monitor);
    assert_eq!(g.kind, "monitor");

    let e = hardware_stats_event("node-7".to_string(), "3.25".to_string(), 2048, 8192);
    assert_eq!(e.kind, "HardwareStats");
    assert_eq!(e.payload.ctx.node_id.as_deref(), Some("node-7"));
    assert_eq!(e.payload.ctx.ns_id.as_deref(), Some("monitor"));
    assert_eq!(e.payload.spec.get(&"cpu_usage".to_string()).unwrap(), "3.25");
    assert_eq!(e.payload.spec.get(&"mem_used_kb".to_string()).unwrap(), "2048");
    assert_eq!(e.payload.spec.get(&"mem_total_kb".to_string()).unwrap(), "8192");
}
