//! The simulation namespace: an environment process and a policy process
//! that find each other through a port the environment reports.

use vstd::prelude::*;
use crate::decimal::{parse_u64, parse_u64_spec};
use crate::domain::{
    Event, EventView, WorkSpec, kind_is, field, FieldReq, FieldReqView, FieldType, NamespaceSpec, NamespaceSpecView,
    GeneratorSpec, GeneratorSpecView, DeltaFn, schema_view,
};
use crate::facts::{Facts, FactsView, JobInfo, JobInfoView, job_info_bot};
use crate::lattice::OrderBot;
use crate::str_map::StrMap;
use crate::write_once::WriteOnce;

verus! {

/// The id of the simulation namespace.
pub const SIM_NS_ID: &'static str = "simulation";

/// A simulation job.
#[verifier::ext_equal]
pub struct SimulationJobView {
    pub env_cmd: Seq<char>,
    pub policy_cmd: Seq<char>,
}

/// A simulation job: the command that starts the environment and the one
/// that starts the policy.
pub struct SimulationJob {
    pub env_cmd: String,
    pub policy_cmd: String,
}

impl View for SimulationJob {
    type V = SimulationJobView;

    open spec fn view(&self) -> SimulationJobView {
        SimulationJobView { env_cmd: self.env_cmd@, policy_cmd: self.policy_cmd@ }
    }
}

/// The simulation job that a work specification describes: it needs an
/// `env_cmd` and a `policy_cmd`.
pub open spec fn simulation_job_of(spec: Map<Seq<char>, Seq<char>>) -> Option<SimulationJobView> {
    if spec.contains_key("env_cmd"@) && spec.contains_key("policy_cmd"@) {
        Some(SimulationJobView { env_cmd: spec["env_cmd"@], policy_cmd: spec["policy_cmd"@] })
    } else {
        None
    }
}

/// The work specification of a simulation job.
pub open spec fn simulation_work_spec(j: SimulationJobView) -> Map<Seq<char>, Seq<char>> {
    Map::empty().insert("env_cmd"@, j.env_cmd).insert("policy_cmd"@, j.policy_cmd)
}

impl SimulationJob {
    /// Reads a simulation job from a work specification (see
    /// `simulation_job_of`).
    pub fn from_spec(spec: &WorkSpec) -> (r: Option<Self>)
        ensures
            match r {
                Some(j) => simulation_job_of(spec@) == Some(j@),
                None => simulation_job_of(spec@) is None,
            },
            r is Some <==> (spec@.contains_key("env_cmd"@) && spec@.contains_key("policy_cmd"@)),
            r matches Some(j) ==> j.env_cmd@ == spec@["env_cmd"@] && j.policy_cmd@ == spec@["policy_cmd"@],
    {
        let env_cmd = match field(spec, "env_cmd") {
            Some(c) => c.clone(),
            None => return None,
        };
        let policy_cmd = match field(spec, "policy_cmd") {
            Some(c) => c.clone(),
            None => return None,
        };
        Some(SimulationJob { env_cmd, policy_cmd })
    }

    /// The work specification of this job.
    pub fn to_spec(&self) -> (r: WorkSpec)
        ensures
            r@ == simulation_work_spec(self@),
    {
        let mut spec: WorkSpec = StrMap::new();
        spec.insert("env_cmd".to_owned(), self.env_cmd.clone());
        spec.insert("policy_cmd".to_owned(), self.policy_cmd.clone());
        spec
    }
}

/// Reading back the work specification of a simulation job gives the job.
pub proof fn lemma_simulation_spec_round_trip(j: SimulationJobView)
    ensures
        simulation_job_of(simulation_work_spec(j)) == Some(j),
{
    reveal_strlit("env_cmd");
    reveal_strlit("policy_cmd");
    assert("env_cmd"@[0] != "policy_cmd"@[0]);
    assert(simulation_job_of(simulation_work_spec(j))->0 =~= j);
}

/// The state a simulation job is recorded with when submitted: phase 1, in
/// the simulation namespace, nothing else.
pub open spec fn simulation_submitted() -> JobInfoView {
    JobInfoView { phase: 1, namespace_id: Set::empty().insert(SIM_NS_ID@), ..job_info_bot() }
}

/// The state recorded when the environment reports its port: the port as
/// the job's resource when the `port` field reads as a number, else the
/// least state.
pub open spec fn port_info(spec: Map<Seq<char>, Seq<char>>) -> JobInfoView {
    if spec.contains_key("port"@) && parse_u64_spec(spec["port"@]) is Some {
        JobInfoView { resources: Set::empty().insert(parse_u64_spec(spec["port"@])->0), ..job_info_bot() }
    } else {
        job_info_bot()
    }
}

/// What the simulation namespace learns from an event about its job: a
/// valid submission records the job as submitted (phase 1), a port report
/// records the port, a start records phase 2 (running), a finish phase 3
/// (done). Events without a job id, and other events, teach nothing; a
/// submission whose work specification lacks a command teaches nothing
/// either.
pub open spec fn simulation_delta(e: EventView) -> FactsView {
    let bot = Facts::spec_bot();
    match e.payload.ctx.job_id {
        None => bot,
        Some(id) => {
            if e.kind == "SubmitSimulation"@ {
                if simulation_job_of(e.payload.spec) is Some {
                    FactsView { jobs: Map::empty().insert(id, simulation_submitted()), nodes: Map::empty() }
                } else {
                    bot
                }
            } else if e.kind == "PortAllocated"@ {
                FactsView { jobs: Map::empty().insert(id, port_info(e.payload.spec)), nodes: Map::empty() }
            } else if e.kind == "SimulationStarted"@ {
                FactsView {
                    jobs: Map::empty().insert(id, JobInfoView { phase: 2, ..job_info_bot() }),
                    nodes: Map::empty(),
                }
            } else if e.kind == "SimulationFinished"@ {
                FactsView {
                    jobs: Map::empty().insert(id, JobInfoView { phase: 3, ..job_info_bot() }),
                    nodes: Map::empty(),
                }
            } else {
                bot
            }
        },
    }
}

/// The simulation namespace's delta function (see `simulation_delta`).
pub fn simulation_delta_fn(e: &Event) -> (r: Facts)
    ensures
        r@ == simulation_delta(e@),
{
    let mut facts = Facts::bot();
    let job_id = match &e.payload.ctx.job_id {
        Some(id) => id.clone(),
        None => return facts,
    };
    if kind_is(e, "SubmitSimulation") {
        if let Some(_) = SimulationJob::from_spec(&e.payload.spec) {
            let job_info = JobInfo {
                phase: 1,
                namespace_id: WriteOnce::new(SIM_NS_ID.to_owned()),
                priority: 0,
                resources: WriteOnce::empty(),
            };
            facts.jobs.insert(job_id, job_info);
        }
    } else if kind_is(e, "PortAllocated") {
        let mut job_info = JobInfo::bot();
        if let Some(port) = field(&e.payload.spec, "port") {
            if let Some(p) = parse_u64(port.as_str()) {
                job_info.resources = WriteOnce::new(p);
            }
        }
        facts.jobs.insert(job_id, job_info);
    } else if kind_is(e, "SimulationStarted") {
        let mut job_info = JobInfo::bot();
        job_info.phase = 2;
        facts.jobs.insert(job_id, job_info);
    } else if kind_is(e, "SimulationFinished") {
        let mut job_info = JobInfo::bot();
        job_info.phase = 3;
        facts.jobs.insert(job_id, job_info);
    }
    assert(facts@ =~= simulation_delta(e@));
    facts
}

/// The simulation namespace: not preemptible, run by the simulation
/// executor, and asking for an `env_cmd` and a `policy_cmd` (both text).
pub open spec fn simulation_namespace() -> NamespaceSpecView {
    NamespaceSpecView {
        preemptible: false,
        handler_type: "simulation_executor"@,
        schema: seq![
            FieldReqView { key: "env_cmd"@, required: true, expected_type: FieldType::String },
            FieldReqView { key: "policy_cmd"@, required: true, expected_type: FieldType::String },
        ],
    }
}

/// The specification of the simulation namespace (see
/// `simulation_namespace`).
pub fn get_simulation_namespace_spec() -> (r: NamespaceSpec)
    ensures
        r@ == simulation_namespace(),
{
    let r = NamespaceSpec {
        preemptible: false,
        handler_type: "simulation_executor".to_owned(),
        schema: vec![
            FieldReq { key: "env_cmd".to_owned(), required: true, expected_type: FieldType::String },
            FieldReq { key: "policy_cmd".to_owned(), required: true, expected_type: FieldType::String },
        ],
    };
    assert(schema_view(r.schema@) =~= simulation_namespace().schema);
    r
}

/// The specification of the simulation generator: the simulation delta
/// function, kind `simulation`, no callback URL.
pub fn get_simulation_generator_spec() -> (r: GeneratorSpec)
    ensures
        r@ == (GeneratorSpecView { delta_fn: DeltaFn::Simulation, kind: SIM_NS_ID@, callback_url: None }),
{
    GeneratorSpec { delta_fn: DeltaFn::Simulation, kind: SIM_NS_ID.to_owned(), callback_url: None }
}

/// A simulation job is read exactly when the work specification has both
/// an `env_cmd` and a `policy_cmd`, and then with those two commands.
pub proof fn lemma_simulation_job_needs_both_commands(spec: Map<Seq<char>, Seq<char>>)
    ensures
        simulation_job_of(spec) is Some <==> (spec.contains_key("env_cmd"@) && spec.contains_key("policy_cmd"@)),
        simulation_job_of(spec) matches Some(j) ==> j.env_cmd == spec["env_cmd"@] && j.policy_cmd
            == spec["policy_cmd"@],
{
}

/// Reading a simulation job depends only on its two commands: any other
/// field of the work specification is ignored.
pub proof fn lemma_simulation_job_ignores_other_fields(spec: Map<Seq<char>, Seq<char>>, k: Seq<char>, v: Seq<char>)
    requires
        k != "env_cmd"@,
        k != "policy_cmd"@,
    ensures
        simulation_job_of(spec.insert(k, v)) == simulation_job_of(spec),
{
    let s2 = spec.insert(k, v);
    assert(s2.contains_key("env_cmd"@) == spec.contains_key("env_cmd"@));
    assert(s2.contains_key("policy_cmd"@) == spec.contains_key("policy_cmd"@));
}

/// A simulation submission whose work specification lacks either command
/// teaches nothing: no job is recorded.
pub proof fn lemma_incomplete_simulation_teaches_nothing(e: EventView)
    requires
        e.kind == "SubmitSimulation"@,
        !e.payload.spec.contains_key("env_cmd"@) || !e.payload.spec.contains_key("policy_cmd"@),
    ensures
        simulation_delta(e) == (FactsView { jobs: Map::empty(), nodes: Map::empty() }),
{
}

/// A simulation submission under job id `id` whose work specification has
/// both commands records the job, under `id`, as submitted (phase 1) in the
/// simulation namespace, with nothing else known of it.
pub proof fn lemma_complete_simulation_recorded(e: EventView, id: Seq<char>)
    requires
        e.kind == "SubmitSimulation"@,
        e.payload.ctx.job_id == Some(id),
        e.payload.spec.contains_key("env_cmd"@),
        e.payload.spec.contains_key("policy_cmd"@),
    ensures
        simulation_delta(e) == (FactsView {
            jobs: Map::empty().insert(
                id,
                JobInfoView {
                    phase: 1,
                    namespace_id: Set::empty().insert(SIM_NS_ID@),
                    priority: 0,
                    resources: Set::empty(),
                },
            ),
            nodes: Map::empty(),
        }),
{
    assert(simulation_delta(e).jobs =~= Map::empty().insert(
        id,
        JobInfoView {
            phase: 1,
            namespace_id: Set::empty().insert(SIM_NS_ID@),
            priority: 0,
            resources: Set::empty(),
        },
    ));
}

/// The simulation's later events under job id `id`: a port report whose
/// `port` reads as `port` records that port as the job's resource; a start
/// records phase 2 (running); a finish records phase 3 (done); nothing else
/// is known of the job from them.
pub proof fn lemma_simulation_lifecycle_recorded(e: EventView, id: Seq<char>, port: u64)
    requires
        e.payload.ctx.job_id == Some(id),
    ensures
        e.kind == "PortAllocated"@ && e.payload.spec.contains_key("port"@) && parse_u64_spec(e.payload.spec["port"@])
            == Some(port) ==> simulation_delta(e) == (FactsView {
            jobs: Map::empty().insert(
                id,
                JobInfoView { phase: 0, namespace_id: Set::empty(), priority: 0, resources: Set::empty().insert(port) },
            ),
            nodes: Map::empty(),
        }),
        e.kind == "SimulationStarted"@ ==> simulation_delta(e) == (FactsView {
            jobs: Map::empty().insert(
                id,
                JobInfoView { phase: 2, namespace_id: Set::empty(), priority: 0, resources: Set::empty() },
            ),
            nodes: Map::empty(),
        }),
        e.kind == "SimulationFinished"@ ==> simulation_delta(e) == (FactsView {
            jobs: Map::empty().insert(
                id,
                JobInfoView { phase: 3, namespace_id: Set::empty(), priority: 0, resources: Set::empty() },
            ),
            nodes: Map::empty(),
        }),
{
    reveal_strlit("SubmitSimulation");
    reveal_strlit("PortAllocated");
    reveal_strlit("SimulationStarted");
    reveal_strlit("SimulationFinished");
    assert("SubmitSimulation"@[1] != "PortAllocated"@[1]);
    assert("SubmitSimulation"@[1] != "SimulationStarted"@[1]);
    assert("SubmitSimulation"@[1] != "SimulationFinished"@[1]);
    assert("PortAllocated"@[0] != "SimulationStarted"@[0]);
    assert("PortAllocated"@[0] != "SimulationFinished"@[0]);
    assert("SimulationStarted"@[10] != "SimulationFinished"@[10]);
    if e.kind == "PortAllocated"@ && e.payload.spec.contains_key("port"@) && parse_u64_spec(e.payload.spec["port"@])
        == Some(port) {
        assert(simulation_delta(e).jobs =~= Map::empty().insert(
            id,
            JobInfoView { phase: 0, namespace_id: Set::empty(), priority: 0, resources: Set::empty().insert(port) },
        ));
    }
    if e.kind == "SimulationStarted"@ {
        assert(simulation_delta(e).jobs =~= Map::empty().insert(
            id,
            JobInfoView { phase: 2, namespace_id: Set::empty(), priority: 0, resources: Set::empty() },
        ));
    }
    if e.kind == "SimulationFinished"@ {
        assert(simulation_delta(e).jobs =~= Map::empty().insert(
            id,
            JobInfoView { phase: 3, namespace_id: Set::empty(), priority: 0, resources: Set::empty() },
        ));
    }
}

} // verus!
