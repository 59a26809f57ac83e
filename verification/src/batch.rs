//! The batch namespace: jobs that run one command with some CPUs and memory.

use vstd::prelude::*;
use crate::decimal::{parse_u64, parse_u64_spec, render_u64, decimal_digits, lemma_parse_render};
use crate::domain::{
    Event, EventView, SysContext, kind_is, field, SysContextView, Payload, WorkSpec, FieldReq, FieldReqView, FieldType,
    NamespaceSpec, NamespaceSpecView, GeneratorSpec, GeneratorSpecView, DeltaFn, schema_view,
};
use crate::facts::{Facts, FactsView, JobInfo, JobInfoView};
use crate::lattice::OrderBot;
use crate::str_map::StrMap;
use crate::write_once::WriteOnce;

verus! {

/// The id of the batch namespace.
pub const BATCH_NS_ID: &'static str = "batch";

/// The id of the batch generator.
pub const BATCH_GEN_ID: &'static str = "batch_generator";

/// The kind of the event that submits a job.
pub open spec fn submit_job_kind() -> Seq<char> {
    "SubmitJob"@
}

/// A batch job.
#[verifier::ext_equal]
pub struct BatchJobView {
    pub command: Seq<char>,
    pub cpu: u64,
    pub memory: u64,
}

/// A batch job: the command to run, and the CPUs and memory it needs.
pub struct BatchJob {
    pub command: String,
    pub cpu: u64,
    pub memory: u64,
}

impl View for BatchJob {
    type V = BatchJobView;

    open spec fn view(&self) -> BatchJobView {
        BatchJobView { command: self.command@, cpu: self.cpu, memory: self.memory }
    }
}

/// The batch job that a work specification describes: it needs a `command`,
/// and a `cpu` and a `memory` that read as numbers.
pub open spec fn batch_job_of(spec: Map<Seq<char>, Seq<char>>) -> Option<BatchJobView> {
    if spec.contains_key("command"@) && spec.contains_key("cpu"@) && spec.contains_key("memory"@)
        && parse_u64_spec(spec["cpu"@]) is Some && parse_u64_spec(spec["memory"@]) is Some {
        Some(
            BatchJobView {
                command: spec["command"@],
                cpu: parse_u64_spec(spec["cpu"@])->0,
                memory: parse_u64_spec(spec["memory"@])->0,
            },
        )
    } else {
        None
    }
}

/// The work specification of a batch job, numbers written in decimal.
pub open spec fn batch_work_spec(j: BatchJobView) -> Map<Seq<char>, Seq<char>> {
    Map::empty().insert("command"@, j.command).insert("cpu"@, decimal_digits(j.cpu as nat)).insert(
        "memory"@,
        decimal_digits(j.memory as nat),
    )
}

impl BatchJob {
    /// Reads a batch job from a work specification (see `batch_job_of`).
    pub fn from_spec(spec: &WorkSpec) -> (r: Option<Self>)
        ensures
            match r {
                Some(j) => batch_job_of(spec@) == Some(j@),
                None => batch_job_of(spec@) is None,
            },
            r is Some <==> (spec@.contains_key("command"@) && spec@.contains_key("cpu"@) && spec@.contains_key(
                "memory"@,
            ) && parse_u64_spec(spec@["cpu"@]) is Some && parse_u64_spec(spec@["memory"@]) is Some),
            r matches Some(j) ==> j.command@ == spec@["command"@] && parse_u64_spec(spec@["cpu"@]) == Some(j.cpu)
                && parse_u64_spec(spec@["memory"@]) == Some(j.memory),
    {
        let command = match field(spec, "command") {
            Some(c) => c.clone(),
            None => return None,
        };
        let cpu = match field(spec, "cpu") {
            Some(v) => match parse_u64(v.as_str()) {
                Some(n) => n,
                None => return None,
            },
            None => return None,
        };
        let memory = match field(spec, "memory") {
            Some(v) => match parse_u64(v.as_str()) {
                Some(n) => n,
                None => return None,
            },
            None => return None,
        };
        Some(BatchJob { command, cpu, memory })
    }

    /// The work specification of this job, numbers written in decimal.
    pub fn to_spec(&self) -> (r: WorkSpec)
        ensures
            r@ == batch_work_spec(self@),
    {
        let mut spec: WorkSpec = StrMap::new();
        spec.insert("command".to_owned(), self.command.clone());
        spec.insert("cpu".to_owned(), render_u64(self.cpu));
        spec.insert("memory".to_owned(), render_u64(self.memory));
        spec
    }

    /// The event that submits this job to the batch namespace under
    /// `job_id`, with `priority`.
    pub fn submit_event(&self, job_id: String, priority: u64) -> (r: Event)
        ensures
            r@.kind == submit_job_kind(),
            r@.payload.ctx == (SysContextView {
                job_id: Some(job_id@),
                ns_id: Some(BATCH_NS_ID@),
                node_id: None,
                target: None,
                priority: Some(priority),
                slots: None,
            }),
            r@.payload.spec == batch_work_spec(self@),
    {
        Event {
            kind: "SubmitJob".to_owned(),
            payload: Payload {
                ctx: SysContext {
                    job_id: Some(job_id),
                    ns_id: Some(BATCH_NS_ID.to_owned()),
                    node_id: None,
                    target: None,
                    priority: Some(priority),
                    slots: None,
                },
                spec: self.to_spec(),
            },
        }
    }
}

/// Reading back the work specification of a batch job gives the job.
pub proof fn lemma_batch_spec_round_trip(j: BatchJobView)
    ensures
        batch_job_of(batch_work_spec(j)) == Some(j),
{
    reveal_strlit("command");
    reveal_strlit("cpu");
    reveal_strlit("memory");
    lemma_parse_render(j.cpu);
    lemma_parse_render(j.memory);
    let m = batch_work_spec(j);
    assert("command"@[1] != "cpu"@[1]);
    assert("command"@.len() != "memory"@.len());
    assert("cpu"@ != "memory"@);
    assert(m["command"@] == j.command);
    assert(m["cpu"@] == decimal_digits(j.cpu as nat));
    assert(batch_job_of(m)->0 =~= j);
}

/// The job state that a batch submission records: submitted (phase 1), in
/// the batch namespace, with the event's priority (0 if none) and the
/// job's CPUs.
pub open spec fn batch_job_info(priority: Option<u64>, job: BatchJobView) -> JobInfoView {
    JobInfoView {
        phase: 1,
        namespace_id: Set::empty().insert(BATCH_NS_ID@),
        priority: match priority {
            Some(p) => p,
            None => 0,
        },
        resources: Set::empty().insert(job.cpu),
    }
}

/// What the batch namespace learns from an event: a `SubmitJob` event with
/// a job id and a valid batch work specification records the job as
/// submitted; any other event teaches nothing.
pub open spec fn batch_delta(e: EventView) -> FactsView {
    if e.kind == submit_job_kind() && e.payload.ctx.job_id is Some && batch_job_of(e.payload.spec) is Some {
        FactsView {
            jobs: Map::empty().insert(
                e.payload.ctx.job_id->0,
                batch_job_info(e.payload.ctx.priority, batch_job_of(e.payload.spec)->0),
            ),
            nodes: Map::empty(),
        }
    } else {
        Facts::spec_bot()
    }
}

/// Submitting a batch job records it, under its id, as submitted in the
/// batch namespace with the given priority and its CPUs.
pub proof fn lemma_batch_submission_recorded(j: BatchJobView, job_id: Seq<char>, priority: u64, e: EventView)
    requires
        e.kind == submit_job_kind(),
        e.payload.ctx.job_id == Some(job_id),
        e.payload.ctx.priority == Some(priority),
        e.payload.spec == batch_work_spec(j),
    ensures
        batch_delta(e) == (FactsView {
            jobs: Map::empty().insert(job_id, batch_job_info(Some(priority), j)),
            nodes: Map::<Seq<char>, crate::facts::NodeInfoView>::empty(),
        }),
{
    lemma_batch_spec_round_trip(j);
}

/// The batch namespace's delta function (see `batch_delta`).
pub fn batch_delta_fn(e: &Event) -> (r: Facts)
    ensures
        r@ == batch_delta(e@),
{
    let mut facts = Facts::bot();
    if kind_is(e, "SubmitJob") {
        if let Some(job_id) = &e.payload.ctx.job_id {
            if let Some(batch_job) = BatchJob::from_spec(&e.payload.spec) {
                let job_info = JobInfo {
                    phase: 1,
                    namespace_id: WriteOnce::new(BATCH_NS_ID.to_owned()),
                    priority: match e.payload.ctx.priority {
                        Some(p) => p,
                        None => 0,
                    },
                    resources: WriteOnce::new(batch_job.cpu),
                };
                facts.jobs.insert(job_id.clone(), job_info);
                assert(facts@ =~= batch_delta(e@));
            }
        }
    }
    facts
}

/// The batch namespace: not preemptible, run by the batch executor, and
/// asking for a `command` (text), a `cpu` (number) and a `memory` (number).
pub open spec fn batch_namespace() -> NamespaceSpecView {
    NamespaceSpecView {
        preemptible: false,
        handler_type: "batch_executor"@,
        schema: seq![
            FieldReqView { key: "command"@, required: true, expected_type: FieldType::String },
            FieldReqView { key: "cpu"@, required: true, expected_type: FieldType::Int },
            FieldReqView { key: "memory"@, required: true, expected_type: FieldType::Int },
        ],
    }
}

/// The specification of the batch namespace (see `batch_namespace`).
pub fn get_batch_namespace_spec() -> (r: NamespaceSpec)
    ensures
        r@ == batch_namespace(),
{
    let r = NamespaceSpec {
        preemptible: false,
        handler_type: "batch_executor".to_owned(),
        schema: vec![
            FieldReq { key: "command".to_owned(), required: true, expected_type: FieldType::String },
            FieldReq { key: "cpu".to_owned(), required: true, expected_type: FieldType::Int },
            FieldReq { key: "memory".to_owned(), required: true, expected_type: FieldType::Int },
        ],
    };
    assert(schema_view(r.schema@) =~= batch_namespace().schema);
    r
}

/// The specification of the batch generator: the batch delta function,
/// kind `batch`, no callback URL.
pub fn get_batch_generator_spec() -> (r: GeneratorSpec)
    ensures
        r@ == (GeneratorSpecView { delta_fn: DeltaFn::Batch, kind: "batch"@, callback_url: None }),
{
    GeneratorSpec { delta_fn: DeltaFn::Batch, kind: "batch".to_owned(), callback_url: None }
}

/// Reading a batch job depends only on its `command`, `cpu` and `memory`
/// fields: any other field of the work specification is ignored.
pub proof fn lemma_batch_job_ignores_other_fields(spec: Map<Seq<char>, Seq<char>>, k: Seq<char>, v: Seq<char>)
    requires
        k != "command"@,
        k != "cpu"@,
        k != "memory"@,
    ensures
        batch_job_of(spec.insert(k, v)) == batch_job_of(spec),
{
    let s2 = spec.insert(k, v);
    assert(s2.contains_key("command"@) == spec.contains_key("command"@));
    assert(s2.contains_key("cpu"@) == spec.contains_key("cpu"@));
    assert(s2.contains_key("memory"@) == spec.contains_key("memory"@));
}

/// A job submission under job id `id` whose work specification has a
/// `command`, a `cpu` that reads as `cpu` and a `memory` that reads as a
/// number records the job, under `id`, as submitted (phase 1) in the batch
/// namespace, with the event's priority (0 if none) and `cpu` as its
/// resources, whatever other fields the specification holds.
pub proof fn lemma_batch_submission_recorded_as_read(e: EventView, id: Seq<char>, cpu: u64)
    requires
        e.kind == "SubmitJob"@,
        e.payload.ctx.job_id == Some(id),
        e.payload.spec.contains_key("command"@),
        e.payload.spec.contains_key("cpu"@),
        e.payload.spec.contains_key("memory"@),
        parse_u64_spec(e.payload.spec["cpu"@]) == Some(cpu),
        parse_u64_spec(e.payload.spec["memory"@]) is Some,
    ensures
        batch_delta(e) == (FactsView {
            jobs: Map::empty().insert(
                id,
                JobInfoView {
                    phase: 1,
                    namespace_id: Set::empty().insert(BATCH_NS_ID@),
                    priority: match e.payload.ctx.priority {
                        Some(p) => p,
                        None => 0,
                    },
                    resources: Set::empty().insert(cpu),
                },
            ),
            nodes: Map::empty(),
        }),
{
    let info = JobInfoView {
        phase: 1,
        namespace_id: Set::empty().insert(BATCH_NS_ID@),
        priority: match e.payload.ctx.priority {
            Some(p) => p,
            None => 0,
        },
        resources: Set::empty().insert(cpu),
    };
    assert(batch_delta(e).jobs =~= Map::empty().insert(id, info));
}

/// The batch namespace learns only from job submissions: an event of any
/// other kind, or a submission without a job id, teaches it nothing.
pub proof fn lemma_batch_learns_only_from_submissions(e: EventView)
    requires
        e.kind != "SubmitJob"@ || e.payload.ctx.job_id is None,
    ensures
        batch_delta(e) == (FactsView { jobs: Map::empty(), nodes: Map::empty() }),
{
}

} // verus!
