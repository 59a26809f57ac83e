//! The relay's decisions: which pulled jobs to run, and which jobs to relay.

use vstd::prelude::*;
use crate::facts::Facts;
use crate::map_lattice::lemma_take_one_more;

verus! {

/// The executor a relay runs jobs with.
pub struct RelayExecutor;

impl RelayExecutor {
    /// The relay's executor.
    pub fn new() -> Self {
        RelayExecutor
    }
}

/// The cursor a relay pulls from next: one step on after a pull that
/// succeeded, the same after one that failed.
pub fn cursor_after_pull(cursor: u64, pulled: bool) -> (r: u64)
    requires
        pulled ==> cursor < u64::MAX,
    ensures
        r == if pulled { cursor + 1 } else { cursor as int },
{
    if pulled {
        cursor + 1
    } else {
        cursor
    }
}

/// The ids of the jobs that pulled facts record as submitted (phase 1),
/// each once: the jobs a relay runs.
pub fn jobs_ready(facts: &Facts) -> (r: Vec<String>)
    ensures
        forall|i: int|
            0 <= i < r@.len() ==> facts@.jobs.contains_key(#[trigger] r@[i]@) && facts@.jobs[r@[i]@].phase == 1,
        forall|k: Seq<char>|
            #[trigger] facts@.jobs.contains_key(k) && facts@.jobs[k].phase == 1 ==> exists|i: int|
                0 <= i < r@.len() && #[trigger] r@[i]@ == k,
        forall|i: int, j: int| 0 <= i < r@.len() && 0 <= j < r@.len() && i != j ==> #[trigger] r@[i]@ != #[trigger] r@[j]@,
{
    let jobs = &facts.jobs;
    let n = jobs.len();
    let mut r: Vec<String> = Vec::new();
    let mut i: usize = 0;
    while i < n
        invariant
            n == jobs.keys().len(),
            jobs.keys().no_duplicates(),
            forall|k: Seq<char>| #[trigger] jobs@.contains_key(k) <==> jobs.keys().contains(k),
            jobs@ == facts@.jobs,
            i <= n,
            forall|x: int|
                0 <= x < r@.len() ==> jobs.keys().take(i as int).contains(#[trigger] r@[x]@) && jobs@[r@[x]@].phase
                    == 1,
            forall|k: Seq<char>|
                #[trigger] jobs.keys().take(i as int).contains(k) && jobs@[k].phase == 1 ==> exists|x: int|
                    0 <= x < r@.len() && #[trigger] r@[x]@ == k,
            forall|x: int, y: int|
                0 <= x < r@.len() && 0 <= y < r@.len() && x != y ==> #[trigger] r@[x]@ != #[trigger] r@[y]@,
        decreases n - i,
    {
        let k = jobs.key_at(i);
        let info = jobs.value_at(i);
        let ghost ks = jobs.keys();
        proof {
            lemma_take_one_more(ks, i as int);
            assert(!ks.take(i as int).contains(ks[i as int])) by {
                if ks.take(i as int).contains(ks[i as int]) {
                    let x = choose|x: int| 0 <= x < ks.take(i as int).len() && ks.take(i as int)[x] == ks[i as int];
                    assert(ks[x] == ks[i as int]);
                }
            }
        }
        let ghost prev = r@;
        if info.phase == 1 {
            r.push(k.clone());
            proof {
                assert forall|x: int| 0 <= x < prev.len() implies #[trigger] r@[x] == prev[x] by {}
            }
        }
        proof {
            assert forall|kk: Seq<char>|
                #[trigger] ks.take(i + 1).contains(kk) && jobs@[kk].phase == 1 implies exists|x: int|
                    0 <= x < r@.len() && #[trigger] r@[x]@ == kk by {
                if kk == ks[i as int] {
                    assert(r@[r@.len() - 1]@ == kk);
                } else {
                    let x = choose|x: int| 0 <= x < prev.len() && #[trigger] prev[x]@ == kk;
                    assert(r@[x]@ == kk);
                }
            }
        }
        i = i + 1;
    }
    proof {
        assert(jobs.keys().take(n as int) =~= jobs.keys());
    }
    r
}

/// A job as the router sees it: its tags.
pub struct Job {
    pub tags: Vec<String>,
}

/// Whether a job is relayed to a specific node: it is when it is tagged
/// `gpu`.
pub fn should_relay(job: &Job) -> (r: bool)
    ensures
        r == exists|i: int| 0 <= i < job.tags@.len() && #[trigger] job.tags@[i]@ == "gpu"@,
{
    let gpu = "gpu".to_owned();
    let mut i: usize = 0;
    while i < job.tags.len()
        invariant
            i <= job.tags@.len(),
            gpu@ == "gpu"@,
            forall|j: int| 0 <= j < i ==> #[trigger] job.tags@[j]@ != "gpu"@,
        decreases job.tags.len() - i,
    {
        if job.tags[i] == gpu {
            return true;
        }
        i = i + 1;
    }
    false
}

} // verus!
