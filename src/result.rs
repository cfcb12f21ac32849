use crate::clock::{elapsed_between, elapsed_ms, now_millis};
use crate::id::{generate_id, is_id_with_prefix};
use crate::json::Json;
use vstd::prelude::*;

verus! {

broadcast use vstd::group_vstd_default;

/// The outcome of a step or of a whole run.
#[derive(Clone, Copy, Debug, PartialEq, Eq, Structural)]
pub enum ExecutionStatus {
    Success,
    Failed,
    Canceled,
    Skipped,
    Timeout,
}

/// The record of one executed step. Times are milliseconds since the Unix epoch.
#[derive(Clone, Debug)]
pub struct ActionResult {
    pub id: String,
    /// The key of the step that produced the result.
    pub key: String,
    /// The name of the action that ran.
    pub action: Option<String>,
    pub status: ExecutionStatus,
    pub output: Option<Json>,
    pub message: Option<String>,
    pub started_at: Option<i64>,
    pub finished_at: Option<i64>,
    pub duration_ms: Option<u64>,
}

/// Timing and counts of a run.
#[derive(Clone, Copy, Debug)]
pub struct ExecutionMetrics {
    pub started_at: i64,
    pub finished_at: i64,
    pub duration_ms: u64,
    pub steps_total: usize,
    pub steps_succeeded: usize,
    pub steps_failed: usize,
}

/// The terminal record of a run.
#[derive(Clone, Debug)]
pub struct ExecutionResult {
    pub run_id: String,
    pub pipeline_key: Option<String>,
    pub environment: Option<String>,
    pub status: ExecutionStatus,
    /// Why the run did not succeed; `None` on success.
    pub error: Option<String>,
    pub steps: Vec<ActionResult>,
    /// The output of the last executed step, if it had one.
    pub result: Option<Json>,
    pub metrics: ExecutionMetrics,
}

/// How many of `steps` have status `st`.
pub open spec fn count_status(steps: Seq<ActionResult>, st: ExecutionStatus) -> nat
    decreases steps.len(),
{
    if steps.len() == 0 {
        0
    } else {
        count_status(steps.drop_last(), st) + if steps.last().status == st {
            1nat
        } else {
            0nat
        }
    }
}

/// A step is counted in at most one of two distinct statuses, so the two
/// counts together never exceed the number of steps.
pub proof fn lemma_counts_bounded(steps: Seq<ActionResult>, a: ExecutionStatus, b: ExecutionStatus)
    requires
        a != b,
    ensures
        count_status(steps, a) + count_status(steps, b) <= steps.len(),
    decreases steps.len(),
{
    if steps.len() > 0 {
        lemma_counts_bounded(steps.drop_last(), a, b);
    }
}

/// How many of `steps` have status `st`.
pub fn count_with_status(steps: &Vec<ActionResult>, st: ExecutionStatus) -> (r: usize)
    ensures
        r == count_status(steps@, st),
{
    let mut n: usize = 0;
    let mut i: usize = 0;
    while i < steps.len()
        invariant
            i <= steps@.len(),
            n == count_status(steps@.subrange(0, i as int), st),
            n <= i,
        decreases steps.len() - i,
    {
        assert(steps@.subrange(0, i as int + 1).drop_last() =~= steps@.subrange(0, i as int));
        if steps[i].status == st {
            n = n + 1;
        }
        i = i + 1;
    }
    assert(steps@.subrange(0, i as int) =~= steps@);
    n
}

impl ExecutionMetrics {
    /// Metrics of `steps` for a run that started at `started_at` and finished
    /// at `finished_at`.
    pub fn of_steps(started_at: i64, finished_at: i64, steps: &Vec<ActionResult>) -> (r: ExecutionMetrics)
        ensures
            r.started_at == started_at,
            r.finished_at == finished_at,
            r.duration_ms == elapsed_ms(started_at, finished_at),
            r.steps_total == steps@.len(),
            r.steps_succeeded == count_status(steps@, ExecutionStatus::Success),
            r.steps_failed == count_status(steps@, ExecutionStatus::Failed),
            r.steps_succeeded + r.steps_failed <= r.steps_total,
    {
        proof {
            lemma_counts_bounded(steps@, ExecutionStatus::Success, ExecutionStatus::Failed);
        }
        ExecutionMetrics {
            started_at,
            finished_at,
            duration_ms: elapsed_between(started_at, finished_at),
            steps_total: steps.len(),
            steps_succeeded: count_with_status(steps, ExecutionStatus::Success),
            steps_failed: count_with_status(steps, ExecutionStatus::Failed),
        }
    }

    /// Metrics of `steps` for a run that started at `started_at` and finishes now.
    pub fn from_steps(started_at: i64, steps: &Vec<ActionResult>) -> (r: ExecutionMetrics)
        ensures
            r.started_at == started_at,
            r.duration_ms == elapsed_ms(started_at, r.finished_at),
            r.steps_total == steps@.len(),
            r.steps_succeeded == count_status(steps@, ExecutionStatus::Success),
            r.steps_failed == count_status(steps@, ExecutionStatus::Failed),
            r.steps_succeeded + r.steps_failed <= r.steps_total,
    {
        let finished_at = now_millis();
        ExecutionMetrics::of_steps(started_at, finished_at, steps)
    }
}

impl ActionResult {
    /// A successful result that carries `output`.
    pub fn success(output: Json) -> (r: ActionResult)
        ensures
            r.status == ExecutionStatus::Success,
            r.output == Some(output),
            r.key@.len() == 0,
            r.action is None,
            r.message is None,
            r.duration_ms == Some(0u64),
            r.started_at is Some,
            r.finished_at == r.started_at,
            is_id_with_prefix(r.id@, "action_result"@),
    {
        let now = now_millis();
        ActionResult {
            key: String::new(),
            id: generate_id("action_result"),
            action: None,
            status: ExecutionStatus::Success,
            output: Some(output),
            message: None,
            started_at: Some(now),
            finished_at: Some(now),
            duration_ms: Some(0),
        }
    }

    /// A failed result that carries `message`.
    pub fn failed(message: &str) -> (r: ActionResult)
        ensures
            r.status == ExecutionStatus::Failed,
            r.output is None,
            r.key@.len() == 0,
            r.action is None,
            r.message matches Some(m) && m@ == message@,
            r.duration_ms == Some(0u64),
            r.started_at is Some,
            r.finished_at == r.started_at,
            is_id_with_prefix(r.id@, "action_result"@),
    {
        let now = now_millis();
        ActionResult {
            key: String::new(),
            id: generate_id("action_result"),
            action: None,
            status: ExecutionStatus::Failed,
            output: None,
            message: Some(String::from_str(message)),
            started_at: Some(now),
            finished_at: Some(now),
            duration_ms: Some(0),
        }
    }

    /// A skipped result, with no output and no times.
    pub fn skipped() -> (r: ActionResult)
        ensures
            r.status == ExecutionStatus::Skipped,
            r.output is None,
            r.key@.len() == 0,
            r.action is None,
            r.message is None,
            r.started_at is None,
            r.finished_at is None,
            r.duration_ms is None,
            is_id_with_prefix(r.id@, "action_result"@),
    {
        ActionResult {
            key: String::new(),
            id: generate_id("action_result"),
            action: None,
            status: ExecutionStatus::Skipped,
            output: None,
            message: None,
            started_at: None,
            finished_at: None,
            duration_ms: None,
        }
    }
}

} // verus!
