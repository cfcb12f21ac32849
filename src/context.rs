use crate::clock::{elapsed_ms, now_millis};
use crate::environment::Environment;
use crate::id::{generate_id, is_id_with_prefix};
use crate::json::{
    get_member, keys_unique, lemma_upsert_keeps_keys_unique, lookup_member, opt_json, members_view, upsert_member, upsert_members, Json, JsonV,
};
use crate::pipeline::PipelineStep;
use crate::result::{count_status, ActionResult, ExecutionMetrics, ExecutionResult, ExecutionStatus};
use crate::state::PipelineState;
use vstd::prelude::*;

verus! {

broadcast use vstd::group_vstd_default;

/// What one action invocation sees: its step key, its input, its parameters,
/// and, once it has succeeded, its result.
#[derive(Clone, Debug)]
pub struct ActionContext {
    pub id: String,
    pub input: Option<Json>,
    pub result: Option<Json>,
    pub params: Option<Json>,
}

impl ActionContext {
    pub fn new(id: &str, input: Json) -> (r: ActionContext)
        ensures
            r.id@ == id@,
            r.input == Some(input),
            r.result is None,
            r.params is None,
    {
        ActionContext { id: String::from_str(id), input: Some(input), result: None, params: None }
    }

    pub fn get_result(&self) -> (r: Option<&Json>)
        ensures
            r == match self.result {
                Some(v) => Some(&v),
                None => None::<&Json>,
            },
    {
        self.result.as_ref()
    }

    pub fn get_input(&self) -> (r: Option<&Json>)
        ensures
            r == match self.input {
                Some(v) => Some(&v),
                None => None::<&Json>,
            },
    {
        self.input.as_ref()
    }

    pub fn set_input(&mut self, value: Json)
        ensures
            final(self).input == Some(value),
            final(self).id == old(self).id,
            final(self).result == old(self).result,
            final(self).params == old(self).params,
    {
        self.input = Some(value);
    }

    pub fn set_result(&mut self, value: Json)
        ensures
            final(self).result == Some(value),
            final(self).id == old(self).id,
            final(self).input == old(self).input,
            final(self).params == old(self).params,
    {
        self.result = Some(value);
    }
}

/// The state of one pipeline run. Times are milliseconds since the Unix epoch.
#[derive(Clone, Debug)]
pub struct ExecutionContext {
    pub environment: Environment,
    pub pipeline_key: String,
    pub run_id: String,
    /// Pipeline-wide data; member `payload` holds the run's input.
    pub data: Vec<(String, Json)>,
    /// The results of the executed steps, in execution order.
    pub steps: Vec<ActionResult>,
    pub current_step: Option<PipelineStep>,
    /// The latest output of each action, by action name, in first-insertion order.
    pub results: Vec<(String, Json)>,
    pub started_at: i64,
    pub finished_at: Option<i64>,
    /// The message of the latest failure, if any.
    pub error: Option<String>,
    /// Where the run stands.
    pub state: PipelineState,
}

/// The members of the context document: `payload`, then for each executed
/// step with an output a member named by its key holding `{"output": ...}`,
/// then `output` for the output of the last step, if it had one.
pub open spec fn context_members(payload: Option<JsonV>, steps: Seq<ActionResult>) -> Seq<
    (Seq<char>, JsonV),
> {
    let with_steps = step_members(payload, steps);
    if steps.len() > 0 && steps.last().output is Some {
        upsert_members(with_steps, "output"@, steps.last().output->0@)
    } else {
        with_steps
    }
}

/// The `payload` member and one member per executed step with an output.
pub open spec fn step_members(payload: Option<JsonV>, steps: Seq<ActionResult>) -> Seq<
    (Seq<char>, JsonV),
>
    decreases steps.len(),
{
    if steps.len() == 0 {
        match payload {
            Some(p) => seq![("payload"@, p)],
            None => Seq::empty(),
        }
    } else {
        let prev = step_members(payload, steps.drop_last());
        match steps.last().output {
            Some(o) => upsert_members(
                prev,
                steps.last().key@,
                JsonV::Obj(seq![("output"@, o@)]),
            ),
            None => prev,
        }
    }
}

/// The status that a run's record carries for the state the run ended in.
pub open spec fn status_of(state: PipelineState) -> ExecutionStatus {
    match state {
        PipelineState::Completed => ExecutionStatus::Success,
        PipelineState::Canceled => ExecutionStatus::Canceled,
        _ => ExecutionStatus::Failed,
    }
}

/// The error that a run's record carries: none for a completed run.
pub open spec fn error_of(state: PipelineState, error: Option<String>) -> Option<String> {
    if state == PipelineState::Completed {
        None
    } else {
        error
    }
}

impl ExecutionContext {
    /// Well-formed: data and results hold each key once, and a recorded
    /// finishing time does not come before the start.
    pub open spec fn wf(&self) -> bool {
        &&& keys_unique(members_view(self.data@))
        &&& keys_unique(members_view(self.results@))
        &&& self.finished_at matches Some(f) ==> f >= self.started_at
    }

    /// The run's input, if recorded.
    pub open spec fn payload(&self) -> Option<JsonV> {
        lookup_member(members_view(self.data@), "payload"@)
    }

    /// The document that JSONPath expressions are resolved against.
    pub open spec fn document(&self) -> JsonV {
        JsonV::Obj(context_members(self.payload(), self.steps@))
    }

    /// A fresh context for a run of pipeline `pipeline_key`.
    pub fn new(pipeline_key: &str, environment: Environment) -> (r: ExecutionContext)
        ensures
            r.pipeline_key@ == pipeline_key@,
            r.environment == environment,
            is_id_with_prefix(r.run_id@, "run"@),
            r.data@.len() == 0,
            r.steps@.len() == 0,
            r.results@.len() == 0,
            r.current_step is None,
            r.finished_at is None,
            r.error is None,
            r.state == PipelineState::Running,
            r.wf(),
    {
        ExecutionContext {
            environment,
            pipeline_key: String::from_str(pipeline_key),
            run_id: generate_id("run"),
            data: Vec::new(),
            steps: Vec::new(),
            results: Vec::new(),
            started_at: now_millis(),
            finished_at: None,
            error: None,
            current_step: None,
            state: PipelineState::Running,
        }
    }

    /// Records the time the run finished.
    pub fn finish(&mut self)
        ensures
            final(self).finished_at matches Some(f) && f >= old(self).started_at,
            old(self).wf() ==> final(self).wf(),
            final(self).steps == old(self).steps,
            final(self).data == old(self).data,
            final(self).results == old(self).results,
            final(self).started_at == old(self).started_at,
            final(self).error == old(self).error,
            final(self).state == old(self).state,
            final(self).run_id == old(self).run_id,
            final(self).pipeline_key == old(self).pipeline_key,
            final(self).environment == old(self).environment,
    {
        let now = now_millis();
        self.finished_at = Some(if now < self.started_at {
            self.started_at
        } else {
            now
        });
    }

    /// Sets pipeline-wide data `key` to `value`.
    pub fn insert(&mut self, key: &str, value: Json)
        ensures
            members_view(final(self).data@) == upsert_members(
                members_view(old(self).data@),
                key@,
                value@,
            ),
            final(self).steps == old(self).steps,
            final(self).results == old(self).results,
            final(self).error == old(self).error,
            final(self).state == old(self).state,
            final(self).pipeline_key == old(self).pipeline_key,
            final(self).run_id == old(self).run_id,
            final(self).environment == old(self).environment,
            final(self).started_at == old(self).started_at,
            final(self).finished_at == old(self).finished_at,
            final(self).current_step == old(self).current_step,
            old(self).wf() ==> final(self).wf(),
    {
        proof {
            if self.wf() {
                lemma_upsert_keeps_keys_unique(members_view(self.data@), key@, value@);
            }
        }
        upsert_member(&mut self.data, String::from_str(key), value);
    }

    /// Appends a step's result to the history; where it has an output, that
    /// output becomes the latest result of `action_id`.
    pub fn insert_result(&mut self, action_id: &str, result: ActionResult)
        ensures
            final(self).steps@ == old(self).steps@.push(result),
            members_view(final(self).results@) == match result.output {
                Some(o) => upsert_members(members_view(old(self).results@), action_id@, o@),
                None => members_view(old(self).results@),
            },
            final(self).data == old(self).data,
            final(self).error == old(self).error,
            final(self).state == old(self).state,
            final(self).started_at == old(self).started_at,
            final(self).run_id == old(self).run_id,
            final(self).pipeline_key == old(self).pipeline_key,
            final(self).environment == old(self).environment,
            final(self).finished_at == old(self).finished_at,
            final(self).current_step == old(self).current_step,
            old(self).wf() ==> final(self).wf(),
    {
        proof {
            if self.wf() && result.output is Some {
                lemma_upsert_keeps_keys_unique(
                    members_view(self.results@),
                    action_id@,
                    result.output->0@,
                );
            }
        }
        match &result.output {
            Some(value) => {
                upsert_member(&mut self.results, String::from_str(action_id), value.clone());
            },
            None => {},
        }
        self.steps.push(result);
    }

    /// Pipeline-wide data `key`, if set.
    pub fn get(&self, key: &str) -> (r: Option<&Json>)
        ensures
            match r {
                Some(v) => lookup_member(members_view(self.data@), key@) == Some(v@),
                None => lookup_member(members_view(self.data@), key@) is None,
            },
    {
        get_member(&self.data, key)
    }

    /// The terminal record of the run: its status follows the state the run
    /// ended in, and the metrics count the steps that were executed.
    pub fn into_result(self) -> (r: ExecutionResult)
        ensures
            r.run_id == self.run_id,
            r.pipeline_key == Some(self.pipeline_key),
            r.environment == Some(self.environment.name),
            r.status == status_of(self.state),
            r.error == error_of(self.state, self.error),
            r.steps == self.steps,
            opt_json(r.result) == if self.steps@.len() > 0 {
                opt_json(self.steps@.last().output)
            } else {
                None
            },
            r.metrics.started_at == self.started_at,
            r.metrics.finished_at >= r.metrics.started_at,
            r.metrics.duration_ms == elapsed_ms(self.started_at, r.metrics.finished_at),
            r.metrics.steps_total == self.steps@.len(),
            r.metrics.steps_succeeded == count_status(self.steps@, ExecutionStatus::Success),
            r.metrics.steps_failed == count_status(self.steps@, ExecutionStatus::Failed),
            r.metrics.steps_succeeded + r.metrics.steps_failed <= r.metrics.steps_total,
    {
        let now = now_millis();
        let finished_at = if now < self.started_at {
            self.started_at
        } else {
            now
        };
        let metrics = ExecutionMetrics::of_steps(self.started_at, finished_at, &self.steps);
        let status = match self.state {
            PipelineState::Completed => ExecutionStatus::Success,
            PipelineState::Canceled => ExecutionStatus::Canceled,
            _ => ExecutionStatus::Failed,
        };
        let error = if matches!(self.state, PipelineState::Completed) {
            None
        } else {
            self.error
        };
        let n = self.steps.len();
        let result = if n > 0 {
            match &self.steps[n - 1].output {
                Some(o) => Some(o.clone()),
                None => None,
            }
        } else {
            None
        };
        ExecutionResult {
            run_id: self.run_id,
            pipeline_key: Some(self.pipeline_key),
            environment: Some(self.environment.name),
            status,
            error,
            steps: self.steps,
            result,
            metrics,
        }
    }
}

} // verus!
