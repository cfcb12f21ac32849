use crate::clock::{elapsed_between, elapsed_ms};
use crate::context::ExecutionContext;
use crate::definition::{clone_opt, opt_ref_ok, refs_defined};
use crate::environment::Environment;
use crate::error::{join, EngineError, Error};
use crate::id::{generate_id, is_id_with_prefix};
use crate::json::{members_view, upsert_members, Json, JsonV};
use crate::mapper::build_jsonpath_context;
use crate::pipeline::{opt_view, same_step, step_keys, Pipeline, PipelineStep};
use crate::predicate::{condition_value, evaluate_against};
use crate::resolver::{resolve_value, resolved};
use crate::result::{ActionResult, ExecutionStatus};
use crate::state::PipelineState;
use crate::text::same_text;
use vstd::prelude::*;

verus! {

broadcast use vstd::group_vstd_default;

/// What the host observed when it ran one step's action.
pub enum StepOutcome {
    /// The action returned a result.
    Returned(ActionResult),
    /// The action returned an error.
    Failed(Error),
    /// The cancellation signal fired before the action finished.
    Canceled,
}

/// What the host is to do next.
pub enum Directive {
    /// Configure and run the action of step `index` with `config`, the step's
    /// configuration resolved against the run.
    Execute { index: usize, config: Json },
    /// The run is over; the context's state says how it ended.
    Finished,
}

/// Where routing goes after a successful step: the first conditional branch
/// whose predicate holds, else `otherwise`, else `next`; an invalid predicate
/// stops the search with an error.
pub enum Route {
    Go(Seq<char>),
    End,
    Invalid(Seq<char>),
}

/// Routing over the conditional branches from branch `i` on.
pub open spec fn route_from(s: PipelineStep, doc: JsonV, i: int) -> Route
    decreases s.next_when@.len() - i,
{
    if i < 0 || i >= s.next_when@.len() {
        match opt_view(s.otherwise) {
            Some(k) => Route::Go(k),
            None => match opt_view(s.next) {
                Some(k) => Route::Go(k),
                None => Route::End,
            },
        }
    } else {
        match condition_value(s.next_when@[i].when@, doc) {
            None => Route::Invalid(s.next_when@[i].when@),
            Some(true) => Route::Go(s.next_when@[i].next@),
            Some(false) => route_from(s, doc, i + 1),
        }
    }
}

/// Where routing goes after step `s` succeeded, the run's document being `doc`.
pub open spec fn successor(s: PipelineStep, doc: JsonV) -> Route {
    route_from(s, doc, 0)
}

/// Every key that routing can pick for `s` names a step of `p` when `p`'s
/// references are all defined.
pub open spec fn route_keys_defined(s: PipelineStep, keys: Seq<Seq<char>>) -> bool {
    &&& forall|c: int| 0 <= c < s.next_when@.len() ==> keys.contains(#[trigger] s.next_when@[c].next@)
    &&& opt_ref_ok(s.next, keys)
    &&& opt_ref_ok(s.otherwise, keys)
    &&& opt_ref_ok(s.on_error, keys)
}

proof fn lemma_route_from_defined(s: PipelineStep, doc: JsonV, keys: Seq<Seq<char>>, i: int)
    requires
        route_keys_defined(s, keys),
    ensures
        route_from(s, doc, i) matches Route::Go(k) ==> keys.contains(k),
    decreases s.next_when@.len() - i,
{
    if 0 <= i < s.next_when@.len() {
        lemma_route_from_defined(s, doc, keys, i + 1);
    } else {
        if s.otherwise is Some {
            assert(opt_view(s.otherwise) == Some(s.otherwise->0@));
        } else if s.next is Some {
            assert(opt_view(s.next) == Some(s.next->0@));
        }
    }
}

/// In a pipeline whose routing edges all name defined steps, every key that
/// routing picks after a step, on success or on failure, names a step of the
/// pipeline.
pub proof fn lemma_successors_defined(p: Pipeline, i: int, doc: JsonV)
    requires
        refs_defined(p),
        0 <= i < p.steps@.len(),
    ensures
        successor(p.steps@[i], doc) matches Route::Go(k) ==> step_keys(p.steps@).contains(k),
        p.steps@[i].on_error matches Some(k) ==> step_keys(p.steps@).contains(k@),
{
    let s = p.steps@[i];
    assert(route_keys_defined(s, step_keys(p.steps@)));
    lemma_route_from_defined(s, doc, step_keys(p.steps@), 0);
}

/// The successor of a step that succeeded: `Ok(Some(key))`, `Ok(None)` where
/// the run ends, or an error for an invalid predicate.
pub fn resolve_next_step(step: &PipelineStep, doc: &Json) -> (r: Result<Option<String>, EngineError>)
    ensures
        match successor(*step, doc@) {
            Route::Go(k) => r matches Ok(Some(n)) && n@ == k,
            Route::End => r matches Ok(None),
            Route::Invalid(w) => r matches Err(EngineError::Other(m)) && m@
                == "Invalid condition syntax: "@ + w,
        },
{
    let mut c: usize = 0;
    while c < step.next_when.len()
        invariant
            c <= step.next_when@.len(),
            successor(*step, doc@) == route_from(*step, doc@, c as int),
        decreases step.next_when.len() - c,
    {
        match evaluate_against(step.next_when[c].when.as_str(), doc) {
            Ok(true) => {
                return Ok(Some(step.next_when[c].next.clone()));
            },
            Ok(false) => {},
            Err(e) => {
                return Err(e);
            },
        }
        c = c + 1;
    }
    match &step.otherwise {
        Some(k) => Ok(Some(k.clone())),
        None => match &step.next {
            Some(k) => Ok(Some(k.clone())),
            None => Ok(None),
        },
    }
}

/// The result the action executor records for an outcome of step `step_key`
/// running action `action_name` between `started_at` and `finished_at`: a
/// returned result is stamped with the step key and action name; an error or
/// a cancellation becomes a `Failed` or `Canceled` result that carries its text.
pub open spec fn shaped_result(
    outcome: StepOutcome,
    step_key: Seq<char>,
    action_name: Seq<char>,
    started_at: i64,
    finished_at: i64,
    r: ActionResult,
) -> bool {
    &&& r.key@ == step_key
    &&& opt_view(r.action) == Some(action_name)
    &&& match outcome {
        StepOutcome::Returned(v) => {
            &&& r.id == v.id
            &&& r.status == v.status
            &&& r.output == v.output
            &&& r.message == v.message
            &&& r.started_at == v.started_at
            &&& r.finished_at == v.finished_at
            &&& r.duration_ms == v.duration_ms
        },
        StepOutcome::Failed(e) => {
            &&& r.status == ExecutionStatus::Failed
            &&& r.output is None
            &&& opt_view(r.message) == Some("Action failed: "@ + e.label() + e.detail())
            &&& r.started_at == Some(started_at)
            &&& r.finished_at == Some(finished_at)
            &&& r.duration_ms == Some(elapsed_ms(started_at, finished_at))
            &&& is_id_with_prefix(r.id@, "action_result"@)
        },
        StepOutcome::Canceled => {
            &&& r.status == ExecutionStatus::Canceled
            &&& r.output is None
            &&& opt_view(r.message) == Some("Pipeline canceled"@)
            &&& r.started_at == Some(started_at)
            &&& r.finished_at == Some(finished_at)
            &&& r.duration_ms == Some(elapsed_ms(started_at, finished_at))
            &&& is_id_with_prefix(r.id@, "action_result"@)
        },
    }
}

/// Turns what the host observed into the step's result.
pub fn shape_result(
    outcome: StepOutcome,
    step_key: &str,
    action_name: &str,
    started_at: i64,
    finished_at: i64,
) -> (r: ActionResult)
    ensures
        shaped_result(outcome, step_key@, action_name@, started_at, finished_at, r),
{
    match outcome {
        StepOutcome::Returned(v) => {
            let mut v = v;
            v.action = Some(String::from_str(action_name));
            v.key = String::from_str(step_key);
            v
        },
        StepOutcome::Failed(e) => {
            let text = e.to_string();
            let err = EngineError::Action(text);
            let message = err.to_string();
            assert(message@ =~= "Action failed: "@ + e.label() + e.detail());
            ActionResult {
                id: generate_id("action_result"),
                key: String::from_str(step_key),
                action: Some(String::from_str(action_name)),
                status: ExecutionStatus::Failed,
                output: None,
                message: Some(message),
                started_at: Some(started_at),
                finished_at: Some(finished_at),
                duration_ms: Some(elapsed_between(started_at, finished_at)),
            }
        },
        StepOutcome::Canceled => {
            let err = EngineError::Canceled;
            ActionResult {
                id: generate_id("action_result"),
                key: String::from_str(step_key),
                action: Some(String::from_str(action_name)),
                status: ExecutionStatus::Canceled,
                output: None,
                message: Some(err.to_string()),
                started_at: Some(started_at),
                finished_at: Some(finished_at),
                duration_ms: Some(elapsed_between(started_at, finished_at)),
            }
        },
    }
}

/// A step with no conditional branches, no `otherwise` and no `next` ends the
/// run when it succeeds.
pub proof fn lemma_no_edges_ends_run(s: PipelineStep, doc: JsonV)
    requires
        s.next_when@.len() == 0,
        s.otherwise is None,
        s.next is None,
    ensures
        successor(s, doc) == Route::End,
{
}

/// The state a run is in after a step whose result has status `status`, when
/// routing after the step goes to `route` and the run was in `before`.
pub open spec fn state_after(
    status: ExecutionStatus,
    on_error: Option<String>,
    route: Route,
    before: PipelineState,
) -> PipelineState {
    if status == ExecutionStatus::Canceled {
        PipelineState::Canceled
    } else if status == ExecutionStatus::Failed {
        match on_error {
            Some(_) => before,
            None => PipelineState::Failed,
        }
    } else {
        match route {
            Route::Go(_) => before,
            Route::End => PipelineState::Completed,
            Route::Invalid(_) => PipelineState::Failed,
        }
    }
}

/// A run so far free of trouble: no error recorded, every executed step a
/// success, and not ended in failure or cancellation.
pub open spec fn clean_run(e: PipelineExecutor) -> bool {
    &&& e.ctx.error is None
    &&& forall|i: int|
        0 <= i < e.ctx.steps@.len() ==> (#[trigger] e.ctx.steps@[i]).status
            == ExecutionStatus::Success
    &&& (e.ctx.state == PipelineState::Running || e.ctx.state == PipelineState::Completed)
}

/// In a run whose actions all succeed and whose predicates are all valid,
/// every step keeps the run clean (the premises are what `complete_step`
/// ensures for a successful result routed to `route`); once routing ends the
/// run, it is completed with at least one step, and its record is a success
/// with no error.
pub proof fn lemma_clean_run_completes(
    before: PipelineExecutor,
    after: PipelineExecutor,
    route: Route,
)
    requires
        clean_run(before),
        after.ctx.steps@.len() == before.ctx.steps@.len() + 1,
        after.ctx.steps@.drop_last() == before.ctx.steps@,
        after.ctx.steps@.last().status == ExecutionStatus::Success,
        !(route is Invalid),
        after.ctx.state == state_after(ExecutionStatus::Success, None, route, before.ctx.state),
        after.ctx.error == before.ctx.error,
    ensures
        clean_run(after),
        after.ctx.state == PipelineState::Completed ==> {
            &&& after.ctx.steps@.len() >= 1
            &&& crate::context::status_of(after.ctx.state) == ExecutionStatus::Success
            &&& crate::context::error_of(after.ctx.state, after.ctx.error) is None
        },
{
    assert forall|i: int| 0 <= i < after.ctx.steps@.len() implies (#[trigger] after.ctx.steps@[i]).status
        == ExecutionStatus::Success by {
        if i < before.ctx.steps@.len() {
            assert(after.ctx.steps@.drop_last()[i] == after.ctx.steps@[i]);
        }
    }
}

/// Routing can go from step `s` to key `k`: a conditional branch,
/// `otherwise`, `next` or `on_error` names it.
pub open spec fn edge_of(s: PipelineStep, k: Seq<char>) -> bool {
    ||| exists|c: int| 0 <= c < s.next_when@.len() && (#[trigger] s.next_when@[c]).next@ == k
    ||| opt_view(s.otherwise) == Some(k)
    ||| opt_view(s.next) == Some(k)
    ||| opt_view(s.on_error) == Some(k)
}

/// The keys of the executed steps, in order.
pub open spec fn trace_keys(steps: Seq<ActionResult>) -> Seq<Seq<char>> {
    steps.map_values(|r: ActionResult| r.key@)
}

/// A trace of step keys that follows the pipeline's edges: it starts at the
/// entry step, each key is reached by an edge of the step before it, and the
/// step to run next, if any, by an edge of the last one.
pub open spec fn follows_edges(p: Pipeline, keys: Seq<Seq<char>>, current: Option<Seq<char>>) -> bool {
    &&& keys.len() == 0 ==> (current is None || (p.steps@.len() > 0 && current == Some(
        p.steps@[0].key@,
    )))
    &&& keys.len() > 0 ==> (p.steps@.len() > 0 && keys[0] == p.steps@[0].key@)
    &&& forall|i: int|
        0 <= i < keys.len() - 1 ==> match step_index(p.steps@, #[trigger] keys[i]) {
            Some(j) => edge_of(p.steps@[j], keys[i + 1]),
            None => false,
        }
    &&& (keys.len() > 0 && current is Some) ==> match step_index(p.steps@, keys.last()) {
        Some(j) => edge_of(p.steps@[j], current->0),
        None => false,
    }
}

proof fn lemma_route_is_edge(s: PipelineStep, doc: JsonV, i: int)
    requires
        route_from(s, doc, i) is Go,
    ensures
        edge_of(s, route_from(s, doc, i)->Go_0),
    decreases s.next_when@.len() - i,
{
    if 0 <= i < s.next_when@.len() {
        match condition_value(s.next_when@[i].when@, doc) {
            Some(true) => {
                assert(s.next_when@[i].next@ == route_from(s, doc, i)->Go_0);
            },
            Some(false) => {
                lemma_route_is_edge(s, doc, i + 1);
            },
            None => {},
        }
    }
}

proof fn lemma_edge_defined(s: PipelineStep, keys: Seq<Seq<char>>, k: Seq<char>)
    requires
        route_keys_defined(s, keys),
        edge_of(s, k),
    ensures
        keys.contains(k),
{
    if exists|c: int| 0 <= c < s.next_when@.len() && (#[trigger] s.next_when@[c]).next@ == k {
        let c = choose|c: int| 0 <= c < s.next_when@.len() && (#[trigger] s.next_when@[c]).next@ == k;
        assert(keys.contains(s.next_when@[c].next@));
    } else if opt_view(s.otherwise) == Some(k) {
        assert(s.otherwise->0@ == k);
    } else if opt_view(s.next) == Some(k) {
        assert(s.next->0@ == k);
    } else {
        assert(s.on_error->0@ == k);
    }
}

proof fn lemma_first_key_exists(steps: Seq<PipelineStep>, k: Seq<char>, i: int)
    requires
        0 <= i < steps.len(),
        steps[i].key@ == k,
    ensures
        exists|m: int|
            0 <= m < steps.len() && steps[m].key@ == k && forall|j: int|
                0 <= j < m ==> (#[trigger] steps[j]).key@ != k,
    decreases i,
{
    if exists|j: int| 0 <= j < i && steps[j].key@ == k {
        let j = choose|j: int| 0 <= j < i && steps[j].key@ == k;
        lemma_first_key_exists(steps, k, j);
    } else {
        assert forall|j: int| 0 <= j < i implies (#[trigger] steps[j]).key@ != k by {}
    }
}

proof fn lemma_step_index_found(steps: Seq<PipelineStep>, k: Seq<char>)
    requires
        step_index(steps, k) is Some,
    ensures
        0 <= step_index(steps, k)->0 < steps.len(),
        steps[step_index(steps, k)->0].key@ == k,
{
    reveal(step_index);
    let i = choose|i: int| 0 <= i < steps.len() && steps[i].key@ == k;
    lemma_first_key_exists(steps, k, i);
}

proof fn lemma_step_routes_defined(p: Pipeline, j: int)
    requires
        refs_defined(p),
        0 <= j < p.steps@.len(),
    ensures
        route_keys_defined(p.steps@[j], step_keys(p.steps@)),
{
}

/// In a pipeline whose routing edges all name defined steps, every step of a
/// trace that follows the edges is a step of the pipeline, and so is the step
/// to run next.
pub proof fn lemma_trace_keys_defined(p: Pipeline, keys: Seq<Seq<char>>, current: Option<Seq<char>>)
    requires
        refs_defined(p),
        follows_edges(p, keys, current),
    ensures
        forall|i: int| 0 <= i < keys.len() ==> step_keys(p.steps@).contains(#[trigger] keys[i]),
        current matches Some(k) ==> step_keys(p.steps@).contains(k),
{
    let sk = step_keys(p.steps@);
    assert forall|i: int| 0 <= i < keys.len() implies sk.contains(#[trigger] keys[i]) by {
        if i == 0 {
            assert(sk[0] == keys[0]);
        } else {
            let prev = keys[i - 1];
            assert(step_index(p.steps@, prev) is Some);
            let j = step_index(p.steps@, prev)->0;
            lemma_step_index_found(p.steps@, prev);
            lemma_step_routes_defined(p, j);
            lemma_edge_defined(p.steps@[j], sk, keys[i]);
        }
    }
    if current is Some {
        if keys.len() == 0 {
            assert(sk[0] == current->0);
        } else {
            let j = step_index(p.steps@, keys.last())->0;
            lemma_step_index_found(p.steps@, keys.last());
            lemma_step_routes_defined(p, j);
            lemma_edge_defined(p.steps@[j], sk, current->0);
        }
    }
}

proof fn lemma_trace_step(before: PipelineExecutor, after: PipelineExecutor, index: int)
    requires
        before.trace_ok(),
        before.current matches Some(k) && step_index(before.pipeline.steps@, k@) == Some(index),
        0 <= index < before.pipeline.steps@.len(),
        before.pipeline.steps@[index].key@ == before.current->0@,
        after.pipeline == before.pipeline,
        after.ctx.steps@.drop_last() == before.ctx.steps@,
        after.ctx.steps@.len() == before.ctx.steps@.len() + 1,
        after.ctx.steps@.last().key@ == before.current->0@,
        after.current matches Some(c) ==> edge_of(before.pipeline.steps@[index], c@),
    ensures
        after.trace_ok(),
{
    let p = before.pipeline;
    let k0 = trace_keys(before.ctx.steps@);
    let k1 = trace_keys(after.ctx.steps@);
    let cur = before.current->0@;
    assert(after.ctx.steps@ =~= before.ctx.steps@.push(after.ctx.steps@.last()));
    assert(k1 =~= k0.push(cur));
    assert forall|i: int| 0 <= i < k1.len() - 1 implies match step_index(p.steps@, #[trigger] k1[i]) {
        Some(j) => edge_of(p.steps@[j], k1[i + 1]),
        None => false,
    } by {
        if i < k0.len() - 1 {
            assert(k1[i] == k0[i]);
            assert(k1[i + 1] == k0[i + 1]);
        } else {
            assert(k1[i] == k0.last());
            assert(k1[i + 1] == cur);
        }
    }
}

impl PipelineExecutor {
    /// The steps run so far, and the step to run next, follow the edges of
    /// the pipeline.
    pub open spec fn trace_ok(&self) -> bool {
        follows_edges(self.pipeline, trace_keys(self.ctx.steps@), opt_view(self.current))
    }
}

/// What a sequential run of all registered actions does next.
pub enum RunDecision {
    /// Invoke the action at the current position.
    Invoke,
    /// Every action has run.
    Done,
    /// Cancellation was observed; stop without error.
    Stop,
    /// An action failed; the run ends with this error.
    Fail(EngineError),
}

/// Decides the next move of a run that invokes `n` actions in order: an
/// action's failure ends the run with its error, cancellation stops it before
/// the next action, and after the last action it is done.
pub fn run_next(index: usize, n: usize, canceled: bool, failed: Option<&Error>) -> (r: RunDecision)
    ensures
        match failed {
            Some(e) => r matches RunDecision::Fail(EngineError::Action(m)) && m@ == e.label()
                + e.detail(),
            None => if index >= n {
                r is Done
            } else if canceled {
                r is Stop
            } else {
                r is Invoke
            },
        },
{
    match failed {
        Some(e) => RunDecision::Fail(EngineError::Action(e.to_string())),
        None => if index >= n {
            RunDecision::Done
        } else if canceled {
            RunDecision::Stop
        } else {
            RunDecision::Invoke
        },
    }
}

/// The index of the first step with key `k`, if any.
#[verifier::opaque]
pub open spec fn step_index(steps: Seq<PipelineStep>, k: Seq<char>) -> Option<int> {
    if exists|i: int| 0 <= i < steps.len() && steps[i].key@ == k {
        Some(
            choose|i: int|
                0 <= i < steps.len() && steps[i].key@ == k && forall|j: int|
                    0 <= j < i ==> (#[trigger] steps[j]).key@ != k,
        )
    } else {
        None
    }
}

/// The index of the first step with key `key`, if any.
pub fn find_step(steps: &Vec<PipelineStep>, key: &str) -> (r: Option<usize>)
    ensures
        match r {
            Some(i) => step_index(steps@, key@) == Some(i as int),
            None => step_index(steps@, key@) is None,
        },
        r matches Some(i) ==> i < steps@.len(),
{
    let mut i: usize = 0;
    while i < steps.len()
        invariant
            i <= steps@.len(),
            forall|j: int| 0 <= j < i ==> (#[trigger] steps@[j]).key@ != key@,
        decreases steps.len() - i,
    {
        if same_text(steps[i].key.as_str(), key) {
            proof {
                reveal(step_index);
                let i2 = choose|i2: int|
                    0 <= i2 < steps@.len() && steps@[i2].key@ == key@ && forall|j: int|
                        0 <= j < i2 ==> (#[trigger] steps@[j]).key@ != key@;
                assert(i2 == i) by {
                    if i2 > i {
                        assert(steps@[i as int].key@ != key@);
                    }
                }
            }
            return Some(i);
        }
        i = i + 1;
    }
    proof {
        reveal(step_index);
    }
    None
}

/// The run of one pipeline, as a state machine: the host asks for the next
/// directive, runs the step it names, and hands back what it observed.
pub struct PipelineExecutor {
    pub pipeline: Pipeline,
    pub ctx: ExecutionContext,
    /// The key of the step to run next; `None` once the run is over or where
    /// the pipeline has no steps.
    pub current: Option<String>,
}

impl PipelineExecutor {
    /// A run of `pipeline` on `input`: the input becomes the `payload` data
    /// member, and the first step is the one to run.
    pub fn new(pipeline: Pipeline, input: Json, environment: Environment) -> (r: PipelineExecutor)
        ensures
            r.pipeline == pipeline,
            r.ctx.pipeline_key@ == pipeline.key@,
            r.ctx.environment == environment,
            r.ctx.state == PipelineState::Running,
            r.ctx.steps@.len() == 0,
            r.ctx.results@.len() == 0,
            r.ctx.error is None,
            r.ctx.payload() == Some(input@),
            r.ctx.wf(),
            r.trace_ok(),
            opt_view(r.current) == if pipeline.steps@.len() > 0 {
                Some(pipeline.steps@[0].key@)
            } else {
                None
            },
    {
        let mut ctx = ExecutionContext::new(pipeline.key.as_str(), environment);
        let ghost v = input@;
        ctx.insert("payload", input);
        proof {
            reveal_strlit("payload");
            assert(crate::json::members_view(ctx.data@) =~= seq![("payload"@, v)]);
            assert(crate::json::lookup_member(seq![("payload"@, v)], "payload"@) == Some(v)) by {
                let ms = seq![("payload"@, v)];
                assert(ms[0].0 == "payload"@);
            }
        }
        let current = if pipeline.steps.len() > 0 {
            Some(pipeline.steps[0].key.clone())
        } else {
            None
        };
        PipelineExecutor { pipeline, ctx, current }
    }

    /// Ends the run with a fatal error: the action could not be resolved or
    /// configured, or its input could not be mapped.
    pub fn abort(&mut self, err: EngineError)
        ensures
            final(self).ctx.state == PipelineState::Failed,
            opt_view(final(self).ctx.error) == Some(err.text()),
            final(self).current is None,
            final(self).ctx.steps == old(self).ctx.steps,
            final(self).ctx.data == old(self).ctx.data,
            final(self).ctx.results == old(self).ctx.results,
            final(self).ctx.current_step == old(self).ctx.current_step,
            final(self).pipeline == old(self).pipeline,
            final(self).ctx.run_id == old(self).ctx.run_id,
            final(self).ctx.pipeline_key == old(self).ctx.pipeline_key,
            final(self).ctx.environment == old(self).ctx.environment,
            final(self).ctx.started_at == old(self).ctx.started_at,
            final(self).ctx.finished_at == old(self).ctx.finished_at,
            old(self).ctx.wf() ==> final(self).ctx.wf(),
            old(self).trace_ok() ==> final(self).trace_ok(),
    {
        self.ctx.error = Some(err.to_string());
        self.ctx.state = PipelineState::Failed;
        self.current = None;
    }

    /// Decides what happens next: the run ends when it is already over, when
    /// cancellation was observed, or when the step to run does not exist;
    /// otherwise the step is named, with its configuration resolved against
    /// the run.
    pub fn next_directive(&mut self, canceled: bool) -> (d: Directive)
        ensures
            final(self).pipeline == old(self).pipeline,
            final(self).ctx.steps == old(self).ctx.steps,
            final(self).ctx.data == old(self).ctx.data,
            final(self).ctx.results == old(self).ctx.results,
            final(self).ctx.run_id == old(self).ctx.run_id,
            final(self).ctx.pipeline_key == old(self).ctx.pipeline_key,
            final(self).ctx.environment == old(self).ctx.environment,
            final(self).ctx.started_at == old(self).ctx.started_at,
            final(self).ctx.finished_at == old(self).ctx.finished_at,
            old(self).ctx.wf() ==> final(self).ctx.wf(),
            old(self).trace_ok() ==> final(self).trace_ok(),
            d is Finished ==> final(self).ctx.current_step == old(self).ctx.current_step,
            d matches Directive::Execute { index, config } ==> (index < old(
                self,
            ).pipeline.steps@.len() && (final(self).ctx.current_step matches Some(s) && same_step(
                s,
                old(self).pipeline.steps@[index as int],
            ))),
            old(self).ctx.state != PipelineState::Running ==> d is Finished && final(self).ctx.state
                == old(self).ctx.state && final(self).ctx.error == old(self).ctx.error,
            old(self).ctx.state == PipelineState::Running && canceled ==> d is Finished
                && final(self).ctx.state == PipelineState::Canceled && opt_view(
                final(self).ctx.error,
            ) == Some("Pipeline canceled"@),
            old(self).ctx.state == PipelineState::Running && !canceled && old(self).current is None
                ==> d is Finished && final(self).ctx.state == PipelineState::Failed && opt_view(
                final(self).ctx.error,
            ) == Some("Other error: Pipeline has no steps"@),
            (old(self).ctx.state == PipelineState::Running && !canceled && old(self).current is Some)
                ==> match step_index(old(self).pipeline.steps@, old(self).current->0@) {
                Some(i) => (d matches Directive::Execute { index, config } && index == i
                    && config@ == resolved(
                    old(self).pipeline.steps@[i].config@,
                    old(self).ctx.document(),
                )) && final(self).ctx.state == PipelineState::Running && final(self).current
                    == old(self).current && final(self).ctx.error == old(self).ctx.error && (
                final(self).ctx.current_step matches Some(s) && same_step(
                    s,
                    old(self).pipeline.steps@[i],
                )),
                None => d is Finished && final(self).ctx.state == PipelineState::Failed && opt_view(
                    final(self).ctx.error,
                ) == Some("Other error: Step '"@ + old(self).current->0@ + "' not found"@),
            },
    {
        if !matches!(self.ctx.state, PipelineState::Running) {
            return Directive::Finished;
        }
        if canceled {
            self.ctx.state = PipelineState::Canceled;
            self.ctx.error = Some(EngineError::Canceled.to_string());
            self.current = None;
            return Directive::Finished;
        }
        let key = match &self.current {
            Some(k) => k.clone(),
            None => {
                let err = EngineError::Other(String::from_str("Pipeline has no steps"));
                let text = err.to_string();
                proof {
                    reveal_strlit("Pipeline has no steps");
                    reveal_strlit("Other error: ");
                    reveal_strlit("Other error: Pipeline has no steps");
                    assert(text@ =~= "Other error: Pipeline has no steps"@);
                }
                self.ctx.error = Some(text);
                self.ctx.state = PipelineState::Failed;
                return Directive::Finished;
            },
        };
        match find_step(&self.pipeline.steps, key.as_str()) {
            Some(i) => {
                let doc = build_jsonpath_context(&self.ctx);
                let config = resolve_value(&self.pipeline.steps[i].config, &doc);
                self.ctx.current_step = Some(self.pipeline.steps[i].clone());
                Directive::Execute { index: i, config }
            },
            None => {
                let mut detail = join("Step '", key.as_str());
                detail.append("' not found");
                let err = EngineError::Other(detail);
                let text = err.to_string();
                proof {
                    reveal_strlit("Other error: ");
                    reveal_strlit("Step '");
                    reveal_strlit("Other error: Step '");
                    assert(text@ =~= "Other error: Step '"@ + key@ + "' not found"@);
                }
                self.ctx.error = Some(text);
                self.ctx.state = PipelineState::Failed;
                self.current = None;
                Directive::Finished
            },
        }
    }

    /// Records the result of step `index` and routes on it: a canceled step
    /// ends the run as canceled; a failed step records its message and goes to
    /// the step's `on_error`, or ends the run as failed; any other result goes
    /// to the successor that routing picks, or ends the run as completed.
    pub fn complete_step(
        &mut self,
        index: usize,
        action_name: &str,
        outcome: StepOutcome,
        started_at: i64,
        finished_at: i64,
    )
        requires
            index < old(self).pipeline.steps@.len(),
            old(self).current matches Some(k) && step_index(old(self).pipeline.steps@, k@) == Some(
                index as int,
            ),
        ensures
            final(self).pipeline == old(self).pipeline,
            final(self).ctx.data == old(self).ctx.data,
            final(self).ctx.current_step == old(self).ctx.current_step,
            final(self).ctx.run_id == old(self).ctx.run_id,
            final(self).ctx.pipeline_key == old(self).ctx.pipeline_key,
            final(self).ctx.environment == old(self).ctx.environment,
            final(self).ctx.started_at == old(self).ctx.started_at,
            final(self).ctx.finished_at == old(self).ctx.finished_at,
            old(self).ctx.wf() ==> final(self).ctx.wf(),
            old(self).trace_ok() ==> final(self).trace_ok(),
            final(self).ctx.steps@.len() == old(self).ctx.steps@.len() + 1,
            final(self).ctx.steps@.drop_last() == old(self).ctx.steps@,
            shaped_result(
                outcome,
                old(self).pipeline.steps@[index as int].key@,
                action_name@,
                started_at,
                finished_at,
                final(self).ctx.steps@.last(),
            ),
            members_view(final(self).ctx.results@) == match final(self).ctx.steps@.last().output {
                Some(o) => upsert_members(members_view(old(self).ctx.results@), action_name@, o@),
                None => members_view(old(self).ctx.results@),
            },
            final(self).ctx.state == state_after(
                final(self).ctx.steps@.last().status,
                old(self).pipeline.steps@[index as int].on_error,
                successor(old(self).pipeline.steps@[index as int], final(self).ctx.document()),
                old(self).ctx.state,
            ),
            ({
                let r = final(self).ctx.steps@.last();
                let step = old(self).pipeline.steps@[index as int];
                if r.status == ExecutionStatus::Canceled {
                    &&& final(self).ctx.state == PipelineState::Canceled
                    &&& opt_view(final(self).ctx.error) == Some("Pipeline canceled"@)
                    &&& final(self).current is None
                } else if r.status == ExecutionStatus::Failed {
                    &&& opt_view(final(self).ctx.error) == Some(
                        match opt_view(r.message) {
                            Some(m) => m,
                            None => "Step failed without message"@,
                        },
                    )
                    &&& match step.on_error {
                        Some(k) => final(self).ctx.state == old(self).ctx.state && opt_view(
                            final(self).current,
                        ) == Some(k@),
                        None => final(self).ctx.state == PipelineState::Failed
                            && final(self).current is None,
                    }
                } else {
                    match successor(step, final(self).ctx.document()) {
                        Route::Go(k) => final(self).ctx.state == old(self).ctx.state && opt_view(
                            final(self).current,
                        ) == Some(k) && final(self).ctx.error == old(self).ctx.error,
                        Route::End => final(self).ctx.state == PipelineState::Completed
                            && final(self).current is None && final(self).ctx.error == old(self).ctx.error,
                        Route::Invalid(w) => final(self).ctx.state == PipelineState::Failed
                            && final(self).current is None && opt_view(final(self).ctx.error)
                            == Some("Other error: Invalid condition syntax: "@ + w),
                    }
                }
            }),
    {
        let ghost before = *self;
        proof {
            lemma_step_index_found(before.pipeline.steps@, before.current->0@);
        }
        let result = shape_result(
            outcome,
            self.pipeline.steps[index].key.as_str(),
            action_name,
            started_at,
            finished_at,
        );
        let status = result.status;
        let message = clone_opt(&result.message);
        self.ctx.insert_result(action_name, result);
        match status {
            ExecutionStatus::Canceled => {
                self.ctx.error = Some(EngineError::Canceled.to_string());
                self.ctx.state = PipelineState::Canceled;
                self.current = None;
            },
            ExecutionStatus::Failed => {
                self.ctx.error = match message {
                    Some(m) => Some(m),
                    None => Some(String::from_str("Step failed without message")),
                };
                match &self.pipeline.steps[index].on_error {
                    Some(k) => {
                        self.current = Some(k.clone());
                        proof {
                            assert(edge_of(before.pipeline.steps@[index as int], k@));
                        }
                    },
                    None => {
                        self.ctx.state = PipelineState::Failed;
                        self.current = None;
                    },
                }

            },
            _ => {
                let doc = build_jsonpath_context(&self.ctx);
                match resolve_next_step(&self.pipeline.steps[index], &doc) {
                    Ok(Some(k)) => {
                        self.current = Some(k);
                        proof {
                            lemma_route_is_edge(self.pipeline.steps@[index as int], doc@, 0);
                            assert(edge_of(before.pipeline.steps@[index as int], k@));
                        }
                    },
                    Ok(None) => {
                        self.ctx.state = PipelineState::Completed;
                        self.current = None;
                    },
                    Err(e) => {
                        let text = e.to_string();
                        proof {
                            reveal_strlit("Other error: ");
                            reveal_strlit("Invalid condition syntax: ");
                            reveal_strlit("Other error: Invalid condition syntax: ");
                            let w = successor(self.pipeline.steps@[index as int], doc@)->Invalid_0;
                            assert(text@ =~= "Other error: Invalid condition syntax: "@ + w);
                        }
                        self.ctx.error = Some(text);
                        self.ctx.state = PipelineState::Failed;
                        self.current = None;
                    },
                }
            },
        }
        proof {
            if before.trace_ok() {
                assert(self.ctx.steps@.drop_last() =~= before.ctx.steps@);
                lemma_trace_step(before, *self, index as int);
            }
        }
    }
}

} // verus!