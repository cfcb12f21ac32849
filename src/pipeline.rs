use crate::json::{Json, JsonV};
use vstd::prelude::*;

verus! {

broadcast use vstd::group_vstd_default;

/// A conditional edge: when the predicate holds, go to step `next`.
#[derive(Clone, Debug)]
pub struct ConditionalNext {
    pub when: String,
    pub next: String,
}

/// One node of a pipeline: an action with its configuration, parameters and
/// routing edges.
#[derive(Debug)]
pub struct PipelineStep {
    pub key: String,
    pub action: String,
    pub config: Json,
    pub params: Json,
    pub next_when: Vec<ConditionalNext>,
    /// Where to go when no predicate of `next_when` holds.
    pub otherwise: Option<String>,
    /// Where to go when this step fails.
    pub on_error: Option<String>,
    /// The linear successor.
    pub next: Option<String>,
}

/// A named, ordered collection of steps; the first step is the entry point.
#[derive(Clone, Debug)]
pub struct Pipeline {
    pub key: String,
    pub steps: Vec<PipelineStep>,
}

/// Builds a `Pipeline` step by step.
pub struct PipelineBuilder {
    pipeline: Pipeline,
}

/// Builds a `PipelineStep` field by field.
pub struct PipelineStepBuilder {
    step: PipelineStep,
}

/// The view of an optional string.
pub open spec fn opt_view(o: Option<String>) -> Option<Seq<char>> {
    match o {
        Some(s) => Some(s@),
        None => None,
    }
}

/// `a` is a copy of `b`: the same strings and edges, documents of the same value.
pub open spec fn same_step(a: PipelineStep, b: PipelineStep) -> bool {
    &&& a.key == b.key
    &&& a.action == b.action
    &&& a.config@ == b.config@
    &&& a.params@ == b.params@
    &&& a.next_when@ == b.next_when@
    &&& a.otherwise == b.otherwise
    &&& a.on_error == b.on_error
    &&& a.next == b.next
}

fn copy_opt(o: &Option<String>) -> (r: Option<String>)
    ensures
        r == *o,
{
    match o {
        Some(s) => Some(s.clone()),
        None => None,
    }
}

impl Clone for PipelineStep {
    fn clone(&self) -> (r: PipelineStep)
        ensures
            same_step(r, *self),
    {
        let mut edges: Vec<ConditionalNext> = Vec::new();
        let mut c: usize = 0;
        while c < self.next_when.len()
            invariant
                c <= self.next_when@.len(),
                edges@ == self.next_when@.subrange(0, c as int),
            decreases self.next_when.len() - c,
        {
            let e = ConditionalNext {
                when: self.next_when[c].when.clone(),
                next: self.next_when[c].next.clone(),
            };
            edges.push(e);
            c = c + 1;
            assert(edges@ =~= self.next_when@.subrange(0, c as int));
        }
        assert(edges@ =~= self.next_when@);
        PipelineStep {
            key: self.key.clone(),
            action: self.action.clone(),
            config: self.config.clone(),
            params: self.params.clone(),
            next_when: edges,
            otherwise: copy_opt(&self.otherwise),
            on_error: copy_opt(&self.on_error),
            next: copy_opt(&self.next),
        }
    }
}

/// The keys of a sequence of steps, in order.
pub open spec fn step_keys(steps: Seq<PipelineStep>) -> Seq<Seq<char>> {
    steps.map_values(|s: PipelineStep| s.key@)
}

/// The empty JSON object.
pub fn empty_json_object() -> (r: Json)
    ensures
        r@ == JsonV::Obj(Seq::empty()),
{
    Json::empty_object()
}

impl Pipeline {
    /// A builder for a pipeline named `key`, with no steps yet.
    pub fn builder(key: &str) -> (r: PipelineBuilder)
        ensures
            r.pipeline().key@ == key@,
            r.pipeline().steps@.len() == 0,
    {
        PipelineBuilder { pipeline: Pipeline { key: String::from_str(key), steps: Vec::new() } }
    }
}

impl PipelineBuilder {
    /// The pipeline built so far.
    pub closed spec fn pipeline(&self) -> Pipeline {
        self.pipeline
    }

    /// Appends a step.
    pub fn step(self, step: PipelineStep) -> (r: PipelineBuilder)
        ensures
            r.pipeline().key == self.pipeline().key,
            r.pipeline().steps@ == self.pipeline().steps@.push(step),
    {
        let mut b = self;
        b.pipeline.steps.push(step);
        b
    }

    /// Replaces all steps.
    pub fn steps(self, steps: Vec<PipelineStep>) -> (r: PipelineBuilder)
        ensures
            r.pipeline().key == self.pipeline().key,
            r.pipeline().steps@ == steps@,
    {
        let mut b = self;
        b.pipeline.steps = steps;
        b
    }

    /// The finished pipeline.
    pub fn build(self) -> (r: Pipeline)
        ensures
            r == self.pipeline(),
    {
        self.pipeline
    }
}

impl PipelineStep {
    /// A step with the given key, action, configuration and parameters, and no
    /// routing edges.
    pub fn new(key: &str, action: &str, config: Json, params: Json) -> (r: PipelineStep)
        ensures
            r.key@ == key@,
            r.action@ == action@,
            r.config == config,
            r.params == params,
            r.next_when@.len() == 0,
            r.otherwise is None,
            r.on_error is None,
            r.next is None,
    {
        PipelineStep {
            key: String::from_str(key),
            action: String::from_str(action),
            config,
            params,
            next: None,
            on_error: None,
            next_when: Vec::new(),
            otherwise: None,
        }
    }

    /// A builder for a step with empty configuration and parameters.
    pub fn builder(key: &str, action: &str) -> (r: PipelineStepBuilder)
        ensures
            r.step().key@ == key@,
            r.step().action@ == action@,
            r.step().config@ == JsonV::Obj(Seq::empty()),
            r.step().params@ == JsonV::Obj(Seq::empty()),
            r.step().next_when@.len() == 0,
            r.step().otherwise is None,
            r.step().on_error is None,
            r.step().next is None,
    {
        PipelineStepBuilder {
            step: PipelineStep::new(key, action, empty_json_object(), empty_json_object()),
        }
    }
}

impl PipelineStepBuilder {
    /// The step built so far.
    pub closed spec fn step(&self) -> PipelineStep {
        self.step
    }

    pub fn config(self, cfg: Json) -> (r: PipelineStepBuilder)
        ensures
            r.step() == (PipelineStep { config: cfg, ..self.step() }),
    {
        let mut b = self;
        b.step.config = cfg;
        b
    }

    pub fn params(self, params: Json) -> (r: PipelineStepBuilder)
        ensures
            r.step() == (PipelineStep { params: params, ..self.step() }),
    {
        let mut b = self;
        b.step.params = params;
        b
    }

    pub fn next(self, next: &str) -> (r: PipelineStepBuilder)
        ensures
            r.step().key == self.step().key,
            r.step().action == self.step().action,
            r.step().config == self.step().config,
            r.step().params == self.step().params,
            r.step().next_when == self.step().next_when,
            r.step().otherwise == self.step().otherwise,
            r.step().on_error == self.step().on_error,
            opt_view(r.step().next) == Some(next@),
    {
        let mut b = self;
        b.step.next = Some(String::from_str(next));
        b
    }

    pub fn otherwise(self, else_key: &str) -> (r: PipelineStepBuilder)
        ensures
            r.step().key == self.step().key,
            r.step().action == self.step().action,
            r.step().config == self.step().config,
            r.step().params == self.step().params,
            r.step().next_when == self.step().next_when,
            opt_view(r.step().otherwise) == Some(else_key@),
            r.step().on_error == self.step().on_error,
            r.step().next == self.step().next,
    {
        let mut b = self;
        b.step.otherwise = Some(String::from_str(else_key));
        b
    }

    pub fn on_error(self, key: &str) -> (r: PipelineStepBuilder)
        ensures
            r.step().key == self.step().key,
            r.step().action == self.step().action,
            r.step().config == self.step().config,
            r.step().params == self.step().params,
            r.step().next_when == self.step().next_when,
            r.step().otherwise == self.step().otherwise,
            opt_view(r.step().on_error) == Some(key@),
            r.step().next == self.step().next,
    {
        let mut b = self;
        b.step.on_error = Some(String::from_str(key));
        b
    }

    /// Appends a conditional edge after those already present.
    pub fn when(self, condition: &str, next: &str) -> (r: PipelineStepBuilder)
        ensures
            r.step().key == self.step().key,
            r.step().action == self.step().action,
            r.step().config == self.step().config,
            r.step().params == self.step().params,
            r.step().next_when@.len() == self.step().next_when@.len() + 1,
            r.step().next_when@.drop_last() == self.step().next_when@,
            r.step().next_when@.last().when@ == condition@,
            r.step().next_when@.last().next@ == next@,
            r.step().otherwise == self.step().otherwise,
            r.step().on_error == self.step().on_error,
            r.step().next == self.step().next,
    {
        let mut b = self;
        b.step.next_when.push(
            ConditionalNext { when: String::from_str(condition), next: String::from_str(next) },
        );
        assert(b.step.next_when@.drop_last() =~= self.step().next_when@);
        b
    }

    /// The finished step.
    pub fn build(self) -> (r: PipelineStep)
        ensures
            r == self.step(),
    {
        self.step
    }
}

} // verus!
