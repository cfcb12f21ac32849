use crate::context::{step_members, ExecutionContext};
use crate::error::Error;
use crate::json::{members_view, upsert_member, Json, JsonV};
use crate::resolver::{resolve_value, resolved};
use vstd::prelude::*;

verus! {

broadcast use vstd::group_vstd_default;

/// Builds the document that JSONPath expressions see during a run:
/// `$.payload`, `$.<step>.output` for each executed step with an output, and
/// `$.output` for the output of the last step.
pub fn build_jsonpath_context(ctx: &ExecutionContext) -> (r: Json)
    ensures
        r@ == ctx.document(),
{
    let mut members: Vec<(String, Json)> = Vec::new();
    match ctx.get("payload") {
        Some(p) => {
            members.push((String::from_str("payload"), p.clone()));
        },
        None => {},
    }
    assert(members_view(members@) =~= step_members(ctx.payload(), ctx.steps@.subrange(0, 0)));
    let mut i: usize = 0;
    while i < ctx.steps.len()
        invariant
            i <= ctx.steps@.len(),
            members_view(members@) == step_members(ctx.payload(), ctx.steps@.subrange(0, i as int)),
        decreases ctx.steps.len() - i,
    {
        assert(ctx.steps@.subrange(0, i as int + 1).drop_last() =~= ctx.steps@.subrange(0, i as int));
        match &ctx.steps[i].output {
            Some(o) => {
                let mut inner: Vec<(String, Json)> = Vec::new();
                inner.push((String::from_str("output"), o.clone()));
                let entry = Json::Object(inner);
                assert(entry@ == JsonV::Obj(seq![("output"@, o@)])) by {
                    assert(members_view(inner@) =~= seq![("output"@, o@)]);
                }
                upsert_member(&mut members, ctx.steps[i].key.clone(), entry);
            },
            None => {},
        }
        i = i + 1;
    }
    assert(ctx.steps@.subrange(0, i as int) =~= ctx.steps@);
    let n = ctx.steps.len();
    if n > 0 {
        match &ctx.steps[n - 1].output {
            Some(o) => {
                upsert_member(&mut members, String::from_str("output"), o.clone());
            },
            None => {},
        }
    }
    Json::Object(members)
}

/// The input that the default mapper hands an action: the latest entry of
/// the action results, else the run's payload, else an empty object.
pub open spec fn default_input(ctx: &ExecutionContext) -> JsonV {
    let results = members_view(ctx.results@);
    if results.len() > 0 {
        results.last().1
    } else {
        match ctx.payload() {
            Some(p) => p,
            None => JsonV::Obj(Seq::empty()),
        }
    }
}

/// Passes on the previous action's result, or the run's payload before any.
pub struct DefaultMapper;

/// Resolves the step's parameters as a JSONPath template against the run.
pub struct JsonMapper;

impl DefaultMapper {
    /// The input is derived from the run alone; `_value` is not used.
    pub fn map_input(&self, _value: Json, exec_ctx: &ExecutionContext) -> (r: Result<Json, Error>)
        ensures
            r matches Ok(v) && v@ == default_input(exec_ctx),
    {
        let n = exec_ctx.results.len();
        if n > 0 {
            Ok(exec_ctx.results[n - 1].1.clone())
        } else {
            match exec_ctx.get("payload") {
                Some(p) => Ok(p.clone()),
                None => Ok(Json::empty_object()),
            }
        }
    }
}

impl JsonMapper {
    pub fn map_input(&self, value: Json, exec_ctx: &ExecutionContext) -> (r: Result<Json, Error>)
        ensures
            r matches Ok(v) && v@ == resolved(value@, exec_ctx.document()),
    {
        let doc = build_jsonpath_context(exec_ctx);
        Ok(resolve_value(&value, &doc))
    }
}

/// Resolves a step's configuration as a JSONPath template against the run.
pub struct JsonPathConfigResolver;

impl JsonPathConfigResolver {
    pub fn resolve(&self, config: &mut Json, ctx: &ExecutionContext)
        ensures
            final(config)@ == resolved(old(config)@, ctx.document()),
    {
        let doc = build_jsonpath_context(ctx);
        crate::resolver::resolve_jsonpaths(config, &doc);
    }
}

} // verus!
