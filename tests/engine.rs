use ryvus::context::ExecutionContext;
use ryvus::predicate::evaluate_condition;
use ryvus::definition::{ConditionalNextDef, PipelineDefinition, StepDefinition};
use ryvus::environment::Environment;
use ryvus::error::{EngineError, Error};
use ryvus::executor::{Directive, PipelineExecutor, StepOutcome};
use ryvus::json::Json;
use ryvus::pipeline::{Pipeline, PipelineStep};
use ryvus::result::{ActionResult, ExecutionResult, ExecutionStatus};

fn j(text: &str) -> Json {
    Json::from_text(text).expect("valid JSON")
}

fn step(key: &str, action: &str) -> ryvus::pipeline::PipelineStepBuilder {
    PipelineStep::builder(key, action)
}

/// Runs a pipeline to its end, asking `act` for the outcome of each action.
fn run_with<F: FnMut(&str, &Json) -> StepOutcome>(
    pipeline: Pipeline,
    input: Json,
    mut act: F,
) -> ExecutionResult {
    let mut exec = PipelineExecutor::new(pipeline, input, Environment::default());
    let mut guard = 0;
    loop {
        guard += 1;
        assert!(guard < 100, "run did not end");
        match exec.next_directive(false) {
            Directive::Execute { index, config } => {
                let action = exec.pipeline.steps[index].action.clone();
                let outcome = act(&action, &config);
                exec.complete_step(index, &action, outcome, 1_000, 1_005);
            }
            Directive::Finished => break,
        }
    }
    exec.ctx.into_result()
}

fn ok_outcome(output: &str) -> StepOutcome {
    StepOutcome::Returned(ActionResult::success(j(output)))
}

fn trace(r: &ExecutionResult) -> Vec<(String, ExecutionStatus)> {
    r.steps.iter().map(|s| (s.key.clone(), s.status)).collect()
}

#[test]
fn linear_two_step_success() {
    let p = Pipeline::builder("linear")
        .step(step("a", "act_a").next("b").build())
        .step(step("b", "act_b").build())
        .build();
    let r = run_with(p, j(r#"{"x": 1}"#), |_, _| ok_outcome(r#"{"ok": true}"#));
    assert_eq!(r.status, ExecutionStatus::Success);
    assert_eq!(
        trace(&r),
        vec![("a".to_string(), ExecutionStatus::Success), ("b".to_string(), ExecutionStatus::Success)]
    );
    assert_eq!(r.result, Some(j(r#"{"ok": true}"#)));
    assert_eq!(r.metrics.steps_succeeded, 2);
    assert_eq!(r.metrics.steps_total, 2);
    assert_eq!(r.error, None);
}

fn branch_pipeline() -> Pipeline {
    Pipeline::builder("branch")
        .step(
            step("check", "decide")
                .when("$.payload.region == 'eu'", "eu_up")
                .otherwise("us_up")
                .build(),
        )
        .step(step("eu_up", "eu").build())
        .step(step("us_up", "us").build())
        .build()
}

#[test]
fn conditional_branch_takes_matching_edge() {
    let r = run_with(branch_pipeline(), j(r#"{"region": "eu"}"#), |_, _| ok_outcome("{}"));
    let keys: Vec<String> = r.steps.iter().map(|s| s.key.clone()).collect();
    assert_eq!(keys, vec!["check", "eu_up"]);
    assert_eq!(r.status, ExecutionStatus::Success);
}

#[test]
fn conditional_branch_falls_back_to_otherwise() {
    let r = run_with(branch_pipeline(), j(r#"{"region": "apac"}"#), |_, _| ok_outcome("{}"));
    let keys: Vec<String> = r.steps.iter().map(|s| s.key.clone()).collect();
    assert_eq!(keys, vec!["check", "us_up"]);
}

#[test]
fn on_error_routes_to_handler() {
    let p = Pipeline::builder("recover")
        .step(step("risky", "boom").on_error("handler").build())
        .step(step("handler", "fix").build())
        .build();
    let r = run_with(p, j("{}"), |action, _| {
        if action == "boom" {
            StepOutcome::Failed(Error::action("exploded"))
        } else {
            ok_outcome(r#"{"fixed": true}"#)
        }
    });
    assert_eq!(r.status, ExecutionStatus::Success);
    assert_eq!(
        trace(&r),
        vec![
            ("risky".to_string(), ExecutionStatus::Failed),
            ("handler".to_string(), ExecutionStatus::Success)
        ]
    );
    assert_eq!(r.error, None);
    assert_eq!(r.metrics.steps_failed, 1);
    assert_eq!(
        r.steps[0].message.as_deref(),
        Some("Action failed: Action error: exploded")
    );
}

#[test]
fn failure_without_on_error_fails_the_run() {
    let p = Pipeline::builder("fragile")
        .step(step("risky", "boom").next("after").build())
        .step(step("after", "never").build())
        .build();
    let r = run_with(p, j("{}"), |_, _| StepOutcome::Failed(Error::action("exploded")));
    assert_eq!(r.status, ExecutionStatus::Failed);
    assert_eq!(r.steps.len(), 1);
    assert_eq!(r.error.as_deref(), Some("Action failed: Action error: exploded"));
}

#[test]
fn cancellation_mid_step_ends_run() {
    let p = Pipeline::builder("slow")
        .step(step("sleepy", "sleep").next("after").build())
        .step(step("after", "never").build())
        .build();
    let mut exec = PipelineExecutor::new(p, j("{}"), Environment::default());
    let index = match exec.next_directive(false) {
        Directive::Execute { index, .. } => index,
        Directive::Finished => panic!("expected a step"),
    };
    exec.complete_step(index, "sleep", StepOutcome::Canceled, 10_000, 11_000);
    assert!(matches!(exec.next_directive(false), Directive::Finished));
    let r = exec.ctx.into_result();
    assert_eq!(r.status, ExecutionStatus::Canceled);
    assert_eq!(r.steps.len(), 1);
    assert_eq!(r.steps[0].status, ExecutionStatus::Canceled);
    assert_eq!(r.steps[0].duration_ms, Some(1000));
    assert_eq!(r.steps[0].message.as_deref(), Some("Pipeline canceled"));
    assert_eq!(r.error.as_deref(), Some("Pipeline canceled"));
}

#[test]
fn cancellation_between_steps_runs_nothing_more() {
    let p = Pipeline::builder("p").step(step("a", "x").build()).build();
    let mut exec = PipelineExecutor::new(p, j("{}"), Environment::default());
    assert!(matches!(exec.next_directive(true), Directive::Finished));
    let r = exec.ctx.into_result();
    assert_eq!(r.status, ExecutionStatus::Canceled);
    assert_eq!(r.steps.len(), 0);
}

#[test]
fn step_without_edges_terminates() {
    let p = Pipeline::builder("single").step(step("only", "x").build()).build();
    let r = run_with(p, j("{}"), |_, _| ok_outcome("7"));
    assert_eq!(r.status, ExecutionStatus::Success);
    assert_eq!(r.steps.len(), 1);
    assert_eq!(r.result, Some(j("7")));
}

#[test]
fn empty_pipeline_is_fatal() {
    let p = Pipeline::builder("empty").build();
    let r = run_with(p, j("{}"), |_, _| ok_outcome("{}"));
    assert_eq!(r.status, ExecutionStatus::Failed);
    assert_eq!(r.error.as_deref(), Some("Other error: Pipeline has no steps"));
}

#[test]
fn unknown_successor_is_fatal() {
    let p = Pipeline::builder("dangling").step(step("a", "x").next("ghost").build()).build();
    let r = run_with(p, j("{}"), |_, _| ok_outcome("{}"));
    assert_eq!(r.status, ExecutionStatus::Failed);
    assert_eq!(r.error.as_deref(), Some("Other error: Step 'ghost' not found"));
    assert_eq!(r.steps.len(), 1);
}

#[test]
fn invalid_predicate_is_fatal() {
    let p = Pipeline::builder("bad")
        .step(step("a", "x").when("no operator here", "a").build())
        .build();
    let r = run_with(p, j("{}"), |_, _| ok_outcome("{}"));
    assert_eq!(r.status, ExecutionStatus::Failed);
    assert_eq!(
        r.error.as_deref(),
        Some("Other error: Invalid condition syntax: no operator here")
    );
}

#[test]
fn abort_records_fatal_error() {
    let p = Pipeline::builder("p").step(step("a", "missing").build()).build();
    let mut exec = PipelineExecutor::new(p, j("{}"), Environment::default());
    assert!(matches!(exec.next_directive(false), Directive::Execute { .. }));
    exec.abort(EngineError::Action("Action 'missing' not found".to_string()));
    let r = exec.ctx.into_result();
    assert_eq!(r.status, ExecutionStatus::Failed);
    assert_eq!(r.error.as_deref(), Some("Action failed: Action 'missing' not found"));
}

#[test]
fn step_config_is_resolved_against_the_run() {
    let p = Pipeline::builder("cfg")
        .step(step("first", "x").next("second").build())
        .step(
            step("second", "y")
                .config(j(r#"{"from": "$.first.output.v", "who": "$.payload.name", "lit": "$$.raw"}"#))
                .build(),
        )
        .build();
    let mut seen = Vec::new();
    let r = run_with(p, j(r#"{"name": "alice"}"#), |action, config| {
        seen.push((action.to_string(), config.clone()));
        ok_outcome(r#"{"v": 42}"#)
    });
    assert_eq!(r.status, ExecutionStatus::Success);
    assert_eq!(seen[1].1, j(r#"{"from": 42, "who": "alice", "lit": "$.raw"}"#));
}

#[test]
fn metrics_count_statuses() {
    let p = Pipeline::builder("m")
        .step(step("a", "bad").on_error("b").build())
        .step(step("b", "good").build())
        .build();
    let r = run_with(p, j("{}"), |action, _| {
        if action == "bad" {
            StepOutcome::Failed(Error::system("x"))
        } else {
            ok_outcome("{}")
        }
    });
    assert_eq!(r.metrics.steps_total, r.steps.len());
    assert!(r.metrics.steps_succeeded + r.metrics.steps_failed <= r.metrics.steps_total);
    assert_eq!(r.metrics.steps_succeeded, 1);
    assert_eq!(r.metrics.steps_failed, 1);
}

#[test]
fn results_record_latest_output_per_action() {
    let p = Pipeline::builder("loop")
        .step(step("a", "count").next("b").build())
        .step(step("b", "count").build())
        .build();
    let mut n = 0;
    let mut exec_result = run_with(p, j("{}"), |_, _| {
        n += 1;
        ok_outcome(&n.to_string())
    });
    assert_eq!(exec_result.result.take(), Some(j("2")));
}

fn def_step(key: &str, action: &str) -> StepDefinition {
    StepDefinition {
        key: key.to_string(),
        action: action.to_string(),
        params: j("{}"),
        config: j("{}"),
        retry: None,
        hooks: Vec::new(),
        next: None,
        next_when: Vec::new(),
        otherwise: None,
        on_error: None,
    }
}

fn def(key: &str, steps: Vec<StepDefinition>) -> PipelineDefinition {
    PipelineDefinition {
        key: key.to_string(),
        description: None,
        version: None,
        steps,
        pipeline_hooks: Vec::new(),
    }
}

#[test]
fn definition_without_steps_is_rejected() {
    let e = Pipeline::try_from(def("p", vec![])).err();
    assert_eq!(e.as_deref(), Some("Pipeline 'p' has no steps"));
}

#[test]
fn definition_with_blank_action_is_rejected() {
    let e = Pipeline::try_from(def("p", vec![def_step("a", "x"), def_step("b", "  \t")])).err();
    assert_eq!(e.as_deref(), Some("Step 'b' is missing an action"));
}

#[test]
fn definition_with_undefined_references_is_rejected() {
    let mut a = def_step("a", "x");
    a.next_when.push(ConditionalNextDef { when: "$.x == 1".into(), next: "nowhere".into() });
    let e = Pipeline::try_from(def("p", vec![a])).err();
    assert_eq!(
        e.as_deref(),
        Some("Step 'a' references undefined step 'nowhere' in 'when' condition")
    );

    let mut b = def_step("b", "x");
    b.next = Some("gone".into());
    let e = Pipeline::try_from(def("p", vec![b])).err();
    assert_eq!(e.as_deref(), Some("Step 'b' references undefined 'next' step 'gone'"));

    let mut c = def_step("c", "x");
    c.otherwise = Some("gone".into());
    let e = Pipeline::try_from(def("p", vec![c])).err();
    assert_eq!(e.as_deref(), Some("Step 'c' references undefined 'otherwise' step 'gone'"));

    let mut d = def_step("d", "x");
    d.on_error = Some("gone".into());
    let e = Pipeline::try_from(def("p", vec![d])).err();
    assert_eq!(e.as_deref(), Some("Step 'd' references undefined 'on_error' step 'gone'"));
}

#[test]
fn valid_definition_becomes_pipeline() {
    let mut a = def_step("a", "x");
    a.next = Some("b".into());
    a.on_error = Some("b".into());
    a.next_when.push(ConditionalNextDef { when: "$.x == 1".into(), next: "b".into() });
    let b = def_step("b", "y");
    let p = Pipeline::try_from(def("p", vec![a, b])).expect("valid");
    assert_eq!(p.key, "p");
    assert_eq!(p.steps.len(), 2);
    assert_eq!(p.steps[0].next.as_deref(), Some("b"));
    assert_eq!(p.steps[0].on_error.as_deref(), Some("b"));
    assert_eq!(p.steps[0].next_when[0].when, "$.x == 1");
    assert_eq!(p.steps[1].action, "y");
}

#[test]
fn duplicate_step_keys_resolve_to_the_first() {
    let p = Pipeline::builder("dup")
        .step(step("a", "first").next("a2").build())
        .step(step("a2", "middle").next("a").build())
        .step(step("a", "shadowed").build())
        .build();
    let mut seen = Vec::new();
    let mut exec = PipelineExecutor::new(p, j("{}"), Environment::default());
    for _ in 0..4 {
        match exec.next_directive(false) {
            Directive::Execute { index, .. } => {
                let action = exec.pipeline.steps[index].action.clone();
                seen.push(action.clone());
                exec.complete_step(index, &action, ok_outcome("{}"), 0, 0);
            }
            Directive::Finished => break,
        }
    }
    assert_eq!(seen, vec!["first", "middle", "first", "middle"]);
}

#[test]
fn validated_pipeline_routes_only_to_its_steps() {
    let mut a = def_step("a", "x");
    a.next_when.push(ConditionalNextDef { when: "$.payload.n > 1".into(), next: "big".into() });
    a.otherwise = Some("small".into());
    let p = Pipeline::try_from(def("p", vec![a, def_step("big", "b"), def_step("small", "s")]))
        .expect("valid");
    let keys: Vec<String> = p.steps.iter().map(|s| s.key.clone()).collect();
    for n in [0, 5] {
        let r = run_with(p.clone(), j(&format!(r#"{{"n": {n}}}"#)), |_, _| ok_outcome("{}"));
        assert_eq!(r.status, ExecutionStatus::Success);
        assert!(r.steps.iter().all(|s| keys.contains(&s.key)));
        let expected = if n > 1 { "big" } else { "small" };
        assert_eq!(r.steps[1].key, expected);
    }
}

#[test]
fn context_condition_reads_step_outputs() {
    let mut ctx = ExecutionContext::new("p", Environment::default());
    ctx.insert("payload", j(r#"{"n": 2}"#));
    let mut r = ActionResult::success(j(r#"{"score": 9}"#));
    r.key = "grade".to_string();
    ctx.insert_result("grader", r);
    assert_eq!(evaluate_condition("$.grade.output.score >= 9", &ctx).ok(), Some(true));
    assert_eq!(evaluate_condition("$.output.score < 9", &ctx).ok(), Some(false));
    assert_eq!(evaluate_condition("$.payload.n == 2", &ctx).ok(), Some(true));
}

#[test]
fn preparing_a_step_records_it_as_current() {
    let p = Pipeline::builder("cur")
        .step(step("a", "x").config(j(r#"{"k": 1}"#)).next("b").build())
        .step(step("b", "y").build())
        .build();
    let mut exec = PipelineExecutor::new(p, j("{}"), Environment::default());
    let run_id = exec.ctx.run_id.clone();
    assert!(exec.ctx.current_step.is_none());
    let index = match exec.next_directive(false) {
        Directive::Execute { index, .. } => index,
        Directive::Finished => panic!("expected a step"),
    };
    let current = exec.ctx.current_step.clone().expect("current step");
    assert_eq!(current.key, "a");
    assert_eq!(current.config, j(r#"{"k": 1}"#));
    exec.complete_step(index, "x", ok_outcome("{}"), 0, 0);
    assert_eq!(exec.ctx.current_step.as_ref().map(|s| s.key.as_str()), Some("a"));
    assert!(matches!(exec.next_directive(false), Directive::Execute { .. }));
    assert_eq!(exec.ctx.current_step.as_ref().map(|s| s.key.as_str()), Some("b"));
    assert_eq!(exec.ctx.run_id, run_id);
}
