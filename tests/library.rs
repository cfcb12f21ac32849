use ryvus::context::ExecutionContext;
use ryvus::definition::{PipelineDefinition, StepDefinition};
use ryvus::environment::{Environment, EnvironmentKind};
use ryvus::error::{EngineError, Error};
use ryvus::id::generate_id;
use ryvus::json::Json;
use ryvus::mapper::{build_jsonpath_context, DefaultMapper, JsonPathConfigResolver};
use ryvus::masker::SensitiveMasker;
use ryvus::metadata::ActionMetadata;
use ryvus::result::{ActionResult, ExecutionMetrics, ExecutionStatus};
use ryvus::retry::RetryableAction;
use ryvus::state::ActionState;
use ryvus::variables::{resolve_config, ChainedResolver, FileResolver, VariableResolver};

fn j(text: &str) -> Json {
    Json::from_text(text).expect("valid JSON")
}

#[test]
fn generated_ids_have_prefix_and_eight_alphanumerics() {
    let id = generate_id("run");
    assert_eq!(id.len(), 12);
    assert!(id.starts_with("run_"));
    assert!(id[4..].chars().all(|c| c.is_ascii_alphanumeric()));
    assert_ne!(generate_id("run"), generate_id("run"));
}

#[test]
fn masker_hides_non_empty_secrets() {
    let m = SensitiveMasker::new(vec!["s3cret".to_string(), String::new(), "tok".to_string()]);
    assert_eq!(m.mask_text("a s3cret and tok, s3cret"), "a **** and ****, ****");
    assert_eq!(m.mask_text("nothing here"), "nothing here");
    let v = m.mask_value(&j(r#"{"pw": "s3cret", "n": 1}"#));
    assert_eq!(v, j(r#"{"pw": "****", "n": 1}"#));
}

#[test]
fn masker_yields_null_when_text_breaks() {
    let m = SensitiveMasker::new(vec!["\"".to_string()]);
    assert_eq!(m.mask_value(&j(r#"{"a": 1}"#)), Json::Null);
}

#[test]
fn file_resolver_reads_values_and_secrets() {
    let r = FileResolver::from_text(r#"{"HOST": "db", "PORT": 5432, "TOKEN": "abc", "_secrets": ["TOKEN", 3, "TOKEN"]}"#);
    assert_eq!(r.resolve("HOST").as_deref(), Some("db"));
    assert_eq!(r.resolve("PORT"), None);
    assert_eq!(r.resolve("_secrets"), None);
    assert!(r.is_secret("TOKEN"));
    assert!(!r.is_secret("HOST"));
    assert_eq!(r.secret_keys(), vec!["TOKEN".to_string()]);
    let empty = FileResolver::from_text("not json");
    assert_eq!(empty.resolve("HOST"), None);
    assert!(empty.secret_keys().is_empty());
}

#[test]
fn chained_resolver_takes_first_source() {
    let a = FileResolver::from_text(r#"{"X": "from-a", "_secrets": ["X"]}"#);
    let b = FileResolver::from_text(r#"{"X": "from-b", "Y": "only-b", "_secrets": ["Y"]}"#);
    let chain = ChainedResolver::new(vec![a, b]);
    assert_eq!(chain.resolve("X").as_deref(), Some("from-a"));
    assert_eq!(chain.resolve("Y").as_deref(), Some("only-b"));
    assert_eq!(chain.resolve("Z"), None);
    assert!(chain.is_secret("Y"));
    assert_eq!(chain.secret_keys(), vec!["X".to_string(), "Y".to_string()]);
}

fn step_def(config: &str, params: &str) -> StepDefinition {
    StepDefinition {
        key: "s".into(),
        action: "a".into(),
        params: j(params),
        config: j(config),
        retry: None,
        hooks: Vec::new(),
        next: None,
        next_when: Vec::new(),
        otherwise: None,
        on_error: None,
    }
}

#[test]
fn resolve_config_substitutes_variables_and_collects_secrets() {
    let vars = FileResolver::from_text(r#"{"USER": "bob", "PASS": "hunter2"}"#);
    let mut def = PipelineDefinition {
        key: "p".into(),
        description: None,
        version: None,
        steps: vec![step_def(
            r#"{"user": "$USER", "pass": "secret:$ PASS ", "keep": "$MISSING", "plain": "x"}"#,
            r#"["secret:$PASS", 1]"#,
        )],
        pipeline_hooks: Vec::new(),
    };
    let secrets = resolve_config(&mut def, &vars);
    assert_eq!(
        def.steps[0].config,
        j(r#"{"user": "bob", "pass": "hunter2", "keep": "$MISSING", "plain": "x"}"#)
    );
    assert_eq!(def.steps[0].params, j(r#"["hunter2", 1]"#));
    assert_eq!(secrets, vec!["hunter2".to_string(), "hunter2".to_string()]);
}

#[test]
fn error_texts_carry_their_labels() {
    assert_eq!(Error::action("x").to_string(), "Action error: x");
    assert_eq!(Error::pipeline("x").to_string(), "Pipeline error: x");
    assert_eq!(Error::system("x").to_string(), "System error: x");
    assert_eq!(Error::Unsupported("x".into()).to_string(), "Library error: x");
    assert_eq!(Error::NotFound("x".into()).to_string(), "Not found error: x");
    assert_eq!(EngineError::Action("x".into()).to_string(), "Action failed: x");
    assert_eq!(EngineError::Canceled.to_string(), "Pipeline canceled");
    assert_eq!(EngineError::Other("x".into()).to_string(), "Other error: x");
}

#[test]
fn action_states_that_are_final() {
    assert!(ActionState::Success.is_final());
    assert!(ActionState::Failed.is_final());
    assert!(ActionState::Skipped.is_final());
    assert!(ActionState::Canceled.is_final());
    assert!(!ActionState::Pending.is_final());
    assert!(!ActionState::Running.is_final());
}

#[test]
fn metadata_duration_needs_ordered_times() {
    let mut m = ActionMetadata {
        id: "m".into(),
        action_type: "t".into(),
        started_at: Some(1_000),
        finished_at: Some(1_250),
        duration: None,
        message: None,
    };
    m.compute_duration();
    assert_eq!(m.duration, Some(250));
    let mut backwards = ActionMetadata { started_at: Some(5), finished_at: Some(1), duration: None, ..m.clone() };
    backwards.compute_duration();
    assert_eq!(backwards.duration, None);
}

#[test]
fn environment_defaults_to_local() {
    let e = Environment::default();
    assert_eq!(e.name, "local");
    assert_eq!(e.kind, EnvironmentKind::Local);
    let s = Environment::new("staging", EnvironmentKind::Staging);
    assert_eq!(s.name, "staging");
    assert!(s.metadata.is_empty());
}

#[test]
fn retry_budget_allows_max_retries_more_invocations() {
    // A flaky action that fails twice, then succeeds, wrapped with three retries.
    let mut budget = RetryableAction::new(3);
    let mut invocations = 0;
    let succeeded = loop {
        invocations += 1;
        let ok = invocations == 3;
        if ok {
            break true;
        }
        if !budget.retry_after_failure() {
            break false;
        }
    };
    assert!(succeeded);
    assert_eq!(invocations, 3);

    // An action that always fails is invoked max_retries + 1 times.
    let mut budget = RetryableAction::new(3);
    let mut invocations = 1;
    while budget.retry_after_failure() {
        invocations += 1;
    }
    assert_eq!(invocations, 4);
}

#[test]
fn action_result_constructors() {
    let s = ActionResult::success(j("5"));
    assert_eq!(s.status, ExecutionStatus::Success);
    assert_eq!(s.output, Some(j("5")));
    assert_eq!(s.duration_ms, Some(0));
    assert!(s.id.starts_with("action_result_"));
    let f = ActionResult::failed("bad");
    assert_eq!(f.status, ExecutionStatus::Failed);
    assert_eq!(f.message.as_deref(), Some("bad"));
    let k = ActionResult::skipped();
    assert_eq!(k.status, ExecutionStatus::Skipped);
    assert_eq!(k.started_at, None);
}

#[test]
fn metrics_of_steps_count_and_time() {
    let steps = vec![
        ActionResult::success(j("1")),
        ActionResult::failed("x"),
        ActionResult::skipped(),
        ActionResult::success(j("2")),
    ];
    let m = ExecutionMetrics::of_steps(100, 350, &steps);
    assert_eq!(m.duration_ms, 250);
    assert_eq!(m.steps_total, 4);
    assert_eq!(m.steps_succeeded, 2);
    assert_eq!(m.steps_failed, 1);
    let backwards = ExecutionMetrics::of_steps(500, 100, &steps);
    assert_eq!(backwards.duration_ms, 0);
}

fn stamped(key: &str, output: Option<&str>) -> ActionResult {
    let mut r = match output {
        Some(o) => ActionResult::success(j(o)),
        None => ActionResult::failed("x"),
    };
    r.key = key.to_string();
    r
}

#[test]
fn context_document_lists_payload_steps_and_last_output() {
    let mut ctx = ExecutionContext::new("p", Environment::default());
    ctx.insert("payload", j(r#"{"a": 1}"#));
    ctx.insert_result("act1", stamped("one", Some("10")));
    ctx.insert_result("act2", stamped("two", None));
    // Members are compared through their canonical text, which orders keys.
    let doc = build_jsonpath_context(&ctx);
    assert_eq!(doc.to_text(), j(r#"{"payload": {"a": 1}, "one": {"output": 10}}"#).to_text());
    match &doc {
        Json::Object(members) => {
            let keys: Vec<&str> = members.iter().map(|(k, _)| k.as_str()).collect();
            assert_eq!(keys, vec!["payload", "one"]);
        }
        _ => panic!("expected an object"),
    }
    ctx.insert_result("act3", stamped("three", Some("30")));
    let doc = build_jsonpath_context(&ctx);
    assert_eq!(
        doc.to_text(),
        j(r#"{"payload": {"a": 1}, "one": {"output": 10}, "three": {"output": 30}, "output": 30}"#)
            .to_text()
    );
}

#[test]
fn default_mapper_prefers_latest_result_then_payload() {
    let mut ctx = ExecutionContext::new("p", Environment::default());
    assert_eq!(DefaultMapper.map_input(Json::Null, &ctx).ok(), Some(j("{}")));
    ctx.insert("payload", j(r#"{"x": 1}"#));
    assert_eq!(DefaultMapper.map_input(Json::Null, &ctx).ok(), Some(j(r#"{"x": 1}"#)));
    ctx.insert_result("a", stamped("s1", Some("1")));
    ctx.insert_result("b", stamped("s2", Some("2")));
    ctx.insert_result("a", stamped("s3", Some("3")));
    // "b" is the latest entry by first insertion; "a" was updated in place.
    assert_eq!(DefaultMapper.map_input(Json::Null, &ctx).ok(), Some(j("2")));
}

#[test]
fn config_resolver_templates_in_place() {
    let mut ctx = ExecutionContext::new("p", Environment::default());
    ctx.insert("payload", j(r#"{"region": "eu"}"#));
    let mut cfg = j(r#"{"r": "$.payload.region", "n": 3}"#);
    JsonPathConfigResolver.resolve(&mut cfg, &ctx);
    assert_eq!(cfg, j(r#"{"r": "eu", "n": 3}"#));
}

#[test]
fn context_into_result_reports_environment_name() {
    let ctx = ExecutionContext::new("p", Environment::new("prod", EnvironmentKind::Production));
    assert!(ctx.run_id.starts_with("run_"));
    let r = ctx.into_result();
    assert_eq!(r.environment.as_deref(), Some("prod"));
    assert_eq!(r.pipeline_key.as_deref(), Some("p"));
    assert_eq!(r.result, None);
}

#[test]
fn json_equality_and_copies() {
    let a = j(r#"{"k": [1, 2.5, "s", null, true]}"#);
    assert_eq!(a.clone(), a);
    assert_ne!(j("1"), j("1.0"));
    assert_ne!(j(r#"{"a": 1}"#), j(r#"{"a": 2}"#));
    assert_eq!(j("[]").to_text(), "[]");
    assert_eq!(Json::from_text("{oops"), None);
}

#[test]
fn replacement_is_leftmost_and_non_overlapping() {
    assert_eq!(ryvus::text::replace_all("aaa", "aa", "X"), "Xa");
    assert_eq!(ryvus::text::replace_all("abcabc", "bc", ""), "aa");
    assert_eq!(ryvus::text::replace_all("héllo héllo", "é", "e"), "hello hello");
    assert_eq!(ryvus::text::replace_all("", "x", "y"), "");
}

#[test]
fn sequential_run_decisions() {
    use_decision(ryvus::executor::run_next(0, 2, false, None), "invoke");
    use_decision(ryvus::executor::run_next(2, 2, false, None), "done");
    use_decision(ryvus::executor::run_next(1, 2, true, None), "stop");
    let err = Error::action("boom");
    match ryvus::executor::run_next(1, 2, false, Some(&err)) {
        ryvus::executor::RunDecision::Fail(EngineError::Action(m)) => assert_eq!(m, "Action error: boom"),
        _ => panic!("expected failure"),
    }
}

fn use_decision(d: ryvus::executor::RunDecision, expected: &str) {
    let got = match d {
        ryvus::executor::RunDecision::Invoke => "invoke",
        ryvus::executor::RunDecision::Done => "done",
        ryvus::executor::RunDecision::Stop => "stop",
        ryvus::executor::RunDecision::Fail(_) => "fail",
    };
    assert_eq!(got, expected);
}

#[test]
fn finishing_time_never_precedes_start() {
    let mut ctx = ExecutionContext::new("p", Environment::default());
    ctx.started_at = i64::MAX - 1;
    ctx.finish();
    assert_eq!(ctx.finished_at, Some(i64::MAX - 1));
    let r = ctx.into_result();
    assert!(r.metrics.finished_at >= r.metrics.started_at);
    assert_eq!(r.metrics.duration_ms, 0);
}
