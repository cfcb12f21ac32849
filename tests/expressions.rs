use ryvus::json::Json;
use ryvus::mapper::JsonMapper;
use ryvus::context::ExecutionContext;
use ryvus::environment::Environment;
use ryvus::predicate::evaluate_against;
use ryvus::resolver::resolve_jsonpaths;
use ryvus::error::EngineError;

fn j(text: &str) -> Json {
    Json::from_text(text).expect("valid JSON")
}

fn holds(expr: &str, doc: &str) -> bool {
    match evaluate_against(expr, &j(doc)) {
        Ok(b) => b,
        Err(_) => panic!("unexpected error for {expr}"),
    }
}

#[test]
fn operator_parsing_prefers_compound_operators() {
    // Split on `>` would leave "= 5" on the right, which is not a number.
    assert!(holds("$.a >= 5", r#"{"a": 5}"#));
    assert!(holds("$.a <= 5", r#"{"a": 5}"#));
    assert!(!holds("$.a > 5", r#"{"a": 5}"#));
    assert!(holds("a != b", "{}"));
    assert!(!holds("a != a", "{}"));
}

#[test]
fn operator_parsing_compares_both_paths_side() {
    // The right side is not resolved: "$.b" stays a string, so no numeric order.
    assert!(!holds("$.a >= $.b", r#"{"a": 5, "b": 3}"#));
}

#[test]
fn missing_path_compares_as_literal() {
    assert!(!holds("$.x == 'foo'", r#"{"y": 1}"#));
    assert!(holds("$.x == '$.x'", r#"{"y": 1}"#));
    assert!(holds("$.x == \"$.x\"", r#"{"y": 1}"#));
}

#[test]
fn numeric_comparison_with_non_number_is_false() {
    assert!(!holds("$.name > 3", r#"{"name": "alice"}"#));
    assert!(!holds("$.name < 3", r#"{"name": "alice"}"#));
    assert!(holds("$.n < 3.5", r#"{"n": 3}"#));
    assert!(holds("$.n > 2.5", r#"{"n": 3}"#));
}

#[test]
fn equality_uses_json_values() {
    assert!(holds("$.n == 3", r#"{"n": 3}"#));
    assert!(holds("$.flag == true", r#"{"flag": true}"#));
    assert!(holds("$.obj == {\"k\": [1, 2]}", r#"{"obj": {"k": [1, 2]}}"#));
    assert!(!holds("$.n == '3'", r#"{"n": 3}"#));
}

#[test]
fn expression_without_operator_is_an_error() {
    match evaluate_against("just words", &j("{}")) {
        Err(EngineError::Other(m)) => assert_eq!(m, "Invalid condition syntax: just words"),
        _ => panic!("expected a syntax error"),
    }
}

#[test]
fn substitution_resolves_payload_and_escapes() {
    let mut ctx = ExecutionContext::new("p", Environment::default());
    ctx.insert("payload", j(r#"{"name": "alice"}"#));
    let params = j(r#"{"msg": "$.payload.name", "tag": "$$.literal"}"#);
    let out = JsonMapper.map_input(params, &ctx).ok().expect("mapped");
    assert_eq!(out, j(r#"{"msg": "alice", "tag": "$.literal"}"#));
}

#[test]
fn escape_resolves_to_literal_once() {
    let doc = j(r#"{"foo": "should not appear"}"#);
    let mut v = j(r#"["$$.foo", {"k": "$$.foo"}]"#);
    resolve_jsonpaths(&mut v, &doc);
    assert_eq!(v, j(r#"["$.foo", {"k": "$.foo"}]"#));
}

#[test]
fn resolving_twice_changes_nothing_more() {
    let doc = j(r#"{"payload": {"a": 1, "b": "plain"}}"#);
    let mut v = j(r#"{"x": "$.payload.a", "y": "$.payload.b", "z": "$.missing", "w": [true, null]}"#);
    resolve_jsonpaths(&mut v, &doc);
    let once = v.clone();
    resolve_jsonpaths(&mut v, &doc);
    assert_eq!(v, once);
    assert_eq!(once, j(r#"{"x": 1, "y": "plain", "z": "$.missing", "w": [true, null]}"#));
}

#[test]
fn secret_prefix_is_stripped_before_lookup() {
    let doc = j(r#"{"payload": {"token": "t0k"}}"#);
    let mut v = j(r#""secret:$.payload.token""#);
    resolve_jsonpaths(&mut v, &doc);
    assert_eq!(v, j(r#""t0k""#));
}

#[test]
fn resolution_replaces_with_any_json_type() {
    let doc = j(r#"{"payload": {"list": [1, 2, 3]}}"#);
    let mut v = j(r#"{"l": "$.payload.list", "first": "$.payload.list[0]"}"#);
    resolve_jsonpaths(&mut v, &doc);
    assert_eq!(v, j(r#"{"l": [1, 2, 3], "first": 1}"#));
}
