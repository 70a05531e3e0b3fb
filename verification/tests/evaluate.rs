use srvcs_xnor::api::{ask, degraded, forward, Action, Deps, EvalRequest, Evaluation, Reply};
use srvcs_xnor::client::DepError;
use srvcs_xnor::json::JsonValue;

fn key(k: &str) -> String {
    k.to_string()
}

fn result_body(v: bool) -> JsonValue {
    JsonValue::Object(vec![(key("result"), JsonValue::Bool(v))])
}

fn deps() -> Deps {
    Deps { xor_url: "http://xor.test".to_string(), not_url: "http://not.test".to_string() }
}

fn get<'a>(body: &'a JsonValue, k: &str) -> Option<&'a JsonValue> {
    match body {
        JsonValue::Object(members) => members.iter().find(|(name, _)| name == k).map(|(_, v)| v),
        _ => None,
    }
}

/// Runs one evaluation, answering the calls in turn with the given outcomes;
/// gives the final reply and the calls made as (dependency, url, payload).
fn run(
    a: JsonValue,
    b: JsonValue,
    mut outcomes: Vec<Result<(u16, JsonValue), DepError>>,
) -> (Reply, Vec<(&'static str, String, JsonValue)>) {
    outcomes.reverse();
    let (mut evaluation, mut action) = Evaluation::start(deps(), EvalRequest { a, b });
    let mut calls = Vec::new();
    loop {
        match action {
            Action::Respond(reply) => {
                assert!(evaluation.is_finished());
                return (reply, calls);
            }
            Action::Call(call) => {
                calls.push((call.dependency, call.url, call.payload));
                let outcome = outcomes.pop().expect("an outcome for each call");
                action = evaluation.on_outcome(outcome);
            }
        }
    }
}

/// Drive one truth-table row: the exclusive-or service answers `xor_result`,
/// the negation service answers `not_result`, which is the expected result.
fn case(a: bool, b: bool, xor_result: bool, not_result: bool) {
    let (reply, calls) = run(
        JsonValue::Bool(a),
        JsonValue::Bool(b),
        vec![Ok((200, result_body(xor_result))), Ok((200, result_body(not_result)))],
    );
    assert_eq!(reply.status, 200);
    assert_eq!(get(&reply.body, "a"), Some(&JsonValue::Bool(a)));
    assert_eq!(get(&reply.body, "b"), Some(&JsonValue::Bool(b)));
    assert_eq!(get(&reply.body, "result"), Some(&JsonValue::Bool(not_result)));
    assert_eq!(calls.len(), 2);
    assert_eq!(calls[0].0, "srvcs-xor");
    assert_eq!(calls[0].1, "http://xor.test");
    assert_eq!(
        calls[0].2,
        JsonValue::Object(vec![(key("a"), JsonValue::Bool(a)), (key("b"), JsonValue::Bool(b))])
    );
    assert_eq!(calls[1].0, "srvcs-not");
    assert_eq!(calls[1].1, "http://not.test");
    assert_eq!(calls[1].2, JsonValue::Object(vec![(key("value"), JsonValue::Bool(xor_result))]));
}

#[test]
fn truth_table_false_false_is_true() {
    // a XOR b = false, NOT = true
    case(false, false, false, true);
}

#[test]
fn truth_table_false_true_is_false() {
    // a XOR b = true, NOT = false
    case(false, true, true, false);
}

#[test]
fn truth_table_true_false_is_false() {
    // a XOR b = true, NOT = false
    case(true, false, true, false);
}

#[test]
fn truth_table_true_true_is_true() {
    // a XOR b = false, NOT = true
    case(true, true, false, true);
}

#[test]
fn forwards_invalid_input_from_xor() {
    let rejection =
        JsonValue::Object(vec![(key("error"), JsonValue::Str(key("operand is not a boolean")))]);
    let (reply, calls) = run(
        JsonValue::Str(key("nope")),
        JsonValue::Bool(true),
        vec![Ok((422, rejection)), Ok((200, result_body(true)))],
    );
    assert_eq!(reply.status, 422);
    assert_eq!(
        reply.body,
        JsonValue::Object(vec![(key("error"), JsonValue::Str(key("operand is not a boolean")))])
    );
    assert_eq!(calls.len(), 1);
}

#[test]
fn degrades_when_xor_is_unreachable() {
    let (reply, calls) = run(
        JsonValue::Bool(true),
        JsonValue::Bool(false),
        vec![Err(DepError::Unreachable), Ok((200, result_body(true)))],
    );
    assert_eq!(reply.status, 503);
    assert_eq!(get(&reply.body, "dependency"), Some(&JsonValue::Str(key("srvcs-xor"))));
    assert_eq!(calls.len(), 1);
}

#[test]
fn degrades_when_not_is_unreachable() {
    let (reply, calls) = run(
        JsonValue::Bool(true),
        JsonValue::Bool(false),
        vec![Ok((200, result_body(true))), Err(DepError::Unreachable)],
    );
    assert_eq!(reply.status, 503);
    assert_eq!(get(&reply.body, "dependency"), Some(&JsonValue::Str(key("srvcs-not"))));
    assert_eq!(calls.len(), 2);
}

#[test]
fn forwards_invalid_input_from_not() {
    let rejection = JsonValue::Object(vec![(key("error"), JsonValue::Str(key("bad")))]);
    let (reply, _) = run(
        JsonValue::Bool(true),
        JsonValue::Bool(true),
        vec![Ok((200, result_body(false))), Ok((422, rejection))],
    );
    assert_eq!(reply.status, 422);
    assert_eq!(reply.body, JsonValue::Object(vec![(key("error"), JsonValue::Str(key("bad")))]));
}

#[test]
fn degrades_on_unexpected_status() {
    let (reply, calls) = run(
        JsonValue::Bool(true),
        JsonValue::Bool(true),
        vec![Ok((500, JsonValue::Null))],
    );
    assert_eq!(reply.status, 503);
    assert_eq!(get(&reply.body, "dependency"), Some(&JsonValue::Str(key("srvcs-xor"))));
    assert_eq!(
        get(&reply.body, "error"),
        Some(&JsonValue::Str(key("dependency unavailable")))
    );
    assert_eq!(calls.len(), 1);
}

#[test]
fn missing_verdict_counts_as_false() {
    let (reply, calls) = run(
        JsonValue::Bool(true),
        JsonValue::Bool(true),
        vec![Ok((200, JsonValue::Null)), Ok((200, result_body(true)))],
    );
    assert_eq!(calls[1].2, JsonValue::Object(vec![(key("value"), JsonValue::Bool(false))]));
    assert_eq!(reply.status, 200);
}

#[test]
fn non_boolean_verdict_counts_as_false() {
    let body = JsonValue::Object(vec![(key("result"), JsonValue::Str(key("true")))]);
    assert_eq!(ask(Ok((200, body)), "srvcs-not"), Ok(false));
}

#[test]
fn operands_pass_through_unchanged() {
    let a = JsonValue::Array(vec![JsonValue::Number(key("1.5")), JsonValue::Null]);
    let b = JsonValue::Object(vec![(key("x"), JsonValue::Str(key("y")))]);
    let (reply, calls) = run(
        a,
        b,
        vec![Ok((200, result_body(true))), Ok((200, result_body(false)))],
    );
    let a = JsonValue::Array(vec![JsonValue::Number(key("1.5")), JsonValue::Null]);
    let b = JsonValue::Object(vec![(key("x"), JsonValue::Str(key("y")))]);
    assert_eq!(get(&calls[0].2, "a"), Some(&a));
    assert_eq!(get(&calls[0].2, "b"), Some(&b));
    assert_eq!(get(&reply.body, "a"), Some(&a));
    assert_eq!(get(&reply.body, "b"), Some(&b));
    assert_eq!(get(&reply.body, "result"), Some(&JsonValue::Bool(false)));
}

#[test]
fn degraded_names_dependency() {
    let reply = degraded("srvcs-xor");
    assert_eq!(reply.status, 503);
    assert_eq!(
        reply.body,
        JsonValue::Object(vec![
            (key("dependency"), JsonValue::Str(key("srvcs-xor"))),
            (key("error"), JsonValue::Str(key("dependency unavailable"))),
        ])
    );
}

#[test]
fn forward_keeps_valid_status_and_body() {
    let reply = forward(422, JsonValue::Bool(true));
    assert_eq!(reply, Reply { status: 422, body: JsonValue::Bool(true) });
}

#[test]
fn forward_replaces_invalid_status() {
    assert_eq!(forward(99, JsonValue::Null).status, 502);
    assert_eq!(forward(1000, JsonValue::Null).status, 502);
    assert_eq!(forward(100, JsonValue::Null).status, 100);
    assert_eq!(forward(999, JsonValue::Null).status, 999);
}

#[test]
fn json_get_finds_member() {
    let body = JsonValue::Object(vec![
        (key("a"), JsonValue::Bool(false)),
        (key("result"), JsonValue::Bool(true)),
    ]);
    assert_eq!(body.get(&key("result")), Some(&JsonValue::Bool(true)));
    assert_eq!(body.get(&key("missing")), None);
    assert_eq!(JsonValue::Bool(true).get(&key("result")), None);
    assert_eq!(JsonValue::Bool(true).as_bool(), Some(true));
    assert_eq!(JsonValue::Null.as_bool(), None);
}

#[test]
fn duplicate_is_equal() {
    let v = JsonValue::Array(vec![
        JsonValue::Object(vec![(key("k"), JsonValue::Number(key("-3")))]),
        JsonValue::Str(key("s")),
    ]);
    assert_eq!(v.duplicate(), v);
}
