use openhuman::json::{apply_log_envelope, unwrap_rpc, JsonValue};
use openhuman::rpc::RpcOutcome;

fn s(x: &str) -> String {
    x.to_string()
}

fn obj(entries: Vec<(&str, JsonValue)>) -> JsonValue {
    JsonValue::Object(entries.into_iter().map(|(k, v)| (s(k), v)).collect())
}

fn text(x: &str) -> JsonValue {
    JsonValue::Str(s(x))
}

#[test]
fn envelope_without_logs_is_the_bare_value() {
    let v = obj(vec![("ok", JsonValue::Bool(true))]);
    let expected = obj(vec![("ok", JsonValue::Bool(true))]);
    assert_eq!(apply_log_envelope(v, vec![]), expected);
}

#[test]
fn envelope_with_logs_wraps_result_and_logs() {
    let v = JsonValue::Number(s("42"));
    let r = apply_log_envelope(v, vec![s("first"), s("second")]);
    let expected = obj(vec![
        ("result", JsonValue::Number(s("42"))),
        ("logs", JsonValue::Array(vec![text("first"), text("second")])),
    ]);
    assert_eq!(r, expected);
}

#[test]
fn one_log_line_changes_the_shape() {
    let bare = apply_log_envelope(text("v"), vec![]);
    let wrapped = apply_log_envelope(text("v"), vec![s("line")]);
    assert_eq!(bare, text("v"));
    assert!(matches!(wrapped, JsonValue::Object(_)));
}

#[test]
fn unwrap_takes_off_nested_result_and_data() {
    let v = obj(vec![("result", obj(vec![("data", obj(vec![("name", text("x"))]))]))]);
    assert_eq!(unwrap_rpc(&v), &obj(vec![("name", text("x"))]));
}

#[test]
fn unwrap_prefers_result_over_data() {
    let v = obj(vec![("data", text("from data")), ("result", text("from result"))]);
    assert_eq!(unwrap_rpc(&v), &text("from result"));
}

#[test]
fn unwrap_leaves_plain_values() {
    let v = JsonValue::Array(vec![JsonValue::Null]);
    assert_eq!(unwrap_rpc(&v), &JsonValue::Array(vec![JsonValue::Null]));
    let o = obj(vec![("results", text("not an envelope"))]);
    assert_eq!(unwrap_rpc(&o), &obj(vec![("results", text("not an envelope"))]));
}

#[test]
fn unwrap_sees_through_log_envelope() {
    let inner = obj(vec![("data", JsonValue::Number(s("7")))]);
    let wrapped = apply_log_envelope(inner, vec![s("log")]);
    assert_eq!(unwrap_rpc(&wrapped), &JsonValue::Number(s("7")));
}

#[test]
fn unwrap_is_idempotent() {
    let v = obj(vec![("result", obj(vec![("result", JsonValue::Bool(false))]))]);
    let once = unwrap_rpc(&v);
    assert_eq!(unwrap_rpc(once), once);
}

#[test]
fn outcome_new_keeps_value_and_logs() {
    let o = RpcOutcome::new(5u32, vec![s("a"), s("b")]);
    assert_eq!(o.value, 5);
    assert_eq!(o.logs, vec![s("a"), s("b")]);
}

#[test]
fn outcome_single_log_has_one_line() {
    let o = RpcOutcome::single_log("v", "done");
    assert_eq!(o.value, "v");
    assert_eq!(o.logs, vec![s("done")]);
}

#[test]
fn outcome_cli_json_follows_log_vector() {
    let bare = RpcOutcome::new(text("x"), vec![]).into_cli_compatible_json();
    assert_eq!(bare, text("x"));
    let logged = RpcOutcome::single_log(text("x"), "hello").into_cli_compatible_json();
    assert_eq!(
        logged,
        obj(vec![("result", text("x")), ("logs", JsonValue::Array(vec![text("hello")]))])
    );
}
