use std::collections::BTreeMap;

use openhuman::observability::{
    auth_get_me_tags, channel_message_404_event, event_with_exception_value, event_with_message,
    event_with_tags, event_with_tags_and_message, managed_body, ObservedEvent,
};

fn tags(e: &ObservedEvent) -> BTreeMap<String, String> {
    e.tags.iter().cloned().collect()
}

#[test]
fn managed_body_shape() {
    assert_eq!(
        managed_body("402", "BUDGET_EXCEEDED"),
        "OpenHuman API error (402): {\"error\":{\"errorCode\":\"BUDGET_EXCEEDED\",\"message\":\"x\"}}"
    );
}

#[test]
fn auth_get_me_tag_fixture() {
    assert_eq!(
        auth_get_me_tags(),
        vec![
            ("domain", "rpc"),
            ("operation", "invoke_method"),
            ("method", "openhuman.auth_get_me"),
            ("elapsed_ms", "5003"),
        ]
    );
}

#[test]
fn tags_later_pairs_win() {
    let e = event_with_tags(&[("a", "1"), ("b", "2"), ("a", "3")]);
    let t = tags(&e);
    assert_eq!(t.len(), 2);
    assert_eq!(t["a"], "3");
    assert_eq!(t["b"], "2");
    assert!(e.message.is_none());
}

#[test]
fn message_events() {
    assert_eq!(event_with_message("boom").message, Some("boom".to_string()));
    let e = event_with_tags_and_message(&[("domain", "rpc")], "slow");
    assert_eq!(e.message, Some("slow".to_string()));
    assert_eq!(tags(&e)["domain"], "rpc");
}

#[test]
fn channel_404_event_fixture() {
    let e = channel_message_404_event("PATCH");
    let t = tags(&e);
    assert_eq!(t["domain"], "backend_api");
    assert_eq!(t["failure"], "non_2xx");
    assert_eq!(t["status"], "404");
    assert_eq!(t["method"], "PATCH");
    assert_eq!(
        e.message.as_deref(),
        Some("PATCH /channels/telegram/messages/1103 failed (404); response_body_len=172")
    );
}

#[test]
fn exception_event_fixture() {
    let e = event_with_exception_value("panic here");
    assert_eq!(e.exception_values, vec![Some("panic here".to_string())]);
    assert!(tags(&e).is_empty());
}
