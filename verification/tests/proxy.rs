use copilot_responses_proxy::effort::ReasoningEffort;
use copilot_responses_proxy::forward::prepare_forward_body;
use serde_json::Value;

#[test]
fn drops_top_level_truncation_when_enabled() {
    let raw = br#"{"model":"gpt-5.5","truncation":"disabled","stream":true}"#;
    let forward = prepare_forward_body(raw, true, None);
    let value: Value = serde_json::from_slice(&forward.body).unwrap();

    assert_eq!(forward.rewrites, vec!["drop_truncation"]);
    assert!(value.get("truncation").is_none());
    assert_eq!(value["model"], "gpt-5.5");
}

#[test]
fn preserves_truncation_when_disabled() {
    let raw = br#"{"truncation":"disabled"}"#;
    let forward = prepare_forward_body(raw, false, None);

    assert!(forward.rewrites.is_empty());
    assert_eq!(forward.body, raw);
}

#[test]
fn sets_reasoning_effort_when_configured() {
    let raw = br#"{"model":"gpt-5.5","stream":true}"#;
    let forward = prepare_forward_body(raw, false, Some(ReasoningEffort::High));
    let value: Value = serde_json::from_slice(&forward.body).unwrap();

    assert_eq!(forward.rewrites, vec!["set_reasoning_effort"]);
    assert_eq!(value["reasoning"]["effort"], "high");
    assert_eq!(value["model"], "gpt-5.5");
}

#[test]
fn overwrites_existing_reasoning_effort_and_preserves_other_reasoning_fields() {
    let raw = br#"{"reasoning":{"effort":"low","summary":"auto"}}"#;
    let forward = prepare_forward_body(raw, false, Some(ReasoningEffort::XHigh));
    let value: Value = serde_json::from_slice(&forward.body).unwrap();

    assert_eq!(value["reasoning"]["effort"], "xhigh");
    assert_eq!(value["reasoning"]["summary"], "auto");
}

#[test]
fn combines_truncation_drop_and_reasoning_effort_rewrite() {
    let raw = br#"{"truncation":"disabled","reasoning":{"effort":"low"}}"#;
    let forward = prepare_forward_body(raw, true, Some(ReasoningEffort::Minimal));
    let value: Value = serde_json::from_slice(&forward.body).unwrap();

    assert_eq!(
        forward.rewrites,
        vec!["drop_truncation", "set_reasoning_effort"]
    );
    assert!(value.get("truncation").is_none());
    assert_eq!(value["reasoning"]["effort"], "minimal");
}
