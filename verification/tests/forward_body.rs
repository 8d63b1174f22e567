use copilot_responses_proxy::effort::ReasoningEffort;
use copilot_responses_proxy::forward::{forward_document, prepare_forward_body, rewrite_members, summarize_body};
use copilot_responses_proxy::json::{decode_json, encode_json, JsonValue};
use serde_json::Value;

fn parse(bytes: &[u8]) -> Value {
    serde_json::from_slice(bytes).unwrap()
}

#[test]
fn non_json_body_passes_through() {
    let raw = b"not json at all";
    let forward = prepare_forward_body(raw, true, Some(ReasoningEffort::High));
    assert_eq!(forward.body, raw);
    assert!(forward.rewrites.is_empty());
    assert!(forward.summary.is_none());
    assert!(forward.forwarded_summary.is_none());
}

#[test]
fn non_object_json_passes_through() {
    let raw = br#"[1,2,3]"#;
    let forward = prepare_forward_body(raw, true, Some(ReasoningEffort::Low));
    assert_eq!(forward.body, raw);
    assert!(forward.rewrites.is_empty());
    assert!(forward.summary.is_some());
    assert!(forward.forwarded_summary.is_none());
}

#[test]
fn drop_without_truncation_leaves_body_untouched() {
    let raw = br#"{ "model" : "m" }"#;
    let forward = prepare_forward_body(raw, true, None);
    assert_eq!(forward.body, raw);
    assert!(forward.rewrites.is_empty());
}

#[test]
fn non_object_reasoning_is_replaced() {
    let raw = br#"{"reasoning":"weird","truncation":1}"#;
    let forward = prepare_forward_body(raw, false, Some(ReasoningEffort::Medium));
    let value = parse(&forward.body);
    assert_eq!(value["reasoning"], parse(br#"{"effort":"medium"}"#));
    assert_eq!(value["truncation"], 1);
}

#[test]
fn nested_truncation_is_kept() {
    let raw = br#"{"truncation":"disabled","input":[{"truncation":"x"}],"tools":[1,2]}"#;
    let forward = prepare_forward_body(raw, true, None);
    let value = parse(&forward.body);
    assert!(value.get("truncation").is_none());
    assert_eq!(value["input"][0]["truncation"], "x");
    assert_eq!(value["tools"], parse(b"[1,2]"));
}

#[test]
fn summaries_of_body_and_forwarded_body() {
    let raw = br#"{"model":"gpt","stream":true,"truncation":"disabled","input":[1,2,3],"tools":[{}],"reasoning":{"effort":"low"},"max_output_tokens":99}"#;
    let forward = prepare_forward_body(raw, true, Some(ReasoningEffort::High));
    let summary = parse(&encode_json(forward.summary.as_ref().unwrap()).unwrap());
    let expected = parse(
        br#"{"model":"gpt","stream":true,"store":null,"truncation":"disabled","reasoning_effort":"low","max_output_tokens":99,"input_item_count":3,"tool_count":1}"#,
    );
    assert_eq!(summary, expected);
    let forwarded = parse(&encode_json(forward.forwarded_summary.as_ref().unwrap()).unwrap());
    assert_eq!(forwarded["truncation"], Value::Null);
    assert_eq!(forwarded["reasoning_effort"], "high");
    assert_eq!(forwarded["input_item_count"], 3);
}

#[test]
fn summarize_non_object() {
    let doc = JsonValue::Str("x".to_string());
    let summary = parse(&encode_json(&summarize_body(&doc)).unwrap());
    assert_eq!(summary["model"], Value::Null);
    assert_eq!(summary["input_item_count"], 0);
}

#[test]
fn rewriting_twice_changes_nothing_more() {
    let doc = decode_json(br#"{"truncation":"d","reasoning":{"summary":"auto"},"a":1}"#).unwrap();
    let mut members = match doc {
        JsonValue::Object(m) => m,
        _ => panic!("object expected"),
    };
    let first = rewrite_members(&mut members, true, Some(ReasoningEffort::Low));
    assert_eq!(first, vec!["drop_truncation", "set_reasoning_effort"]);
    let once = encode_json(&JsonValue::Object(copy(&members))).unwrap();
    let second = rewrite_members(&mut members, true, Some(ReasoningEffort::Low));
    assert_eq!(second, vec!["set_reasoning_effort"]);
    let twice = encode_json(&JsonValue::Object(members)).unwrap();
    assert_eq!(once, twice);
    let value = parse(&twice);
    assert_eq!(value["reasoning"]["summary"], "auto");
    assert_eq!(value["reasoning"]["effort"], "low");
    assert_eq!(value["a"], 1);
}

fn copy(members: &Vec<(String, JsonValue)>) -> Vec<(String, JsonValue)> {
    members.iter().map(|(k, v)| (k.clone(), v.deep_copy())).collect()
}

#[test]
fn decode_and_encode_round_trip() {
    let raw = br#"{"b":[true,null,1.5,-2,"s"],"a":{"x":{}}}"#;
    let doc = decode_json(raw).unwrap();
    let bytes = encode_json(&doc).unwrap();
    assert_eq!(parse(&bytes), parse(raw));
    assert!(decode_json(b"{").is_none());
    assert!(decode_json(b"").is_none());
}

#[test]
fn forward_document_from_given_document() {
    let doc = JsonValue::Object(vec![
        ("truncation".to_string(), JsonValue::Str("disabled".to_string())),
        ("model".to_string(), JsonValue::Str("m".to_string())),
    ]);
    let forward = forward_document(b"raw", Some(doc), true, None);
    assert_eq!(forward.rewrites, vec!["drop_truncation"]);
    assert_eq!(parse(&forward.body), parse(br#"{"model":"m"}"#));
    let forward = forward_document(b"raw", Some(JsonValue::Bool(true)), true, Some(ReasoningEffort::Low));
    assert_eq!(forward.body, b"raw".to_vec());
    assert!(forward.rewrites.is_empty());
    let forward = forward_document(b"raw", None, true, None);
    assert_eq!(forward.body, b"raw".to_vec());
    assert!(forward.summary.is_none());
}

#[test]
fn rewritten_floats_keep_their_value() {
    let raw = br#"{"truncation":"disabled","a":1.2345678901234567e-50,"b":0.1,"c":-2.5e300,"d":12345678901234567890}"#;
    let f = prepare_forward_body(raw, true, None);
    let forwarded: serde_json::Value = serde_json::from_slice(&f.body).unwrap();
    let mut original: serde_json::Value = serde_json::from_slice(raw).unwrap();
    original.as_object_mut().unwrap().remove("truncation");
    assert_eq!(forwarded, original);
    assert_eq!(serde_json::to_vec(&original).unwrap(), f.body);
}

#[test]
fn rewritten_objects_keep_distinct_names_at_every_depth() {
    let raw = br#"{"truncation":"x","reasoning":{"summary":"auto","effort":"low"},"meta":{"a":{"b":1}}}"#;
    let f = prepare_forward_body(raw, true, Some(ReasoningEffort::High));
    let text = String::from_utf8(f.body.clone()).unwrap();
    assert_eq!(text.matches("\"effort\"").count(), 1);
    assert_eq!(
        parse(&f.body),
        parse(br#"{"reasoning":{"summary":"auto","effort":"high"},"meta":{"a":{"b":1}}}"#)
    );
}
