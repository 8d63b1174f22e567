use copilot_responses_proxy::cli::{
    active_provider_label, parse_provider_add_tail, provider_list_lines, reasoning_list_lines, CliError,
};
use copilot_responses_proxy::config::AppConfig;
use copilot_responses_proxy::effort::ReasoningEffort;
use copilot_responses_proxy::forward::prepare_forward_body;
use copilot_responses_proxy::icon::{icon_rgba, ICON_SIZE};
use copilot_responses_proxy::headers::{
    forwarded_request_headers, response_headers, should_skip_request_header, should_skip_response_header,
};
use copilot_responses_proxy::json::encode_json;
use copilot_responses_proxy::menu::{
    menu_action, menu_layout, provider_menu_entries, provider_placeholder, reasoning_menu_entries, starts_with,
    trim_start_matches, MenuAction, MenuItemKind,
};
use copilot_responses_proxy::report::{error_document, health_document, request_log_entry};
use copilot_responses_proxy::text::{decimal_string, trim_str};
use copilot_responses_proxy::upstream::{
    failure_answer, is_health_request, plan_upstream_request, response_status, ProxyFailure,
};
use serde_json::Value;

fn parse(bytes: &[u8]) -> Value {
    serde_json::from_slice(bytes).unwrap()
}

fn strings(v: &[&str]) -> Vec<String> {
    v.iter().map(|s| s.to_string()).collect()
}

fn header(name: &str, value: &str) -> (String, Vec<u8>) {
    (name.to_string(), value.as_bytes().to_vec())
}

#[test]
fn request_header_filter() {
    assert!(should_skip_request_header("Host"));
    assert!(should_skip_request_header("CONTENT-LENGTH"));
    assert!(should_skip_request_header("te"));
    assert!(!should_skip_request_header("content-encoding"));
    assert!(!should_skip_request_header("authorization"));
    assert!(should_skip_response_header("Content-Encoding"));
    assert!(!should_skip_response_header("host"));
    assert!(!should_skip_response_header("x-request-id"));
}

#[test]
fn forwarded_headers_drop_client_auth_only_when_injecting() {
    let headers = vec![
        header("host", "127.0.0.1:8787"),
        header("authorization", "Bearer client"),
        header("content-type", "application/json"),
        header("connection", "keep-alive"),
    ];
    let kept = forwarded_request_headers(&headers, false);
    let names: Vec<&str> = kept.iter().map(|h| h.0.as_str()).collect();
    assert_eq!(names, vec!["authorization", "content-type"]);
    let kept = forwarded_request_headers(&headers, true);
    let names: Vec<&str> = kept.iter().map(|h| h.0.as_str()).collect();
    assert_eq!(names, vec!["content-type"]);
    assert_eq!(kept[0].1, b"application/json".to_vec());
    let back = response_headers(&vec![header("content-encoding", "gzip"), header("x-a", "1")]);
    assert_eq!(back, vec![header("x-a", "1")]);
}

#[test]
fn upstream_plan_uses_active_token_and_method() {
    let mut config = AppConfig::default();
    config.upsert_token("main".to_string(), None, " sk-1 ".to_string()).unwrap();
    config.set_reasoning_effort(ReasoningEffort::Low);
    let headers = vec![header("authorization", "Bearer client"), header("accept", "*/*")];
    let raw = br#"{"truncation":"disabled"}"#;
    let plan = plan_upstream_request(&config, "POST", &headers, raw);
    assert_eq!(plan.url, config.upstream_url);
    assert_eq!(plan.bearer_token.as_deref(), Some("sk-1"));
    assert_eq!(plan.headers, vec![header("accept", "*/*")]);
    let body = plan.body.unwrap();
    assert_eq!(body, plan.forward.body);
    assert_eq!(parse(&body), parse(br#"{"reasoning":{"effort":"low"}}"#));
    let plan = plan_upstream_request(&config, "GET", &headers, raw);
    assert!(plan.body.is_none());
    config.clear_active_token();
    let plan = plan_upstream_request(&config, "HEAD", &headers, b"");
    assert!(plan.bearer_token.is_none());
    assert!(plan.body.is_none());
    assert_eq!(plan.headers.len(), 2);
}

#[test]
fn routing_and_status() {
    assert!(is_health_request("/health", "GET"));
    assert!(!is_health_request("/health", "POST"));
    assert!(!is_health_request("/v1/responses", "GET"));
    assert_eq!(response_status(200), 200);
    assert_eq!(response_status(999), 999);
    assert_eq!(response_status(1000), 502);
    assert_eq!(response_status(42), 502);
}

#[test]
fn health_report() {
    let mut config = AppConfig::default();
    config.upsert_token("main".to_string(), None, "sk".to_string()).unwrap();
    config.set_reasoning_effort(ReasoningEffort::XHigh);
    let value = parse(&encode_json(&health_document(&config)).unwrap());
    let expected = parse(
        br#"{"status":"ok","endpoint":"http://127.0.0.1:8787/v1/responses","upstream_url":"https://api.freshid.top/v1/responses","active_provider":"main","provider_count":1,"provider_has_token":true,"drop_truncation":true,"reasoning_effort":"xhigh","log_requests":true}"#,
    );
    assert_eq!(value, expected);
}

#[test]
fn request_log_lines() {
    let mut config = AppConfig::default();
    let forward = prepare_forward_body(br#"{"truncation":"x"}"#, true, None);
    let entry = request_log_entry(&config, 1000, 1250, Some(200), &forward, &None).unwrap();
    let value = parse(&encode_json(&entry).unwrap());
    assert_eq!(value["ts_ms"], 1000);
    assert_eq!(value["elapsed_ms"], 250);
    assert_eq!(value["status"], 200);
    assert_eq!(value["rewrites"], parse(br#"["drop_truncation"]"#));
    assert_eq!(value["active_provider"], Value::Null);
    assert_eq!(value["summary"]["truncation"], "x");
    assert_eq!(value["forwarded_summary"]["truncation"], Value::Null);
    assert_eq!(value["error"], Value::Null);
    let entry = request_log_entry(&config, 10, 5, None, &forward, &Some("boom".to_string())).unwrap();
    let value = parse(&encode_json(&entry).unwrap());
    assert_eq!(value["elapsed_ms"], 0);
    assert_eq!(value["status"], Value::Null);
    assert_eq!(value["error"], "boom");
    config.log_requests = false;
    assert!(request_log_entry(&config, 0, 0, None, &forward, &None).is_none());
}

#[test]
fn error_body() {
    let value = parse(&encode_json(&error_document("upstream down".to_string())).unwrap());
    assert_eq!(value, parse(br#"{"error":{"message":"upstream down","type":"proxy_error"}}"#));
}

#[test]
fn provider_add_tail_forms() {
    assert_eq!(parse_provider_add_tail(&[]).unwrap(), (None, None));
    assert_eq!(
        parse_provider_add_tail(&strings(&["sk"])).unwrap(),
        (Some("sk".to_string()), None)
    );
    assert_eq!(
        parse_provider_add_tail(&strings(&["--label", "Main"])).unwrap(),
        (None, Some("Main".to_string()))
    );
    assert_eq!(
        parse_provider_add_tail(&strings(&["sk", "--label", "Main"])).unwrap(),
        (Some("sk".to_string()), Some("Main".to_string()))
    );
    assert!(matches!(
        parse_provider_add_tail(&strings(&["--label"])),
        Err(CliError::UnexpectedAfterAddress)
    ));
    assert!(matches!(
        parse_provider_add_tail(&strings(&["sk", "extra"])),
        Err(CliError::UnexpectedAfterToken)
    ));
    assert!(matches!(
        parse_provider_add_tail(&strings(&["sk", "--label", "a", "b"])),
        Err(CliError::UnexpectedAfterToken)
    ));
}

#[test]
fn listings_and_labels() {
    let mut config = AppConfig::default();
    assert_eq!(active_provider_label(&config), "<none>");
    assert_eq!(provider_list_lines(&config), vec!["No provider profiles configured."]);
    config.upsert_token("main".to_string(), Some("Main".to_string()), "sk".to_string()).unwrap();
    config.upsert_token("other".to_string(), None, "sk2".to_string()).unwrap();
    config.tokens[1].value = String::new();
    assert_eq!(active_provider_label(&config), "Main (main)");
    assert_eq!(
        provider_list_lines(&config),
        vec![
            "* Main (main) [token] https://api.freshid.top/v1/responses",
            "  other (other) [pass-through] https://api.freshid.top/v1/responses",
        ]
    );
    assert_eq!(
        reasoning_list_lines(&config),
        vec!["* pass-through", "  minimal", "  low", "  medium", "  high", "  xhigh"]
    );
    config.set_reasoning_effort(ReasoningEffort::Medium);
    assert_eq!(reasoning_list_lines(&config)[0], "  pass-through");
    assert_eq!(reasoning_list_lines(&config)[3], "* medium");
}

#[test]
fn menu_actions() {
    assert!(matches!(menu_action("open_config"), MenuAction::OpenConfig));
    assert!(matches!(menu_action("quit"), MenuAction::Quit));
    assert!(matches!(menu_action("toggle_drop_truncation"), MenuAction::ToggleDropTruncation));
    assert!(matches!(menu_action("reasoning:high"), MenuAction::Reasoning(ref v) if v == "high"));
    assert!(matches!(menu_action("reasoning:reasoning:clear"), MenuAction::Reasoning(ref v) if v == "clear"));
    assert!(matches!(menu_action("provider:main"), MenuAction::Provider(ref v) if v == "main"));
    assert!(matches!(menu_action("status"), MenuAction::Ignore));
    assert!(starts_with("abc", "ab"));
    assert!(!starts_with("a", "ab"));
    assert_eq!(trim_start_matches("xxy", "x"), "y");
    assert_eq!(trim_start_matches("abab", "ab"), "");
}

#[test]
fn menu_reasoning_choice_and_entries() {
    let mut config = AppConfig::default();
    config.apply_reasoning_choice("high").unwrap();
    assert_eq!(config.reasoning_effort, Some(ReasoningEffort::High));
    config.apply_reasoning_choice("clear").unwrap();
    assert_eq!(config.reasoning_effort, None);
    assert!(config.apply_reasoning_choice("max").is_err());
    config.toggle_drop_truncation();
    assert!(!config.drop_truncation);
    config.upsert_token("main".to_string(), None, "sk".to_string()).unwrap();
    let entries = provider_menu_entries(&config);
    assert_eq!(entries.len(), 1);
    assert_eq!(entries[0].id, "provider:main");
    assert_eq!(entries[0].text, "main (main) [token]");
    assert!(entries[0].checked);
    config.set_reasoning_effort(ReasoningEffort::Low);
    let entries = reasoning_menu_entries(&config);
    assert_eq!(entries.len(), 5);
    assert_eq!(entries[1].id, "reasoning:low");
    assert_eq!(entries[1].text, "low");
    assert!(entries[1].checked);
    assert!(!entries[0].checked);
}

#[test]
fn text_helpers() {
    assert_eq!(trim_str("  a b\t\n"), "a b");
    assert_eq!(trim_str("\u{2003}x\u{3000}"), "x");
    assert_eq!(trim_str("   "), "");
    assert_eq!(decimal_string(0), "0");
    assert_eq!(decimal_string(8787), "8787");
    assert_eq!(decimal_string(u128::MAX), u128::MAX.to_string());
}

#[test]
fn icon_pixels() {
    let rgba = icon_rgba();
    assert_eq!(ICON_SIZE, 32);
    assert_eq!(rgba.len(), 32 * 32 * 4);
    let pixel = |x: usize, y: usize| rgba[(y * 32 + x) * 4..(y * 32 + x) * 4 + 4].to_vec();
    assert_eq!(pixel(0, 0), vec![24, 24, 27, 255]);
    assert_eq!(pixel(31, 5), vec![24, 24, 27, 255]);
    assert_eq!(pixel(10, 10), vec![255, 255, 255, 255]);
    assert_eq!(pixel(12, 10), vec![255, 255, 255, 255]);
    assert_eq!(pixel(13, 10), vec![34, 197, 94, 255]);
}

#[test]
fn failure_answers() {
    let (status, message) = failure_answer(ProxyFailure::BodyUnreadable, "eof");
    assert_eq!(status, 400);
    assert_eq!(message, "failed to read request body: eof");
    let (status, message) = failure_answer(ProxyFailure::UpstreamUnreachable, "refused");
    assert_eq!(status, 502);
    assert_eq!(message, "proxy upstream failure: refused");
}

#[test]
fn tray_menu_layout() {
    let mut config = AppConfig::default();
    config.drop_truncation = false;
    let lines = menu_layout(&config);
    let ids: Vec<&str> = lines.iter().map(|l| l.id.as_str()).collect();
    assert_eq!(
        ids,
        vec![
            "status", "endpoint_label", "copy_endpoint", "upstream", "", "toggle_drop_truncation", "", "", "",
            "reload_config", "open_config", "open_logs", "open_health", "", "quit",
        ]
    );
    assert_eq!(lines[0].text, "Running: 127.0.0.1:8787");
    assert_eq!(lines[1].text, "代理地址");
    assert_eq!(lines[2].text, "http://127.0.0.1:8787/v1/responses");
    assert_eq!(lines[3].text, "Upstream: https://api.freshid.top/v1/responses");
    assert!(matches!(lines[4].kind, MenuItemKind::Separator));
    assert!(matches!(lines[5].kind, MenuItemKind::Check(false)));
    assert!(matches!(lines[6].kind, MenuItemKind::ReasoningSubmenu));
    assert_eq!(lines[6].text, "Reasoning Effort");
    assert!(matches!(lines[7].kind, MenuItemKind::ProviderSubmenu));
    assert_eq!(lines[7].text, "Provider");
    assert!(matches!(lines[14].kind, MenuItemKind::Action));
    assert_eq!(lines[14].text, "Quit");
}

#[test]
fn provider_menu_placeholder() {
    let mut config = AppConfig::default();
    let p = provider_placeholder(&config).unwrap();
    assert_eq!(p.id, "provider_empty");
    assert_eq!(p.text, "No providers configured");
    assert!(matches!(p.kind, MenuItemKind::Text));
    config.upsert_token("main".to_string(), None, "sk".to_string()).unwrap();
    assert!(provider_placeholder(&config).is_none());
}
