use copilot_responses_proxy::config::{validate_token_id, AppConfig, TokenProfile, APP_NAME, DEFAULT_UPSTREAM_URL};
use copilot_responses_proxy::effort::{reasoning_efforts, ReasoningEffort};
use copilot_responses_proxy::error::ConfigError;

fn config() -> AppConfig {
    AppConfig::default()
}

fn ids(c: &AppConfig) -> Vec<String> {
    c.tokens.iter().map(|t| t.id.clone()).collect()
}

#[test]
fn default_config_values() {
    let c = config();
    assert_eq!(c.listen_host, "127.0.0.1");
    assert_eq!(c.listen_port, 8787);
    assert_eq!(c.upstream_url, DEFAULT_UPSTREAM_URL);
    assert!(c.drop_truncation);
    assert!(c.reasoning_effort.is_none());
    assert!(c.active_token.is_none());
    assert!(c.tokens.is_empty());
    assert!(c.log_requests);
    assert_eq!(APP_NAME, "copilot-responses-proxy");
}

#[test]
fn endpoint_uses_listen_address() {
    let mut c = config();
    assert_eq!(c.endpoint(), "http://127.0.0.1:8787/v1/responses");
    c.listen_host = "localhost".to_string();
    c.listen_port = 65535;
    assert_eq!(c.endpoint(), "http://localhost:65535/v1/responses");
    c.listen_port = 1;
    assert_eq!(c.endpoint(), "http://localhost:1/v1/responses");
    assert_eq!(c.health_url(), "http://localhost:1/health");
}

#[test]
fn upsert_adds_profile_and_activates_first() {
    let mut c = config();
    c.upsert_token("main".to_string(), None, "sk-1".to_string()).unwrap();
    assert_eq!(ids(&c), vec!["main"]);
    assert_eq!(c.tokens[0].label, "main");
    assert_eq!(c.active_token.as_deref(), Some("main"));
    c.upsert_token("second".to_string(), Some("Second".to_string()), "sk-2".to_string()).unwrap();
    assert_eq!(ids(&c), vec!["main", "second"]);
    assert_eq!(c.tokens[1].label, "Second");
    assert_eq!(c.active_token.as_deref(), Some("main"));
}

#[test]
fn upsert_updates_existing_profile_in_place() {
    let mut c = config();
    c.upsert_token("a".to_string(), None, "v1".to_string()).unwrap();
    c.upsert_token("b".to_string(), None, "v2".to_string()).unwrap();
    c.upsert_token("a".to_string(), Some("A".to_string()), "v3".to_string()).unwrap();
    assert_eq!(ids(&c), vec!["a", "b"]);
    assert_eq!(c.tokens[0].label, "A");
    assert_eq!(c.tokens[0].value, "v3");
}

#[test]
fn upsert_refuses_bad_input_and_changes_nothing() {
    let mut c = config();
    assert!(matches!(
        c.upsert_token("  ".to_string(), None, "v".to_string()),
        Err(ConfigError::EmptyTokenId)
    ));
    assert!(matches!(
        c.upsert_token("bad id".to_string(), None, "v".to_string()),
        Err(ConfigError::InvalidTokenId(ref id)) if id == "bad id"
    ));
    assert!(matches!(
        c.upsert_token("ok".to_string(), None, " \t ".to_string()),
        Err(ConfigError::EmptyTokenValue)
    ));
    assert!(c.tokens.is_empty());
    assert!(c.active_token.is_none());
}

#[test]
fn token_id_rules() {
    assert!(validate_token_id("a-b_c.D9").is_ok());
    assert!(matches!(validate_token_id(""), Err(ConfigError::EmptyTokenId)));
    assert!(matches!(validate_token_id("\u{3000}"), Err(ConfigError::EmptyTokenId)));
    assert!(matches!(validate_token_id("é"), Err(ConfigError::InvalidTokenId(_))));
    assert!(matches!(validate_token_id("a/b"), Err(ConfigError::InvalidTokenId(_))));
}

#[test]
fn use_token_switches_active_profile() {
    let mut c = config();
    c.upsert_token("a".to_string(), None, "v1".to_string()).unwrap();
    c.upsert_token("b".to_string(), None, "v2".to_string()).unwrap();
    c.use_token("b").unwrap();
    assert_eq!(c.active_token_profile().unwrap().id, "b");
    assert!(matches!(c.use_token("zzz"), Err(ConfigError::UnknownToken(ref id)) if id == "zzz"));
    assert_eq!(c.active_token.as_deref(), Some("b"));
    c.clear_active_token();
    assert!(c.active_token_profile().is_none());
}

#[test]
fn active_token_value_is_trimmed_and_not_empty() {
    let mut c = config();
    assert!(c.active_token_value().is_none());
    c.tokens.push(TokenProfile { id: "a".to_string(), label: "a".to_string(), value: "  sk-x \n".to_string(), address: None });
    c.tokens.push(TokenProfile { id: "b".to_string(), label: "b".to_string(), value: "   ".to_string(), address: None });
    c.active_token = Some("a".to_string());
    assert_eq!(c.active_token_value(), Some("sk-x"));
    c.active_token = Some("b".to_string());
    assert_eq!(c.active_token_value(), None);
    c.active_token = Some("missing".to_string());
    assert!(c.active_token_profile().is_none());
    assert_eq!(c.active_token_value(), None);
}

#[test]
fn remove_token_moves_active_to_first_remaining() {
    let mut c = config();
    c.upsert_token("a".to_string(), None, "v1".to_string()).unwrap();
    c.upsert_token("b".to_string(), None, "v2".to_string()).unwrap();
    c.upsert_token("c".to_string(), None, "v3".to_string()).unwrap();
    c.remove_token("a").unwrap();
    assert_eq!(ids(&c), vec!["b", "c"]);
    assert_eq!(c.active_token.as_deref(), Some("b"));
    c.use_token("c").unwrap();
    c.remove_token("b").unwrap();
    assert_eq!(c.active_token.as_deref(), Some("c"));
    c.remove_token("c").unwrap();
    assert!(c.active_token.is_none());
    assert!(matches!(c.remove_token("c"), Err(ConfigError::UnknownToken(_))));
}

#[test]
fn remove_undoes_upsert_of_new_profile() {
    let mut c = config();
    c.upsert_token("a".to_string(), None, "v1".to_string()).unwrap();
    let before = ids(&c);
    c.upsert_token("new".to_string(), Some("New".to_string()), "v".to_string()).unwrap();
    c.remove_token("new").unwrap();
    assert_eq!(ids(&c), before);
    assert_eq!(c.active_token.as_deref(), Some("a"));
}

#[test]
fn reasoning_effort_settings() {
    let mut c = config();
    c.set_reasoning_effort(ReasoningEffort::High);
    assert_eq!(c.reasoning_effort, Some(ReasoningEffort::High));
    c.clear_reasoning_effort();
    assert_eq!(c.reasoning_effort, None);
}

#[test]
fn validate_reports_first_problem() {
    let mut c = config();
    assert!(c.validate().is_ok());
    c.listen_host = " ".to_string();
    assert!(matches!(c.validate(), Err(ConfigError::EmptyListenHost)));
    c.listen_host = "127.0.0.1".to_string();
    c.listen_port = 0;
    assert!(matches!(c.validate(), Err(ConfigError::ZeroListenPort)));
    c.listen_port = 8787;
    c.upstream_url = "not a url".to_string();
    let err = c.validate().unwrap_err();
    assert!(matches!(err, ConfigError::InvalidUpstreamUrl { ref url, .. } if url == "not a url"));
    assert_eq!(err.message(), "invalid upstream_url `not a url`: relative URL without a base");
    assert!(matches!(err, ConfigError::InvalidUpstreamUrl { ref reason, .. } if reason == "relative URL without a base"));
    c.upstream_url = "http://localhost:9000/v1/responses".to_string();
    c.tokens.push(TokenProfile { id: "ok".to_string(), label: " ".to_string(), value: "v".to_string(), address: None });
    assert!(matches!(c.validate(), Err(ConfigError::EmptyTokenLabel(ref id)) if id == "ok"));
    c.tokens[0].label = "fine".to_string();
    assert!(c.validate().is_ok());
    c.tokens.push(TokenProfile { id: "no good".to_string(), label: "x".to_string(), value: "v".to_string(), address: None });
    assert!(matches!(c.validate(), Err(ConfigError::InvalidTokenId(_))));
}

#[test]
fn error_messages() {
    assert_eq!(ConfigError::UnknownToken("x".to_string()).message(), "token profile `x` does not exist");
    assert_eq!(ConfigError::EmptyTokenValue.message(), "token value cannot be empty");
    assert_eq!(
        ConfigError::InvalidReasoningEffort("max".to_string()).message(),
        "invalid reasoning effort `max`; expected one of: minimal, low, medium, high, xhigh"
    );
}

#[test]
fn effort_names_and_parsing() {
    let all = reasoning_efforts();
    let names: Vec<&str> = all.iter().map(|e| e.as_str()).collect();
    assert_eq!(names, vec!["minimal", "low", "medium", "high", "xhigh"]);
    for e in all {
        assert_eq!(ReasoningEffort::from_name(e.as_str()).unwrap(), e);
    }
    assert_eq!("HIGH".parse::<ReasoningEffort>().unwrap(), ReasoningEffort::High);
    assert_eq!(ReasoningEffort::from_name("XHigh").unwrap(), ReasoningEffort::XHigh);
    assert!(matches!(
        ReasoningEffort::from_name("huge"),
        Err(ConfigError::InvalidReasoningEffort(ref v)) if v == "huge"
    ));
    assert!(ReasoningEffort::from_name(" high").is_err());
}
