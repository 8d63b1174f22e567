use copilot_responses_proxy::address::normalize_address;
use copilot_responses_proxy::cli::{active_provider_label, provider_list_lines, profile_upstream_url};
use copilot_responses_proxy::config::{AppConfig, TokenProfile};
use copilot_responses_proxy::error::ConfigError;
use copilot_responses_proxy::forward::prepare_forward_body;
use copilot_responses_proxy::json::encode_json;
use copilot_responses_proxy::menu::{provider_menu_entries, upstream_label};
use copilot_responses_proxy::report::{health_document, request_log_entry};
use copilot_responses_proxy::upstream::plan_upstream_request;
use serde_json::Value;

fn url(address: &str) -> String {
    normalize_address(address).unwrap()
}

fn header(name: &str, value: &str) -> (String, Vec<u8>) {
    (name.to_string(), value.as_bytes().to_vec())
}

fn parse(bytes: &[u8]) -> Value {
    serde_json::from_slice(bytes).unwrap()
}

#[test]
fn bare_domain_gets_https_and_responses_path() {
    assert_eq!(url("api.freshid.top"), "https://api.freshid.top/v1/responses");
    assert_eq!(url("  api.freshid.top \n"), "https://api.freshid.top/v1/responses");
    assert_eq!(url("relay.example.com:8443"), "https://relay.example.com:8443/v1/responses");
}

#[test]
fn bare_ip_and_localhost_get_http() {
    assert_eq!(url("127.0.0.1"), "http://127.0.0.1/v1/responses");
    assert_eq!(url("127.0.0.1:8080"), "http://127.0.0.1:8080/v1/responses");
    assert_eq!(url("localhost"), "http://localhost/v1/responses");
    assert_eq!(url("LocalHost:3000"), "http://LocalHost:3000/v1/responses");
    assert_eq!(url("[::1]:8080"), "http://[::1]:8080/v1/responses");
}

#[test]
fn address_with_path_only_gains_a_scheme() {
    assert_eq!(url("relay.example.com/custom/responses"), "https://relay.example.com/custom/responses");
    assert_eq!(url("10.0.0.2:9000/api/responses"), "http://10.0.0.2:9000/api/responses");
}

#[test]
fn address_with_scheme_keeps_it() {
    assert_eq!(url("http://api.example.com"), "http://api.example.com/v1/responses");
    assert_eq!(url("http://api.example.com/"), "http://api.example.com/v1/responses");
    assert_eq!(url("https://10.1.1.1/x"), "https://10.1.1.1/x");
}

#[test]
fn refused_addresses() {
    assert!(matches!(normalize_address(""), Err(ConfigError::EmptyProviderAddress)));
    assert!(matches!(normalize_address(" \t "), Err(ConfigError::EmptyProviderAddress)));
    assert!(matches!(normalize_address(":8080"), Err(ConfigError::InvalidProviderAddress(ref a)) if a == ":8080"));
    assert!(matches!(normalize_address("/v1/responses"), Err(ConfigError::InvalidProviderAddress(_))));
    assert!(matches!(normalize_address("https://"), Err(ConfigError::InvalidProviderAddress(_))));
    assert!(matches!(normalize_address("exa mple.com"), Err(ConfigError::InvalidProviderAddress(ref a)) if a == "exa mple.com"));
    assert_eq!(ConfigError::EmptyProviderAddress.message(), "provider address cannot be empty");
    assert_eq!(
        ConfigError::InvalidProviderAddress("x y".to_string()).message(),
        "invalid provider address `x y`"
    );
}

#[test]
fn provider_with_token() {
    let mut c = AppConfig::default();
    c.upsert_provider("main".to_string(), None, "api.freshid.top".to_string(), Some("sk-your-token".to_string()))
        .unwrap();
    assert_eq!(c.tokens.len(), 1);
    assert_eq!(c.tokens[0].label, "api.freshid.top");
    assert_eq!(c.tokens[0].value, "sk-your-token");
    assert_eq!(c.tokens[0].address.as_deref(), Some("https://api.freshid.top/v1/responses"));
    assert_eq!(c.active_token.as_deref(), Some("main"));
    assert_eq!(c.active_token_value(), Some("sk-your-token"));
    assert_eq!(active_provider_label(&c), "api.freshid.top (main)");
    assert_eq!(
        provider_list_lines(&c),
        vec!["* api.freshid.top (main) [token] https://api.freshid.top/v1/responses"]
    );
}

#[test]
fn provider_without_token_passes_authorization_through() {
    let mut c = AppConfig::default();
    c.upsert_provider("copilot".to_string(), Some("Copilot".to_string()), "127.0.0.1:9000".to_string(), None)
        .unwrap();
    assert_eq!(c.tokens[0].value, "");
    assert_eq!(c.active_token_value(), None);
    let headers = vec![header("authorization", "Bearer client"), header("host", "x")];
    let plan = plan_upstream_request(&c, "POST", &headers, b"{}");
    assert_eq!(plan.url, "http://127.0.0.1:9000/v1/responses");
    assert!(plan.bearer_token.is_none());
    assert_eq!(plan.headers, vec![header("authorization", "Bearer client")]);
    assert_eq!(provider_menu_entries(&c)[0].text, "Copilot (copilot) [pass-through]");
}

#[test]
fn switching_provider_switches_upstream() {
    let mut c = AppConfig::default();
    let headers = vec![header("accept", "*/*")];
    assert_eq!(c.active_upstream_url(), "https://api.freshid.top/v1/responses");
    c.upsert_provider("main".to_string(), None, "relay.example.com/custom/responses".to_string(), Some("sk".to_string()))
        .unwrap();
    c.upsert_provider("local".to_string(), None, "localhost:8080".to_string(), None).unwrap();
    assert_eq!(c.tokens[1].label, "localhost");
    assert_eq!(plan_upstream_request(&c, "POST", &headers, b"{}").url, "https://relay.example.com/custom/responses");
    c.use_token("local").unwrap();
    assert_eq!(c.active_upstream_url(), "http://localhost:8080/v1/responses");
    let plan = plan_upstream_request(&c, "POST", &headers, b"{}");
    assert_eq!(plan.url, "http://localhost:8080/v1/responses");
    assert!(plan.bearer_token.is_none());
    assert_eq!(upstream_label(&c), "Upstream: http://localhost:8080/v1/responses");
    let health = parse(&encode_json(&health_document(&c)).unwrap());
    assert_eq!(health["upstream_url"], "http://localhost:8080/v1/responses");
    assert_eq!(health["active_provider"], "local");
    assert_eq!(health["provider_count"], 2);
    assert_eq!(health["provider_has_token"], false);
    let forward = prepare_forward_body(b"{}", true, None);
    let log = request_log_entry(&c, 1, 2, Some(200), &forward, &None).unwrap();
    assert_eq!(parse(&encode_json(&log).unwrap())["upstream_url"], "http://localhost:8080/v1/responses");
    assert_eq!(
        provider_list_lines(&c),
        vec![
            "  relay.example.com (main) [token] https://relay.example.com/custom/responses",
            "* localhost (local) [pass-through] http://localhost:8080/v1/responses",
        ]
    );
    c.clear_active_token();
    assert_eq!(plan_upstream_request(&c, "POST", &headers, b"{}").url, "https://api.freshid.top/v1/responses");
}

#[test]
fn updating_a_provider_replaces_address_and_token() {
    let mut c = AppConfig::default();
    c.upsert_provider("p".to_string(), None, "a.example.com".to_string(), Some("sk".to_string())).unwrap();
    c.upsert_provider("p".to_string(), Some("P".to_string()), "10.0.0.1".to_string(), None).unwrap();
    assert_eq!(c.tokens.len(), 1);
    assert_eq!(c.tokens[0].label, "P");
    assert_eq!(c.tokens[0].value, "");
    assert_eq!(c.tokens[0].address.as_deref(), Some("http://10.0.0.1/v1/responses"));
    c.upsert_token("p".to_string(), None, "sk-2".to_string()).unwrap();
    assert_eq!(c.tokens[0].value, "sk-2");
    assert_eq!(c.tokens[0].address.as_deref(), Some("http://10.0.0.1/v1/responses"));
    assert_eq!(profile_upstream_url(&c, &c.tokens[0]), "http://10.0.0.1/v1/responses");
}

#[test]
fn refused_provider_leaves_config_unchanged() {
    let mut c = AppConfig::default();
    assert!(matches!(
        c.upsert_provider("bad id".to_string(), None, "a.example.com".to_string(), None),
        Err(ConfigError::InvalidTokenId(_))
    ));
    assert!(matches!(
        c.upsert_provider("ok".to_string(), None, "  ".to_string(), None),
        Err(ConfigError::EmptyProviderAddress)
    ));
    assert!(matches!(
        c.upsert_provider("ok".to_string(), None, "https:///x".to_string(), None),
        Err(ConfigError::InvalidProviderAddress(_))
    ));
    assert!(c.tokens.is_empty());
    assert!(c.active_token.is_none());
}

#[test]
fn removing_a_provider_returns_to_the_default_upstream() {
    let mut c = AppConfig::default();
    c.upsert_provider("p".to_string(), None, "a.example.com".to_string(), None).unwrap();
    assert_eq!(c.active_upstream_url(), "https://a.example.com/v1/responses");
    c.remove_token("p").unwrap();
    assert!(c.tokens.is_empty());
    assert_eq!(c.active_upstream_url(), "https://api.freshid.top/v1/responses");
}

#[test]
fn validate_checks_stored_addresses() {
    let mut c = AppConfig::default();
    c.upsert_provider("p".to_string(), None, "a.example.com".to_string(), None).unwrap();
    assert!(c.validate().is_ok());
    c.tokens.push(TokenProfile {
        id: "q".to_string(),
        label: "q".to_string(),
        value: String::new(),
        address: Some("not a url".to_string()),
    });
    assert!(matches!(c.validate(), Err(ConfigError::InvalidProviderAddress(ref a)) if a == "not a url"));
}
