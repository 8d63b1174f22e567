use vstd::prelude::*;
use crate::config::{active_upstream, active_value, endpoint_text, AppConfig, ConfigView};
use crate::forward::{str_views, ForwardBody};
use crate::json::{json_views, lemma_json_views_index, lemma_member_views_ext, opt_json_view, Json, JsonValue};
use crate::text::{decimal, decimal_string};

verus! {

/// A text as a JSON string, or null.
pub open spec fn opt_str_doc(o: Option<Seq<char>>) -> Json {
    match o {
        Some(s) => Json::Str(s),
        None => Json::Null,
    }
}

/// A document, or null.
pub open spec fn opt_doc(o: Option<Json>) -> Json {
    match o {
        Some(d) => d,
        None => Json::Null,
    }
}

/// The proxy's health report.
pub open spec fn health_doc(c: ConfigView) -> Json {
    Json::Object(
        seq![
            ("status"@, Json::Str("ok"@)),
            ("endpoint"@, Json::Str(endpoint_text(c))),
            ("upstream_url"@, Json::Str(active_upstream(c))),
            ("active_provider"@, opt_str_doc(c.active_token)),
            ("provider_count"@, Json::Number(decimal(c.tokens.len()))),
            ("provider_has_token"@, Json::Bool(active_value(c) is Some)),
            ("drop_truncation"@, Json::Bool(c.drop_truncation)),
            ("reasoning_effort"@, match c.reasoning_effort {
                Some(e) => Json::Str(e.name()),
                None => Json::Null,
            }),
            ("log_requests"@, Json::Bool(c.log_requests)),
        ],
    )
}

/// One line of the request log.
pub open spec fn log_doc(
    c: ConfigView,
    started_at: nat,
    elapsed: nat,
    status: Option<u16>,
    rewrites: Seq<Seq<char>>,
    summary: Option<Json>,
    forwarded_summary: Option<Json>,
    error: Option<Seq<char>>,
) -> Json {
    Json::Object(
        seq![
            ("ts_ms"@, Json::Number(decimal(started_at))),
            ("elapsed_ms"@, Json::Number(decimal(elapsed))),
            ("upstream_url"@, Json::Str(active_upstream(c))),
            ("active_provider"@, opt_str_doc(c.active_token)),
            ("status"@, match status {
                Some(s) => Json::Number(decimal(s as nat)),
                None => Json::Null,
            }),
            ("rewrites"@, Json::Array(rewrites.map_values(|r: Seq<char>| Json::Str(r)))),
            ("summary"@, opt_doc(summary)),
            ("forwarded_summary"@, opt_doc(forwarded_summary)),
            ("error"@, opt_str_doc(error)),
        ],
    )
}

/// The body of an error answer.
pub open spec fn error_doc(message: Seq<char>) -> Json {
    Json::Object(
        seq![
            ("error"@, Json::Object(
                seq![("message"@, Json::Str(message)), ("type"@, Json::Str("proxy_error"@))],
            )),
        ],
    )
}

fn member(name: &str, value: JsonValue) -> (r: (String, JsonValue))
    ensures
        r.0@ == name@,
        r.1@ == value@,
{
    (String::from_str(name), value)
}

fn text_value(s: &str) -> (r: JsonValue)
    ensures
        r@ == Json::Str(s@),
{
    JsonValue::Str(String::from_str(s))
}

fn opt_text_value(o: &Option<String>) -> (r: JsonValue)
    ensures
        r@ == opt_str_doc(match o {
            Some(s) => Some(s@),
            None => None,
        }),
{
    match o {
        Some(s) => JsonValue::Str(s.clone()),
        None => JsonValue::Null,
    }
}

fn opt_doc_value(o: &Option<JsonValue>) -> (r: JsonValue)
    ensures
        r@ == opt_doc(opt_json_view(*o)),
{
    match o {
        Some(d) => d.deep_copy(),
        None => JsonValue::Null,
    }
}

/// The proxy's health report: where it listens and forwards, and how it
/// rewrites.
pub fn health_document(config: &AppConfig) -> (r: JsonValue)
    ensures
        r@ == health_doc(config@),
{
    let effort = match config.reasoning_effort {
        Some(e) => text_value(e.as_str()),
        None => JsonValue::Null,
    };
    let endpoint = config.endpoint();
    let members = vec![
        member("status", text_value("ok")),
        member("endpoint", JsonValue::Str(endpoint)),
        member("upstream_url", JsonValue::Str(String::from_str(config.active_upstream_url()))),
        member("active_provider", opt_text_value(&config.active_token)),
        member("provider_count", JsonValue::Number(decimal_string(config.tokens.len() as u128))),
        member("provider_has_token", JsonValue::Bool(config.active_token_value().is_some())),
        member("drop_truncation", JsonValue::Bool(config.drop_truncation)),
        member("reasoning_effort", effort),
        member("log_requests", JsonValue::Bool(config.log_requests)),
    ];
    proof {
        lemma_member_views_ext(members@, health_doc(config@)->Object_0);
    }
    JsonValue::Object(members)
}

/// The request log line for a forwarded request, or nothing when request
/// logging is off. The elapsed time saturates at zero.
pub fn request_log_entry(
    config: &AppConfig,
    started_at: u128,
    now: u128,
    status: Option<u16>,
    forward: &ForwardBody,
    error: &Option<String>,
) -> (r: Option<JsonValue>)
    ensures
        match r {
            Some(d) => config@.log_requests && d@ == log_doc(
                config@,
                started_at as nat,
                if now >= started_at {
                    (now - started_at) as nat
                } else {
                    0
                },
                status,
                str_views(forward.rewrites@),
                opt_json_view(forward.summary),
                opt_json_view(forward.forwarded_summary),
                match error {
                    Some(e) => Some(e@),
                    None => None,
                },
            ),
            None => !config@.log_requests,
        },
{
    if !config.log_requests {
        return None;
    }
    let elapsed: u128 = if now >= started_at {
        now - started_at
    } else {
        0
    };
    let status_value = match status {
        Some(s) => JsonValue::Number(decimal_string(s as u128)),
        None => JsonValue::Null,
    };
    let mut names: Vec<JsonValue> = Vec::new();
    let mut i: usize = 0;
    while i < forward.rewrites.len()
        invariant
            i <= forward.rewrites@.len(),
            names@.len() == i,
            forall|j: int|
                0 <= j < i ==> json_views(names@)[j] == Json::Str(#[trigger] forward.rewrites@[j]@),
            json_views(names@).len() == i,
        decreases forward.rewrites@.len() - i,
    {
        let ghost prev = names@;
        names.push(text_value(forward.rewrites[i]));
        proof {
            lemma_json_views_index(prev);
            lemma_json_views_index(names@);
        }
        i = i + 1;
    }
    proof {
        lemma_json_views_index(names@);
        assert(json_views(names@) =~= str_views(forward.rewrites@).map_values(
            |r: Seq<char>| Json::Str(r),
        ));
    }
    let members = vec![
        member("ts_ms", JsonValue::Number(decimal_string(started_at))),
        member("elapsed_ms", JsonValue::Number(decimal_string(elapsed))),
        member("upstream_url", JsonValue::Str(String::from_str(config.active_upstream_url()))),
        member("active_provider", opt_text_value(&config.active_token)),
        member("status", status_value),
        member("rewrites", JsonValue::Array(names)),
        member("summary", opt_doc_value(&forward.summary)),
        member("forwarded_summary", opt_doc_value(&forward.forwarded_summary)),
        member("error", opt_text_value(error)),
    ];
    proof {
        let ghost d = log_doc(
            config@,
            started_at as nat,
            elapsed as nat,
            status,
            str_views(forward.rewrites@),
            opt_json_view(forward.summary),
            opt_json_view(forward.forwarded_summary),
            match error {
                Some(e) => Some(e@),
                None => None,
            },
        );
        lemma_member_views_ext(members@, d->Object_0);
    }
    Some(JsonValue::Object(members))
}

/// The body of an error answer: `{"error": {"message": .., "type": "proxy_error"}}`.
pub fn error_document(message: String) -> (r: JsonValue)
    ensures
        r@ == error_doc(message@),
{
    let inner = vec![member("message", JsonValue::Str(message)), member("type", text_value("proxy_error"))];
    proof {
        lemma_member_views_ext(inner@, seq![("message"@, Json::Str(message@)), ("type"@, Json::Str("proxy_error"@))]);
    }
    let inner_value = JsonValue::Object(inner);
    let outer = vec![member("error", inner_value)];
    proof {
        lemma_member_views_ext(outer@, error_doc(message@)->Object_0);
    }
    JsonValue::Object(outer)
}

} // verus!
