use vstd::prelude::*;
use crate::effort::ReasoningEffort;
use crate::json::{
    array_len_of, decode_json, encode_json, find_member, insert_member, json_encoding, json_get,
    json_parse, keys_distinct, keys_distinct_deep, lemma_member_after_push, lemma_members_deep_index,
    members_keys_distinct_deep, lemma_member_after_set,
    lemma_member_index_after_push, lemma_member_index_after_set, lemma_member_views_ext,
    lemma_member_views_index, lemma_with_member, lemma_with_member_idempotent, lemma_without_member,
    lemma_without_missing, member, member_index, member_views, opt_json_view, remove_member,
    with_member, without_member, Json, JsonValue,
};
use crate::seqs::{lemma_first_match_bounds, lemma_first_match_is};
use crate::text::{copy_bytes, decimal, decimal_string};

verus! {

/// The request body that goes upstream, and what the proxy did to it.
#[derive(Debug)]
pub struct ForwardBody {
    pub body: Vec<u8>,
    pub rewrites: Vec<&'static str>,
    pub summary: Option<JsonValue>,
    pub forwarded_summary: Option<JsonValue>,
}

/// What `prepare_forward_body` promises of the body it prepares.
pub open spec fn prepared(
    f: ForwardBody,
    raw: Seq<u8>,
    drop_truncation: bool,
    effort: Option<ReasoningEffort>,
) -> bool {
    &&& f.body@ == forwarded_bytes(raw, drop_truncation, effort)
    &&& str_views(f.rewrites@) == forward_rewrites(json_parse(raw), drop_truncation, effort)
    &&& opt_json_view(f.summary) == opt_summary(json_parse(raw))
    &&& opt_json_view(f.forwarded_summary) == opt_summary(
        forwarded_doc(json_parse(raw), drop_truncation, effort),
    )
}

/// The effort as a JSON string.
pub open spec fn effort_doc(e: ReasoningEffort) -> Json {
    Json::Str(e.name())
}

/// `{"effort": <e>}`.
pub open spec fn effort_object(e: ReasoningEffort) -> Json {
    Json::Object(seq![("effort"@, effort_doc(e))])
}

/// The members with `reasoning.effort` set to `e`: an object under
/// `reasoning` keeps its other members, any other value there is replaced by
/// `{"effort": e}`, and a missing `reasoning` is added.
pub open spec fn with_reasoning_effort(m: Seq<(Seq<char>, Json)>, e: ReasoningEffort) -> Seq<(Seq<char>, Json)> {
    let i = member_index(m, "reasoning"@);
    if i < m.len() {
        match m[i].1 {
            Json::Object(r) => m.update(
                i,
                (m[i].0, Json::Object(with_member(r, "effort"@, effort_doc(e)))),
            ),
            _ => m.update(i, (m[i].0, effort_object(e))),
        }
    } else {
        m.push(("reasoning"@, effort_object(e)))
    }
}

/// The top-level members after the proxy's rewrites.
pub open spec fn rewritten_members(
    m: Seq<(Seq<char>, Json)>,
    drop_truncation: bool,
    effort: Option<ReasoningEffort>,
) -> Seq<(Seq<char>, Json)> {
    let m1 = if drop_truncation {
        without_member(m, "truncation"@)
    } else {
        m
    };
    match effort {
        Some(e) => with_reasoning_effort(m1, e),
        None => m1,
    }
}

/// The names of the rewrites that apply to an object with members `m`.
pub open spec fn rewrite_names(
    m: Seq<(Seq<char>, Json)>,
    drop_truncation: bool,
    effort: Option<ReasoningEffort>,
) -> Seq<Seq<char>> {
    (if drop_truncation && member(m, "truncation"@) is Some {
        seq!["drop_truncation"@]
    } else {
        Seq::empty()
    }) + (if effort is Some {
        seq!["set_reasoning_effort"@]
    } else {
        Seq::empty()
    })
}

/// The rewritten document, when the body is a JSON object and some rewrite
/// applies to it.
pub open spec fn forwarded_doc(
    parsed: Option<Json>,
    drop_truncation: bool,
    effort: Option<ReasoningEffort>,
) -> Option<Json> {
    match parsed {
        Some(Json::Object(m)) => if rewrite_names(m, drop_truncation, effort).len() > 0 {
            Some(Json::Object(rewritten_members(m, drop_truncation, effort)))
        } else {
            None
        },
        _ => None,
    }
}

/// The rewrites recorded for a body.
pub open spec fn forward_rewrites(
    parsed: Option<Json>,
    drop_truncation: bool,
    effort: Option<ReasoningEffort>,
) -> Seq<Seq<char>> {
    match parsed {
        Some(Json::Object(m)) => rewrite_names(m, drop_truncation, effort),
        _ => Seq::empty(),
    }
}

/// The bytes sent upstream: the raw body, unless a rewrite applied and its
/// encoding succeeded.
pub open spec fn forwarded_bytes(
    raw: Seq<u8>,
    drop_truncation: bool,
    effort: Option<ReasoningEffort>,
) -> Seq<u8> {
    match forwarded_doc(json_parse(raw), drop_truncation, effort) {
        Some(d) => match json_encoding(d) {
            Some(b) => b,
            None => raw,
        },
        None => raw,
    }
}

/// The value under `k`, or null.
pub open spec fn field_or_null(v: Json, k: Seq<char>) -> Json {
    match json_get(v, k) {
        Some(x) => x,
        None => Json::Null,
    }
}

/// The log summary of a request body.
pub open spec fn summary_doc(v: Json) -> Json {
    Json::Object(
        seq![
            ("model"@, field_or_null(v, "model"@)),
            ("stream"@, field_or_null(v, "stream"@)),
            ("store"@, field_or_null(v, "store"@)),
            ("truncation"@, field_or_null(v, "truncation"@)),
            ("reasoning_effort"@, match json_get(v, "reasoning"@) {
                Some(r) => field_or_null(r, "effort"@),
                None => Json::Null,
            }),
            ("max_output_tokens"@, field_or_null(v, "max_output_tokens"@)),
            ("input_item_count"@, Json::Number(decimal(array_len_of(json_get(v, "input"@))))),
            ("tool_count"@, Json::Number(decimal(array_len_of(json_get(v, "tools"@))))),
        ],
    )
}

pub open spec fn opt_summary(o: Option<Json>) -> Option<Json> {
    match o {
        Some(v) => Some(summary_doc(v)),
        None => None,
    }
}

pub open spec fn str_views(s: Seq<&'static str>) -> Seq<Seq<char>> {
    s.map_values(|t: &'static str| t@)
}

fn copied_or_null(o: Option<&JsonValue>) -> (r: JsonValue)
    ensures
        r@ == match o {
            Some(v) => v@,
            None => Json::Null,
        },
{
    match o {
        Some(v) => v.deep_copy(),
        None => JsonValue::Null,
    }
}

fn named(name: &str, value: JsonValue) -> (r: (String, JsonValue))
    ensures
        r.0@ == name@,
        r.1@ == value@,
{
    (String::from_str(name), value)
}

/// The log summary of a request body: the fields that matter when looking
/// into a failed request.
pub fn summarize_body(value: &JsonValue) -> (r: JsonValue)
    ensures
        r@ == summary_doc(value@),
{
    let effort = match value.get("reasoning") {
        Some(reasoning) => copied_or_null(reasoning.get("effort")),
        None => JsonValue::Null,
    };
    let members = vec![
        named("model", copied_or_null(value.get("model"))),
        named("stream", copied_or_null(value.get("stream"))),
        named("store", copied_or_null(value.get("store"))),
        named("truncation", copied_or_null(value.get("truncation"))),
        named("reasoning_effort", effort),
        named("max_output_tokens", copied_or_null(value.get("max_output_tokens"))),
        named("input_item_count", JsonValue::Number(decimal_string(value.get_array_len("input") as u128))),
        named("tool_count", JsonValue::Number(decimal_string(value.get_array_len("tools") as u128))),
    ];
    proof {
        let ghost d = summary_doc(value@);
        lemma_member_views_ext(members@, d->Object_0);
    }
    JsonValue::Object(members)
}


fn effort_value(effort: ReasoningEffort) -> (r: JsonValue)
    ensures
        r@ == effort_doc(effort),
{
    JsonValue::Str(String::from_str(effort.as_str()))
}

fn effort_object_value(effort: ReasoningEffort) -> (r: JsonValue)
    ensures
        r@ == effort_object(effort),
{
    let members = vec![named("effort", effort_value(effort))];
    proof {
        lemma_member_views_ext(members@, seq![("effort"@, effort_doc(effort))]);
    }
    JsonValue::Object(members)
}

/// Sets `reasoning.effort` in a request object.
pub fn set_reasoning_effort(object: &mut Vec<(String, JsonValue)>, effort: ReasoningEffort)
    ensures
        member_views(final(object)@) == with_reasoning_effort(member_views(old(object)@), effort),
{
    let ghost before = member_views(object@);
    let i = find_member(object, "reasoning");
    proof {
        lemma_member_views_index(object@);
        lemma_first_match_bounds(before, crate::json::key_is("reasoning"@));
    }
    if i < object.len() {
        let (name, current) = object.remove(i);
        let ghost current_view = current@;
        let replaced = match current {
            JsonValue::Object(mut inner) => {
                insert_member(&mut inner, String::from_str("effort"), effort_value(effort));
                JsonValue::Object(inner)
            },
            _ => effort_object_value(effort),
        };
        object.insert(i, (name, replaced));
        proof {
            let ghost target = with_reasoning_effort(before, effort);
            assert(before[i as int].1 == current_view);
            lemma_member_views_ext(object@, target);
        }
    } else {
        object.push((String::from_str("reasoning"), effort_object_value(effort)));
        proof {
            lemma_member_views_ext(object@, with_reasoning_effort(before, effort));
        }
    }
}

/// Applies the proxy's rewrites to the members of a request object, and
/// names the ones that applied.
pub fn rewrite_members(
    object: &mut Vec<(String, JsonValue)>,
    drop_truncation: bool,
    reasoning_effort: Option<ReasoningEffort>,
) -> (r: Vec<&'static str>)
    ensures
        member_views(final(object)@) == rewritten_members(
            member_views(old(object)@),
            drop_truncation,
            reasoning_effort,
        ),
        str_views(r@) == rewrite_names(member_views(old(object)@), drop_truncation, reasoning_effort),
{
    let ghost before = member_views(object@);
    let mut rewrites: Vec<&'static str> = Vec::new();
    if drop_truncation {
        if remove_member(object, "truncation") {
            rewrites.push("drop_truncation");
        }
    }
    if let Some(effort) = reasoning_effort {
        set_reasoning_effort(object, effort);
        rewrites.push("set_reasoning_effort");
    }
    assert(str_views(rewrites@) =~= rewrite_names(before, drop_truncation, reasoning_effort));
    rewrites
}

/// Prepares the body that goes upstream: a JSON object loses its top-level
/// `truncation` when `drop_truncation` is set and gets `reasoning.effort` when
/// an effort is set; any other body, or one that no rewrite applies to, goes
/// out unchanged.
pub fn prepare_forward_body(
    raw_body: &[u8],
    drop_truncation: bool,
    reasoning_effort: Option<ReasoningEffort>,
) -> (r: ForwardBody)
    ensures
        r.body@ == forwarded_bytes(raw_body@, drop_truncation, reasoning_effort),
        str_views(r.rewrites@) == forward_rewrites(json_parse(raw_body@), drop_truncation, reasoning_effort),
        opt_json_view(r.summary) == opt_summary(json_parse(raw_body@)),
        opt_json_view(r.forwarded_summary) == opt_summary(
            forwarded_doc(json_parse(raw_body@), drop_truncation, reasoning_effort),
        ),
{
    let parsed = decode_json(raw_body);
    forward_document(raw_body, parsed, drop_truncation, reasoning_effort)
}

/// The body that goes upstream for a raw body and what JSON reading made of
/// it: the rewritten object's encoding when a rewrite applied (the raw body
/// if encoding fails), else the raw body.
pub fn forward_document(
    raw_body: &[u8],
    parsed: Option<JsonValue>,
    drop_truncation: bool,
    reasoning_effort: Option<ReasoningEffort>,
) -> (r: ForwardBody)
    ensures
        r.body@ == match forwarded_doc(opt_json_view(parsed), drop_truncation, reasoning_effort) {
            Some(d) => match json_encoding(d) {
                Some(b) => b,
                None => raw_body@,
            },
            None => raw_body@,
        },
        str_views(r.rewrites@) == forward_rewrites(opt_json_view(parsed), drop_truncation, reasoning_effort),
        opt_json_view(r.summary) == opt_summary(opt_json_view(parsed)),
        opt_json_view(r.forwarded_summary) == opt_summary(
            forwarded_doc(opt_json_view(parsed), drop_truncation, reasoning_effort),
        ),
{
    let summary = match &parsed {
        Some(v) => Some(summarize_body(v)),
        None => None,
    };
    let mut object = match parsed {
        Some(JsonValue::Object(members)) => members,
        _ => {
            let r = ForwardBody {
                body: copy_bytes(raw_body),
                rewrites: Vec::new(),
                summary,
                forwarded_summary: None,
            };
            assert(str_views(r.rewrites@) =~= Seq::<Seq<char>>::empty());
            return r;
        },
    };
    let rewrites = rewrite_members(&mut object, drop_truncation, reasoning_effort);
    if rewrites.len() == 0 {
        return ForwardBody { body: copy_bytes(raw_body), rewrites, summary, forwarded_summary: None };
    }
    let forwarded = JsonValue::Object(object);
    let body = match encode_json(&forwarded) {
        Some(b) => b,
        None => copy_bytes(raw_body),
    };
    let forwarded_summary = Some(summarize_body(&forwarded));
    ForwardBody { body, rewrites, summary, forwarded_summary }
}

/// How `with_reasoning_effort` changes lookups: `reasoning` holds the old
/// object with `effort` set, or `{"effort": e}`; every other name is untouched.
pub proof fn lemma_with_reasoning_effort_lookups(m: Seq<(Seq<char>, Json)>, e: ReasoningEffort, q: Seq<char>)
    ensures
        member(with_reasoning_effort(m, e), q) == if q == "reasoning"@ {
            match member(m, "reasoning"@) {
                Some(Json::Object(r)) => Some(Json::Object(with_member(r, "effort"@, effort_doc(e)))),
                _ => Some(effort_object(e)),
            }
        } else {
            member(m, q)
        },
{
    let k = "reasoning"@;
    lemma_first_match_bounds(m, crate::json::key_is(k));
    let i = member_index(m, k);
    if i < m.len() {
        match m[i].1 {
            Json::Object(r) => {
                lemma_member_after_set(m, k, Json::Object(with_member(r, "effort"@, effort_doc(e))), q);
            },
            _ => {
                lemma_member_after_set(m, k, effort_object(e), q);
            },
        }
    } else {
        lemma_member_after_push(m, k, effort_object(e), q);
    }
}

/// With neither rewrite enabled, the body goes upstream byte for byte and no
/// rewrite is recorded.
pub proof fn lemma_no_rewrite_passes_through(raw: Seq<u8>)
    ensures
        forwarded_bytes(raw, false, None) == raw,
        forward_rewrites(json_parse(raw), false, None).len() == 0,
{
    match json_parse(raw) {
        Some(Json::Object(m)) => {
            assert(rewrite_names(m, false, None) =~= Seq::<Seq<char>>::empty());
        },
        _ => {},
    }
}

/// A body that is not a JSON object goes upstream unchanged, whatever the
/// settings.
pub proof fn lemma_non_object_passes_through(raw: Seq<u8>, drop_truncation: bool, effort: Option<ReasoningEffort>)
    requires
        !(json_parse(raw) matches Some(Json::Object(_))),
    ensures
        forwarded_bytes(raw, drop_truncation, effort) == raw,
        forward_rewrites(json_parse(raw), drop_truncation, effort).len() == 0,
{
}

/// What the rewrites do to a request object: `truncation` is gone when
/// dropping is on, `reasoning.effort` holds the configured effort while the
/// other members of an object under `reasoning` stay, and every other
/// top-level member keeps its value.
pub proof fn lemma_rewrite_lookups(
    m: Seq<(Seq<char>, Json)>,
    drop_truncation: bool,
    effort: Option<ReasoningEffort>,
    q: Seq<char>,
)
    requires
        keys_distinct(m),
    ensures
        drop_truncation ==> member(rewritten_members(m, drop_truncation, effort), "truncation"@) is None,
        match effort {
            Some(e) => match member(rewritten_members(m, drop_truncation, effort), "reasoning"@) {
                Some(Json::Object(r)) => member(r, "effort"@) == Some(effort_doc(e)),
                _ => false,
            },
            None => true,
        },
        (effort is Some && q != "effort"@) ==> match member(m, "reasoning"@) {
            Some(Json::Object(r0)) => match member(
                rewritten_members(m, drop_truncation, effort),
                "reasoning"@,
            ) {
                Some(Json::Object(r)) => member(r, q) == member(r0, q),
                _ => false,
            },
            _ => true,
        },
        (q != "truncation"@ || !drop_truncation) && (q != "reasoning"@ || effort is None) ==> member(
            rewritten_members(m, drop_truncation, effort),
            q,
        ) == member(m, q),
{
    reveal_strlit("truncation");
    reveal_strlit("reasoning");
    reveal_strlit("effort");
    let t = "truncation"@;
    let rk = "reasoning"@;
    assert(t[0] != rk[0]);
    let m1 = if drop_truncation {
        without_member(m, t)
    } else {
        m
    };
    if drop_truncation {
        lemma_without_member(m, t, q);
        lemma_without_member(m, t, t);
        lemma_without_member(m, t, rk);
    }
    assert(member(m1, rk) == member(m, rk));
    match effort {
        Some(e) => {
            lemma_with_reasoning_effort_lookups(m1, e, q);
            lemma_with_reasoning_effort_lookups(m1, e, t);
            lemma_with_reasoning_effort_lookups(m1, e, rk);
            match member(m1, rk) {
                Some(Json::Object(r0)) => {
                    lemma_with_member(r0, "effort"@, effort_doc(e), q);
                    lemma_with_member(r0, "effort"@, effort_doc(e), "effort"@);
                },
                _ => {
                    let one = seq![("effort"@, effort_doc(e))];
                    lemma_first_match_is(one, crate::json::key_is("effort"@), 0);
                },
            }
        },
        None => {},
    }
}

/// Rewriting a rewritten request object changes nothing more.
pub proof fn lemma_rewrite_idempotent(m: Seq<(Seq<char>, Json)>, drop_truncation: bool, effort: Option<ReasoningEffort>)
    requires
        keys_distinct(m),
    ensures
        rewritten_members(rewritten_members(m, drop_truncation, effort), drop_truncation, effort)
            == rewritten_members(m, drop_truncation, effort),
{
    reveal_strlit("truncation");
    reveal_strlit("reasoning");
    reveal_strlit("effort");
    let t = "truncation"@;
    let rk = "reasoning"@;
    assert(t[0] != rk[0]);
    let m2 = rewritten_members(m, drop_truncation, effort);
    lemma_rewrite_lookups(m, drop_truncation, effort, t);
    let m1 = if drop_truncation {
        without_member(m2, t)
    } else {
        m2
    };
    if drop_truncation {
        lemma_without_missing(m2, t);
    }
    assert(m1 == m2);
    match effort {
        Some(e) => {
            let n1 = if drop_truncation {
                without_member(m, t)
            } else {
                m
            };
            assert(m2 == with_reasoning_effort(n1, e));
            lemma_first_match_bounds(n1, crate::json::key_is(rk));
            let i = member_index(n1, rk);
            let eo = seq![("effort"@, effort_doc(e))];
            lemma_first_match_is(eo, crate::json::key_is("effort"@), 0);
            assert(with_member(eo, "effort"@, effort_doc(e)) =~= eo);
            if i < n1.len() {
                match n1[i].1 {
                    Json::Object(r) => {
                        let v = Json::Object(with_member(r, "effort"@, effort_doc(e)));
                        lemma_member_index_after_set(n1, i, v, rk);
                        lemma_with_member_idempotent(r, "effort"@, effort_doc(e));
                        assert(with_reasoning_effort(m2, e) =~= m2);
                    },
                    _ => {
                        lemma_member_index_after_set(n1, i, effort_object(e), rk);
                        assert(with_reasoning_effort(m2, e) =~= m2);
                    },
                }
            } else {
                lemma_member_index_after_push(n1, rk, effort_object(e));
                assert(with_reasoning_effort(m2, e) =~= m2);
            }
        },
        None => {},
    }
}


/// The rewrites keep the member names of a request object distinct, so the
/// rewritten object is again what a JSON map holds.
pub proof fn lemma_rewrite_keeps_keys_distinct(
    m: Seq<(Seq<char>, Json)>,
    drop_truncation: bool,
    effort: Option<ReasoningEffort>,
)
    requires
        keys_distinct(m),
    ensures
        keys_distinct(rewritten_members(m, drop_truncation, effort)),
{
    let t = "truncation"@;
    let rk = "reasoning"@;
    let m1 = if drop_truncation {
        without_member(m, t)
    } else {
        m
    };
    if drop_truncation {
        lemma_without_member(m, t, t);
    }
    match effort {
        Some(e) => {
            lemma_first_match_bounds(m1, crate::json::key_is(rk));
            let i = member_index(m1, rk);
            let n = with_reasoning_effort(m1, e);
            if i < m1.len() {
                assert forall|a: int, b: int| 0 <= a < b < n.len() implies (#[trigger] n[a]).0 != (
                #[trigger] n[b]).0 by {
                    assert(n[a].0 == m1[a].0);
                    assert(n[b].0 == m1[b].0);
                }
            } else {
                assert forall|a: int, b: int| 0 <= a < b < n.len() implies (#[trigger] n[a]).0 != (
                #[trigger] n[b]).0 by {
                    if b == m1.len() {
                        assert(n[a] == m1[a]);
                        assert(!crate::json::key_is(rk)(m1[a]));
                    } else {
                        assert(n[a] == m1[a]);
                        assert(n[b] == m1[b]);
                    }
                }
            }
        },
        None => {},
    }
}

/// The rewrites keep every object of a request body, at any depth, free of
/// duplicate member names.
pub proof fn lemma_rewrite_keeps_keys_distinct_deep(
    m: Seq<(Seq<char>, Json)>,
    drop_truncation: bool,
    effort: Option<ReasoningEffort>,
)
    requires
        keys_distinct_deep(Json::Object(m)),
    ensures
        keys_distinct_deep(Json::Object(rewritten_members(m, drop_truncation, effort))),
{
    lemma_rewrite_keeps_keys_distinct(m, drop_truncation, effort);
    lemma_members_deep_index(m);
    let t = "truncation"@;
    let rk = "reasoning"@;
    let m1 = if drop_truncation {
        without_member(m, t)
    } else {
        m
    };
    assert forall|j: int| 0 <= j < m1.len() implies keys_distinct_deep(#[trigger] m1[j].1) by {
        if drop_truncation {
            let k = member_index(m, t);
            lemma_first_match_bounds(m, crate::json::key_is(t));
            if k < m.len() {
                if j < k {
                    assert(m1[j] == m[j]);
                } else {
                    assert(m1[j] == m[j + 1]);
                }
            }
        }
    }
    lemma_members_deep_index(m1);
    let n = rewritten_members(m, drop_truncation, effort);
    match effort {
        Some(e) => {
            let ek = "effort"@;
            lemma_first_match_bounds(m1, crate::json::key_is(rk));
            let i = member_index(m1, rk);
            assert(keys_distinct_deep(effort_doc(e)));
            assert(keys_distinct_deep(effort_object(e))) by {
                let one = seq![(ek, effort_doc(e))];
                reveal_with_fuel(members_keys_distinct_deep, 2);
                assert(one.drop_first().len() == 0);
                assert(one[0].1 == effort_doc(e));
                assert(members_keys_distinct_deep(one));
            }
            if i < m1.len() {
                match m1[i].1 {
                    Json::Object(r) => {
                        assert(keys_distinct_deep(Json::Object(r)));
                        lemma_members_deep_index(r);
                        let w = with_member(r, ek, effort_doc(e));
                        lemma_first_match_bounds(r, crate::json::key_is(ek));
                        let q = member_index(r, ek);
                        assert forall|a: int, b: int| 0 <= a < b < w.len() implies (#[trigger] w[a]).0
                            != (#[trigger] w[b]).0 by {
                            if q < r.len() {
                                assert(w[a].0 == r[a].0);
                                assert(w[b].0 == r[b].0);
                            } else if b == r.len() {
                                assert(w[a] == r[a]);
                                assert(!crate::json::key_is(ek)(r[a]));
                            } else {
                                assert(w[a] == r[a]);
                                assert(w[b] == r[b]);
                            }
                        }
                        assert forall|j: int| 0 <= j < w.len() implies keys_distinct_deep(#[trigger] w[j].1) by {
                            if j < r.len() && j != q {
                                assert(w[j] == r[j]);
                            }
                        }
                        lemma_members_deep_index(w);
                    },
                    _ => {},
                }
            }
            assert forall|j: int| 0 <= j < n.len() implies keys_distinct_deep(#[trigger] n[j].1) by {
                if i < m1.len() {
                    if j != i {
                        assert(n[j] == m1[j]);
                    }
                } else if j < m1.len() {
                    assert(n[j] == m1[j]);
                }
            }
            lemma_members_deep_index(n);
        },
        None => {},
    }
}

} // verus!
