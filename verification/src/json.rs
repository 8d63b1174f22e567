use vstd::prelude::*;
use crate::seqs::{first_match, lemma_first_match_bounds, lemma_first_match_is};
use crate::text::str_eq;

verus! {

/// A JSON document, as a mathematical value.
pub enum Json {
    Null,
    Bool(bool),
    /// A number, by its text.
    Number(Seq<char>),
    Str(Seq<char>),
    Array(Seq<Json>),
    /// An object's members, in order.
    Object(Seq<(Seq<char>, Json)>),
}

/// A JSON document that the proxy reads and rewrites.
#[derive(Debug)]
pub enum JsonValue {
    Null,
    Bool(bool),
    /// A number, by the text that `serde_json` writes for it.
    Number(String),
    Str(String),
    Array(Vec<JsonValue>),
    /// An object's members, in order.
    Object(Vec<(String, JsonValue)>),
}

pub open spec fn json_view(v: JsonValue) -> Json
    decreases v,
{
    match v {
        JsonValue::Null => Json::Null,
        JsonValue::Bool(b) => Json::Bool(b),
        JsonValue::Number(t) => Json::Number(t@),
        JsonValue::Str(s) => Json::Str(s@),
        JsonValue::Array(items) => Json::Array(json_views(items@)),
        JsonValue::Object(entries) => Json::Object(member_views(entries@)),
    }
}

pub open spec fn json_views(s: Seq<JsonValue>) -> Seq<Json>
    decreases s,
{
    if s.len() == 0 {
        Seq::empty()
    } else {
        seq![json_view(s[0])] + json_views(s.drop_first())
    }
}

pub open spec fn member_views(s: Seq<(String, JsonValue)>) -> Seq<(Seq<char>, Json)>
    decreases s,
{
    if s.len() == 0 {
        Seq::empty()
    } else {
        seq![(s[0].0@, json_view(s[0].1))] + member_views(s.drop_first())
    }
}

impl View for JsonValue {
    type V = Json;

    open spec fn view(&self) -> Json {
        json_view(*self)
    }
}


pub proof fn lemma_json_views_index(s: Seq<JsonValue>)
    ensures
        json_views(s).len() == s.len(),
        forall|i: int| 0 <= i < s.len() ==> #[trigger] json_views(s)[i] == json_view(s[i]),
    decreases s.len(),
{
    if s.len() > 0 {
        let t = s.drop_first();
        lemma_json_views_index(t);
        assert forall|i: int| 0 <= i < s.len() implies #[trigger] json_views(s)[i] == json_view(
            s[i],
        ) by {
            if i > 0 {
                assert(json_views(s)[i] == json_views(t)[i - 1]);
                assert(t[i - 1] == s[i]);
            }
        }
    }
}

pub proof fn lemma_member_views_index(s: Seq<(String, JsonValue)>)
    ensures
        member_views(s).len() == s.len(),
        forall|i: int|
            0 <= i < s.len() ==> #[trigger] member_views(s)[i] == (s[i].0@, json_view(s[i].1)),
    decreases s.len(),
{
    if s.len() > 0 {
        let t = s.drop_first();
        lemma_member_views_index(t);
        assert forall|i: int| 0 <= i < s.len() implies #[trigger] member_views(s)[i] == (
        s[i].0@,
        json_view(s[i].1),
        ) by {
            if i > 0 {
                assert(member_views(s)[i] == member_views(t)[i - 1]);
                assert(t[i - 1] == s[i]);
            }
        }
    }
}

/// Two sequences of members with the same views elementwise have the same view.
pub proof fn lemma_member_views_ext(a: Seq<(String, JsonValue)>, b: Seq<(Seq<char>, Json)>)
    requires
        a.len() == b.len(),
        forall|i: int| 0 <= i < a.len() ==> (a[i].0@, json_view(a[i].1)) == #[trigger] b[i],
    ensures
        member_views(a) == b,
{
    lemma_member_views_index(a);
    assert(member_views(a) =~= b);
}

/// Whether a member carries the name `k`.
pub open spec fn key_is(k: Seq<char>) -> spec_fn((Seq<char>, Json)) -> bool {
    |m: (Seq<char>, Json)| m.0 == k
}

/// The index of the first member named `k`, or the number of members.
pub open spec fn member_index(members: Seq<(Seq<char>, Json)>, k: Seq<char>) -> int {
    first_match(members, key_is(k))
}

/// The value of the first member named `k`, as `serde_json`'s `Map::get`.
pub open spec fn member(members: Seq<(Seq<char>, Json)>, k: Seq<char>) -> Option<Json> {
    let i = member_index(members, k);
    if i < members.len() {
        Some(members[i].1)
    } else {
        None
    }
}

/// The members without the first one named `k`, as `Map::remove`.
pub open spec fn without_member(members: Seq<(Seq<char>, Json)>, k: Seq<char>) -> Seq<(Seq<char>, Json)> {
    let i = member_index(members, k);
    if i < members.len() {
        members.remove(i)
    } else {
        members
    }
}

/// The members with `k` set to `v`, as `Map::insert`: an existing member keeps
/// its place, a new one comes last.
pub open spec fn with_member(members: Seq<(Seq<char>, Json)>, k: Seq<char>, v: Json) -> Seq<(Seq<char>, Json)> {
    let i = member_index(members, k);
    if i < members.len() {
        members.update(i, (members[i].0, v))
    } else {
        members.push((k, v))
    }
}

/// The value under `k` when `v` is an object, as `serde_json`'s `Value::get`.
pub open spec fn json_get(v: Json, k: Seq<char>) -> Option<Json> {
    match v {
        Json::Object(members) => member(members, k),
        _ => None,
    }
}

pub open spec fn opt_json_view(o: Option<JsonValue>) -> Option<Json> {
    match o {
        Some(v) => Some(v@),
        None => None,
    }
}

/// The index of the first member named `key`.
pub fn find_member(members: &Vec<(String, JsonValue)>, key: &str) -> (r: usize)
    ensures
        r as int == member_index(member_views(members@), key@),
        r <= members@.len(),
{
    let ghost views = member_views(members@);
    proof {
        lemma_member_views_index(members@);
    }
    let mut i: usize = 0;
    while i < members.len()
        invariant
            views == member_views(members@),
            views.len() == members@.len(),
            forall|j: int|
                0 <= j < members@.len() ==> #[trigger] views[j] == (members@[j].0@, json_view(
                    members@[j].1,
                )),
            i <= members.len(),
            forall|j: int| 0 <= j < i ==> !key_is(key@)(#[trigger] views[j]),
        decreases members.len() - i,
    {
        if str_eq(members[i].0.as_str(), key) {
            proof {
                lemma_first_match_is(views, key_is(key@), i as int);
            }
            return i;
        }
        i = i + 1;
    }
    proof {
        lemma_first_match_is(views, key_is(key@), i as int);
    }
    i
}

impl JsonValue {
    /// A copy of the document.
    pub fn deep_copy(&self) -> (r: JsonValue)
        ensures
            r@ == self@,
        decreases self,
    {
        match self {
            JsonValue::Null => JsonValue::Null,
            JsonValue::Bool(b) => JsonValue::Bool(*b),
            JsonValue::Number(t) => JsonValue::Number(t.clone()),
            JsonValue::Str(t) => JsonValue::Str(t.clone()),
            JsonValue::Array(items) => {
                let mut out: Vec<JsonValue> = Vec::new();
                let mut i: usize = 0;
                while i < items.len()
                    invariant
                        *self == JsonValue::Array(*items),
                        i <= items@.len(),
                        out@.len() == i,
                        forall|j: int| 0 <= j < i ==> json_view(#[trigger] out@[j]) == json_view(items@[j]),
                    decreases items@.len() - i,
                {
                    proof {
                        assert(decreases_to!(*self => (*self)->Array_0));
                        assert(decreases_to!(*items => items@));
                        assert(decreases_to!(items@ => items@[i as int]));
                    }
                    let c = items[i].deep_copy();
                    out.push(c);
                    i = i + 1;
                }
                proof {
                    lemma_json_views_index(out@);
                    lemma_json_views_index(items@);
                    assert(json_views(out@) =~= json_views(items@));
                }
                JsonValue::Array(out)
            },
            JsonValue::Object(members) => {
                let mut out: Vec<(String, JsonValue)> = Vec::new();
                let mut i: usize = 0;
                while i < members.len()
                    invariant
                        *self == JsonValue::Object(*members),
                        i <= members@.len(),
                        out@.len() == i,
                        forall|j: int|
                            0 <= j < i ==> (#[trigger] out@[j]).0@ == members@[j].0@ && json_view(
                                out@[j].1,
                            ) == json_view(members@[j].1),
                    decreases members@.len() - i,
                {
                    proof {
                        assert(decreases_to!(*self => (*self)->Object_0));
                        assert(decreases_to!(*members => members@));
                        assert(decreases_to!(members@ => members@[i as int]));
                        assert(decreases_to!(members@[i as int] => members@[i as int].1));
                    }
                    let c = members[i].1.deep_copy();
                    out.push((members[i].0.clone(), c));
                    i = i + 1;
                }
                proof {
                    lemma_member_views_index(members@);
                    lemma_member_views_ext(out@, member_views(members@));
                }
                JsonValue::Object(out)
            },
        }
    }

    /// The value under `key` when this is an object, as `Value::get`.
    pub fn get(&self, key: &str) -> (r: Option<&JsonValue>)
        ensures
            match r {
                Some(v) => json_get(self@, key@) == Some(v@),
                None => json_get(self@, key@) is None,
            },
    {
        match self {
            JsonValue::Object(members) => {
                let i = find_member(members, key);
                proof {
                    lemma_member_views_index(members@);
                    lemma_first_match_bounds(member_views(members@), key_is(key@));
                }
                if i < members.len() {
                    Some(&members[i].1)
                } else {
                    None
                }
            },
            _ => None,
        }
    }

    /// The number of items of the array under `key`, or 0, as
    /// `get(key).and_then(Value::as_array).map_or(0, Vec::len)`.
    pub fn get_array_len(&self, key: &str) -> (r: usize)
        ensures
            r == array_len_of(json_get(self@, key@)),
    {
        match self.get(key) {
            Some(v) => v.array_len(),
            None => 0,
        }
    }

    /// The number of items when this is an array, as
    /// `as_array().map_or(0, Vec::len)`.
    pub fn array_len(&self) -> (r: usize)
        ensures
            r == array_len_of(Some(self@)),
    {
        match self {
            JsonValue::Array(items) => {
                proof {
                    lemma_json_views_index(items@);
                }
                items.len()
            },
            _ => 0,
        }
    }
}

/// The number of items of an array value, or 0.
pub open spec fn array_len_of(o: Option<Json>) -> nat {
    match o {
        Some(Json::Array(items)) => items.len(),
        _ => 0,
    }
}

/// Removes the first member named `key`; tells whether there was one.
pub fn remove_member(members: &mut Vec<(String, JsonValue)>, key: &str) -> (r: bool)
    ensures
        member_views(final(members)@) == without_member(member_views(old(members)@), key@),
        r == (member(member_views(old(members)@), key@) is Some),
{
    let ghost before = members@;
    let i = find_member(members, key);
    proof {
        lemma_member_views_index(before);
        lemma_first_match_bounds(member_views(before), key_is(key@));
    }
    if i < members.len() {
        let _ = members.remove(i);
        proof {
            lemma_member_views_ext(members@, member_views(before).remove(i as int));
        }
        true
    } else {
        false
    }
}

/// Sets the member `key` to `value`, as `Map::insert`.
pub fn insert_member(members: &mut Vec<(String, JsonValue)>, key: String, value: JsonValue)
    ensures
        member_views(final(members)@) == with_member(member_views(old(members)@), key@, value@),
{
    let ghost before = members@;
    let ghost vv = value@;
    let i = find_member(members, key.as_str());
    proof {
        lemma_member_views_index(before);
        lemma_first_match_bounds(member_views(before), key_is(key@));
    }
    if i < members.len() {
        let name = members[i].0.clone();
        members.set(i, (name, value));
        proof {
            lemma_member_views_ext(members@, with_member(member_views(before), key@, vv));
        }
    } else {
        members.push((key, value));
        proof {
            lemma_member_views_ext(members@, with_member(member_views(before), key@, vv));
        }
    }
}


#[verifier::external_type_specification]
#[verifier::external_body]
pub struct ExSerdeValue(serde_json::Value);

/// The document that a `serde_json::Value` holds: its members in the order in
/// which the value's map yields them, its numbers by their `Display` text.
pub uninterp spec fn value_doc(v: serde_json::Value) -> Json;

/// The document that `serde_json::from_slice::<serde_json::Value>` reads from
/// the bytes, if they are JSON.
pub uninterp spec fn json_parse(bytes: Seq<u8>) -> Option<Json>;

/// The document held by the `serde_json::Value` built from a document: the
/// members of each object gathered into a `serde_json::Map`.
pub uninterp spec fn serde_form(doc: Json) -> Json;

/// The bytes that `serde_json::to_vec` writes for a document, if it succeeds.
pub uninterp spec fn json_text(doc: Json) -> Option<Seq<u8>>;

/// The bytes that the proxy writes for a document it built.
pub open spec fn json_encoding(doc: Json) -> Option<Seq<u8>> {
    json_text(serde_form(doc))
}

pub open spec fn opt_bytes(o: Option<Vec<u8>>) -> Option<Seq<u8>> {
    match o {
        Some(b) => Some(b@),
        None => None,
    }
}

/// Whether a document is an object with distinct member names, or no object.
pub open spec fn top_keys_distinct(d: Json) -> bool {
    match d {
        Json::Object(m) => keys_distinct(m),
        _ => true,
    }
}

/// Whether every object in a document, at any depth, has distinct member
/// names.
pub open spec fn keys_distinct_deep(d: Json) -> bool
    decreases d,
{
    match d {
        Json::Array(items) => items_keys_distinct_deep(items),
        Json::Object(m) => keys_distinct(m) && members_keys_distinct_deep(m),
        _ => true,
    }
}

/// Whether every object in the documents, at any depth, has distinct member
/// names.
pub open spec fn items_keys_distinct_deep(s: Seq<Json>) -> bool
    decreases s,
{
    if s.len() == 0 {
        true
    } else {
        keys_distinct_deep(s[0]) && items_keys_distinct_deep(s.drop_first())
    }
}

/// Whether every object in the members' values, at any depth, has distinct
/// member names.
pub open spec fn members_keys_distinct_deep(m: Seq<(Seq<char>, Json)>) -> bool
    decreases m,
{
    if m.len() == 0 {
        true
    } else {
        keys_distinct_deep(m[0].1) && members_keys_distinct_deep(m.drop_first())
    }
}

/// Every member value is free of duplicate names at any depth exactly when
/// `members_keys_distinct_deep` holds.
pub proof fn lemma_members_deep_index(m: Seq<(Seq<char>, Json)>)
    ensures
        members_keys_distinct_deep(m) <==> forall|i: int|
            0 <= i < m.len() ==> keys_distinct_deep(#[trigger] m[i].1),
    decreases m.len(),
{
    if m.len() > 0 {
        let t = m.drop_first();
        lemma_members_deep_index(t);
        if forall|i: int| 0 <= i < m.len() ==> keys_distinct_deep(#[trigger] m[i].1) {
            assert forall|i: int| 0 <= i < t.len() implies keys_distinct_deep(#[trigger] t[i].1) by {
                assert(t[i] == m[i + 1]);
            }
        }
        if members_keys_distinct_deep(m) {
            assert forall|i: int| 0 <= i < m.len() implies keys_distinct_deep(#[trigger] m[i].1) by {
                if i > 0 {
                    assert(m[i] == t[i - 1]);
                }
            }
        }
    }
}

/// Calls `serde_json::from_slice::<serde_json::Value>`. The contract claims
/// that it fails exactly when `json_parse` gives nothing, and otherwise gives
/// a value that holds the document `json_parse` names; the members of each
/// object, at any depth, are kept in a `serde_json::Map` and carry distinct
/// names.
#[verifier::external_body]
fn parse_value(bytes: &[u8]) -> (r: Option<serde_json::Value>)
    ensures
        match r {
            Some(v) => json_parse(bytes@) == Some(value_doc(v)) && keys_distinct_deep(value_doc(v)),
            None => json_parse(bytes@) is None,
        },
{
    serde_json::from_slice::<serde_json::Value>(bytes).ok()
}

/// Reads a `serde_json::Value` into the library's type, variant by variant,
/// numbers by `serde_json::Number`'s `Display`. The contract claims that the
/// result holds the document that `value_doc` names.
#[verifier::external_body]
fn doc_of_value(v: &serde_json::Value) -> (r: JsonValue)
    ensures
        r@ == value_doc(*v),
{
    match v {
        serde_json::Value::Null => JsonValue::Null,
        serde_json::Value::Bool(b) => JsonValue::Bool(*b),
        serde_json::Value::Number(n) => JsonValue::Number(n.to_string()),
        serde_json::Value::String(t) => JsonValue::Str(t.clone()),
        serde_json::Value::Array(a) => JsonValue::Array(a.iter().map(doc_of_value).collect()),
        serde_json::Value::Object(m) => JsonValue::Object(
            m.iter().map(|(k, x)| (k.clone(), doc_of_value(x))).collect(),
        ),
    }
}

/// Builds a `serde_json::Value` from the library's type, variant by variant,
/// numbers by `serde_json::Number`'s `FromStr` (a text it refuses becomes
/// null), members collected into a `serde_json::Map`. The contract claims
/// that the result holds the document that `serde_form` names. serde_json is
/// built with `float_roundtrip`, so the text that `Display` wrote for a
/// float reads back as the same float.
#[verifier::external_body]
fn value_of_doc(v: &JsonValue) -> (r: serde_json::Value)
    ensures
        value_doc(r) == serde_form(v@),
{
    match v {
        JsonValue::Null => serde_json::Value::Null,
        JsonValue::Bool(b) => serde_json::Value::Bool(*b),
        JsonValue::Number(t) => t.parse::<serde_json::Number>().map(serde_json::Value::Number).unwrap_or(serde_json::Value::Null),
        JsonValue::Str(t) => serde_json::Value::String(t.clone()),
        JsonValue::Array(a) => serde_json::Value::Array(a.iter().map(value_of_doc).collect()),
        JsonValue::Object(m) => serde_json::Value::Object(
            m.iter().map(|(k, x)| (k.clone(), value_of_doc(x))).collect(),
        ),
    }
}

/// Calls `serde_json::to_vec`. The contract claims that its result is the one
/// that `json_text` names for the value's document.
#[verifier::external_body]
fn write_value(v: &serde_json::Value) -> (r: Option<Vec<u8>>)
    ensures
        opt_bytes(r) == json_text(value_doc(*v)),
{
    serde_json::to_vec(v).ok()
}

/// Reads a JSON document from bytes, as `serde_json::from_slice` does.
pub fn decode_json(bytes: &[u8]) -> (r: Option<JsonValue>)
    ensures
        opt_json_view(r) == json_parse(bytes@),
        r matches Some(d) ==> top_keys_distinct(d@) && keys_distinct_deep(d@),
{
    match parse_value(bytes) {
        Some(v) => Some(doc_of_value(&v)),
        None => None,
    }
}

/// Writes a JSON document as bytes, as `serde_json::to_vec` does.
pub fn encode_json(doc: &JsonValue) -> (r: Option<Vec<u8>>)
    ensures
        opt_bytes(r) == json_encoding(doc@),
{
    let v = value_of_doc(doc);
    write_value(&v)
}


/// Whether the members carry distinct names, as those of a `serde_json::Map`.
pub open spec fn keys_distinct(m: Seq<(Seq<char>, Json)>) -> bool {
    forall|i: int, j: int| 0 <= i < j < m.len() ==> (#[trigger] m[i]).0 != (#[trigger] m[j]).0
}

/// Replacing the value of the first member named `k` changes the lookup of
/// `k` only.
pub proof fn lemma_member_after_set(m: Seq<(Seq<char>, Json)>, k: Seq<char>, v: Json, q: Seq<char>)
    requires
        member_index(m, k) < m.len(),
    ensures
        member(m.update(member_index(m, k), (m[member_index(m, k)].0, v)), q) == if q == k {
            Some(v)
        } else {
            member(m, q)
        },
{
    let i = member_index(m, k);
    let n = m.update(i, (m[i].0, v));
    lemma_first_match_bounds(m, key_is(k));
    lemma_first_match_bounds(m, key_is(q));
    let j = member_index(m, q);
    assert forall|a: int| 0 <= a < j implies !key_is(q)(#[trigger] n[a]) by {
        assert(n[a].0 == m[a].0);
    }
    if j < m.len() {
        assert(n[j].0 == m[j].0);
    }
    lemma_first_match_is(n, key_is(q), j);
}

/// Adding a member named `k` when there is none changes the lookup of `k` only.
pub proof fn lemma_member_after_push(m: Seq<(Seq<char>, Json)>, k: Seq<char>, v: Json, q: Seq<char>)
    requires
        member(m, k) is None,
    ensures
        member(m.push((k, v)), q) == if q == k {
            Some(v)
        } else {
            member(m, q)
        },
{
    let n = m.push((k, v));
    lemma_first_match_bounds(m, key_is(k));
    lemma_first_match_bounds(m, key_is(q));
    let j = member_index(m, q);
    assert forall|a: int| 0 <= a < j implies !key_is(q)(#[trigger] n[a]) by {
        assert(n[a] == m[a]);
    }
    if j < m.len() {
        assert(n[j] == m[j]);
        lemma_first_match_is(n, key_is(q), j);
    } else {
        if q == k {
            assert forall|a: int| 0 <= a < m.len() implies !key_is(q)(#[trigger] n[a]) by {
                assert(n[a] == m[a]);
            }
            lemma_first_match_is(n, key_is(q), m.len() as int);
        } else {
            assert forall|a: int| 0 <= a < n.len() implies !key_is(q)(#[trigger] n[a]) by {
                if a < m.len() {
                    assert(n[a] == m[a]);
                }
            }
            lemma_first_match_is(n, key_is(q), n.len() as int);
        }
    }
}

/// Setting `k` makes `k` hold `v` and leaves every other lookup as it was.
pub proof fn lemma_with_member(m: Seq<(Seq<char>, Json)>, k: Seq<char>, v: Json, q: Seq<char>)
    ensures
        member(with_member(m, k, v), q) == if q == k {
            Some(v)
        } else {
            member(m, q)
        },
{
    lemma_first_match_bounds(m, key_is(k));
    if member_index(m, k) < m.len() {
        lemma_member_after_set(m, k, v, q);
    } else {
        lemma_member_after_push(m, k, v, q);
    }
}

/// Removing `k` from members with distinct names leaves no `k` and every other
/// lookup as it was; the names stay distinct.
pub proof fn lemma_without_member(m: Seq<(Seq<char>, Json)>, k: Seq<char>, q: Seq<char>)
    requires
        keys_distinct(m),
    ensures
        member(without_member(m, k), q) == if q == k {
            None
        } else {
            member(m, q)
        },
        keys_distinct(without_member(m, k)),
{
    let i = member_index(m, k);
    lemma_first_match_bounds(m, key_is(k));
    lemma_first_match_bounds(m, key_is(q));
    let j = member_index(m, q);
    if i < m.len() {
        let n = m.remove(i);
        assert forall|a: int, b: int| 0 <= a < b < n.len() implies (#[trigger] n[a]).0 != (
        #[trigger] n[b]).0 by {
            let a2 = if a < i { a } else { a + 1 };
            let b2 = if b < i { b } else { b + 1 };
            assert(n[a] == m[a2]);
            assert(n[b] == m[b2]);
        }
        if q == k {
            assert forall|a: int| 0 <= a < n.len() implies !key_is(q)(#[trigger] n[a]) by {
                let a2 = if a < i { a } else { a + 1 };
                assert(n[a] == m[a2]);
                assert(a2 != i);
            }
            lemma_first_match_is(n, key_is(q), n.len() as int);
        } else {
            if j < i {
                assert forall|a: int| 0 <= a < j implies !key_is(q)(#[trigger] n[a]) by {
                    assert(n[a] == m[a]);
                }
                assert(n[j] == m[j]);
                lemma_first_match_is(n, key_is(q), j);
            } else {
                assert(j != i);
                assert forall|a: int| 0 <= a < j - 1 implies !key_is(q)(#[trigger] n[a]) by {
                    let a2 = if a < i { a } else { a + 1 };
                    assert(n[a] == m[a2]);
                }
                if j < m.len() {
                    assert(n[j - 1] == m[j]);
                }
                lemma_first_match_is(n, key_is(q), j - 1);
            }
        }
    } else {
        if q == k {
        }
    }
}


/// Replacing a member's value without renaming it moves no lookup index.
pub proof fn lemma_member_index_after_set(m: Seq<(Seq<char>, Json)>, i: int, v: Json, q: Seq<char>)
    requires
        0 <= i < m.len(),
    ensures
        member_index(m.update(i, (m[i].0, v)), q) == member_index(m, q),
{
    let n = m.update(i, (m[i].0, v));
    lemma_first_match_bounds(m, key_is(q));
    let j = member_index(m, q);
    assert forall|a: int| 0 <= a < j implies !key_is(q)(#[trigger] n[a]) by {
        assert(n[a].0 == m[a].0);
    }
    if j < m.len() {
        assert(n[j].0 == m[j].0);
    }
    lemma_first_match_is(n, key_is(q), j);
}

/// A member added under a name that was missing is found last.
pub proof fn lemma_member_index_after_push(m: Seq<(Seq<char>, Json)>, k: Seq<char>, v: Json)
    requires
        member(m, k) is None,
    ensures
        member_index(m.push((k, v)), k) == m.len(),
{
    let n = m.push((k, v));
    lemma_first_match_bounds(m, key_is(k));
    assert forall|a: int| 0 <= a < m.len() implies !key_is(k)(#[trigger] n[a]) by {
        assert(n[a] == m[a]);
    }
    lemma_first_match_is(n, key_is(k), m.len() as int);
}

/// Setting a member twice to the same value is setting it once.
pub proof fn lemma_with_member_idempotent(m: Seq<(Seq<char>, Json)>, k: Seq<char>, v: Json)
    ensures
        with_member(with_member(m, k, v), k, v) == with_member(m, k, v),
{
    lemma_first_match_bounds(m, key_is(k));
    let i = member_index(m, k);
    let n = with_member(m, k, v);
    if i < m.len() {
        lemma_member_index_after_set(m, i, v, k);
        assert(n.update(i, (n[i].0, v)) =~= n);
    } else {
        lemma_member_index_after_push(m, k, v);
        assert(n.update(m.len() as int, (n[m.len() as int].0, v)) =~= n);
    }
}

/// Removing a name that is missing changes nothing.
pub proof fn lemma_without_missing(m: Seq<(Seq<char>, Json)>, k: Seq<char>)
    requires
        member(m, k) is None,
    ensures
        without_member(m, k) == m,
{
    lemma_first_match_bounds(m, key_is(k));
}

} // verus!
