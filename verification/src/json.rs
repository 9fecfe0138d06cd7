use vstd::prelude::*;
use crate::text::to_chars;
use crate::xml::eq_chars;

verus! {

// ── Values ─────────────────────────────────────────────────────────────

/// A JSON value as serde_json's `Value` holds it. A number is kept as what `as_u64` gives
/// for it (`None` for a negative or fractional number); an object's members come in the
/// order its map yields them.
pub enum JsonValue {
    Null,
    Bool(bool),
    Number(Option<u64>),
    Str(String),
    Array(Vec<JsonValue>),
    Object(Vec<(String, JsonValue)>),
}

/// The plain value of a `JsonValue`.
pub enum JsonValueView {
    Null,
    Bool(bool),
    Number(Option<u64>),
    Str(Seq<char>),
    Array(Seq<JsonValueView>),
    Object(Seq<(Seq<char>, JsonValueView)>),
}

/// The plain value of a JSON value.
pub open spec fn json_view(v: JsonValue) -> JsonValueView
    decreases v,
{
    match v {
        JsonValue::Null => JsonValueView::Null,
        JsonValue::Bool(b) => JsonValueView::Bool(b),
        JsonValue::Number(n) => JsonValueView::Number(n),
        JsonValue::Str(s) => JsonValueView::Str(s@),
        JsonValue::Array(a) => JsonValueView::Array(
            Seq::new(a@.len(), |i: int| if 0 <= i < a@.len() { json_view(a@[i]) } else { JsonValueView::Null }),
        ),
        JsonValue::Object(o) => JsonValueView::Object(
            Seq::new(
                o@.len(),
                |i: int|
                    if 0 <= i < o@.len() {
                        (o@[i].0@, json_view(o@[i].1))
                    } else {
                        (Seq::empty(), JsonValueView::Null)
                    },
            ),
        ),
    }
}

impl View for JsonValue {
    type V = JsonValueView;

    open spec fn view(&self) -> JsonValueView {
        json_view(*self)
    }
}

/// The plain value of a parse result.
pub open spec fn json_result_view(r: Result<JsonValue, String>) -> Result<JsonValueView, Seq<char>> {
    match r {
        Ok(v) => Ok(v@),
        Err(e) => Err(e@),
    }
}

// ── Parsing ────────────────────────────────────────────────────────────

/// What serde_json's `from_str::<Value>` yields for `text`, converted one for one: the
/// value, or the message of its error.
pub uninterp spec fn json_parse(text: Seq<char>) -> Result<JsonValueView, Seq<char>>;

#[verifier::external_type_specification]
#[verifier::external_body]
pub struct ExJsonValue(serde_json::Value);

/// serde_json's `from_str::<Value>`: the JSON text parsed, or the message of its error.
/// JSON parsing takes pages to state, so the result is named by `json_parse`. The value is
/// converted node for node by `json_from_serde`.
#[verifier::external_body]
pub(crate) fn parse_json(text: &str) -> (res: Result<JsonValue, String>)
    ensures
        json_result_view(res) == json_parse(text@),
{
    match serde_json::from_str::<serde_json::Value>(text) {
        Ok(v) => Ok(json_from_serde(v)),
        Err(e) => Err(e.to_string()),
    }
}

/// The conversion of a serde_json `Value` that `parse_json` returns: one variant for one,
/// a number as its `as_u64()`, an object's members in the order its map yields them. It is
/// recursive, so it stands apart from `parse_json`'s body; nothing is claimed of it beyond
/// what `parse_json` states.
#[verifier::external_body]
fn json_from_serde(v: serde_json::Value) -> JsonValue {
    match v {
        serde_json::Value::Null => JsonValue::Null,
        serde_json::Value::Bool(b) => JsonValue::Bool(b),
        serde_json::Value::Number(n) => JsonValue::Number(n.as_u64()),
        serde_json::Value::String(s) => JsonValue::Str(s),
        serde_json::Value::Array(a) => JsonValue::Array(a.into_iter().map(json_from_serde).collect()),
        serde_json::Value::Object(o) => JsonValue::Object(o.into_iter().map(|(k, x)| (k, json_from_serde(x))).collect()),
    }
}

// ── Reading values (serde_json's indexing and accessors) ──────────────

/// The first member named `key` from position `from` on, or `Null`.
pub open spec fn member_from(fields: Seq<(Seq<char>, JsonValueView)>, key: Seq<char>, from: int) -> JsonValueView
    decreases fields.len() - from,
{
    if from < 0 || from >= fields.len() {
        JsonValueView::Null
    } else if fields[from].0 == key {
        fields[from].1
    } else {
        member_from(fields, key, from + 1)
    }
}

/// `v[key]`: the member `key` of an object, `Null` where `v` is no object or has no such
/// member.
pub open spec fn json_field(v: JsonValueView, key: Seq<char>) -> JsonValueView {
    match v {
        JsonValueView::Object(fields) => member_from(fields, key, 0),
        _ => JsonValueView::Null,
    }
}

/// `v[i]`: element `i` of an array, `Null` where `v` is no array or too short.
pub open spec fn json_item(v: JsonValueView, i: int) -> JsonValueView {
    match v {
        JsonValueView::Array(a) => if 0 <= i < a.len() {
            a[i]
        } else {
            JsonValueView::Null
        },
        _ => JsonValueView::Null,
    }
}

/// `v.as_u64().unwrap_or(0)`.
pub open spec fn json_u64_or_zero(v: JsonValueView) -> u64 {
    match v {
        JsonValueView::Number(Some(n)) => n,
        _ => 0,
    }
}

/// `v.as_str().unwrap_or("")`.
pub open spec fn json_str_or_empty(v: JsonValueView) -> Seq<char> {
    match v {
        JsonValueView::Str(s) => s,
        _ => Seq::empty(),
    }
}

/// A value that may be missing, read as `Null` where it is.
pub open spec fn json_or_null(v: Option<&JsonValue>) -> JsonValueView {
    match v {
        Some(x) => x@,
        None => JsonValueView::Null,
    }
}

/// `v[key]`, where `None` stands for `Null`.
pub fn json_field_exec<'a>(v: Option<&'a JsonValue>, key: &str) -> (res: Option<&'a JsonValue>)
    ensures
        json_or_null(res) == json_field(json_or_null(v), key@),
{
    match v {
        Some(JsonValue::Object(fields)) => {
            let ghost fv = json_or_null(v)->Object_0;
            assert(fv.len() == fields@.len());
            let kv = to_chars(key);
            let mut k: usize = 0;
            while k < fields.len()
                invariant
                    k <= fields@.len(),
                    fv.len() == fields@.len(),
                    kv@ == key@,
                    forall|j: int| 0 <= j < fields@.len() ==> #[trigger] fv[j] == (fields@[j].0@, fields@[j].1@),
                    member_from(fv, key@, 0) == member_from(fv, key@, k as int),
                    json_field(json_or_null(v), key@) == member_from(fv, key@, 0),
                decreases fields.len() - k,
            {
                assert(fv[k as int] == (fields@[k as int].0@, fields@[k as int].1@));
                let name = to_chars(fields[k].0.as_str());
                if eq_chars(&name, &kv) {
                    assert(fv[k as int].0 == key@);
                    assert(member_from(fv, key@, k as int) == fields@[k as int].1@);
                    return Some(&fields[k].1);
                }
                k = k + 1;
            }
            None
        },
        _ => None,
    }
}

/// `v[i]`, where `None` stands for `Null`.
pub fn json_item_exec<'a>(v: Option<&'a JsonValue>, i: usize) -> (res: Option<&'a JsonValue>)
    ensures
        json_or_null(res) == json_item(json_or_null(v), i as int),
{
    match v {
        Some(JsonValue::Array(items)) => {
            if i < items.len() {
                Some(&items[i])
            } else {
                None
            }
        },
        _ => None,
    }
}

/// `v.as_u64().unwrap_or(0)`, where `None` stands for `Null`.
pub fn json_u64_exec(v: Option<&JsonValue>) -> (res: u64)
    ensures
        res == json_u64_or_zero(json_or_null(v)),
{
    match v {
        Some(JsonValue::Number(Some(n))) => *n,
        _ => 0,
    }
}

/// `v.as_str().unwrap_or("").to_string()`, where `None` stands for `Null`.
pub fn json_str_exec(v: Option<&JsonValue>) -> (res: String)
    ensures
        res@ == json_str_or_empty(json_or_null(v)),
{
    match v {
        Some(JsonValue::Str(s)) => s.clone(),
        _ => String::new(),
    }
}

} // verus!
