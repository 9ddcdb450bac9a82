//! JSON values as the library reads them, with the reading and writing of
//! JSON text left to `serde_json`.
use vstd::prelude::*;

use crate::text::{chars_eq, chars_of};

verus! {

/// `serde_json::Value`, carried through the two conversions below.
#[verifier::external_type_specification]
#[verifier::external_body]
pub struct ExJsonValue(serde_json::Value);

/// A JSON value: numbers are kept as their JSON text, object fields in the
/// order `serde_json` gives them (by key, each key once).
#[derive(Debug, PartialEq)]
pub enum Json {
    Null,
    Bool(bool),
    Number(String),
    Str(String),
    Array(Vec<Json>),
    Object(Vec<(String, Json)>),
}

/// A JSON value as text and sequences.
pub enum JsonView {
    Null,
    Bool(bool),
    Number(Seq<char>),
    Str(Seq<char>),
    Array(Seq<JsonView>),
    Object(Seq<(Seq<char>, JsonView)>),
}

/// The view of a JSON value.
pub open spec fn json_view(j: Json) -> JsonView
    decreases j,
{
    match j {
        Json::Null => JsonView::Null,
        Json::Bool(b) => JsonView::Bool(b),
        Json::Number(n) => JsonView::Number(n@),
        Json::Str(s) => JsonView::Str(s@),
        Json::Array(a) => JsonView::Array(
            Seq::new(
                a@.len(),
                |i: int|
                    if 0 <= i < a@.len() {
                        proof {
                            assert(decreases_to!(a => a@));
                            assert(decreases_to!(a@ => a@[i]));
                        }
                        json_view(a@[i])
                    } else {
                        JsonView::Null
                    },
            ),
        ),
        Json::Object(o) => JsonView::Object(
            Seq::new(
                o@.len(),
                |i: int|
                    if 0 <= i < o@.len() {
                        proof {
                            assert(decreases_to!(o => o@));
                            assert(decreases_to!(o@ => o@[i]));
                            assert(decreases_to!(o@[i] => o@[i].1));
                        }
                        (o@[i].0@, json_view(o@[i].1))
                    } else {
                        (Seq::empty(), JsonView::Null)
                    },
            ),
        ),
    }
}

impl View for Json {
    type V = JsonView;

    open spec fn view(&self) -> JsonView {
        json_view(*self)
    }
}

/// What `serde_json::from_str::<serde_json::Value>` makes of a text: the
/// value, or the error's message.
pub uninterp spec fn json_parse(text: Seq<char>) -> Result<JsonView, Seq<char>>;

/// The compact JSON text of a value, as `serde_json::Value`'s `Display`
/// writes it.
pub uninterp spec fn json_compact(v: JsonView) -> Seq<char>;

/// Converts a `serde_json::Value` into a `Json`, variant by variant (a
/// number as `serde_json` writes it); used by `parse_json` alone, which
/// states what the result is.
#[verifier::external_body]
fn json_of(v: &serde_json::Value) -> Json {
    match v {
        serde_json::Value::Null => Json::Null,
        serde_json::Value::Bool(b) => Json::Bool(*b),
        serde_json::Value::Number(n) => Json::Number(n.to_string()),
        serde_json::Value::String(s) => Json::Str(s.clone()),
        serde_json::Value::Array(a) => Json::Array(a.iter().map(json_of).collect()),
        serde_json::Value::Object(o) => Json::Object(o.iter().map(|(k, x)| (k.clone(), json_of(x))).collect()),
    }
}

/// Converts a `Json` back into a `serde_json::Value`, variant by variant (a
/// number read back from its text); used by `compact_json` alone, which
/// states what the result is.
#[verifier::external_body]
fn value_of(j: &Json) -> serde_json::Value {
    match j {
        Json::Null => serde_json::Value::Null,
        Json::Bool(b) => serde_json::Value::Bool(*b),
        Json::Number(n) => serde_json::from_str(n).unwrap_or(serde_json::Value::Null),
        Json::Str(s) => serde_json::Value::String(s.clone()),
        Json::Array(a) => serde_json::Value::Array(a.iter().map(value_of).collect()),
        Json::Object(o) => serde_json::Value::Object(o.iter().map(|(k, x)| (k.clone(), value_of(x))).collect()),
    }
}

/// Parses a JSON text with `serde_json::from_str` into a `serde_json::Value`
/// and converts it: the result is what `json_parse` names for the text.
#[verifier::external_body]
pub fn parse_json(text: &str) -> (r: Result<Json, String>)
    ensures
        match r {
            Ok(j) => json_parse(text@) == Ok::<JsonView, Seq<char>>(j@),
            Err(e) => json_parse(text@) == Err::<JsonView, Seq<char>>(e@),
        },
{
    match serde_json::from_str::<serde_json::Value>(text) {
        Ok(v) => Ok(json_of(&v)),
        Err(e) => Err(e.to_string()),
    }
}

/// The compact JSON text of a value, written by `serde_json::Value`'s
/// `Display` after converting the value back: the result is what
/// `json_compact` names for the value.
#[verifier::external_body]
pub fn compact_json(j: &Json) -> (r: String)
    ensures
        r@ == json_compact(j@),
{
    value_of(j).to_string()
}

// ---------------------------------------------------------------------------
// Reading values
// ---------------------------------------------------------------------------
/// The value of the first field with the key, when `v` is an object that has
/// one.
pub open spec fn field(v: JsonView, key: Seq<char>) -> Option<JsonView> {
    match v {
        JsonView::Object(o) => if exists|i: int| 0 <= i < o.len() && (#[trigger] o[i]).0 == key {
            let i = choose|i: int|
                0 <= i < o.len() && (#[trigger] o[i]).0 == key && forall|k: int|
                    0 <= k < i ==> (#[trigger] o[k]).0 != key;
            Some(o[i].1)
        } else {
            None
        },
        _ => None,
    }
}

/// The text of a string value.
pub open spec fn text_value(v: Option<JsonView>) -> Option<Seq<char>> {
    match v {
        Some(JsonView::Str(s)) => Some(s),
        _ => None,
    }
}

/// The elements of an array value.
pub open spec fn array_value(v: Option<JsonView>) -> Option<Seq<JsonView>> {
    match v {
        Some(JsonView::Array(a)) => Some(a),
        _ => None,
    }
}

proof fn lemma_field_at(o: Seq<(Seq<char>, JsonView)>, key: Seq<char>, i: int)
    requires
        0 <= i < o.len(),
        o[i].0 == key,
        forall|m: int| 0 <= m < i ==> (#[trigger] o[m]).0 != key,
    ensures
        field(JsonView::Object(o), key) == Some(o[i].1),
{
    let j = choose|j: int|
        0 <= j < o.len() && (#[trigger] o[j]).0 == key && forall|m: int|
            0 <= m < j ==> (#[trigger] o[m]).0 != key;
    assert(0 <= j < o.len() && o[j].0 == key);
    if j < i {
        assert(o[j].0 != key);
    } else if j > i {
        assert(o[i].0 != key);
    }
}

/// The value of the field `key` of `v` (see `field`).
pub fn get_field<'a>(v: &'a Json, key: &str) -> (r: Option<&'a Json>)
    ensures
        match r {
            Some(x) => field(v@, key@) == Some(x@),
            None => field(v@, key@) is None,
        },
{
    match v {
        Json::Object(o) => {
            let ghost ov = match v@ {
                JsonView::Object(s) => s,
                _ => Seq::empty(),
            };
            assert(ov.len() == o@.len());
            let k = chars_of(key);
            let mut i: usize = 0;
            while i < o.len()
                invariant
                    i <= o@.len(),
                    k@ == key@,
                    v@ == JsonView::Object(ov),
                    ov.len() == o@.len(),
                    forall|m: int| 0 <= m < o@.len() ==> #[trigger] ov[m] == (o@[m].0@, json_view(o@[m].1)),
                    forall|m: int| 0 <= m < i ==> (#[trigger] ov[m]).0 != key@,
                decreases o.len() - i,
            {
                let name = chars_of(o[i].0.as_str());
                assert(ov[i as int] == (o@[i as int].0@, json_view(o@[i as int].1)));
                if chars_eq(name.as_slice(), k.as_slice()) {
                    proof {
                        lemma_field_at(ov, key@, i as int);
                    }
                    return Some(&o[i].1);
                }
                i = i + 1;
            }
            None
        },
        _ => None,
    }
}

/// The text of a string value.
pub fn as_text(v: Option<&Json>) -> (r: Option<&String>)
    ensures
        match r {
            Some(s) => text_value(opt_view(v)) == Some(s@),
            None => text_value(opt_view(v)) is None,
        },
{
    match v {
        Some(Json::Str(s)) => Some(s),
        _ => None,
    }
}

/// The view of an optional value.
pub open spec fn opt_view(v: Option<&Json>) -> Option<JsonView> {
    match v {
        Some(x) => Some(x@),
        None => None,
    }
}

/// The elements of an array value.
pub fn as_array(v: Option<&Json>) -> (r: Option<&Vec<Json>>)
    ensures
        match r {
            Some(a) => array_value(opt_view(v)) == Some(Seq::new(a@.len(), |i: int| json_view(a@[i]))),
            None => array_value(opt_view(v)) is None,
        },
{
    match v {
        Some(Json::Array(a)) => Some(a),
        _ => None,
    }
}

} // verus!
