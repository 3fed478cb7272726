//! JSON text: what `serde_json` makes of bytes, and the text that it makes of a value.

use crate::json;
use crate::json::{Json, JsonNumber, JsonView};
use crate::text;
use crate::text::str_eq;
use serde_json::Value;
use vstd::prelude::*;

verus! {

/// `serde_json::Value`: a JSON value as `serde_json` keeps it.
#[verifier::external_type_specification]
#[verifier::external_body]
pub struct ExValue(serde_json::Value);

/// What a value of `serde_json` holds. The fields of an object stand in the order in which
/// its map walks them.
pub uninterp spec fn value_view(v: Value) -> JsonView;

/// What `serde_json` reads in bytes: a value, or nothing where they are no JSON text.
pub uninterp spec fn parsed_json(bytes: Seq<u8>) -> Option<JsonView>;

/// The compact JSON text that `serde_json` writes for a value.
pub uninterp spec fn json_text(v: JsonView) -> Seq<char>;

/// A value of `serde_json`, opened by one level.
pub enum JsonNode<'a> {
    Null,
    Bool(bool),
    Number(JsonNumber),
    Text(&'a String),
    List(&'a Vec<Value>),
    Object(Vec<(&'a String, &'a Value)>),
}

/// What an opened value holds.
pub open spec fn node_view(node: JsonNode) -> JsonView {
    match node {
        JsonNode::Null => JsonView::Null,
        JsonNode::Bool(b) => JsonView::Bool(b),
        JsonNode::Number(n) => JsonView::Number(n.unsigned, n.text@),
        JsonNode::Text(s) => JsonView::Text(s@),
        JsonNode::List(items) => JsonView::List(items@.map_values(|v: Value| value_view(v))),
        JsonNode::Object(fields) => JsonView::Object(
            fields@.map_values(|f: (&String, &Value)| (f.0@, value_view(*f.1))),
        ),
    }
}

/// Opens a `serde_json::Value` by one level: its variant, with what the variant holds. A
/// number is given by `Number::as_u64` and by its notation, an object by the pairs that
/// `Map::iter` walks.
#[verifier::external_body]
fn node_of<'a>(v: &'a Value) -> (node: JsonNode<'a>)
    ensures
        node_view(node) == value_view(*v),
{
    match v {
        Value::Null => JsonNode::Null,
        Value::Bool(b) => JsonNode::Bool(*b),
        Value::Number(n) => JsonNode::Number(
            JsonNumber { unsigned: n.as_u64(), text: n.to_string() },
        ),
        Value::String(s) => JsonNode::Text(s),
        Value::Array(items) => JsonNode::List(items),
        Value::Object(fields) => JsonNode::Object(fields.iter().collect()),
    }
}

/// `serde_json::from_slice` into a `Value`: the value that the bytes denote, or nothing
/// where they are no JSON text. Which bytes are JSON text, and what they denote, is left
/// under a name.
#[verifier::external_body]
pub(crate) fn parse_value(bytes: &[u8]) -> (r: Option<Value>)
    ensures
        match r {
            Some(v) => parsed_json(bytes@) == Some(value_view(v)),
            None => parsed_json(bytes@) is None,
        },
{
    serde_json::from_slice::<Value>(bytes).ok()
}

/// `Display` of `serde_json::Value`: the compact JSON text of what the value holds. How
/// the text is written is left under a name.
#[verifier::external_body]
pub(crate) fn value_text(v: &Value) -> (r: String)
    ensures
        r@ == json_text(value_view(*v)),
{
    v.to_string()
}

/// The library's tree for a value of `serde_json`.
pub fn json_of(v: &Value) -> (j: Json)
    ensures
        j@ == value_view(*v),
    decreases value_view(*v),
{
    broadcast use json::lemma_json_view;
    match node_of(v) {
        JsonNode::Null => Json::Null,
        JsonNode::Bool(b) => Json::Bool(b),
        JsonNode::Number(n) => Json::Number(n),
        JsonNode::Text(s) => Json::Text(s.clone()),
        JsonNode::List(items) => {
            let ghost views = items@.map_values(|v: Value| value_view(v));
            let mut out: Vec<Json> = Vec::new();
            let mut i: usize = 0;
            while i < items.len()
                invariant
                    i <= items@.len(),
                    views == items@.map_values(|v: Value| value_view(v)),
                    value_view(*v) == JsonView::List(views),
                    json::items_view(out@) =~= views.take(i as int),
                decreases items@.len() - i,
            {
                proof {
                    assert(views[i as int] == value_view(items@[i as int]));
                    assert(decreases_to!(value_view(*v) => value_view(*v)->List_0));
                    assert(decreases_to!(views => views[i as int]));
                }
                let item = json_of(&items[i]);
                let ghost before = json::items_view(out@);
                out.push(item);
                proof {
                    assert(json::items_view(out@) =~= before.push(item@));
                    assert(views.take(i + 1) =~= before.push(item@));
                }
                i = i + 1;
            }
            proof {
                assert(views.take(i as int) =~= views);
            }
            Json::List(out)
        },
        JsonNode::Object(fields) => {
            let ghost views = fields@.map_values(
                |f: (&String, &Value)| (f.0@, value_view(*f.1)),
            );
            let mut out: Vec<(String, Json)> = Vec::new();
            let mut i: usize = 0;
            while i < fields.len()
                invariant
                    i <= fields@.len(),
                    views == fields@.map_values(
                        |f: (&String, &Value)| (f.0@, value_view(*f.1)),
                    ),
                    value_view(*v) == JsonView::Object(views),
                    json::fields_view(out@) =~= views.take(i as int),
                decreases fields@.len() - i,
            {
                proof {
                    assert(views[i as int].1 == value_view(*fields@[i as int].1));
                    assert(decreases_to!(value_view(*v) => value_view(*v)->Object_0));
                    assert(decreases_to!(views => views[i as int]));
                    assert(decreases_to!(views[i as int] => views[i as int].1));
                }
                let value = json_of(fields[i].1);
                let ghost before = json::fields_view(out@);
                out.push((fields[i].0.clone(), value));
                proof {
                    let added = (fields@[i as int].0@, value@);
                    assert(json::fields_view(out@) =~= before.push(added));
                    assert(views.take(i + 1) =~= before.push(added));
                }
                i = i + 1;
            }
            proof {
                assert(views.take(i as int) =~= views);
            }
            Json::Object(out)
        },
    }
}

/// The library's tree for JSON text in bytes, where they are JSON text.
pub fn parse_json(bytes: &[u8]) -> (r: Option<Json>)
    ensures
        json::opt_json(r) == parsed_json(bytes@),
{
    match parse_value(bytes) {
        Some(v) => Some(json_of(&v)),
        None => None,
    }
}

/// The value under `key`, where `v` is an object that has it.
pub fn open_field<'a>(v: &'a Value, key: &str) -> (r: Option<&'a Value>)
    ensures
        match r {
            Some(w) => value_view(*v).get(key@) == Some(value_view(*w)),
            None => value_view(*v).get(key@) is None,
        },
{
    match node_of(v) {
        JsonNode::Object(fields) => {
            let ghost views = fields@.map_values(
                |f: (&String, &Value)| (f.0@, value_view(*f.1)),
            );
            let mut i: usize = 0;
            proof {
                assert(views.skip(0) =~= views);
            }
            while i < fields.len()
                invariant
                    i <= fields@.len(),
                    views == fields@.map_values(
                        |f: (&String, &Value)| (f.0@, value_view(*f.1)),
                    ),
                    value_view(*v) == JsonView::Object(views),
                    json::field(views, key@) == json::field(views.skip(i as int), key@),
                decreases fields@.len() - i,
            {
                proof {
                    assert(views.skip(i as int)[0] == views[i as int]);
                    assert(views.skip(i as int).drop_first() =~= views.skip(i + 1));
                }
                if str_eq(fields[i].0.as_str(), key) {
                    return Some(fields[i].1);
                }
                i = i + 1;
            }
            None
        },
        _ => None,
    }
}

/// The text of a value, where it is one.
pub fn text_of(v: &Value) -> (r: Option<String>)
    ensures
        text::opt_text(r) == value_view(*v).as_text(),
{
    match node_of(v) {
        JsonNode::Text(s) => Some(s.clone()),
        _ => None,
    }
}

} // verus!
