//! JSON values: the library's own tree, and its mathematical view.

use crate::text;
use crate::text::{decimal_text, str_eq};
use vstd::prelude::*;

verus! {

/// A JSON number: its value where it is an unsigned integer of 64 bits, and its notation.
#[derive(Debug, PartialEq)]
pub struct JsonNumber {
    pub unsigned: Option<u64>,
    pub text: String,
}

/// A JSON value. The fields of an object stand in the order in which they are walked.
#[derive(Debug, PartialEq)]
pub enum Json {
    Null,
    Bool(bool),
    Number(JsonNumber),
    Text(String),
    List(Vec<Json>),
    Object(Vec<(String, Json)>),
}

/// What a JSON value holds.
pub enum JsonView {
    Null,
    Bool(bool),
    Number(Option<u64>, Seq<char>),
    Text(Seq<char>),
    List(Seq<JsonView>),
    Object(Seq<(Seq<char>, JsonView)>),
}

/// The value of the first field named `key`.
pub open spec fn field(fields: Seq<(Seq<char>, JsonView)>, key: Seq<char>) -> Option<JsonView>
    decreases fields.len(),
{
    if fields.len() == 0 {
        None
    } else if fields[0].0 == key {
        Some(fields[0].1)
    } else {
        field(fields.drop_first(), key)
    }
}

/// A field that no earlier field shares its name with is found under its name.
pub proof fn lemma_field_at(fields: Seq<(Seq<char>, JsonView)>, i: int)
    requires
        0 <= i < fields.len(),
        forall|j: int| 0 <= j < i ==> (#[trigger] fields[j]).0 != fields[i].0,
    ensures
        field(fields, fields[i].0) == Some(fields[i].1),
    decreases fields.len(),
{
    if i > 0 {
        let rest = fields.drop_first();
        assert(rest[i - 1] == fields[i]);
        assert forall|j: int| 0 <= j < i - 1 implies (#[trigger] rest[j]).0 != rest[i - 1].0 by {
            assert(rest[j] == fields[j + 1]);
        }
        lemma_field_at(rest, i - 1);
        assert(fields[0].0 != fields[i].0);
    }
}

impl JsonView {
    /// The value under `key`, where this is an object that has it.
    pub open spec fn get(self, key: Seq<char>) -> Option<JsonView> {
        match self {
            JsonView::Object(fields) => field(fields, key),
            _ => None,
        }
    }

    /// The text, where this is one.
    pub open spec fn as_text(self) -> Option<Seq<char>> {
        match self {
            JsonView::Text(s) => Some(s),
            _ => None,
        }
    }

    /// The truth value, where this is one.
    pub open spec fn as_bool(self) -> Option<bool> {
        match self {
            JsonView::Bool(b) => Some(b),
            _ => None,
        }
    }

    /// The unsigned integer, where this is one.
    pub open spec fn as_unsigned(self) -> Option<u64> {
        match self {
            JsonView::Number(n, _) => n,
            _ => None,
        }
    }

    /// The items, where this is a list.
    pub open spec fn as_list(self) -> Option<Seq<JsonView>> {
        match self {
            JsonView::List(items) => Some(items),
            _ => None,
        }
    }

    /// The fields, where this is an object.
    pub open spec fn as_object(self) -> Option<Seq<(Seq<char>, JsonView)>> {
        match self {
            JsonView::Object(fields) => Some(fields),
            _ => None,
        }
    }

    /// The text under `key`, where there is one.
    pub open spec fn text_at(self, key: Seq<char>) -> Option<Seq<char>> {
        match self.get(key) {
            Some(v) => v.as_text(),
            None => None,
        }
    }
}

impl View for Json {
    type V = JsonView;

    open spec fn view(&self) -> JsonView {
        json_tree(*self)
    }
}

/// The view of a JSON value, by its structure.
pub open spec fn json_tree(j: Json) -> JsonView
    decreases j,
{
    match j {
        Json::Null => JsonView::Null,
        Json::Bool(b) => JsonView::Bool(b),
        Json::Number(n) => JsonView::Number(n.unsigned, n.text@),
        Json::Text(s) => JsonView::Text(s@),
        Json::List(items) => JsonView::List(
            Seq::new(
                items@.len(),
                |i: int|
                    if 0 <= i < items@.len() {
                        json_tree(items@[i])
                    } else {
                        JsonView::Null
                    },
            ),
        ),
        Json::Object(fields) => JsonView::Object(
            Seq::new(
                fields@.len(),
                |i: int|
                    if 0 <= i < fields@.len() {
                        (fields@[i].0@, json_tree(fields@[i].1))
                    } else {
                        (Seq::empty(), JsonView::Null)
                    },
            ),
        ),
    }
}

/// The views of a sequence of JSON values.
pub open spec fn items_view(items: Seq<Json>) -> Seq<JsonView> {
    items.map_values(|j: Json| j@)
}

/// The views of the fields of an object.
pub open spec fn fields_view(fields: Seq<(String, Json)>) -> Seq<(Seq<char>, JsonView)> {
    fields.map_values(|f: (String, Json)| (f.0@, f.1@))
}

/// The view of a list and of an object, through the views of their parts.
pub broadcast proof fn lemma_json_view(j: Json)
    ensures
        match j {
            Json::List(items) => #[trigger] j@ == JsonView::List(items_view(items@)),
            Json::Object(fields) => j@ == JsonView::Object(fields_view(fields@)),
            _ => true,
        },
{
    match j {
        Json::List(items) => {
            assert(j@->List_0 =~= items_view(items@));
        },
        Json::Object(fields) => {
            assert(j@->Object_0 =~= fields_view(fields@));
        },
        _ => {},
    }
}

/// The number `n` as a JSON value.
pub open spec fn unsigned_json(n: u64) -> JsonView {
    JsonView::Number(Some(n), text::decimal(n as nat))
}

/// A text, or null where there is none.
pub open spec fn opt_text_json(s: Option<Seq<char>>) -> JsonView {
    match s {
        Some(t) => JsonView::Text(t),
        None => JsonView::Null,
    }
}

impl Json {
    /// A text as a JSON value.
    pub fn text(s: &str) -> (j: Json)
        ensures
            j@ == JsonView::Text(s@),
    {
        Json::Text(s.to_owned())
    }

    /// An unsigned number as a JSON value.
    pub fn unsigned(n: u64) -> (j: Json)
        ensures
            j@ == unsigned_json(n),
    {
        Json::Number(JsonNumber { unsigned: Some(n), text: decimal_text(n) })
    }

    /// A text, or null where there is none.
    pub fn optional_text(s: &Option<String>) -> (j: Json)
        ensures
            j@ == opt_text_json(text::opt_text(*s)),
    {
        match s {
            Some(t) => Json::Text(t.clone()),
            None => Json::Null,
        }
    }

    /// A value with the same content.
    pub fn copy(&self) -> (j: Json)
        ensures
            j@ == self@,
        decreases self,
    {
        broadcast use lemma_json_view;
        match self {
            Json::Null => Json::Null,
            Json::Bool(b) => Json::Bool(*b),
            Json::Number(n) => Json::Number(
                JsonNumber { unsigned: n.unsigned, text: n.text.clone() },
            ),
            Json::Text(s) => Json::Text(s.clone()),
            Json::List(items) => {
                let mut out: Vec<Json> = Vec::new();
                let mut i: usize = 0;
                while i < items.len()
                    invariant
                        i <= items@.len(),
                        self is List,
                        items == self->List_0,
                        items_view(out@) =~= items_view(items@).take(i as int),
                    decreases items@.len() - i,
                {
                    proof {
                        assert(decreases_to!(self => items@[i as int]));
                    }
                    let item = items[i].copy();
                    let ghost before = items_view(out@);
                    out.push(item);
                    proof {
                        assert(items_view(out@) =~= before.push(item@));
                        assert(items_view(items@).take(i + 1) =~= before.push(item@));
                    }
                    i = i + 1;
                }
                proof {
                    assert(items_view(items@).take(i as int) =~= items_view(items@));
                }
                Json::List(out)
            },
            Json::Object(fields) => {
                let mut out: Vec<(String, Json)> = Vec::new();
                let mut i: usize = 0;
                while i < fields.len()
                    invariant
                        i <= fields@.len(),
                        self is Object,
                        fields == self->Object_0,
                        fields_view(out@) =~= fields_view(fields@).take(i as int),
                    decreases fields@.len() - i,
                {
                    proof {
                        assert(decreases_to!(self => fields@[i as int]));
                        assert(decreases_to!(fields@[i as int] => fields@[i as int].1));
                    }
                    let value = fields[i].1.copy();
                    let ghost before = fields_view(out@);
                    out.push((fields[i].0.clone(), value));
                    proof {
                        let added = (fields@[i as int].0@, value@);
                        assert(fields_view(out@) =~= before.push(added));
                        assert(fields_view(fields@).take(i + 1) =~= before.push(added));
                    }
                    i = i + 1;
                }
                proof {
                    assert(fields_view(fields@).take(i as int) =~= fields_view(fields@));
                }
                Json::Object(out)
            },
        }
    }

    /// The value under `key`, where this is an object that has it.
    pub fn get(&self, key: &str) -> (r: Option<&Json>)
        ensures
            match r {
                Some(v) => self@.get(key@) == Some(v@),
                None => self@.get(key@) is None,
            },
    {
        broadcast use lemma_json_view;
        match self {
            Json::Object(fields) => {
                let mut i: usize = 0;
                proof {
                    assert(fields_view(fields@).skip(0) =~= fields_view(fields@));
                }
                while i < fields.len()
                    invariant
                        i <= fields@.len(),
                        field(fields_view(fields@), key@) == field(
                            fields_view(fields@).skip(i as int),
                            key@,
                        ),
                        self@ == JsonView::Object(fields_view(fields@)),
                    decreases fields@.len() - i,
                {
                    proof {
                        let rest = fields_view(fields@).skip(i as int);
                        assert(rest[0] == fields_view(fields@)[i as int]);
                        assert(rest.drop_first() =~= fields_view(fields@).skip(i + 1));
                    }
                    if str_eq(fields[i].0.as_str(), key) {
                        return Some(&fields[i].1);
                    }
                    i = i + 1;
                }
                None
            },
            _ => None,
        }
    }

    /// The text, where this is one.
    pub fn as_text(&self) -> (r: Option<&str>)
        ensures
            text::opt_str(r) == self@.as_text(),
    {
        match self {
            Json::Text(s) => Some(s.as_str()),
            _ => None,
        }
    }

    /// The truth value, where this is one.
    pub fn as_bool(&self) -> (r: Option<bool>)
        ensures
            r == self@.as_bool(),
    {
        match self {
            Json::Bool(b) => Some(*b),
            _ => None,
        }
    }

    /// The unsigned integer, where this is one.
    pub fn as_unsigned(&self) -> (r: Option<u64>)
        ensures
            r == self@.as_unsigned(),
    {
        match self {
            Json::Number(n) => n.unsigned,
            _ => None,
        }
    }

    /// The items, where this is a list.
    pub fn as_list(&self) -> (r: Option<&Vec<Json>>)
        ensures
            match r {
                Some(items) => self@.as_list() == Some(items_view(items@)),
                None => self@.as_list() is None,
            },
    {
        broadcast use lemma_json_view;
        match self {
            Json::List(items) => Some(items),
            _ => None,
        }
    }

    /// The fields, where this is an object.
    pub fn as_object(&self) -> (r: Option<&Vec<(String, Json)>>)
        ensures
            match r {
                Some(fields) => self@.as_object() == Some(fields_view(fields@)),
                None => self@.as_object() is None,
            },
    {
        broadcast use lemma_json_view;
        match self {
            Json::Object(fields) => Some(fields),
            _ => None,
        }
    }
}

/// A field of an object.
pub fn json_field(name: &str, value: Json) -> (f: (String, Json))
    ensures
        f.0@ == name@,
        f.1@ == value@,
{
    (name.to_owned(), value)
}

/// An optional JSON value by its view.
pub open spec fn opt_json(j: Option<Json>) -> Option<JsonView> {
    match j {
        Some(v) => Some(v@),
        None => None,
    }
}

/// An optional value with the same content.
pub fn copy_opt(j: &Option<Json>) -> (r: Option<Json>)
    ensures
        opt_json(r) == opt_json(*j),
{
    match j {
        Some(v) => Some(v.copy()),
        None => None,
    }
}

/// The text under `key`, where `value` is an object that has one.
pub fn value_str<'a>(value: &'a Json, key: &str) -> (r: Option<&'a str>)
    ensures
        text::opt_str(r) == value@.text_at(key@),
{
    match value.get(key) {
        Some(v) => v.as_text(),
        None => None,
    }
}

} // verus!
