//! JSON texts as values.

use vstd::prelude::*;

use crate::json;
use crate::json::{Json, JsonNumber, JsonView};

verus! {

/// [`serde_json::Value`] is opaque here; [`take_apart`] tells what it holds.
#[verifier::external_type_specification]
#[verifier::external_body]
pub struct ExValue(serde_json::Value);

/// What a value of the outside crate holds.
pub uninterp spec fn json_in(v: serde_json::Value) -> JsonView;

/// What [`serde_json::from_str`] reads from a text: a value, or the words of its error where
/// the text is no JSON.
pub uninterp spec fn value_of_text(s: Seq<char>) -> Result<JsonView, Seq<char>>;

/// One layer of a value.
enum Layer<'a> {
    Null,
    Bool(bool),
    Number(JsonNumber),
    Str(&'a String),
    Array(&'a Vec<serde_json::Value>),
    Object(Vec<(&'a String, &'a serde_json::Value)>),
}

/// What a layer holds, with everything below it.
spec fn layer_json(l: Layer) -> JsonView {
    match l {
        Layer::Null => JsonView::Null,
        Layer::Bool(b) => JsonView::Bool(b),
        Layer::Number(n) => JsonView::Number(n@),
        Layer::Str(s) => JsonView::Str(s@),
        Layer::Array(items) => JsonView::Array(items@.map_values(|v: serde_json::Value| json_in(v))),
        Layer::Object(fields) => JsonView::Object(
            fields@.map_values(|f: (&String, &serde_json::Value)| (f.0@, json_in(*f.1))),
        ),
    }
}

/// What was read: what the value holds, or the words of the error.
pub open spec fn reading(r: Result<serde_json::Value, String>) -> Result<JsonView, Seq<char>> {
    match r {
        Ok(v) => Ok(json_in(v)),
        Err(e) => Err(e@),
    }
}

/// What was read: what the value holds, or the words of the error.
pub open spec fn owned_reading(r: Result<Json, String>) -> Result<JsonView, Seq<char>> {
    match r {
        Ok(j) => Ok(j@),
        Err(e) => Err(e@),
    }
}

/// [`serde_json::from_str`], asked for a value: what it reads, or the words of its error,
/// depends on the text alone.
#[verifier::external_body]
fn read_value(s: &str) -> (r: Result<serde_json::Value, String>)
    ensures
        reading(r) == value_of_text(s@),
{
    serde_json::from_str::<serde_json::Value>(s).map_err(|e| e.to_string())
}

/// The variants of [`serde_json::Value`], one for one. Of a number it is the whole
/// number that `as_u64` or `as_i64` gives, else the bits of `as_f64` and the text of
/// its `Display`; of an object the entries, in the order in which its map walks them.
#[verifier::external_body]
fn take_apart<'a>(v: &'a serde_json::Value) -> (l: Layer<'a>)
    ensures
        layer_json(l) == json_in(*v),
{
    match v {
        serde_json::Value::Null => Layer::Null,
        serde_json::Value::Bool(b) => Layer::Bool(*b),
        serde_json::Value::Number(n) => Layer::Number(match (n.as_u64(), n.as_i64()) {
            (Some(u), _) => JsonNumber::PosInt(u),
            (None, Some(i)) => JsonNumber::NegInt(i),
            _ => JsonNumber::Float { bits: n.as_f64().map_or(0, |x| x.to_bits()), text: n.to_string() },
        }),
        serde_json::Value::String(s) => Layer::Str(s),
        serde_json::Value::Array(items) => Layer::Array(items),
        serde_json::Value::Object(fields) => Layer::Object(fields.iter().collect()),
    }
}

proof fn lemma_item_below(all: JsonView, i: int)
    requires
        all is Array,
        0 <= i < all->Array_0.len(),
    ensures
        decreases_to!(all => all->Array_0[i]),
{
    assert(decreases_to!(all => all->Array_0));
    assert(decreases_to!(all->Array_0 => all->Array_0[i]));
}

proof fn lemma_field_below(all: JsonView, i: int)
    requires
        all is Object,
        0 <= i < all->Object_0.len(),
    ensures
        decreases_to!(all => all->Object_0[i].1),
{
    assert(decreases_to!(all => all->Object_0));
    assert(decreases_to!(all->Object_0 => all->Object_0[i]));
    assert(decreases_to!(all->Object_0[i] => all->Object_0[i].1));
}

impl Json {
    /// The value that a value of the outside crate holds.
    pub fn from_value(v: &serde_json::Value) -> (j: Json)
        ensures
            j@ == json_in(*v),
        decreases json_in(*v),
    {
        let ghost all = json_in(*v);
        match take_apart(v) {
            Layer::Null => Json::Null,
            Layer::Bool(b) => Json::Bool(b),
            Layer::Number(n) => Json::Number(n),
            Layer::Str(s) => Json::Str(s.clone()),
            Layer::Array(items) => {
                let mut list: Vec<Json> = Vec::new();
                let mut i: usize = 0;
                while i < items.len()
                    invariant
                        i <= items.len(),
                        all == json_in(*v),
                        all == JsonView::Array(
                            items@.map_values(|v: serde_json::Value| json_in(v)),
                        ),
                        list@.len() == i,
                        forall|k: int| 0 <= k < i ==> (#[trigger] list@[k])@ == json_in(items@[k]),
                    decreases items.len() - i,
                {
                    proof {
                        lemma_item_below(all, i as int);
                    }
                    list.push(Json::from_value(&items[i]));
                    i = i + 1;
                }
                assert(json::items_view(list@) =~= all->Array_0);
                Json::Array(list)
            },
            Layer::Object(fields) => {
                let mut list: Vec<(String, Json)> = Vec::new();
                let mut i: usize = 0;
                while i < fields.len()
                    invariant
                        i <= fields.len(),
                        all == json_in(*v),
                        all == JsonView::Object(
                            fields@.map_values(
                                |f: (&String, &serde_json::Value)| (f.0@, json_in(*f.1)),
                            ),
                        ),
                        list@.len() == i,
                        forall|k: int|
                            0 <= k < i ==> (#[trigger] list@[k]).0@ == fields@[k].0@ && list@[k].1@
                                == json_in(*fields@[k].1),
                    decreases fields.len() - i,
                {
                    proof {
                        lemma_field_below(all, i as int);
                    }
                    list.push((fields[i].0.clone(), Json::from_value(fields[i].1)));
                    i = i + 1;
                }
                assert(json::fields_view(list@) =~= all->Object_0);
                Json::Object(list)
            },
        }
    }

    /// The value that a text stands for, or why the text is no JSON.
    pub fn parse(s: &str) -> (r: Result<Json, String>)
        ensures
            owned_reading(r) == value_of_text(s@),
    {
        match read_value(s) {
            Ok(v) => Ok(Json::from_value(&v)),
            Err(e) => Err(e),
        }
    }
}

} // verus!
