//! JSON objects as the run sees them: string keys, and values of which only
//! the strings are ever read.
//!
//! A value that is not a string is carried unchanged from where it was parsed
//! to where it is written out again. In contracts such a value is known by
//! its compact JSON text.

use vstd::prelude::*;
use crate::keyed::{distinct_keys, lookup, map_of, pairs_view, put};

verus! {

/// A JSON value of `serde_json`, carried as it is.
#[verifier::external_type_specification]
#[verifier::external_body]
pub struct ExJsonValue(serde_json::Value);

/// The error with which `serde_json` refuses a text.
#[verifier::external_type_specification]
#[verifier::external_body]
pub struct ExJsonError(serde_json::Error);

/// The compact JSON text of a value, as `serde_json` writes it.
pub uninterp spec fn value_text(v: serde_json::Value) -> Seq<char>;

/// What `serde_json` reads from `text` when it is asked for a JSON object:
/// the fields of the object, or `None` where `text` is not one JSON object.
pub uninterp spec fn parsed_object(text: Seq<char>) -> Option<Map<Seq<char>, JsonView>>;

/// The compact JSON text that `serde_json` writes for an object with the
/// fields `fields`. Its maps keep their fields sorted by key, so the text
/// depends on the fields alone.
pub uninterp spec fn rendered_object(fields: Map<Seq<char>, JsonView>) -> Seq<char>;

/// A value inside a JSON object.
#[derive(Debug, PartialEq)]
pub enum JsonValue {
    /// A JSON string.
    Text(String),
    /// Any JSON value that is not a string.
    Other(serde_json::Value),
}

/// A [`JsonValue`] in contracts.
pub enum JsonView {
    /// A JSON string with these characters.
    Text(Seq<char>),
    /// A value that is not a string, by its compact JSON text.
    Other(Seq<char>),
}

impl View for JsonValue {
    type V = JsonView;

    open spec fn view(&self) -> JsonView {
        match self {
            JsonValue::Text(s) => JsonView::Text(s@),
            JsonValue::Other(v) => JsonView::Other(value_text(*v)),
        }
    }
}

/// `Clone` for `serde_json::Value`: the copy is written as the same JSON text.
pub assume_specification[ <serde_json::Value as Clone>::clone ](v: &serde_json::Value) -> (r:
    serde_json::Value)
    ensures
        value_text(r) == value_text(*v),
;

impl Clone for JsonValue {
    fn clone(&self) -> (r: JsonValue)
        ensures
            r@ == self@,
    {
        match self {
            JsonValue::Text(s) => JsonValue::Text(s.clone()),
            JsonValue::Other(v) => JsonValue::Other(v.clone()),
        }
    }
}

impl JsonValue {
    /// The characters of the value where it is a string.
    pub fn as_text(&self) -> (r: Option<&String>)
        ensures
            match r {
                Some(s) => self@ == JsonView::Text(s@),
                None => self@ is Other,
            },
    {
        match self {
            JsonValue::Text(s) => Some(s),
            JsonValue::Other(_) => None,
        }
    }
}

/// `serde_json::from_str`, asked for a `serde_json::Map`: the fields of the
/// JSON object that `text` holds, each key once, or the error with which
/// `serde_json` refuses a text that is not one JSON object.
#[verifier::external_body]
fn parse_fields(text: &str) -> (r: Result<Vec<(String, JsonValue)>, serde_json::Error>)
    ensures
        match r {
            Ok(entries) => distinct_keys(pairs_view(entries@)) && parsed_object(text@) == Some(
                map_of(pairs_view(entries@)),
            ),
            Err(_) => parsed_object(text@) is None,
        },
{
    let parsed: serde_json::Map<String, serde_json::Value> = serde_json::from_str(text)?;
    Ok(
        parsed.into_iter().map(
            |(k, v)|
                match v {
                    serde_json::Value::String(s) => (k, JsonValue::Text(s)),
                    other => (k, JsonValue::Other(other)),
                },
        ).collect(),
    )
}

/// `serde_json::to_string` on a `serde_json::Map` with these fields. Writing
/// such a map to a string has no way to fail: its keys are strings and its
/// values are `serde_json::Value`s.
#[verifier::external_body]
fn render_fields(entries: &Vec<(String, JsonValue)>) -> (r: Result<String, serde_json::Error>)
    requires
        distinct_keys(pairs_view(entries@)),
    ensures
        r is Ok,
        r->Ok_0@ == rendered_object(map_of(pairs_view(entries@))),
{
    let map: serde_json::Map<String, serde_json::Value> = entries.iter().map(
        |e|
            match &e.1 {
                JsonValue::Text(s) => (e.0.clone(), serde_json::Value::String(s.clone())),
                JsonValue::Other(v) => (e.0.clone(), v.clone()),
            },
    ).collect();
    serde_json::to_string(&map)
}

/// A JSON object: fields with string keys, no key twice.
///
/// `==` holds of two objects that have the same fields in the same order; the
/// contracts speak of the fields alone.
#[derive(Debug, PartialEq)]
pub struct JsonObject {
    entries: Vec<(String, JsonValue)>,
}

/// The text was not one JSON object.
#[derive(Clone, Copy, Debug, PartialEq, Eq)]
pub struct NotAnObject;

impl View for JsonObject {
    type V = Map<Seq<char>, JsonView>;

    closed spec fn view(&self) -> Map<Seq<char>, JsonView> {
        map_of(self.fields())
    }
}

impl Clone for JsonObject {
    fn clone(&self) -> (r: JsonObject)
        ensures
            r@ == self@,
            r.fields() == self.fields(),
    {
        proof {
            use_type_invariant(self);
        }
        let mut entries: Vec<(String, JsonValue)> = Vec::new();
        let mut i: usize = 0;
        while i < self.entries.len()
            invariant
                i <= self.entries.len(),
                pairs_view(entries@) == pairs_view(self.entries@).subrange(0, i as int),
            decreases self.entries.len() - i,
        {
            let key = self.entries[i].0.clone();
            let value = self.entries[i].1.clone();
            let ghost before = pairs_view(entries@);
            entries.push((key, value));
            assert(pairs_view(entries@) =~= before.push((key@, value@)));
            assert(pairs_view(self.entries@)[i as int] == (key@, value@));
            i += 1;
            assert(pairs_view(entries@) =~= pairs_view(self.entries@).subrange(0, i as int));
        }
        assert(pairs_view(entries@) =~= pairs_view(self.entries@));
        JsonObject { entries }
    }
}

impl JsonObject {
    #[verifier::type_invariant]
    spec fn inv(self) -> bool {
        distinct_keys(pairs_view(self.entries@))
    }

    /// The fields in the order in which [`JsonObject::key`] and
    /// [`JsonObject::value`] hand them out.
    pub closed spec fn fields(&self) -> Seq<(Seq<char>, JsonView)> {
        pairs_view(self.entries@)
    }

    /// The object without fields.
    pub fn new() -> (r: JsonObject)
        ensures
            r@ == Map::<Seq<char>, JsonView>::empty(),
            r.fields().len() == 0,
    {
        JsonObject { entries: Vec::new() }
    }

    /// Reads a JSON object from its text.
    pub fn parse(text: &str) -> (r: Result<JsonObject, NotAnObject>)
        ensures
            match r {
                Ok(object) => parsed_object(text@) == Some(object@),
                Err(_) => parsed_object(text@) is None,
            },
    {
        match parse_fields(text) {
            Ok(entries) => Ok(JsonObject { entries }),
            Err(_) => Err(NotAnObject),
        }
    }

    /// The compact JSON text of the object.
    pub fn render(&self) -> (r: String)
        ensures
            r@ == rendered_object(self@),
    {
        proof {
            use_type_invariant(self);
        }
        match render_fields(&self.entries) {
            Ok(s) => s,
            Err(_) => String::new(),
        }
    }

    /// The number of fields.
    pub fn len(&self) -> (r: usize)
        ensures
            r == self.fields().len(),
            distinct_keys(self.fields()),
            self@ == map_of(self.fields()),
    {
        proof {
            use_type_invariant(self);
        }
        self.entries.len()
    }

    /// The key of the field at position `i`.
    pub fn key(&self, i: usize) -> (r: &String)
        requires
            i < self.fields().len(),
        ensures
            r@ == self.fields()[i as int].0,
    {
        &self.entries[i].0
    }

    /// The value of the field at position `i`.
    pub fn value(&self, i: usize) -> (r: &JsonValue)
        requires
            i < self.fields().len(),
        ensures
            r@ == self.fields()[i as int].1,
    {
        &self.entries[i].1
    }

    /// The value of the field `key`, if the object has that field.
    pub fn get(&self, key: &str) -> (r: Option<&JsonValue>)
        ensures
            match r {
                Some(v) => self@.contains_key(key@) && self@[key@] == v@,
                None => !self@.contains_key(key@),
            },
    {
        proof {
            use_type_invariant(self);
        }
        lookup(&self.entries, key)
    }

    /// Whether the object has the field `key`.
    pub fn contains_key(&self, key: &str) -> (r: bool)
        ensures
            r == self@.contains_key(key@),
    {
        self.get(key).is_some()
    }

    /// Sets the field `key` to `value`, in place of the value it had if it was
    /// there.
    pub fn insert(&mut self, key: String, value: JsonValue)
        ensures
            final(self)@ == old(self)@.insert(key@, value@),
    {
        proof {
            use_type_invariant(&*self);
        }
        let mut taken = JsonObject { entries: Vec::new() };
        core::mem::swap(self, &mut taken);
        let mut entries = taken.entries;
        put(&mut entries, key, value);
        *self = JsonObject { entries };
    }
}

} // verus!
