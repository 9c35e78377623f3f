//! JSON values, and what `serde_json` computes from them.

use vstd::prelude::*;

use crate::string_map::{
    ascending, lemma_ascending_distinct, lemma_insert_distinct, same_text, zip_to_map, StringMap,
};

verus! {

broadcast use crate::string_map::lemma_value_decreases;

/// A JSON number as `serde_json` holds it.
#[verifier::external_type_specification]
#[verifier::external_body]
pub struct ExNumber(serde_json::Number);

/// A JSON value as `serde_json` holds it.
#[verifier::external_type_specification]
#[verifier::external_body]
pub struct ExValue(serde_json::Value);

/// A JSON object: its members by name.
pub type JsonObject = StringMap<JsonValue>;

/// A JSON value.
#[derive(Debug, PartialEq)]
pub enum JsonValue {
    Null,
    Bool(bool),
    Number(serde_json::Number),
    String(String),
    Array(Vec<JsonValue>),
    Object(JsonObject),
}

/// What a JSON number stands for: an integer, or the digits of a number that is none.
pub enum NumberView {
    Integer(int),
    Real(Seq<char>),
}

/// What a JSON value stands for. The order of an object's members carries no meaning.
pub enum JsonView {
    Null,
    Bool(bool),
    Number(NumberView),
    String(Seq<char>),
    Array(Seq<JsonView>),
    Object(Map<Seq<char>, JsonView>),
}

/// What a `serde_json::Number` stands for: the integer, where `is_i64` or `is_u64` holds of it,
/// and otherwise the digits that its `to_string` gives.
pub uninterp spec fn number_view(number: serde_json::Number) -> NumberView;

/// What a `serde_json::Value` holds: a tree of the same shape, with members by name.
pub uninterp spec fn json_of(value: serde_json::Value) -> JsonView;

/// The compact JSON text of a value, as `serde_json::Value` prints itself.
pub uninterp spec fn json_text(value: JsonView) -> Seq<char>;

/// The debug text of a value, as `{:?}` prints a `serde_json::Value`.
pub uninterp spec fn json_debug_text(value: JsonView) -> Seq<char>;

/// What a JSON value stands for, member by member and element by element.
pub open spec fn json_view(value: JsonValue) -> JsonView
    decreases value,
{
    match value {
        JsonValue::Null => JsonView::Null,
        JsonValue::Bool(b) => JsonView::Bool(b),
        JsonValue::Number(n) => JsonView::Number(number_view(n)),
        JsonValue::String(s) => JsonView::String(s@),
        JsonValue::Array(a) => JsonView::Array(
            Seq::new(
                a@.len(),
                |i: int|
                    if 0 <= i < a@.len() {
                        json_view(a@[i])
                    } else {
                        JsonView::Null
                    },
            ),
        ),
        JsonValue::Object(o) => JsonView::Object(
            zip_to_map(
                o.keys(),
                Seq::new(
                    o.values().len(),
                    |i: int|
                        if 0 <= i < o.values().len() {
                            json_view(o.values()[i])
                        } else {
                            JsonView::Null
                        },
                ),
            ),
        ),
    }
}

/// What a JSON object stands for.
pub open spec fn object_view(object: JsonObject) -> Map<Seq<char>, JsonView> {
    object@.map_values(|v: JsonValue| json_view(v))
}

/// What the elements of a JSON array stand for.
pub open spec fn array_view(array: Seq<JsonValue>) -> Seq<JsonView> {
    array.map_values(|v: JsonValue| json_view(v))
}

impl View for JsonValue {
    type V = JsonView;

    open spec fn view(&self) -> JsonView {
        json_view(*self)
    }
}

/// An object value stands for its members.
pub broadcast proof fn lemma_object_view(object: JsonObject)
    ensures
        #[trigger] json_view(JsonValue::Object(object)) == JsonView::Object(object_view(object)),
{
    crate::string_map::lemma_values_len(object);
    let views = json_view(JsonValue::Object(object))->Object_0;
    assert forall|k: Seq<char>| object@.contains_key(k) implies views.contains_key(k)
        && #[trigger] views[k] == json_view(object@[k]) by {
        assert(object.keys()[object.keys().index_of(k)] == k);
    }
    assert(views =~= object_view(object));
}

/// The members of an object are its keys beside what its values stand for.
proof fn lemma_member_views(object: JsonObject, views: Seq<JsonView>)
    requires
        views.len() == object.values().len(),
        forall|i: int|
            0 <= i < views.len() ==> #[trigger] views[i] == json_view(object.values()[i]),
    ensures
        zip_to_map(object.keys(), views) == object_view(object),
{
    crate::string_map::lemma_values_len(object);
    let members = zip_to_map(object.keys(), views);
    assert forall|k: Seq<char>| object@.contains_key(k) implies #[trigger] members[k] == json_view(
        object@[k],
    ) by {
        assert(object.keys()[object.keys().index_of(k)] == k);
    }
    assert(members =~= object_view(object));
}

/// An array value stands for its elements.
pub broadcast proof fn lemma_array_view(array: Vec<JsonValue>)
    ensures
        #[trigger] json_view(JsonValue::Array(array)) == JsonView::Array(array_view(array@)),
{
    assert(json_view(JsonValue::Array(array))->Array_0 =~= array_view(array@));
}

/// The members of an empty object.
pub broadcast proof fn lemma_empty_object_view(object: JsonObject)
    ensures
        #![trigger object_view(object)]
        object_view(object) == Map::<Seq<char>, JsonView>::empty() <==> object@ == Map::<
            Seq<char>,
            JsonValue,
        >::empty(),
{
    assert(object@.dom() =~= object_view(object).dom());
    if object@ == Map::<Seq<char>, JsonValue>::empty() {
        assert(object_view(object) =~= Map::<Seq<char>, JsonView>::empty());
    }
    if object_view(object) == Map::<Seq<char>, JsonView>::empty() {
        assert(object@ =~= Map::<Seq<char>, JsonValue>::empty());
    }
}

/// `serde_json::Number::from(u32)`: the number stands for the integer.
#[verifier::external_body]
fn number_from_u32(n: u32) -> (number: serde_json::Number)
    ensures
        number_view(number) == NumberView::Integer(n as int),
{
    serde_json::Number::from(n)
}

/// `serde_json::Number::clone`: the copy stands for the same number.
#[verifier::external_body]
fn clone_number(number: &serde_json::Number) -> (copy: serde_json::Number)
    ensures
        copy == *number,
{
    number.clone()
}

/// One level of a `serde_json::Value`: its variant, with the members of an object listed.
enum OutsideParts {
    Null,
    Bool(bool),
    Number(serde_json::Number),
    String(String),
    Array(Vec<serde_json::Value>),
    Object(Vec<(String, serde_json::Value)>),
}

spec fn member_names(members: Seq<(String, serde_json::Value)>) -> Seq<Seq<char>> {
    members.map_values(|m: (String, serde_json::Value)| m.0@)
}

spec fn member_values(members: Seq<(String, serde_json::Value)>) -> Seq<JsonView> {
    members.map_values(|m: (String, serde_json::Value)| json_of(m.1))
}

/// What a value with these parts holds.
spec fn parts_view(parts: OutsideParts) -> JsonView {
    match parts {
        OutsideParts::Null => JsonView::Null,
        OutsideParts::Bool(b) => JsonView::Bool(b),
        OutsideParts::Number(n) => JsonView::Number(number_view(n)),
        OutsideParts::String(s) => JsonView::String(s@),
        OutsideParts::Array(a) => JsonView::Array(
            a@.map_values(|v: serde_json::Value| json_of(v)),
        ),
        OutsideParts::Object(o) => JsonView::Object(
            zip_to_map(member_names(o@), member_values(o@)),
        ),
    }
}

/// No name occurs twice among the members of an object part.
spec fn parts_distinct(parts: OutsideParts) -> bool {
    parts matches OutsideParts::Object(o) ==> member_names(o@).no_duplicates()
}

/// The constructors of `serde_json::Value`, one for each variant, and `serde_json::Map` collected
/// from its members.
#[verifier::external_body]
fn put_together(parts: OutsideParts) -> (outside: serde_json::Value)
    requires
        parts_distinct(parts),
    ensures
        json_of(outside) == parts_view(parts),
{
    match parts {
        OutsideParts::Null => serde_json::Value::Null,
        OutsideParts::Bool(b) => serde_json::Value::Bool(b),
        OutsideParts::Number(n) => serde_json::Value::Number(n),
        OutsideParts::String(s) => serde_json::Value::String(s),
        OutsideParts::Array(a) => serde_json::Value::Array(a),
        OutsideParts::Object(o) => serde_json::Value::Object(o.into_iter().collect()),
    }
}

/// The variants of `serde_json::Value` told apart, and the members of a `serde_json::Map`, each name
/// once, in whichever order it walks them.
#[verifier::external_body]
fn take_apart(outside: serde_json::Value) -> (parts: OutsideParts)
    ensures
        json_of(outside) == parts_view(parts),
        parts_distinct(parts),
{
    match outside {
        serde_json::Value::Null => OutsideParts::Null,
        serde_json::Value::Bool(b) => OutsideParts::Bool(b),
        serde_json::Value::Number(n) => OutsideParts::Number(n),
        serde_json::Value::String(s) => OutsideParts::String(s),
        serde_json::Value::Array(a) => OutsideParts::Array(a),
        serde_json::Value::Object(o) => OutsideParts::Object(o.into_iter().collect()),
    }
}

/// The `serde_json::Value` that holds a value.
fn to_outside(value: &JsonValue) -> (outside: serde_json::Value)
    ensures
        json_of(outside) == value@,
    decreases value,
{
    match value {
        JsonValue::Null => put_together(OutsideParts::Null),
        JsonValue::Bool(b) => put_together(OutsideParts::Bool(*b)),
        JsonValue::Number(n) => put_together(OutsideParts::Number(clone_number(n))),
        JsonValue::String(s) => put_together(OutsideParts::String(s.clone())),
        JsonValue::Array(a) => {
            let mut elements: Vec<serde_json::Value> = Vec::new();
            let mut i: usize = 0;
            while i < a.len()
                invariant
                    *value == JsonValue::Array(*a),
                    i <= a@.len(),
                    elements@.len() == i,
                    forall|j: int| 0 <= j < i ==> json_of(#[trigger] elements@[j]) == json_view(a@[j]),
                decreases a@.len() - i,
            {
                proof {
                    assert(decreases_to!(value => value->Array_0));
                    assert(decreases_to!(a@ => a@[i as int]));
                }
                elements.push(to_outside(&a[i]));
                i = i + 1;
            }
            proof {
                assert(elements@.map_values(|v: serde_json::Value| json_of(v)) =~= array_view(a@));
                lemma_array_view(*a);
            }
            put_together(OutsideParts::Array(elements))
        },
        JsonValue::Object(o) => {
            let entries = o.entries();
            let mut members: Vec<(String, serde_json::Value)> = Vec::new();
            let mut i: usize = 0;
            while i < entries.len()
                invariant
                    *value == JsonValue::Object(*o),
                    i <= entries@.len(),
                    o.keys() == entries@.map_values(|e: (String, JsonValue)| e.0@),
                    o.values() == entries@.map_values(|e: (String, JsonValue)| e.1),
                    ascending(o.keys()),
                    members@.len() == i,
                    forall|j: int|
                        0 <= j < i ==> (#[trigger] members@[j]).0@ == entries@[j].0@ && json_of(
                            members@[j].1,
                        ) == json_view(entries@[j].1),
                decreases entries@.len() - i,
            {
                proof {
                    assert(o.values()[i as int] == entries@[i as int].1);
                    assert(decreases_to!(value => value->Object_0));
                    assert(decreases_to!(o => o.values()[i as int]));
                }
                members.push((entries[i].0.clone(), to_outside(&entries[i].1)));
                i = i + 1;
            }
            proof {
                assert(member_names(members@) =~= o.keys());
                lemma_ascending_distinct(o.keys());
                lemma_member_views(*o, member_values(members@));
                lemma_object_view(*o);
            }
            put_together(OutsideParts::Object(members))
        },
    }
}

/// The value that a `serde_json::Value` holds.
fn from_outside(outside: serde_json::Value) -> (value: JsonValue)
    ensures
        value@ == json_of(outside),
    decreases json_of(outside),
{
    let ghost whole = json_of(outside);
    match take_apart(outside) {
        OutsideParts::Null => JsonValue::Null,
        OutsideParts::Bool(b) => JsonValue::Bool(b),
        OutsideParts::Number(n) => JsonValue::Number(n),
        OutsideParts::String(s) => JsonValue::String(s),
        OutsideParts::Array(a) => {
            let mut elements: Vec<JsonValue> = Vec::new();
            let ghost all = a@;
            let ghost views = a@.map_values(|v: serde_json::Value| json_of(v));
            for element in iter: a
                invariant
                    iter.seq() == all,
                    whole == json_of(outside),
                    views == all.map_values(|v: serde_json::Value| json_of(v)),
                    whole == JsonView::Array(views),
                    elements@.len() == iter.index(),
                    forall|j: int| 0 <= j < iter.index() ==> json_view(#[trigger] elements@[j]) == json_of(all[j]),
            {
                proof {
                    assert(views[iter.index() as int] == json_of(element));
                    assert(decreases_to!(whole => whole->Array_0));
                    assert(decreases_to!(views => views[iter.index() as int]));
                }
                elements.push(from_outside(element));
            }
            proof {
                assert(array_view(elements@) =~= views);
                lemma_array_view(elements);
            }
            JsonValue::Array(elements)
        },
        OutsideParts::Object(o) => {
            let mut entries: Vec<(String, JsonValue)> = Vec::new();
            let ghost all = o@;
            for member in iter: o
                invariant
                    iter.seq() == all,
                    whole == json_of(outside),
                    whole == JsonView::Object(zip_to_map(member_names(all), member_values(all))),
                    member_names(all).no_duplicates(),
                    entries@.len() == iter.index(),
                    forall|j: int|
                        0 <= j < iter.index() ==> (#[trigger] entries@[j]).0@ == all[j].0@ && json_view(
                            entries@[j].1,
                        ) == json_of(all[j].1),
            {
                proof {
                    let names = member_names(all);
                    assert(names.index_of(names[iter.index() as int]) == iter.index());
                    let members = zip_to_map(names, member_values(all));
                    assert(members.contains_key(names[iter.index() as int]));
                    assert(members[names[iter.index() as int]] == json_of(member.1));
                    assert(members.dom() =~= names.to_set());
                    assert(decreases_to!(whole => whole->Object_0));
                    assert(decreases_to!(members => members[names[iter.index() as int]]));
                }
                entries.push((member.0, from_outside(member.1)));
            }
            let ghost read = entries@;
            let object = StringMap::from_entries(entries);
            proof {
                let names = member_names(all);
                let views = member_values(all);
                let values = read.map_values(|e: (String, JsonValue)| e.1);
                assert(read.map_values(|e: (String, JsonValue)| e.0@) =~= names);
                lemma_insert_distinct(read);
                assert forall|k: Seq<char>| names.contains(k) implies #[trigger] object@[k]
                    == values[names.index_of(k)] && json_view(object@[k]) == views[names.index_of(
                    k,
                )] by {
                    assert(names[names.index_of(k)] == k);
                    assert(read[names.index_of(k)].1 == values[names.index_of(k)]);
                }
                assert(object_view(object) =~= zip_to_map(names, views));
                lemma_object_view(object);
            }
            JsonValue::Object(object)
        },
    }
}

/// `<serde_json::Value as Display>::to_string`: the compact JSON text, which for an object
/// without members is a pair of braces.
#[verifier::external_body]
fn outside_text(outside: &serde_json::Value) -> (text: String)
    ensures
        text@ == json_text(json_of(*outside)),
        json_of(*outside) == JsonView::Object(Map::empty()) ==> text@ == "{}"@,
{
    outside.to_string()
}

/// `<serde_json::Value as Debug>::fmt` through `{:?}`.
#[verifier::external_body]
fn outside_debug_text(outside: &serde_json::Value) -> (text: String)
    ensures
        text@ == json_debug_text(json_of(*outside)),
{
    format!("{:?}", outside)
}

impl JsonValue {
    /// The number `n`.
    pub fn from_u32(n: u32) -> (value: JsonValue)
        ensures
            value@ == JsonView::Number(NumberView::Integer(n as int)),
    {
        JsonValue::Number(number_from_u32(n))
    }

    /// The value that a `serde_json::Value` holds.
    pub fn from_serde(outside: serde_json::Value) -> (value: JsonValue)
        ensures
            value@ == json_of(outside),
    {
        from_outside(outside)
    }

    /// The `serde_json::Value` that holds this value.
    pub fn to_serde(&self) -> (outside: serde_json::Value)
        ensures
            json_of(outside) == self@,
    {
        to_outside(self)
    }

    /// The compact JSON text of this value.
    pub fn to_text(&self) -> (text: String)
        ensures
            text@ == json_text(self@),
            self@ == JsonView::Object(Map::empty()) ==> text@ == "{}"@,
    {
        outside_text(&to_outside(self))
    }

    /// The debug text of this value.
    pub fn to_debug_text(&self) -> (text: String)
        ensures
            text@ == json_debug_text(self@),
    {
        outside_debug_text(&to_outside(self))
    }

    /// Whether this value is the string `text`.
    pub fn is_string(&self, text: &str) -> (same: bool)
        ensures
            same <==> self@ == JsonView::String(text@),
    {
        match self {
            JsonValue::String(s) => same_text(s.as_str(), text),
            _ => false,
        }
    }
}

/// Setting a member changes what an object stands for at that name alone.
pub proof fn lemma_object_insert(before: JsonObject, after: JsonObject, name: Seq<char>, value: JsonValue)
    requires
        after@ == before@.insert(name, value),
    ensures
        object_view(after) == object_view(before).insert(name, value@),
{
    assert(object_view(after) =~= object_view(before).insert(name, value@));
}

/// Taking out a member changes what an object stands for at that name alone.
pub proof fn lemma_object_remove(before: JsonObject, after: JsonObject, name: Seq<char>)
    requires
        after@ == before@.remove(name),
    ensures
        object_view(after) == object_view(before).remove(name),
{
    assert(object_view(after) =~= object_view(before).remove(name));
}

/// What a serialization came to: the value, or the text of the error.
pub open spec fn serialized_view(outcome: Result<JsonValue, String>) -> Result<JsonView, Seq<char>> {
    match outcome {
        Ok(value) => Ok(value@),
        Err(message) => Err(message@),
    }
}

/// A type whose values turn into JSON values.
pub trait ToJson: Sized {
    /// The JSON value of `self`, or the text of the error that there is none.
    spec fn json(&self) -> Result<JsonView, Seq<char>>;

    /// Turns `self` into a JSON value.
    fn to_json(self) -> (outcome: Result<JsonValue, String>)
        ensures
            serialized_view(outcome) == self.json(),
    ;
}

impl ToJson for JsonValue {
    open spec fn json(&self) -> Result<JsonView, Seq<char>> {
        Ok(self@)
    }

    fn to_json(self) -> (outcome: Result<JsonValue, String>) {
        Ok(self)
    }
}

/// A value beside what it came to when it was serialized.
pub struct Encoded<T> {
    pub value: T,
    /// The JSON value of `value`, or the text of the error that there is none.
    pub json: Result<JsonValue, String>,
}

impl<T> ToJson for Encoded<T> {
    open spec fn json(&self) -> Result<JsonView, Seq<char>> {
        serialized_view(self.json)
    }

    fn to_json(self) -> (outcome: Result<JsonValue, String>) {
        self.json
    }
}

/// A JSON value does not have the shape of the payload asked for.
#[derive(Debug, Clone, Copy, PartialEq, Eq)]
pub struct PayloadError;

/// A type whose values can be read off JSON values.
pub trait FromJson: Sized + View {
    /// What the payload in a JSON value stands for, where the value has the shape of one.
    spec fn decoded(value: JsonView) -> Option<Self::V>;

    /// Reads the payload in a JSON value.
    fn from_json(value: &JsonValue) -> (payload: Result<Self, PayloadError>)
        ensures
            payload is Ok <==> Self::decoded(value@) is Some,
            payload matches Ok(p) ==> Self::decoded(value@) == Some(p@),
    ;
}

/// Copies a value.
fn clone_value(value: &JsonValue) -> (copy: JsonValue)
    ensures
        copy@ == value@,
    decreases value,
{
    match value {
        JsonValue::Null => JsonValue::Null,
        JsonValue::Bool(b) => JsonValue::Bool(*b),
        JsonValue::Number(n) => JsonValue::Number(clone_number(n)),
        JsonValue::String(s) => JsonValue::String(s.clone()),
        JsonValue::Array(a) => {
            let mut elements: Vec<JsonValue> = Vec::new();
            let mut i: usize = 0;
            while i < a.len()
                invariant
                    *value == JsonValue::Array(*a),
                    i <= a@.len(),
                    elements@.len() == i,
                    forall|j: int| 0 <= j < i ==> json_view(#[trigger] elements@[j]) == json_view(a@[j]),
                decreases a@.len() - i,
            {
                proof {
                    assert(decreases_to!(value => value->Array_0));
                    assert(decreases_to!(a@ => a@[i as int]));
                }
                elements.push(clone_value(&a[i]));
                i = i + 1;
            }
            proof {
                assert(array_view(elements@) =~= array_view(a@));
                lemma_array_view(*a);
                lemma_array_view(elements);
            }
            JsonValue::Array(elements)
        },
        JsonValue::Object(o) => {
            let members = o.entries();
            let mut entries: Vec<(String, JsonValue)> = Vec::new();
            let mut i: usize = 0;
            while i < members.len()
                invariant
                    *value == JsonValue::Object(*o),
                    i <= members@.len(),
                    o.values() == members@.map_values(|e: (String, JsonValue)| e.1),
                    entries@.len() == i,
                    forall|j: int|
                        0 <= j < i ==> (#[trigger] entries@[j]).0@ == members@[j].0@ && json_view(
                            entries@[j].1,
                        ) == json_view(members@[j].1),
                decreases members@.len() - i,
            {
                proof {
                    assert(o.values()[i as int] == members@[i as int].1);
                    assert(decreases_to!(value => value->Object_0));
                    assert(decreases_to!(o => o.values()[i as int]));
                }
                entries.push((members[i].0.clone(), clone_value(&members[i].1)));
                i = i + 1;
            }
            proof {
                assert(entries@.map_values(|e: (String, JsonValue)| e.0@) =~= o.keys());
            }
            let object = StringMap::from_ascending(entries);
            proof {
                lemma_same_members(*o, object);
                lemma_object_view(*o);
                lemma_object_view(object);
            }
            JsonValue::Object(object)
        },
    }
}

/// Objects with the same keys, and values that stand for the same, stand for the same.
pub proof fn lemma_same_members(a: JsonObject, b: JsonObject)
    requires
        a.keys() == b.keys(),
        a.values().len() == b.values().len(),
        forall|i: int|
            0 <= i < a.values().len() ==> json_view(#[trigger] b.values()[i]) == json_view(a.values()[i]),
    ensures
        object_view(a) == object_view(b),
{
    let views = a.values().map_values(|v: JsonValue| json_view(v));
    lemma_member_views(a, views);
    lemma_member_views(b, views);
}

impl Clone for JsonValue {
    fn clone(&self) -> (copy: JsonValue)
        ensures
            copy@ == self@,
    {
        clone_value(self)
    }
}

/// Copies an object.
pub fn clone_object(object: &JsonObject) -> (copy: JsonObject)
    ensures
        object_view(copy) == object_view(*object),
{
    let copy = object.clone();
    proof {
        lemma_same_members(*object, copy);
    }
    copy
}

} // verus!
