//! JSON schemas of types, normalised for clients that cannot read boolean subschemas, and kept so
//! that a type's schema is generated once.

use std::any::TypeId;
use std::sync::Arc;

use vstd::prelude::*;

use crate::json::{
    json_debug_text, json_of, lemma_empty_object_view, lemma_object_insert, lemma_object_view, object_view, JsonObject,
    JsonValue, JsonView,
};
use crate::string_map::{lemma_zip_push, same_text, zip_to_map, StringMap};

verus! {

/// What a keyword of a JSON schema holds.
pub enum Slot {
    /// A schema.
    One,
    /// A list of schemas.
    Many,
    /// A schema, or a list of schemas.
    OneOrMany,
    /// Schemas by name.
    Named,
    /// No schema.
    Plain,
}

/// What the keyword of the given name holds.
pub open spec fn slot_of(keyword: Seq<char>) -> Slot {
    if keyword == "not"@ || keyword == "if"@ || keyword == "then"@ || keyword == "else"@ || keyword
        == "contains"@ || keyword == "additionalProperties"@ || keyword == "propertyNames"@
        || keyword == "additionalItems"@ {
        Slot::One
    } else if keyword == "allOf"@ || keyword == "anyOf"@ || keyword == "oneOf"@ || keyword
        == "prefixItems"@ {
        Slot::Many
    } else if keyword == "items"@ {
        Slot::OneOrMany
    } else if keyword == "properties"@ || keyword == "patternProperties"@ || keyword == "$defs"@
        || keyword == "definitions"@ {
        Slot::Named
    } else {
        Slot::Plain
    }
}

/// No subschema of `schema`, however deep, is a bare boolean.
pub open spec fn bool_free(schema: JsonView) -> bool
    decreases schema,
{
    schema matches JsonView::Object(m) ==> forall|k: Seq<char>| #[trigger]
        m.contains_key(k) ==> match slot_of(k) {
            Slot::One => m[k] !is Bool && bool_free(m[k]),
            Slot::Many => m[k] matches JsonView::Array(a) ==> forall|i: int|
                0 <= i < a.len() ==> (#[trigger] a[i]) !is Bool && bool_free(a[i]),
            Slot::OneOrMany => match m[k] {
                JsonView::Array(a) => forall|i: int|
                    0 <= i < a.len() ==> (#[trigger] a[i]) !is Bool && bool_free(a[i]),
                _ => m[k] !is Bool && bool_free(m[k]),
            },
            Slot::Named => m[k] matches JsonView::Object(o) ==> forall|n: Seq<char>| #[trigger]
                o.contains_key(n) ==> o[n] !is Bool && bool_free(o[n]),
            Slot::Plain => true,
        }
}

/// The object form of a boolean schema: `{}` accepts everything, and `{"not": {}}` nothing.
pub open spec fn bool_schema(accepts: bool) -> JsonView {
    if accepts {
        JsonView::Object(Map::empty())
    } else {
        JsonView::Object(Map::empty().insert("not"@, JsonView::Object(Map::empty())))
    }
}

/// `after` is the schema `before` with every boolean schema in it, `before` itself included, in its
/// object form, and with nothing else changed.
pub open spec fn bools_replaced(before: JsonView, after: JsonView) -> bool
    decreases before,
{
    match before {
        JsonView::Bool(accepts) => after == bool_schema(accepts),
        JsonView::Object(b) => after matches JsonView::Object(a) && a.dom() == b.dom() && forall|
            k: Seq<char>,
        | #[trigger]
            b.contains_key(k) ==> match (slot_of(k), b[k]) {
                (Slot::Many | Slot::OneOrMany, JsonView::Array(old_list)) => a[k] matches JsonView::Array(
                    new_list,
                ) && new_list.len() == old_list.len() && forall|i: int|
                    0 <= i < old_list.len() ==> bools_replaced(#[trigger] old_list[i], new_list[i]),
                (Slot::Named, JsonView::Object(old_named)) => a[k] matches JsonView::Object(new_named)
                    && new_named.dom() == old_named.dom() && forall|n: Seq<char>| #[trigger]
                    old_named.contains_key(n) ==> bools_replaced(old_named[n], new_named[n]),
                (Slot::One | Slot::OneOrMany, _) => bools_replaced(b[k], a[k]),
                _ => a[k] == b[k],
            },
        _ => after == before,
    }
}

/// A JSON schema as `schemars` holds it.
#[verifier::external_type_specification]
#[verifier::external_body]
pub struct ExSchema(schemars::Schema);

/// A generator of JSON schemas.
#[verifier::external_type_specification]
#[verifier::external_body]
pub struct ExSchemaGenerator(schemars::SchemaGenerator);

/// The JSON value of a `schemars::Schema`.
pub uninterp spec fn schema_json(schema: schemars::Schema) -> JsonView;

/// The settings of a `schemars::SchemaGenerator`.
pub uninterp spec fn generator_settings(generator: schemars::SchemaGenerator) -> SettingsView;

/// What schemas a generator gives.
pub struct SettingsView {
    /// Where in the root schema the definitions stand.
    pub definitions_path: Seq<char>,
    /// The dialect that the root schema names.
    pub meta_schema: Option<Seq<char>>,
    /// How many transforms are applied to a schema.
    pub transforms: nat,
    /// Whether every subschema is written out in place.
    pub inline_subschemas: bool,
    /// Whether schemas describe what a type serializes to, rather than what it is read from.
    pub for_serialize: bool,
    /// Whether the variants of untagged enums get titles.
    pub untagged_enum_variant_titles: bool,
}

/// The settings of the dialect that the protocol asks for, with nothing done to the schemas. In
/// particular the keyword `nullable`, which is not of this dialect, is not added.
pub open spec fn draft_2020_12() -> SettingsView {
    SettingsView {
        definitions_path: "/$defs"@,
        meta_schema: Some("https://json-schema.org/draft/2020-12/schema"@),
        transforms: 0,
        inline_subschemas: false,
        for_serialize: false,
        untagged_enum_variant_titles: false,
    }
}

/// `schemars::generate::SchemaSettings::draft2020_12` and its `into_generator`: a generator with
/// exactly the settings of draft 2020-12.
#[verifier::external_body]
fn draft_2020_12_generator() -> (generator: schemars::SchemaGenerator)
    ensures
        generator_settings(generator) == draft_2020_12(),
{
    schemars::generate::SchemaSettings::draft2020_12().into_generator()
}

/// `schemars::transform::transform_subschemas` with the default
/// `schemars::transform::ReplaceBoolSchemas`: the boolean subschemas of an object schema, at any
/// depth, are put in their object form, and nothing else changes. A schema that is no object has
/// no subschemas and stays as it is.
#[verifier::external_body]
fn replace_outside(schema: schemars::Schema) -> (replaced: schemars::Schema)
    ensures
        schema_json(schema) is Object ==> bools_replaced(
            schema_json(schema),
            schema_json(replaced),
        ),
        schema_json(schema) !is Object ==> schema_json(replaced) == schema_json(schema),
{
    let mut schema = schema;
    let mut replace = schemars::transform::ReplaceBoolSchemas::default();
    schemars::transform::transform_subschemas(&mut replace, &mut schema);
    schema
}

/// `schemars::Schema::to_value`: the JSON value of the schema.
pub assume_specification[ schemars::Schema::to_value ](schema: schemars::Schema) -> (value:
    serde_json::Value)
    ensures
        json_of(value) == schema_json(schema),
;

/// The members of an object schema, with its boolean subschemas in their object form. Some clients
/// fail on a tool list that holds a boolean subschema. A schema that is no object is handed back
/// as an error.
pub fn replace_bool_subschemas(root: schemars::Schema) -> (schema: Result<JsonObject, JsonValue>)
    ensures
        match schema {
            Ok(object) => schema_json(root) is Object && bools_replaced(
                schema_json(root),
                JsonView::Object(object_view(object)),
            ) && bool_free(JsonView::Object(object_view(object))),
            Err(value) => schema_json(root) !is Object && value@ == schema_json(root),
        },
{
    let value = JsonValue::from_serde(replace_outside(root).to_value());
    proof {
        if schema_json(root) is Object {
            replacing_leaves_no_bool(schema_json(root), value@);
        }
    }
    match value {
        JsonValue::Object(object) => {
            proof {
                lemma_object_view(object);
            }
            Ok(object)
        },
        value => Err(value),
    }
}

/// Once the boolean schemas are replaced, none is left.
pub proof fn replacing_leaves_no_bool(before: JsonView, after: JsonView)
    requires
        bools_replaced(before, after),
    ensures
        after !is Bool,
        bool_free(after),
    decreases before,
{
    match before {
        JsonView::Bool(accepts) => {
            let empty = Map::<Seq<char>, JsonView>::empty();
            assert(bool_free(JsonView::Object(empty)));
            if !accepts {
                let not = empty.insert("not"@, JsonView::Object(empty));
                assert forall|k: Seq<char>| not.contains_key(k) implies k == "not"@ by {}
                assert(bool_free(after));
            }
        },
        JsonView::Object(b) => {
            let a = after->Object_0;
            assert forall|k: Seq<char>| #[trigger] a.contains_key(k) implies match slot_of(k) {
                Slot::One => a[k] !is Bool && bool_free(a[k]),
                Slot::Many => a[k] matches JsonView::Array(l) ==> forall|i: int|
                    0 <= i < l.len() ==> (#[trigger] l[i]) !is Bool && bool_free(l[i]),
                Slot::OneOrMany => match a[k] {
                    JsonView::Array(l) => forall|i: int|
                        0 <= i < l.len() ==> (#[trigger] l[i]) !is Bool && bool_free(l[i]),
                    _ => a[k] !is Bool && bool_free(a[k]),
                },
                Slot::Named => a[k] matches JsonView::Object(o) ==> forall|n: Seq<char>| #[trigger]
                    o.contains_key(n) ==> o[n] !is Bool && bool_free(o[n]),
                Slot::Plain => true,
            } by {
                assert(b.contains_key(k));
                match (slot_of(k), b[k]) {
                    (Slot::Many | Slot::OneOrMany, JsonView::Array(old_list)) => {
                        let new_list = a[k]->Array_0;
                        assert forall|i: int| 0 <= i < new_list.len() implies (#[trigger] new_list[i])
                            !is Bool && bool_free(new_list[i]) by {
                            replacing_leaves_no_bool(old_list[i], new_list[i]);
                        }
                    },
                    (Slot::Named, JsonView::Object(old_named)) => {
                        let new_named = a[k]->Object_0;
                        assert forall|n: Seq<char>| #[trigger]
                            new_named.contains_key(n) implies new_named[n] !is Bool && bool_free(
                            new_named[n],
                        ) by {
                            assert(old_named.contains_key(n));
                            replacing_leaves_no_bool(old_named[n], new_named[n]);
                        }
                    },
                    (Slot::One | Slot::OneOrMany, _) => {
                        replacing_leaves_no_bool(b[k], a[k]);
                        lemma_same_shape(b[k], a[k]);
                    },
                    _ => {},
                }
            }
        },
        _ => {},
    }
}

/// Replacing keeps a list a list and an object an object.
proof fn lemma_same_shape(before: JsonView, after: JsonView)
    requires
        bools_replaced(before, after),
    ensures
        after is Array <==> before is Array,
        before is Object ==> after is Object,
{
}

/// The result of replacing the boolean schemas is determined by the schema.
pub proof fn replacing_has_one_result(before: JsonView, one: JsonView, other: JsonView)
    requires
        bools_replaced(before, one),
        bools_replaced(before, other),
    ensures
        one == other,
    decreases before,
{
    if let JsonView::Object(b) = before {
        let x = one->Object_0;
        let y = other->Object_0;
        assert forall|k: Seq<char>| b.contains_key(k) implies #[trigger] x[k] == y[k] by {
            match (slot_of(k), b[k]) {
                (Slot::Many | Slot::OneOrMany, JsonView::Array(old_list)) => {
                    let p = x[k]->Array_0;
                    let q = y[k]->Array_0;
                    assert forall|i: int| 0 <= i < old_list.len() implies p[i] == q[i] by {
                        replacing_has_one_result(old_list[i], p[i], q[i]);
                    }
                    assert(p =~= q);
                },
                (Slot::Named, JsonView::Object(old_named)) => {
                    let p = x[k]->Object_0;
                    let q = y[k]->Object_0;
                    assert forall|n: Seq<char>| old_named.contains_key(n) implies p[n] == q[n] by {
                        replacing_has_one_result(old_named[n], p[n], q[n]);
                    }
                    assert(p =~= q);
                },
                (Slot::One | Slot::OneOrMany, _) => {
                    replacing_has_one_result(b[k], x[k], y[k]);
                },
                _ => {},
            }
        }
        assert(x =~= y);
    }
}

/// A schema that holds no boolean schema stays as it is.
pub proof fn replacing_nothing_changes_nothing(schema: JsonView)
    requires
        schema !is Bool,
        bool_free(schema),
    ensures
        bools_replaced(schema, schema),
    decreases schema,
{
    if let JsonView::Object(m) = schema {
        assert forall|k: Seq<char>| #[trigger] m.contains_key(k) implies match (slot_of(k), m[k]) {
            (Slot::Many | Slot::OneOrMany, JsonView::Array(list)) => forall|i: int|
                0 <= i < list.len() ==> bools_replaced(#[trigger] list[i], list[i]),
            (Slot::Named, JsonView::Object(named)) => forall|n: Seq<char>| #[trigger]
                named.contains_key(n) ==> bools_replaced(named[n], named[n]),
            (Slot::One | Slot::OneOrMany, _) => bools_replaced(m[k], m[k]),
            _ => true,
        } by {
            match (slot_of(k), m[k]) {
                (Slot::Many | Slot::OneOrMany, JsonView::Array(list)) => {
                    assert forall|i: int| 0 <= i < list.len() implies bools_replaced(
                        #[trigger] list[i],
                        list[i],
                    ) by {
                        replacing_nothing_changes_nothing(list[i]);
                    }
                },
                (Slot::Named, JsonView::Object(named)) => {
                    assert forall|n: Seq<char>| #[trigger]
                        named.contains_key(n) implies bools_replaced(named[n], named[n]) by {
                        replacing_nothing_changes_nothing(named[n]);
                    }
                },
                (Slot::One | Slot::OneOrMany, _) => {
                    replacing_nothing_changes_nothing(m[k]);
                },
                _ => {},
            }
        }
    }
}

/// Replacing a second time changes nothing.
pub proof fn replacing_again_changes_nothing(before: JsonView, once: JsonView, twice: JsonView)
    requires
        bools_replaced(before, once),
        bools_replaced(once, twice),
    ensures
        twice == once,
{
    replacing_leaves_no_bool(before, once);
    replacing_nothing_changes_nothing(once);
    replacing_has_one_result(once, once, twice);
}

/// `<TypeId as PartialEq>::eq`: whether two identities are those of the same type.
pub assume_specification[ <TypeId as PartialEq>::eq ](a: &TypeId, b: &TypeId) -> (same: bool)
    ensures
        same == (*a == *b),
;

/// Values by type.
struct TypeTable<V> {
    entries: Vec<(TypeId, V)>,
}

impl<V> TypeTable<V> {
    spec fn ids(self) -> Seq<TypeId> {
        Seq::new(self.entries@.len(), |i: int| self.entries@[i].0)
    }

    spec fn values(self) -> Seq<V> {
        Seq::new(self.entries@.len(), |i: int| self.entries@[i].1)
    }

    /// No type occurs twice.
    #[verifier::type_invariant]
    spec fn one_each(self) -> bool {
        self.ids().no_duplicates()
    }

    spec fn by_type(self) -> Map<TypeId, V> {
        zip_to_map(self.ids(), self.values())
    }

    fn new() -> (table: TypeTable<V>)
        ensures
            table.by_type() == Map::<TypeId, V>::empty(),
    {
        let table = TypeTable { entries: Vec::new() };
        proof {
            assert(table.by_type() =~= Map::<TypeId, V>::empty());
        }
        table
    }

    fn get(&self, id: TypeId) -> (value: Option<&V>)
        ensures
            value is Some <==> self.by_type().contains_key(id),
            value matches Some(v) ==> *v == self.by_type()[id],
    {
        proof {
            use_type_invariant(self);
        }
        let mut i: usize = 0;
        while i < self.entries.len()
            invariant
                i <= self.entries@.len(),
                self.ids().no_duplicates(),
                forall|j: int| 0 <= j < i ==> #[trigger] self.ids()[j] != id,
            decreases self.entries@.len() - i,
        {
            if self.entries[i].0 == id {
                proof {
                    assert(self.ids()[i as int] == id);
                    assert(self.ids().index_of(id) == i);
                }
                return Some(&self.entries[i].1);
            }
            assert(self.ids()[i as int] != id);
            i = i + 1;
        }
        None
    }

    fn insert(&mut self, id: TypeId, value: V)
        requires
            !old(self).by_type().contains_key(id),
        ensures
            final(self).by_type() == old(self).by_type().insert(id, value),
    {
        proof {
            use_type_invariant(&*self);
        }
        let ghost ids = self.ids();
        let ghost values = self.values();
        let mut entries: Vec<(TypeId, V)> = Vec::new();
        std::mem::swap(&mut entries, &mut self.entries);
        entries.push((id, value));
        proof {
            assert(Seq::new(entries@.len(), |i: int| entries@[i].0) =~= ids.push(id));
            assert(Seq::new(entries@.len(), |i: int| entries@[i].1) =~= values.push(value));
        }
        self.entries = entries;
        proof {
            assert(self.ids() =~= ids.push(id));
            assert(self.values() =~= values.push(value));
            lemma_zip_push(ids, values, id, value);
        }
    }
}

/// What the check of an output schema comes to: tools must declare an object as the root of their
/// output, and the error says what was found in its place.
pub open spec fn output_check(schema: Map<Seq<char>, JsonView>) -> Result<(), Seq<char>> {
    match schema.get("type"@) {
        Some(JsonView::String(t)) => if t == "object"@ {
            Ok(())
        } else {
            Err(
                "MCP specification requires tool outputSchema to have root type 'object', but found '"@
                    + t + "'."@,
            )
        },
        None => Err(
            "Schema is missing 'type' field. MCP specification requires outputSchema to have root type 'object'."@,
        ),
        Some(other) => Err(
            "Schema 'type' field has unexpected format: "@ + json_debug_text(other)
                + ". Expected \"object\"."@,
        ),
    }
}

/// Checks that the root of an output schema is an object.
pub fn check_output_schema(schema: &JsonObject) -> (checked: Result<(), String>)
    ensures
        match output_check(object_view(*schema)) {
            Ok(_) => checked is Ok,
            Err(message) => checked matches Err(error) && error@ == message,
        },
{
    match schema.get("type") {
        Some(JsonValue::String(t)) => {
            if same_text(t.as_str(), "object") {
                Ok(())
            } else {
                Err(
                    "MCP specification requires tool outputSchema to have root type 'object', but found '".to_string().concat(
                    t.as_str()).concat("'."),
                )
            }
        },
        None => Err(
            "Schema is missing 'type' field. MCP specification requires outputSchema to have root type 'object'.".to_string(),
        ),
        Some(other) => Err(
            "Schema 'type' field has unexpected format: ".to_string().concat(
                other.to_debug_text().as_str(),
            ).concat(". Expected \"object\"."),
        ),
    }
}

/// `output` is what the check says of `schema`: the schema itself, or the error.
pub open spec fn output_of(schema: Arc<JsonObject>, output: Result<Arc<JsonObject>, String>) -> bool {
    match output_check(object_view(*schema)) {
        Ok(_) => output == Ok::<Arc<JsonObject>, String>(schema),
        Err(message) => output matches Err(error) && error@ == message,
    }
}

/// `schema` is the schema kept for the type `of`: the one that was there, or the one that is now
/// kept beside the others.
pub open spec fn kept(
    before: Map<TypeId, Arc<JsonObject>>,
    of: TypeId,
    after: Map<TypeId, Arc<JsonObject>>,
    schema: Arc<JsonObject>,
) -> bool {
    match before.get(of) {
        Some(known) => schema == known && after == before,
        None => after == before.insert(of, schema),
    }
}

/// The schemas that have been generated, and what the check of output schemas came to, by type.
pub struct SchemaCache {
    types: TypeTable<Arc<JsonObject>>,
    outputs: TypeTable<Result<Arc<JsonObject>, String>>,
}

impl SchemaCache {
    /// The schemas that have been generated.
    pub closed spec fn types(self) -> Map<TypeId, Arc<JsonObject>> {
        self.types.by_type()
    }

    /// What the check of output schemas came to, for the types that were asked for.
    pub closed spec fn outputs(self) -> Map<TypeId, Result<Arc<JsonObject>, String>> {
        self.outputs.by_type()
    }

    /// No kept schema holds a boolean subschema, and each kept check is that of the kept schema.
    #[verifier::type_invariant]
    spec fn consistent(self) -> bool {
        &&& forall|id: TypeId| #[trigger]
            self.types().contains_key(id) ==> bool_free(
                JsonView::Object(object_view(*self.types()[id])),
            )
        &&& forall|id: TypeId| #[trigger]
            self.outputs().contains_key(id) ==> self.types().contains_key(id) && output_of(
                self.types()[id],
                self.outputs()[id],
            )
    }

    /// A cache that keeps nothing yet.
    pub fn new() -> (cache: SchemaCache)
        ensures
            cache.types() == Map::<TypeId, Arc<JsonObject>>::empty(),
            cache.outputs() == Map::<TypeId, Result<Arc<JsonObject>, String>>::empty(),
    {
        SchemaCache { types: TypeTable::new(), outputs: TypeTable::new() }
    }
}

impl Default for SchemaCache {
    fn default() -> (cache: SchemaCache)
        ensures
            cache.types() == Map::<TypeId, Arc<JsonObject>>::empty(),
            cache.outputs() == Map::<TypeId, Result<Arc<JsonObject>, String>>::empty(),
    {
        SchemaCache::new()
    }
}

/// `generate` can be called with a generator of draft 2020-12.
pub open spec fn takes_generator<G: FnOnce(schemars::SchemaGenerator) -> schemars::Schema>(
    generate: G,
) -> bool {
    forall|generator: schemars::SchemaGenerator| #[trigger]
        generator_settings(generator) == draft_2020_12() ==> generate.requires((generator,))
}

/// `root` is a schema that `generate` gives with a generator of draft 2020-12.
pub open spec fn generated<G: FnOnce(schemars::SchemaGenerator) -> schemars::Schema>(
    generate: G,
    root: schemars::Schema,
) -> bool {
    exists|generator: schemars::SchemaGenerator|
        generator_settings(generator) == draft_2020_12() && #[trigger] generate.ensures(
            (generator,),
            root,
        )
}

/// Every schema that `generate` gives is an object.
pub open spec fn generates_objects<G: FnOnce(schemars::SchemaGenerator) -> schemars::Schema>(
    generate: G,
) -> bool {
    forall|root: schemars::Schema| #[trigger]
        generated(generate, root) ==> schema_json(root) is Object
}

/// `schema` is an object schema that `generate` gives, with the boolean subschemas in their object
/// form.
pub open spec fn generated_by<G: FnOnce(schemars::SchemaGenerator) -> schemars::Schema>(
    generate: G,
    schema: JsonObject,
) -> bool {
    exists|root: schemars::Schema| #[trigger]
        generated(generate, root) && schema_json(root) is Object && bools_replaced(
            schema_json(root),
            JsonView::Object(object_view(schema)),
        )
}

/// `value` is a schema that `generate` gives and that is no object.
pub open spec fn no_object_by<G: FnOnce(schemars::SchemaGenerator) -> schemars::Schema>(
    generate: G,
    value: JsonView,
) -> bool {
    exists|root: schemars::Schema| #[trigger]
        generated(generate, root) && schema_json(root) !is Object && value == schema_json(root)
}

/// The root schema that `generate` gives with a generator of draft 2020-12.
pub fn root_schema<G: FnOnce(schemars::SchemaGenerator) -> schemars::Schema>(generate: G) -> (root:
    schemars::Schema)
    requires
        takes_generator(generate),
    ensures
        generated(generate, root),
{
    let generator = draft_2020_12_generator();
    let ghost used = generator;
    let root = generate(generator);
    proof {
        assert(generate.ensures((used,), root));
    }
    root
}

impl SchemaCache {
    /// The schema that is kept for the type `of`.
    pub fn schema_of(&self, of: TypeId) -> (schema: Option<Arc<JsonObject>>)
        ensures
            schema == self.types().get(of),
            schema matches Some(known) ==> bool_free(JsonView::Object(object_view(*known))),
    {
        proof {
            use_type_invariant(self);
        }
        match self.types.get(of) {
            Some(known) => {
                assert(self.types().contains_key(of));
                Some(known.clone())
            },
            None => None,
        }
    }

    /// Keeps the schema with the given root for the type `of`, with its boolean subschemas in
    /// object form, unless one is kept for it already, and returns the one that is kept. A root
    /// that is no object is an error where none is kept, and nothing is kept then.
    pub fn keep_schema(&mut self, of: TypeId, root: schemars::Schema) -> (schema: Result<
        Arc<JsonObject>,
        JsonValue,
    >)
        ensures
            match schema {
                Ok(schema) => {
                    &&& kept(old(self).types(), of, final(self).types(), schema)
                    &&& !old(self).types().contains_key(of) ==> schema_json(root) is Object
                        && bools_replaced(
                        schema_json(root),
                        JsonView::Object(object_view(*schema)),
                    )
                    &&& bool_free(JsonView::Object(object_view(*schema)))
                },
                Err(value) => {
                    &&& !old(self).types().contains_key(of)
                    &&& final(self).types() == old(self).types()
                    &&& schema_json(root) !is Object
                    &&& value@ == schema_json(root)
                },
            },
            final(self).outputs() == old(self).outputs(),
    {
        if let Some(known) = self.schema_of(of) {
            return Ok(known);
        }
        let ghost before = *self;
        let schema = match replace_bool_subschemas(root) {
            Ok(object) => Arc::new(object),
            Err(value) => {
                return Err(value);
            },
        };
        proof {
            use_type_invariant(&*self);
        }
        let mut kept = SchemaCache::new();
        std::mem::swap(self, &mut kept);
        let SchemaCache { types, outputs } = kept;
        let mut types = types;
        types.insert(of, schema.clone());
        proof {
            let next = SchemaCache { types, outputs };
            assert(next.types() == before.types().insert(of, schema));
            assert forall|id: TypeId| #[trigger] next.types().contains_key(id) implies bool_free(
                JsonView::Object(object_view(*next.types()[id])),
            ) by {
                assert(id != of ==> before.types().contains_key(id));
            }
            assert forall|id: TypeId| #[trigger]
                next.outputs().contains_key(id) implies next.types().contains_key(id) && output_of(
                next.types()[id],
                next.outputs()[id],
            ) by {
                assert(before.outputs().contains_key(id));
            }
        }
        *self = SchemaCache { types, outputs };
        Ok(schema)
    }
}

/// The JSON schema of the type `of`: the one that is kept, or else the root schema that `generate`
/// gives, with its boolean subschemas in object form, which is then kept. A root schema that is no
/// object is an error, and nothing is kept.
pub fn try_schema_for_type<G: FnOnce(schemars::SchemaGenerator) -> schemars::Schema>(
    cache: &mut SchemaCache,
    of: TypeId,
    generate: G,
) -> (schema: Result<Arc<JsonObject>, JsonValue>)
    requires
        !old(cache).types().contains_key(of) ==> takes_generator(generate),
    ensures
        match schema {
            Ok(schema) => {
                &&& kept(old(cache).types(), of, final(cache).types(), schema)
                &&& !old(cache).types().contains_key(of) ==> generated_by(generate, *schema)
                &&& bool_free(JsonView::Object(object_view(*schema)))
            },
            Err(value) => {
                &&& !old(cache).types().contains_key(of)
                &&& final(cache).types() == old(cache).types()
                &&& no_object_by(generate, value@)
            },
        },
        final(cache).outputs() == old(cache).outputs(),
{
    match cache.schema_of(of) {
        Some(known) => Ok(known),
        None => cache.keep_schema(of, root_schema(generate)),
    }
}

/// The JSON schema of the type `of`: the one that is kept, or else the root schema that `generate`
/// gives, which is an object, with its boolean subschemas in object form, which is then kept.
pub fn schema_for_type<G: FnOnce(schemars::SchemaGenerator) -> schemars::Schema>(
    cache: &mut SchemaCache,
    of: TypeId,
    generate: G,
) -> (schema: Arc<JsonObject>)
    requires
        !old(cache).types().contains_key(of) ==> takes_generator(generate) && generates_objects(
            generate,
        ),
    ensures
        kept(old(cache).types(), of, final(cache).types(), schema),
        !old(cache).types().contains_key(of) ==> generated_by(generate, *schema),
        final(cache).outputs() == old(cache).outputs(),
        bool_free(JsonView::Object(object_view(*schema))),
{
    match try_schema_for_type(cache, of, generate) {
        Ok(schema) => schema,
        // Every generated schema is an object.
        Err(_) => Arc::new(StringMap::new()),
    }
}

/// The schema of a tool that takes no input.
pub fn schema_for_empty_input() -> (schema: Arc<JsonObject>)
    ensures
        object_view(*schema) == Map::empty().insert("type"@, JsonView::String("object"@)).insert(
            "properties"@,
            JsonView::Object(Map::empty()),
        ),
{
    let mut schema: JsonObject = StringMap::new();
    let ghost empty = schema;
    let object = JsonValue::String("object".to_string());
    let ghost type_entry = object;
    schema.insert("type".to_string(), object);
    let ghost typed = schema;
    let none: JsonObject = StringMap::new();
    let properties = JsonValue::Object(none);
    let ghost properties_entry = properties;
    schema.insert("properties".to_string(), properties);
    proof {
        lemma_object_view(none);
        lemma_empty_object_view(none);
        lemma_empty_object_view(empty);
        lemma_object_insert(empty, typed, "type"@, type_entry);
        lemma_object_insert(typed, schema, "properties"@, properties_entry);
    }
    Arc::new(schema)
}

/// What was asked for an output is what the check says of the schema that is kept for the type.
pub open spec fn output_kept(
    before: SchemaCache,
    of: TypeId,
    after: SchemaCache,
    output: Result<Arc<JsonObject>, String>,
) -> bool {
    &&& after.types().contains_key(of)
    &&& kept(before.types(), of, after.types(), after.types()[of])
    &&& output_of(after.types()[of], output)
    &&& after.outputs() == (if before.outputs().contains_key(of) {
        before.outputs()
    } else {
        before.outputs().insert(of, output)
    })
    &&& output matches Ok(schema) ==> bool_free(JsonView::Object(object_view(*schema)))
}

/// The JSON schema of the type `of`, checked for use as the schema of a tool's output. The outcome
/// of the check is kept. A root schema that is no object is an error of its own, and nothing is
/// kept.
pub fn try_schema_for_output<G: FnOnce(schemars::SchemaGenerator) -> schemars::Schema>(
    cache: &mut SchemaCache,
    of: TypeId,
    generate: G,
) -> (output: Result<Result<Arc<JsonObject>, String>, JsonValue>)
    requires
        !old(cache).types().contains_key(of) ==> takes_generator(generate),
    ensures
        match output {
            Ok(output) => {
                &&& output_kept(*old(cache), of, *final(cache), output)
                &&& !old(cache).types().contains_key(of) ==> generated_by(
                    generate,
                    *final(cache).types()[of],
                )
            },
            Err(value) => {
                &&& !old(cache).types().contains_key(of)
                &&& final(cache).types() == old(cache).types()
                &&& final(cache).outputs() == old(cache).outputs()
                &&& no_object_by(generate, value@)
            },
        },
{
    proof {
        use_type_invariant(&*cache);
    }
    match cache.outputs.get(of) {
        Some(Ok(schema)) => {
            assert(cache.outputs().contains_key(of));
            return Ok(Ok(schema.clone()));
        },
        Some(Err(error)) => {
            assert(cache.outputs().contains_key(of));
            return Ok(Err(error.clone()));
        },
        None => {},
    }
    let schema = match try_schema_for_type(cache, of, generate) {
        Ok(schema) => schema,
        Err(value) => {
            return Err(value);
        },
    };
    proof {
        use_type_invariant(&*cache);
    }
    let output = match check_output_schema(&*schema) {
        Ok(_) => Ok(schema),
        Err(error) => Err(error),
    };
    let copy = match &output {
        Ok(schema) => Ok(schema.clone()),
        Err(error) => Err(error.clone()),
    };
    let mut kept = SchemaCache::new();
    std::mem::swap(cache, &mut kept);
    let SchemaCache { types, outputs } = kept;
    let mut outputs = outputs;
    outputs.insert(of, copy);
    *cache = SchemaCache { types, outputs };
    Ok(output)
}

/// The JSON schema of the type `of`, checked for use as the schema of a tool's output. The outcome
/// of the check is kept. The root schema that `generate` gives is an object.
pub fn schema_for_output<G: FnOnce(schemars::SchemaGenerator) -> schemars::Schema>(
    cache: &mut SchemaCache,
    of: TypeId,
    generate: G,
) -> (output: Result<Arc<JsonObject>, String>)
    requires
        !old(cache).types().contains_key(of) ==> takes_generator(generate) && generates_objects(
            generate,
        ),
    ensures
        output_kept(*old(cache), of, *final(cache), output),
        !old(cache).types().contains_key(of) ==> generated_by(generate, *final(cache).types()[of]),
{
    match try_schema_for_output(cache, of, generate) {
        Ok(output) => output,
        // Every generated schema is an object.
        Err(_) => Err(String::new()),
    }
}

/// Asking for the schema of a type a second time gives the same schema and keeps nothing new.
pub proof fn asking_again_gives_the_kept_schema(
    before: Map<TypeId, Arc<JsonObject>>,
    of: TypeId,
    after: Map<TypeId, Arc<JsonObject>>,
    schema: Arc<JsonObject>,
    later: Map<TypeId, Arc<JsonObject>>,
    again: Arc<JsonObject>,
)
    requires
        kept(before, of, after, schema),
        kept(after, of, later, again),
    ensures
        again == schema,
        later == after,
{
}

/// Asking for the schema of a type leaves the schemas of the other types as they were.
pub proof fn asking_leaves_other_types_alone(
    before: Map<TypeId, Arc<JsonObject>>,
    of: TypeId,
    after: Map<TypeId, Arc<JsonObject>>,
    schema: Arc<JsonObject>,
    other: TypeId,
)
    requires
        kept(before, of, after, schema),
        other != of,
    ensures
        after.get(other) == before.get(other),
{
}

/// Asking for an output schema a second time gives the same outcome, accepted or not, and keeps
/// nothing new.
pub proof fn asking_for_an_output_again_gives_the_same(
    before: SchemaCache,
    of: TypeId,
    after: SchemaCache,
    output: Result<Arc<JsonObject>, String>,
    later: SchemaCache,
    again: Result<Arc<JsonObject>, String>,
)
    requires
        output_kept(before, of, after, output),
        output_kept(after, of, later, again),
    ensures
        later.types() == after.types(),
        later.outputs() == after.outputs(),
        match (output, again) {
            (Ok(schema), Ok(same)) => same == schema,
            (Err(error), Err(same)) => same@ == error@,
            _ => false,
        },
{
    assert(after.outputs().contains_key(of));
}

/// An accepted output schema is the schema of the type: asking for the latter gives the same one.
pub proof fn outputs_share_the_schema_of_the_type(
    before: SchemaCache,
    of: TypeId,
    after: SchemaCache,
    accepted: Arc<JsonObject>,
    later: Map<TypeId, Arc<JsonObject>>,
    schema: Arc<JsonObject>,
)
    requires
        output_kept(before, of, after, Ok(accepted)),
        kept(after.types(), of, later, schema),
    ensures
        schema == accepted,
{
}

/// A schema is accepted for output exactly where its root type is `object`, and what is accepted
/// is the schema itself.
pub proof fn output_is_accepted_for_object_roots(
    schema: Arc<JsonObject>,
    output: Result<Arc<JsonObject>, String>,
)
    requires
        output_of(schema, output),
    ensures
        output is Ok <==> object_view(*schema).get("type"@) == Some(JsonView::String("object"@)),
        output matches Ok(accepted) ==> accepted == schema,
{
}

/// Replacing boolean subschemas does not change what the check of an output schema comes to.
pub proof fn replacing_does_not_change_the_check(
    before: Map<Seq<char>, JsonView>,
    after: Map<Seq<char>, JsonView>,
)
    requires
        bools_replaced(JsonView::Object(before), JsonView::Object(after)),
    ensures
        output_check(after) == output_check(before),
{
    lemma_slots();
    assert(before.contains_key("type"@) <==> after.contains_key("type"@));
}

/// The keyword `type` holds no schema, and `properties` holds schemas by name.
proof fn lemma_slots()
    ensures
        slot_of("type"@) is Plain,
        slot_of("properties"@) is Named,
{
    reveal_strlit("type");
    reveal_strlit("not");
    reveal_strlit("if");
    reveal_strlit("then");
    reveal_strlit("else");
    reveal_strlit("contains");
    reveal_strlit("additionalProperties");
    reveal_strlit("propertyNames");
    reveal_strlit("additionalItems");
    reveal_strlit("allOf");
    reveal_strlit("anyOf");
    reveal_strlit("oneOf");
    reveal_strlit("prefixItems");
    reveal_strlit("items");
    reveal_strlit("properties");
    reveal_strlit("patternProperties");
    reveal_strlit("$defs");
    reveal_strlit("definitions");
    assert("type"@[0] == 't' && "type"@[1] == 'y');
    assert("then"@[1] == 'h');
    assert("else"@[0] == 'e');
    assert("properties"@.len() == 10);
}

/// The schema of an empty input describes an object without properties, and would do for output
/// too.
pub proof fn empty_input_is_an_object(schema: JsonObject)
    requires
        object_view(schema) == Map::empty().insert("type"@, JsonView::String("object"@)).insert(
            "properties"@,
            JsonView::Object(Map::empty()),
        ),
    ensures
        output_check(object_view(schema)) == Ok::<(), Seq<char>>(()),
        bool_free(JsonView::Object(object_view(schema))),
{
    reveal_strlit("type");
    reveal_strlit("properties");
    lemma_slots();
    let members = object_view(schema);
    assert("type"@.len() != "properties"@.len());
    let none = JsonView::Object(Map::<Seq<char>, JsonView>::empty());
    assert forall|k: Seq<char>| #[trigger] members.contains_key(k) implies match slot_of(k) {
        Slot::Plain => true,
        Slot::Named => members[k] == none,
        _ => false,
    } by {
        assert(k == "type"@ || k == "properties"@);
    }
}

} // verus!
