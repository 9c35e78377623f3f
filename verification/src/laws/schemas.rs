//! Laws of JSON schemas: where booleans give way to objects, which outputs are accepted, and what
//! is kept.

use std::any::TypeId;
use std::sync::Arc;

use vstd::prelude::*;

use crate::handler::server::schema::{
    bool_free, bools_replaced, check_output_schema, generator_settings, replace_bool_subschemas,
    root_schema, schema_for_empty_input, schema_for_output, schema_for_type, schema_json,
    try_schema_for_output, try_schema_for_type, SchemaCache,
};
use crate::json::{json_debug_text, object_view, JsonObject, JsonValue, JsonView};
use crate::laws::payloads::is_text;

verus! {

/// A keyword that holds one schema.
pub open spec fn holds_one(keyword: Seq<char>) -> bool {
    ||| keyword == "not"@
    ||| keyword == "if"@
    ||| keyword == "then"@
    ||| keyword == "else"@
    ||| keyword == "contains"@
    ||| keyword == "additionalProperties"@
    ||| keyword == "propertyNames"@
    ||| keyword == "additionalItems"@
}

/// A keyword that holds a list of schemas.
pub open spec fn holds_list(keyword: Seq<char>) -> bool {
    ||| keyword == "allOf"@
    ||| keyword == "anyOf"@
    ||| keyword == "oneOf"@
    ||| keyword == "prefixItems"@
}

/// A keyword that holds schemas by name.
pub open spec fn holds_named(keyword: Seq<char>) -> bool {
    ||| keyword == "properties"@
    ||| keyword == "patternProperties"@
    ||| keyword == "$defs"@
    ||| keyword == "definitions"@
}

/// A subschema gave way to an object of the same meaning where it was a boolean: `{}` for one that
/// accepts everything, `{"not": {}}` for one that accepts nothing. An object was treated in turn,
/// and anything else is as it was.
pub open spec fn gave_way(before: JsonView, after: JsonView) -> bool {
    match before {
        JsonView::Bool(accepts) => after matches JsonView::Object(members) && if accepts {
            members.dom() =~= Set::<Seq<char>>::empty()
        } else {
            members.dom() =~= set!["not"@] && (members["not"@] matches JsonView::Object(none)
                && none.dom() =~= Set::<Seq<char>>::empty())
        },
        JsonView::Object(_) => after is Object && bools_replaced(before, after),
        _ => after == before,
    }
}

/// Replacing booleans keeps the keywords of a schema. Each subschema gives way in its place, and
/// what a keyword holds that is no subschema stays as it is.
pub proof fn subschemas_give_way_in_their_places(
    before: Map<Seq<char>, JsonView>,
    after: Map<Seq<char>, JsonView>,
    keyword: Seq<char>,
)
    requires
        bools_replaced(JsonView::Object(before), JsonView::Object(after)),
    ensures
        after.contains_key(keyword) <==> before.contains_key(keyword),
        before.contains_key(keyword) ==> {
            let old_value = before[keyword];
            let new_value = after[keyword];
            if holds_one(keyword) || (keyword == "items"@ && old_value !is Array) {
                gave_way(old_value, new_value)
            } else if (holds_list(keyword) || keyword == "items"@) && old_value is Array {
                new_value matches JsonView::Array(new_list) && new_list.len()
                    == old_value->Array_0.len() && forall|i: int|
                    0 <= i < new_list.len() ==> gave_way(
                        old_value->Array_0[i],
                        #[trigger] new_list[i],
                    )
            } else if holds_named(keyword) && old_value is Object {
                new_value matches JsonView::Object(new_named) && new_named.dom()
                    == old_value->Object_0.dom() && forall|name: Seq<char>|
                    new_named.contains_key(name) ==> gave_way(
                        old_value->Object_0[name],
                        #[trigger] new_named[name],
                    )
            } else {
                new_value == old_value
            }
        },
{
    assert(after.dom() == before.dom());
    if before.contains_key(keyword) {
        lemma_keywords(keyword);
        let old_value = before[keyword];
        let new_value = after[keyword];
        if holds_one(keyword) || (keyword == "items"@ && old_value !is Array) {
            lemma_gave_way(old_value, new_value);
        } else if (holds_list(keyword) || keyword == "items"@) && old_value is Array {
            let new_list = new_value->Array_0;
            assert forall|i: int| 0 <= i < new_list.len() implies gave_way(
                old_value->Array_0[i],
                #[trigger] new_list[i],
            ) by {
                assert(bools_replaced(old_value->Array_0[i], new_list[i]));
                lemma_gave_way(old_value->Array_0[i], new_list[i]);
            }
        } else if holds_named(keyword) && old_value is Object {
            let new_named = new_value->Object_0;
            assert forall|name: Seq<char>| new_named.contains_key(name) implies gave_way(
                old_value->Object_0[name],
                #[trigger] new_named[name],
            ) by {
                assert(old_value->Object_0.contains_key(name));
                assert(bools_replaced(old_value->Object_0[name], new_named[name]));
                lemma_gave_way(old_value->Object_0[name], new_named[name]);
            }
        }
    }
}

proof fn lemma_gave_way(before: JsonView, after: JsonView)
    requires
        bools_replaced(before, after),
    ensures
        gave_way(before, after),
{
    if let JsonView::Bool(accepts) = before {
        let members = after->Object_0;
        if accepts {
            assert(members.dom() =~= Set::<Seq<char>>::empty());
        } else {
            assert(members.dom() =~= set!["not"@]);
            assert(members["not"@]->Object_0.dom() =~= Set::<Seq<char>>::empty());
        }
    }
}

/// The sorts of keywords exclude each other.
proof fn lemma_keywords(keyword: Seq<char>)
    ensures
        holds_one(keyword) ==> !holds_list(keyword) && !holds_named(keyword) && keyword
            != "items"@,
        holds_list(keyword) ==> !holds_named(keyword) && keyword != "items"@,
        holds_named(keyword) ==> keyword != "items"@,
{
    reveal_strlit("not");
    reveal_strlit("if");
    reveal_strlit("then");
    reveal_strlit("else");
    reveal_strlit("contains");
    reveal_strlit("additionalProperties");
    reveal_strlit("propertyNames");
    reveal_strlit("additionalItems");
    reveal_strlit("allOf");
    reveal_strlit("anyOf");
    reveal_strlit("oneOf");
    reveal_strlit("prefixItems");
    reveal_strlit("items");
    reveal_strlit("properties");
    reveal_strlit("patternProperties");
    reveal_strlit("$defs");
    reveal_strlit("definitions");
    assert("not"@.len() == 3 && "if"@.len() == 2 && "then"@.len() == 4 && "else"@.len() == 4
        && "contains"@.len() == 8 && "additionalProperties"@.len() == 20 && "propertyNames"@.len()
        == 13 && "additionalItems"@.len() == 15);
    assert("allOf"@.len() == 5 && "anyOf"@.len() == 5 && "oneOf"@.len() == 5 && "prefixItems"@.len()
        == 11 && "items"@.len() == 5 && "$defs"@.len() == 5 && "definitions"@.len() == 11);
    assert("allOf"@[0] == 'a');
    assert("anyOf"@[0] == 'a');
    assert("oneOf"@[0] == 'o');
    assert("items"@[0] == 'i');
    assert("$defs"@[0] == '$');
    assert("prefixItems"@[0] == 'p');
    assert("definitions"@[0] == 'd');
    assert("properties"@.len() == 10);
    assert("patternProperties"@.len() == 17);
}

/// A schema without boolean subschemas has none in any place for a subschema, and the objects in
/// these places have none either.
pub proof fn bool_free_schemas_hold_no_booleans(
    members: Map<Seq<char>, JsonView>,
    keyword: Seq<char>,
)
    requires
        bool_free(JsonView::Object(members)),
        members.contains_key(keyword),
    ensures
        holds_one(keyword) || keyword == "items"@ ==> members[keyword] !is Bool,
        holds_one(keyword) ==> bool_free(members[keyword]),
        keyword == "items"@ && members[keyword] !is Array ==> bool_free(members[keyword]),
        (holds_list(keyword) || keyword == "items"@) && members[keyword] is Array ==> forall|
            i: int,
        |
            0 <= i < members[keyword]->Array_0.len() ==> (#[trigger] members[keyword]->Array_0[i])
                !is Bool && bool_free(members[keyword]->Array_0[i]),
        holds_named(keyword) && members[keyword] is Object ==> forall|name: Seq<char>| #[trigger]
            members[keyword]->Object_0.contains_key(name) ==> members[keyword]->Object_0[name]
                !is Bool && bool_free(members[keyword]->Object_0[name]),
{
    lemma_keywords(keyword);
}

/// The schema of a root is the root with its booleans replaced, where it is an object, and the
/// root itself as an error otherwise.
pub proof fn roots_are_replaced_or_handed_back(
    root: schemars::Schema,
    schema: Result<JsonObject, JsonValue>,
)
    requires
        call_ensures(replace_bool_subschemas, (root,), schema),
    ensures
        schema is Ok <==> schema_json(root) is Object,
        schema matches Ok(object) ==> bools_replaced(
            schema_json(root),
            JsonView::Object(object_view(object)),
        ),
        schema matches Err(value) ==> value@ == schema_json(root),
{
}

/// An output schema is accepted exactly where its root type is the text `object`, and the error
/// says what stands in its place.
pub proof fn outputs_are_objects(schema: JsonObject, checked: Result<(), String>)
    requires
        call_ensures(check_output_schema, (&schema,), checked),
    ensures
        checked is Ok <==> object_view(schema).contains_key("type"@) && is_text(
            object_view(schema)["type"@],
            "object"@,
        ),
        checked matches Err(error) ==> if !object_view(schema).contains_key("type"@) {
            error@
                == "Schema is missing 'type' field. MCP specification requires outputSchema to have root type 'object'."@
        } else {
            match object_view(schema)["type"@] {
                JsonView::String(t) => error@
                    == "MCP specification requires tool outputSchema to have root type 'object', but found '"@
                    + t + "'."@,
                other => error@ == "Schema 'type' field has unexpected format: "@
                    + json_debug_text(other) + ". Expected \"object\"."@,
            }
        },
{
}

/// The schema of an empty input is an object with exactly a type, `object`, and no properties.
pub proof fn empty_inputs_have_no_properties(schema: Arc<JsonObject>)
    requires
        call_ensures(schema_for_empty_input, (), schema),
    ensures
        object_view(*schema).contains_key("type"@),
        is_text(object_view(*schema)["type"@], "object"@),
        object_view(*schema).contains_key("properties"@),
        object_view(*schema)["properties"@] matches JsonView::Object(none) && forall|
            name: Seq<char>,
        | !#[trigger] none.contains_key(name),
        forall|name: Seq<char>| #[trigger]
            object_view(*schema).contains_key(name) ==> name == "type"@ || name == "properties"@,
{
    reveal_strlit("type");
    reveal_strlit("properties");
    assert("type"@.len() != "properties"@.len());
}

/// `root` is what `generate` gives with a generator of draft 2020-12: one that names that dialect,
/// puts definitions under `/$defs`, describes what is read, and does nothing else to a schema.
pub open spec fn comes_from<G: FnOnce(schemars::SchemaGenerator) -> schemars::Schema>(
    generate: G,
    root: schemars::Schema,
) -> bool {
    exists|generator: schemars::SchemaGenerator|
        {
            &&& #[trigger] generate.ensures((generator,), root)
            &&& generator_settings(generator).meta_schema == Some(
                "https://json-schema.org/draft/2020-12/schema"@,
            )
            &&& generator_settings(generator).definitions_path == "/$defs"@
            &&& generator_settings(generator).transforms == 0
            &&& !generator_settings(generator).inline_subschemas
            &&& !generator_settings(generator).for_serialize
            &&& !generator_settings(generator).untagged_enum_variant_titles
        }
}

/// A root schema is generated with the settings of draft 2020-12.
pub proof fn roots_are_of_the_dialect<
    G: FnOnce(schemars::SchemaGenerator) -> schemars::Schema,
>(generate: G, root: schemars::Schema)
    requires
        call_ensures(root_schema::<G>, (generate,), root),
    ensures
        comes_from(generate, root),
{
    lemma_comes_from(generate, root);
}

proof fn lemma_comes_from<G: FnOnce(schemars::SchemaGenerator) -> schemars::Schema>(
    generate: G,
    root: schemars::Schema,
)
    requires
        crate::handler::server::schema::generated(generate, root),
    ensures
        comes_from(generate, root),
{
    let generator = choose|generator: schemars::SchemaGenerator|
        generator_settings(generator) == crate::handler::server::schema::draft_2020_12()
            && #[trigger] generate.ensures((generator,), root);
    assert(generate.ensures((generator,), root));
}

/// The schemas that are kept after one was asked for: that one for its type, and those of all
/// other types as they were.
pub open spec fn keeps_one(
    before: Map<TypeId, Arc<JsonObject>>,
    after: Map<TypeId, Arc<JsonObject>>,
    of: TypeId,
    schema: Arc<JsonObject>,
) -> bool {
    &&& after.contains_key(of)
    &&& after[of] == schema
    &&& before.contains_key(of) ==> before[of] == schema
    &&& forall|id: TypeId|
        id != of ==> (#[trigger] after.contains_key(id) <==> before.contains_key(id))
    &&& forall|id: TypeId|
        id != of && before.contains_key(id) ==> #[trigger] after[id] == before[id]
}

/// A cache starts empty, and looking up a type gives the schema that is kept for it.
pub proof fn caches_start_empty(
    fresh: SchemaCache,
    default: SchemaCache,
    cache: SchemaCache,
    of: TypeId,
    schema: Option<Arc<JsonObject>>,
)
    requires
        call_ensures(SchemaCache::new, (), fresh),
        call_ensures(<SchemaCache as Default>::default, (), default),
        call_ensures(SchemaCache::schema_of, (&cache, of), schema),
    ensures
        forall|id: TypeId| !#[trigger] fresh.types().contains_key(id),
        forall|id: TypeId| !#[trigger] fresh.outputs().contains_key(id),
        forall|id: TypeId| !#[trigger] default.types().contains_key(id),
        forall|id: TypeId| !#[trigger] default.outputs().contains_key(id),
        match schema {
            Some(known) => cache.types().contains_key(of) && cache.types()[of] == known,
            None => !cache.types().contains_key(of),
        },
{
}

/// Keeping a schema gives the one that was kept before, where there was one, and otherwise keeps
/// that of the root. A root that is no object is handed back where none was kept, and the cache is
/// then as it was.
pub proof fn one_schema_is_kept(
    cache: &mut SchemaCache,
    of: TypeId,
    root: schemars::Schema,
    schema: Result<Arc<JsonObject>, JsonValue>,
)
    requires
        call_ensures(SchemaCache::keep_schema, (cache, of, root), schema),
    ensures
        final(cache).outputs() == old(cache).outputs(),
        schema is Ok <==> old(cache).types().contains_key(of) || schema_json(root) is Object,
        schema matches Ok(known) ==> {
            &&& keeps_one(old(cache).types(), final(cache).types(), of, known)
            &&& !old(cache).types().contains_key(of) ==> bools_replaced(
                schema_json(root),
                JsonView::Object(object_view(*known)),
            )
        },
        schema matches Err(value) ==> final(cache).types() == old(cache).types() && value@
            == schema_json(root),
{
}

/// Asking for the schema of a type gives the one that was kept, where there was one. Otherwise it
/// gives, and keeps, what was generated, with its booleans replaced.
pub proof fn asked_schemas_are_kept<G: FnOnce(schemars::SchemaGenerator) -> schemars::Schema>(
    cache: &mut SchemaCache,
    of: TypeId,
    generate: G,
    schema: Arc<JsonObject>,
)
    requires
        call_ensures(schema_for_type::<G>, (cache, of, generate), schema),
    ensures
        final(cache).outputs() == old(cache).outputs(),
        keeps_one(old(cache).types(), final(cache).types(), of, schema),
        bool_free(JsonView::Object(object_view(*schema))),
        !old(cache).types().contains_key(of) ==> exists|root: schemars::Schema| #[trigger]
            comes_from(generate, root) && schema_json(root) is Object && bools_replaced(
                schema_json(root),
                JsonView::Object(object_view(*schema)),
            ),
{
    if !old(cache).types().contains_key(of) {
        lemma_generated(generate, schema);
    }
}

/// As [`asked_schemas_are_kept`], with a root that is no object handed back as an error.
pub proof fn tried_schemas_are_kept<G: FnOnce(schemars::SchemaGenerator) -> schemars::Schema>(
    cache: &mut SchemaCache,
    of: TypeId,
    generate: G,
    schema: Result<Arc<JsonObject>, JsonValue>,
)
    requires
        call_ensures(try_schema_for_type::<G>, (cache, of, generate), schema),
    ensures
        final(cache).outputs() == old(cache).outputs(),
        schema matches Ok(known) ==> {
            &&& keeps_one(old(cache).types(), final(cache).types(), of, known)
            &&& bool_free(JsonView::Object(object_view(*known)))
            &&& !old(cache).types().contains_key(of) ==> exists|root: schemars::Schema| #[trigger]
                comes_from(generate, root) && schema_json(root) is Object && bools_replaced(
                    schema_json(root),
                    JsonView::Object(object_view(*known)),
                )
        },
        schema matches Err(value) ==> {
            &&& !old(cache).types().contains_key(of)
            &&& final(cache).types() == old(cache).types()
            &&& exists|root: schemars::Schema| #[trigger]
                comes_from(generate, root) && schema_json(root) !is Object && value@
                    == schema_json(root)
        },
{
    match schema {
        Ok(known) => {
            if !old(cache).types().contains_key(of) {
                lemma_generated(generate, known);
            }
        },
        Err(value) => {
            lemma_no_object(generate, value@);
        },
    }
}

/// Asking for an output schema keeps the schema of the type as asking for that does, and gives it
/// exactly where its root type is `object`. The outcome is kept for the type, and those of other
/// types are as they were.
pub proof fn asked_outputs_are_kept<G: FnOnce(schemars::SchemaGenerator) -> schemars::Schema>(
    cache: &mut SchemaCache,
    of: TypeId,
    generate: G,
    output: Result<Arc<JsonObject>, String>,
)
    requires
        call_ensures(schema_for_output::<G>, (cache, of, generate), output),
    ensures
        answers_output(*old(cache), *final(cache), of, output),
        !old(cache).types().contains_key(of) ==> exists|root: schemars::Schema| #[trigger]
            comes_from(generate, root) && schema_json(root) is Object && bools_replaced(
                schema_json(root),
                JsonView::Object(object_view(*final(cache).types()[of])),
            ),
{
    if !old(cache).types().contains_key(of) {
        lemma_generated(generate, final(cache).types()[of]);
    }
}

/// As [`asked_outputs_are_kept`], with a root that is no object handed back as an error.
pub proof fn tried_outputs_are_kept<G: FnOnce(schemars::SchemaGenerator) -> schemars::Schema>(
    cache: &mut SchemaCache,
    of: TypeId,
    generate: G,
    output: Result<Result<Arc<JsonObject>, String>, JsonValue>,
)
    requires
        call_ensures(try_schema_for_output::<G>, (cache, of, generate), output),
    ensures
        output matches Ok(answer) ==> {
            &&& answers_output(*old(cache), *final(cache), of, answer)
            &&& !old(cache).types().contains_key(of) ==> exists|root: schemars::Schema| #[trigger]
                comes_from(generate, root) && schema_json(root) is Object && bools_replaced(
                    schema_json(root),
                    JsonView::Object(object_view(*final(cache).types()[of])),
                )
        },
        output matches Err(value) ==> {
            &&& !old(cache).types().contains_key(of)
            &&& final(cache).types() == old(cache).types()
            &&& final(cache).outputs() == old(cache).outputs()
            &&& exists|root: schemars::Schema| #[trigger]
                comes_from(generate, root) && schema_json(root) !is Object && value@
                    == schema_json(root)
        },
{
    match output {
        Ok(_) => {
            if !old(cache).types().contains_key(of) {
                lemma_generated(generate, final(cache).types()[of]);
            }
        },
        Err(value) => {
            lemma_no_object(generate, value@);
        },
    }
}

/// An output was answered from the schema that is kept for its type.
pub open spec fn answers_output(
    before: SchemaCache,
    after: SchemaCache,
    of: TypeId,
    output: Result<Arc<JsonObject>, String>,
) -> bool {
    let schema = after.types()[of];
    &&& keeps_one(before.types(), after.types(), of, schema)
    &&& output is Ok <==> object_view(*schema).contains_key("type"@) && is_text(
        object_view(*schema)["type"@],
        "object"@,
    )
    &&& output matches Ok(accepted) ==> accepted == schema && bool_free(
        JsonView::Object(object_view(*accepted)),
    )
    &&& output matches Err(error) ==> if !object_view(*schema).contains_key("type"@) {
        error@
            == "Schema is missing 'type' field. MCP specification requires outputSchema to have root type 'object'."@
    } else {
        match object_view(*schema)["type"@] {
            JsonView::String(t) => error@
                == "MCP specification requires tool outputSchema to have root type 'object', but found '"@
                + t + "'."@,
            other => error@ == "Schema 'type' field has unexpected format: "@ + json_debug_text(
                other,
            ) + ". Expected \"object\"."@,
        }
    }
    &&& after.outputs().contains_key(of)
    &&& !before.outputs().contains_key(of) ==> after.outputs()[of] == output
    &&& before.outputs().contains_key(of) ==> after.outputs() == before.outputs()
    &&& forall|id: TypeId|
        id != of ==> (#[trigger] after.outputs().contains_key(id) <==> before.outputs().contains_key(
            id,
        ))
    &&& forall|id: TypeId|
        id != of && before.outputs().contains_key(id) ==> #[trigger] after.outputs()[id]
            == before.outputs()[id]
}

proof fn lemma_generated<G: FnOnce(schemars::SchemaGenerator) -> schemars::Schema>(
    generate: G,
    schema: Arc<JsonObject>,
)
    requires
        crate::handler::server::schema::generated_by(generate, *schema),
    ensures
        exists|root: schemars::Schema| #[trigger]
            comes_from(generate, root) && schema_json(root) is Object && bools_replaced(
                schema_json(root),
                JsonView::Object(object_view(*schema)),
            ),
{
    let root = choose|root: schemars::Schema| #[trigger]
        crate::handler::server::schema::generated(generate, root) && schema_json(root) is Object
            && bools_replaced(schema_json(root), JsonView::Object(object_view(*schema)));
    lemma_comes_from(generate, root);
}

proof fn lemma_no_object<G: FnOnce(schemars::SchemaGenerator) -> schemars::Schema>(
    generate: G,
    value: JsonView,
)
    requires
        crate::handler::server::schema::no_object_by(generate, value),
    ensures
        exists|root: schemars::Schema| #[trigger]
            comes_from(generate, root) && schema_json(root) !is Object && value == schema_json(
                root,
            ),
{
    let root = choose|root: schemars::Schema| #[trigger]
        crate::handler::server::schema::generated(generate, root) && schema_json(root) !is Object
            && value == schema_json(root);
    lemma_comes_from(generate, root);
}

} // verus!
