//! Laws of JSON values and of maps with string keys.

use vstd::prelude::*;
use vstd::utf8::encode_utf8;

use crate::json::{
    clone_object, json_debug_text, json_of, json_text, lemma_array_view, lemma_object_view,
    number_view, object_view, JsonObject, JsonValue, JsonView, NumberView,
};
use crate::model::Meta;
use crate::string_map::{
    bytes_before, insert_all, key_order, lemma_ascending_distinct, same_text, KeyOrder, StringMap,
};

verus! {

/// An object stands for its members, each under its name.
pub open spec fn stands_for_members(members: Map<Seq<char>, JsonView>, object: JsonObject) -> bool {
    &&& forall|name: Seq<char>| #[trigger]
        members.contains_key(name) <==> object@.contains_key(name)
    &&& forall|name: Seq<char>|
        object@.contains_key(name) ==> #[trigger] members[name] == object@[name]@
}

/// A JSON value stands for what it holds: a scalar for itself, a list for its elements in their
/// order, and an object for its members under their names.
pub proof fn values_stand_for_what_they_hold(value: JsonValue)
    ensures
        match value {
            JsonValue::Null => value@ is Null,
            JsonValue::Bool(b) => value@ matches JsonView::Bool(c) && c == b,
            JsonValue::Number(n) => value@ matches JsonView::Number(m) && m == number_view(n),
            JsonValue::String(s) => value@ matches JsonView::String(t) && t == s@,
            JsonValue::Array(list) => value@ matches JsonView::Array(elements) && elements.len()
                == list@.len() && forall|i: int|
                0 <= i < list@.len() ==> #[trigger] elements[i] == list@[i]@,
            JsonValue::Object(object) => value@ matches JsonView::Object(members)
                && stands_for_members(members, object),
        },
{
    match value {
        JsonValue::Array(list) => {
            lemma_array_view(list);
        },
        JsonValue::Object(object) => {
            lemma_object_view(object);
            objects_stand_for_their_members(object, Meta(object));
        },
        _ => {},
    }
}

/// Objects and `_meta` entries stand for their members under their names.
pub proof fn objects_stand_for_their_members(object: JsonObject, meta: Meta)
    ensures
        stands_for_members(object_view(object), object),
        stands_for_members(meta@, meta.0),
{
}

/// Values go to `serde_json` and come back as they are, and numbers are made as they are given.
pub proof fn values_are_exchanged_as_they_are(
    outside: serde_json::Value,
    value: JsonValue,
    back: serde_json::Value,
    n: u32,
    number: JsonValue,
)
    requires
        call_ensures(JsonValue::from_serde, (outside,), value),
        call_ensures(JsonValue::to_serde, (&value,), back),
        call_ensures(JsonValue::from_u32, (n,), number),
    ensures
        value@ == json_of(outside),
        json_of(back) == json_of(outside),
        number@ matches JsonView::Number(NumberView::Integer(m)) && m == n,
{
}

/// The texts of a value are those that `serde_json` gives of it, and a value is compared with a
/// text character by character.
pub proof fn texts_are_those_of_the_value(
    value: JsonValue,
    text: String,
    debug_text: String,
    other: &str,
    same: bool,
)
    requires
        call_ensures(JsonValue::to_text, (&value,), text),
        call_ensures(JsonValue::to_debug_text, (&value,), debug_text),
        call_ensures(JsonValue::is_string, (&value, other), same),
    ensures
        text@ == json_text(value@),
        debug_text@ == json_debug_text(value@),
        same <==> (value@ matches JsonView::String(s) && s == other@),
{
}

/// Copies stand for the same.
pub proof fn copies_stand_for_the_same(
    value: JsonValue,
    copy: JsonValue,
    object: JsonObject,
    object_copy: JsonObject,
    meta: Meta,
    meta_copy: Meta,
    no_entries: Meta,
    default: Meta,
)
    requires
        call_ensures(<JsonValue as Clone>::clone, (&value,), copy),
        call_ensures(clone_object, (&object,), object_copy),
        call_ensures(<Meta as Clone>::clone, (&meta,), meta_copy),
        call_ensures(Meta::new, (), no_entries),
        call_ensures(<Meta as Default>::default, (), default),
    ensures
        copy@ == value@,
        object_view(object_copy) == object_view(object),
        meta_copy@ == meta@,
        no_entries@ == Map::<Seq<char>, JsonView>::empty(),
        default@ == Map::<Seq<char>, JsonView>::empty(),
{
}

/// A fresh map has no keys.
pub proof fn fresh_maps_are_empty<V>(map: StringMap<V>, default: StringMap<V>)
    requires
        call_ensures(StringMap::<V>::new, (), map),
        call_ensures(<StringMap<V> as Default>::default, (), default),
    ensures
        forall|key: Seq<char>| !#[trigger] map@.contains_key(key),
        forall|key: Seq<char>| !#[trigger] default@.contains_key(key),
{
}

/// Looking up a key gives the value at it, where there is one.
pub proof fn lookups_give_the_value_at_the_key<V>(
    map: StringMap<V>,
    key: &str,
    value: Option<&V>,
    found: bool,
    len: usize,
    empty: bool,
)
    requires
        call_ensures(StringMap::<V>::get, (&map, key), value),
        call_ensures(StringMap::<V>::contains_key, (&map, key), found),
        call_ensures(StringMap::<V>::len, (&map,), len),
        call_ensures(StringMap::<V>::is_empty, (&map,), empty),
    ensures
        found <==> map@.contains_key(key@),
        match value {
            Some(v) => map@.contains_key(key@) && *v == map@[key@],
            None => !map@.contains_key(key@),
        },
        map@.dom().finite(),
        len == map@.dom().len(),
        empty <==> forall|k: Seq<char>| !#[trigger] map@.contains_key(k),
{
    if forall|k: Seq<char>| !#[trigger] map@.contains_key(k) {
        assert(map@ =~= Map::<Seq<char>, V>::empty());
    }
}

/// Setting a key sets the value at it, keeps the other keys, and gives the value that was there.
pub proof fn one_key_is_set<V>(
    map: &mut StringMap<V>,
    key: String,
    value: V,
    replaced: Option<V>,
)
    requires
        call_ensures(StringMap::<V>::insert, (map, key, value), replaced),
    ensures
        final(map)@.contains_key(key@),
        final(map)@[key@] == value,
        forall|k: Seq<char>|
            k != key@ ==> (#[trigger] final(map)@.contains_key(k) <==> old(map)@.contains_key(k)),
        forall|k: Seq<char>|
            k != key@ && old(map)@.contains_key(k) ==> #[trigger] final(map)@[k] == old(map)@[k],
        match replaced {
            Some(v) => old(map)@.contains_key(key@) && v == old(map)@[key@],
            None => !old(map)@.contains_key(key@),
        },
{
}

/// Taking out a key takes out that one, keeps the others, and gives the value that was there.
pub proof fn one_key_is_taken_out<V>(map: &mut StringMap<V>, key: &str, removed: Option<V>)
    requires
        call_ensures(StringMap::<V>::remove, (map, key), removed),
    ensures
        !final(map)@.contains_key(key@),
        forall|k: Seq<char>|
            k != key@ ==> (#[trigger] final(map)@.contains_key(k) <==> old(map)@.contains_key(k)),
        forall|k: Seq<char>|
            k != key@ && old(map)@.contains_key(k) ==> #[trigger] final(map)@[k] == old(map)@[k],
        match removed {
            Some(v) => old(map)@.contains_key(key@) && v == old(map)@[key@],
            None => !old(map)@.contains_key(key@),
        },
{
}

/// Walking a map meets each key once, with its value, in the byte order of the keys.
pub proof fn walks_meet_each_key_once<V>(map: StringMap<V>, entries: &Vec<(String, V)>)
    requires
        call_ensures(StringMap::<V>::entries, (&map,), entries),
    ensures
        forall|i: int|
            0 <= i < entries@.len() ==> map@.contains_key((#[trigger] entries@[i]).0@)
                && map@[entries@[i].0@] == entries@[i].1,
        forall|key: Seq<char>| #[trigger]
            map@.contains_key(key) ==> exists|i: int|
                0 <= i < entries@.len() && (#[trigger] entries@[i]).0@ == key,
        forall|i: int, j: int|
            0 <= i < j < entries@.len() ==> comes_before(
                encode_utf8((#[trigger] entries@[i]).0@),
                encode_utf8((#[trigger] entries@[j]).0@),
            ),
{
    let keys = map.keys();
    lemma_ascending_distinct(keys);
    assert forall|i: int| 0 <= i < entries@.len() implies map@.contains_key(
        (#[trigger] entries@[i]).0@,
    ) && map@[entries@[i].0@] == entries@[i].1 by {
        assert(keys[i] == entries@[i].0@);
        assert(keys.index_of(keys[i]) == i);
        assert(map.values()[i] == entries@[i].1);
    }
    assert forall|key: Seq<char>| #[trigger] map@.contains_key(key) implies exists|i: int|
        0 <= i < entries@.len() && (#[trigger] entries@[i]).0@ == key by {
        let i = keys.index_of(key);
        assert(keys[i] == key);
        assert(entries@[i].0@ == key);
    }
    assert forall|i: int, j: int| 0 <= i < j < entries@.len() implies comes_before(
        encode_utf8((#[trigger] entries@[i]).0@),
        encode_utf8((#[trigger] entries@[j]).0@),
    ) by {
        assert(keys[i] == entries@[i].0@);
        assert(keys[j] == entries@[j].0@);
        lemma_byte_order(encode_utf8(keys[i]), encode_utf8(keys[j]));
    }
}

/// One byte string comes before another: it is a proper beginning of it, or has the smaller byte
/// where they first differ.
pub open spec fn comes_before(a: Seq<u8>, b: Seq<u8>) -> bool {
    exists|p: int|
        #![trigger a.take(p)]
        0 <= p <= a.len() && p < b.len() && a.take(p) == b.take(p) && (p == a.len() || a[p] < b[p])
}

/// The order of byte strings goes by the first place at which they differ.
pub proof fn lemma_byte_order(a: Seq<u8>, b: Seq<u8>)
    ensures
        bytes_before(a, b) <==> comes_before(a, b),
    decreases a.len(),
{
    if b.len() == 0 {
    } else if a.len() == 0 {
        assert(a.take(0) =~= b.take(0));
    } else if a[0] != b[0] {
        if a[0] < b[0] {
            assert(a.take(0) =~= b.take(0));
        }
        if comes_before(a, b) {
            let p = choose|p: int|
                #![trigger a.take(p)]
                0 <= p <= a.len() && p < b.len() && a.take(p) == b.take(p) && (p == a.len() || a[p]
                    < b[p]);
            if p > 0 {
                assert(a.take(p)[0] == b.take(p)[0]);
            }
        }
    } else {
        let x = a.drop_first();
        let y = b.drop_first();
        lemma_byte_order(x, y);
        if comes_before(x, y) {
            let p = choose|p: int|
                #![trigger x.take(p)]
                0 <= p <= x.len() && p < y.len() && x.take(p) == y.take(p) && (p == x.len() || x[p]
                    < y[p]);
            assert(a.take(p + 1) =~= seq![a[0]] + x.take(p));
            assert(b.take(p + 1) =~= seq![b[0]] + y.take(p));
            assert(a.take(p + 1) == b.take(p + 1));
        }
        if comes_before(a, b) {
            let p = choose|p: int|
                #![trigger a.take(p)]
                0 <= p <= a.len() && p < b.len() && a.take(p) == b.take(p) && (p == a.len() || a[p]
                    < b[p]);
            assert(p > 0);
            assert(x.take(p - 1) =~= a.take(p).drop_first());
            assert(y.take(p - 1) =~= b.take(p).drop_first());
            assert(x.take(p - 1) == y.take(p - 1));
        }
    }
}

/// Two keys are compared by their bytes.
pub proof fn keys_are_compared_by_their_bytes(a: &str, b: &str, order: KeyOrder, same: bool)
    requires
        call_ensures(key_order, (a, b), order),
        call_ensures(same_text, (a, b), same),
    ensures
        same <==> a@ == b@,
        order is Same <==> a@ == b@,
        order is Before <==> comes_before(encode_utf8(a@), encode_utf8(b@)),
        order is After <==> comes_before(encode_utf8(b@), encode_utf8(a@)),
{
    lemma_byte_order(encode_utf8(a@), encode_utf8(b@));
    lemma_byte_order(encode_utf8(b@), encode_utf8(a@));
    lemma_one_way(encode_utf8(a@), encode_utf8(b@));
    lemma_one_way(encode_utf8(b@), encode_utf8(a@));
}

/// No byte string comes before itself, nor two before each other.
proof fn lemma_one_way(a: Seq<u8>, b: Seq<u8>)
    ensures
        !bytes_before(a, a),
        bytes_before(a, b) ==> !bytes_before(b, a),
    decreases a.len(),
{
    if a.len() > 0 {
        lemma_one_way(a.drop_first(), b.drop_first());
    }
}

/// A map made of entries has the keys of these, each with the last value that is given for it.
pub proof fn maps_have_the_last_values<V>(entries: Vec<(String, V)>, map: StringMap<V>)
    requires
        call_ensures(StringMap::<V>::from_entries, (entries,), map),
    ensures
        forall|key: Seq<char>| #[trigger]
            map@.contains_key(key) ==> exists|i: int|
                0 <= i < entries@.len() && (#[trigger] entries@[i]).0@ == key && entries@[i].1
                    == map@[key] && forall|j: int|
                    i < j < entries@.len() ==> (#[trigger] entries@[j]).0@ != key,
        forall|i: int|
            0 <= i < entries@.len() ==> map@.contains_key((#[trigger] entries@[i]).0@),
{
    lemma_last_values(entries@);
}

proof fn lemma_last_values<V>(entries: Seq<(String, V)>)
    ensures
        forall|key: Seq<char>| #[trigger]
            insert_all(entries).contains_key(key) ==> exists|i: int|
                0 <= i < entries.len() && (#[trigger] entries[i]).0@ == key && entries[i].1
                    == insert_all(entries)[key] && forall|j: int|
                    i < j < entries.len() ==> (#[trigger] entries[j]).0@ != key,
        forall|i: int|
            0 <= i < entries.len() ==> insert_all(entries).contains_key((#[trigger] entries[i]).0@),
    decreases entries.len(),
{
    if entries.len() > 0 {
        let earlier = entries.drop_last();
        let last = entries.len() - 1;
        lemma_last_values(earlier);
        assert forall|key: Seq<char>| #[trigger]
            insert_all(entries).contains_key(key) implies exists|i: int|
            0 <= i < entries.len() && (#[trigger] entries[i]).0@ == key && entries[i].1
                == insert_all(entries)[key] && forall|j: int|
                i < j < entries.len() ==> (#[trigger] entries[j]).0@ != key by {
            if key == entries[last].0@ {
                assert(entries[last].1 == insert_all(entries)[key]);
            } else {
                assert(insert_all(earlier).contains_key(key));
                let i = choose|i: int|
                    0 <= i < earlier.len() && (#[trigger] earlier[i]).0@ == key && earlier[i].1
                        == insert_all(earlier)[key] && forall|j: int|
                        i < j < earlier.len() ==> (#[trigger] earlier[j]).0@ != key;
                assert(entries[i] == earlier[i]);
                assert forall|j: int| i < j < entries.len() implies (#[trigger] entries[j]).0@
                    != key by {
                    if j < last {
                        assert(earlier[j] == entries[j]);
                    }
                }
            }
        }
        assert forall|i: int| 0 <= i < entries.len() implies insert_all(entries).contains_key(
            (#[trigger] entries[i]).0@,
        ) by {
            if i < last {
                assert(earlier[i] == entries[i]);
            }
        }
    }
}

/// A copy of a map has the same keys, each with a clone of its value.
pub proof fn copied_maps_hold_clones<V: Clone>(map: StringMap<V>, copy: StringMap<V>)
    requires
        call_ensures(<StringMap<V> as Clone>::clone, (&map,), copy),
    ensures
        forall|key: Seq<char>| #[trigger]
            copy@.contains_key(key) <==> map@.contains_key(key),
        forall|key: Seq<char>|
            map@.contains_key(key) ==> cloned(map@[key], #[trigger] copy@[key]),
{
    crate::string_map::lemma_values_len(map);
    assert forall|key: Seq<char>| map@.contains_key(key) implies cloned(
        map@[key],
        #[trigger] copy@[key],
    ) by {
        let i = map.keys().index_of(key);
        assert(map.keys()[i] == key);
        assert(cloned(map.values()[i], copy.values()[i]));
    }
}

} // verus!
