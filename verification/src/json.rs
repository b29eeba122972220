//! JSON values of `serde_json` and how their objects are merged.
use crate::text::{is_digits, result_view};
use serde_json::Map as JsonMap;
use serde_json::Value as JsonValue;
use vstd::prelude::*;

verus! {

/// `serde_json::Value`. What a value holds is [`json`].
#[verifier::external_type_specification]
#[verifier::external_body]
pub struct ExJsonValue(serde_json::Value);

/// `serde_json::Map`. What an object map holds is [`entries`].
#[verifier::external_type_specification]
#[verifier::external_body]
#[verifier::reject_recursive_types(K)]
#[verifier::reject_recursive_types(V)]
pub struct ExJsonMap<K, V>(serde_json::Map<K, V>);

/// The mathematical reading of a JSON value.
pub enum Json {
    Null,
    Bool(bool),
    /// A number, as the text that stands for it.
    Number(Seq<char>),
    Text(Seq<char>),
    Array(Seq<Json>),
    Object(Map<Seq<char>, Json>),
}

/// What a `serde_json::Value` holds.
pub uninterp spec fn json(value: JsonValue) -> Json;

/// What a `serde_json::Map` holds: each key with the value that stands under it.
pub uninterp spec fn entries(map: JsonMap<String, JsonValue>) -> Map<Seq<char>, Json>;

/// What `serde_json::to_string` returns for a value that holds `value`: its text, or the message
/// of the error.
pub uninterp spec fn json_text(value: Json) -> Result<Seq<char>, Seq<char>>;

/// What `serde_json::from_str` reads from `text` as a `serde_json::Value`: what the value holds, or
/// nothing where no value is read.
pub uninterp spec fn parsed_json(text: Seq<char>) -> Option<Json>;

/// What `serde_json::from_str` reads from `text` as a `serde_json::Map`: its entries, or nothing
/// where no map is read.
pub uninterp spec fn parsed_map(text: Seq<char>) -> Option<Map<Seq<char>, Json>>;

/// Whether `text` is a whole number: digits, behind at most one minus sign.
pub open spec fn is_whole(text: Seq<char>) -> bool {
    is_digits(text) || (text.len() > 0 && text.first() == '-' && is_digits(text.drop_first()))
}

/// The key that `serde_json` reserves for JSON text inside of a value: it may read an object with
/// this key as the value of the text that stands under it.
pub open spec fn raw_text_key() -> Seq<char> {
    "$serde_json::private::RawValue"@
}

/// Whether arrays and objects are nested at most `depth` deep in a value, its numbers are whole, and
/// its objects do without the reserved key.
pub open spec fn is_plain_within(value: Json, depth: nat) -> bool
    decreases depth,
{
    match value {
        Json::Number(text) => is_whole(text),
        Json::Array(items) => depth > 0 && forall|i: int|
            0 <= i < items.len() ==> is_plain_within(#[trigger] items[i], (depth - 1) as nat),
        Json::Object(held) => depth > 0 && !held.contains_key(raw_text_key()) && forall|
            key: Seq<char>,
        | #[trigger]
            held.contains_key(key) ==> is_plain_within(held[key], (depth - 1) as nat),
        _ => true,
    }
}

/// Whether a value is sure to be read back as it was written. Fractions may lose their last digit,
/// values that are nested deeper are not read, and an object with the reserved key may be read as
/// something else.
pub open spec fn is_readable(value: Json) -> bool {
    is_plain_within(value, 127)
}

/// `source` laid over `destination`: two objects are merged key by key, anything else is
/// replaced by `source`.
pub open spec fn merged_value(destination: Option<Json>, source: Json) -> Json
    decreases source,
{
    match (destination, source) {
        (Some(Json::Object(below)), Json::Object(above)) => Json::Object(
            Map::new(
                |key: Seq<char>| below.contains_key(key) || above.contains_key(key),
                |key: Seq<char>|
                    if above.contains_key(key) {
                        merged_value(below.get(key), above[key])
                    } else {
                        below[key]
                    },
            ),
        ),
        _ => source,
    }
}

/// The entries of an object after `above` was merged into `below`.
pub open spec fn merged(
    below: Map<Seq<char>, Json>,
    above: Map<Seq<char>, Json>,
) -> Map<Seq<char>, Json> {
    Map::new(
        |key: Seq<char>| below.contains_key(key) || above.contains_key(key),
        |key: Seq<char>|
            if above.contains_key(key) {
                merged_value(below.get(key), above[key])
            } else {
                below[key]
            },
    )
}

/// Two objects merge into the object of their merged entries.
pub proof fn lemma_merged_objects(below: Map<Seq<char>, Json>, above: Map<Seq<char>, Json>)
    ensures
        merged_value(Some(Json::Object(below)), Json::Object(above)) == Json::Object(
            merged(below, above),
        ),
{
    assert(merged_value(Some(Json::Object(below)), Json::Object(above))->Object_0 =~= merged(
        below,
        above,
    ));
}

/// What stands under a key of an object is smaller than the object.
proof fn lemma_entry_is_smaller(object: Json, key: Seq<char>)
    requires
        object is Object,
        object->Object_0.contains_key(key),
    ensures
        decreases_to!(object => object->Object_0[key]),
{
    match object {
        Json::Object(held) => {
            assert(is_smaller_than_recursive_function_field(held[key], held));
        },
        _ => {},
    }
}

/// `serde_json::Map::iter`, collected: every entry once.
/// The order in which the entries come is left open.
#[verifier::external_body]
fn map_entries(map: &JsonMap<String, JsonValue>) -> (listed: Vec<(&String, &JsonValue)>)
    ensures
        forall|i: int, j: int|
            0 <= i < j < listed@.len() ==> (#[trigger] listed@[i]).0@ != (#[trigger] listed@[j]).0@,
        forall|i: int|
            0 <= i < listed@.len() ==> entries(*map).contains_pair(
                (#[trigger] listed@[i]).0@,
                json(*listed@[i].1),
            ),
        forall|key: Seq<char>| #[trigger]
            entries(*map).contains_key(key) ==> exists|i: int|
                0 <= i < listed@.len() && (#[trigger] listed@[i]).0@ == key,
{
    map.iter().collect()
}

/// `serde_json::Map::get_mut`: the value under `key`, to be changed in place.
#[verifier::external_body]
fn map_get_mut<'a>(map: &'a mut JsonMap<String, JsonValue>, key: &String) -> (slot: Option<
    &'a mut JsonValue,
>)
    ensures
        match slot {
            Some(value) => {
                &&& entries(*old(map)).contains_pair(key@, json(*value))
                &&& entries(*final(map)) == entries(*old(map)).insert(key@, json(*final(value)))
            },
            None => {
                &&& !entries(*old(map)).contains_key(key@)
                &&& entries(*final(map)) == entries(*old(map))
            },
        },
{
    map.get_mut(key)
}

/// `serde_json::Map::insert`, without the value that it returns: `key` now stands for `value`.
#[verifier::external_body]
fn map_insert(map: &mut JsonMap<String, JsonValue>, key: String, value: JsonValue)
    ensures
        entries(*final(map)) == entries(*old(map)).insert(key@, json(value)),
{
    map.insert(key, value);
}

/// `serde_json::Value::as_object`: the object map of a value that is an object.
#[verifier::external_body]
fn as_object(value: &JsonValue) -> (object: Option<&JsonMap<String, JsonValue>>)
    ensures
        match object {
            Some(map) => json(*value) == Json::Object(entries(*map)),
            None => !(json(*value) is Object),
        },
{
    value.as_object()
}

/// `serde_json::Value::as_object_mut`: the object map of a value that is an object, to be
/// changed in place.
#[verifier::external_body]
fn as_object_mut(value: &mut JsonValue) -> (object: Option<&mut JsonMap<String, JsonValue>>)
    ensures
        match object {
            Some(map) => {
                &&& json(*old(value)) == Json::Object(entries(*map))
                &&& json(*final(value)) == Json::Object(entries(*final(map)))
            },
            None => {
                &&& !(json(*old(value)) is Object)
                &&& json(*final(value)) == json(*old(value))
            },
        },
{
    value.as_object_mut()
}

/// `serde_json::Value::from` on a text: the JSON string of that text.
#[verifier::external_body]
pub(crate) fn text_value(text: String) -> (value: JsonValue)
    ensures
        json(value) == Json::Text(text@),
{
    JsonValue::from(text)
}

/// `serde_json::Value::Null`: the JSON null.
#[verifier::external_body]
pub(crate) fn null_value() -> (value: JsonValue)
    ensures
        json(value) == Json::Null,
{
    JsonValue::Null
}

/// `serde_json::to_string`, with an error handed on as its message.
/// The text depends on nothing but what the value holds, since object keys are written in
/// their order. Every value can be written: the keys of its objects are texts, and writing to
/// memory does not fail. Where [`is_readable`] holds, `serde_json::from_str` reads the text back as
/// a `serde_json::Value` that holds what was written; nothing is said of other values.
#[verifier::external_body]
pub(crate) fn to_json_text(value: &JsonValue) -> (text: Result<String, String>)
    ensures
        result_view(text) == json_text(json(*value)),
        text is Ok,
        is_readable(json(*value)) ==> parsed_json(text->Ok_0@) == Some(json(*value)),
{
    serde_json::to_string(value).map_err(|err| err.to_string())
}

/// `serde_json::from_str` for a `serde_json::Map`, with an error handed on as nothing.
#[verifier::external_body]
pub(crate) fn parse_object(text: &str) -> (object: Option<JsonMap<String, JsonValue>>)
    ensures
        match object {
            Some(map) => parsed_map(text@) == Some(entries(map)),
            None => parsed_map(text@) is None,
        },
{
    serde_json::from_str(text).ok()
}

/// `serde_json::Map::new`: a map without entries.
#[verifier::external_body]
pub(crate) fn new_map() -> (map: JsonMap<String, JsonValue>)
    ensures
        (entries(map) == Map::<Seq<char>, Json>::empty()),
{
    JsonMap::new()
}

/// The clone of a `serde_json::Map` holds what the map holds.
pub assume_specification[ <JsonMap<String, JsonValue> as Clone>::clone ](
    map: &JsonMap<String, JsonValue>,
) -> (copy: JsonMap<String, JsonValue>)
    ensures
        entries(copy) == entries(*map),
;

/// The clone of a `serde_json::Value` holds what the value holds.
pub assume_specification[ <JsonValue as Clone>::clone ](value: &JsonValue) -> (copy: JsonValue)
    ensures
        json(copy) == json(*value),
;

/// Merges `source` into `destination`: an object of `source` is merged into an object that
/// `destination` holds under the same key, any other value of `source` takes its key over.
pub fn merge_json_maps(
    destination: &mut JsonMap<String, JsonValue>,
    source: &JsonMap<String, JsonValue>,
)
    ensures
        entries(*final(destination)) == merged(entries(*old(destination)), entries(*source)),
    decreases Json::Object(entries(*source)),
{
    let listed = map_entries(source);
    let ghost below = entries(*old(destination));
    let ghost above = entries(*source);
    let ghost mut done: Set<Seq<char>> = Set::empty();
    assert(merged(below, above.restrict(done)) =~= below);
    let mut i: usize = 0;
    while i < listed.len()
        invariant
            i <= listed.len(),
            above == entries(*source),
            entries(*destination) == merged(below, above.restrict(done)),
            forall|key: Seq<char>|
                #[trigger] done.contains(key) <==> exists|j: int| 0 <= j < i && (#[trigger] listed@[j]).0@ == key,
            forall|j: int, k: int|
                0 <= j < k < listed@.len() ==> (#[trigger] listed@[j]).0@ != (#[trigger] listed@[k]).0@,
            forall|j: int|
                0 <= j < listed@.len() ==> above.contains_pair(
                    (#[trigger] listed@[j]).0@,
                    json(*listed@[j].1),
                ),
        decreases listed.len() - i,
    {
        let (key, source_value) = listed[i];
        let ghost before = entries(*destination);
        assert(listed@[i as int].0@ == key@);
        assert(!done.contains(key@));
        let mut replace = true;
        if let Some(source_object) = as_object(source_value) {
            if let Some(slot) = map_get_mut(destination, key) {
                if let Some(destination_object) = as_object_mut(slot) {
                    proof {
                        lemma_entry_is_smaller(Json::Object(above), key@);
                        lemma_merged_objects(entries(*destination_object), entries(*source_object));
                    }
                    merge_json_maps(destination_object, source_object);
                    replace = false;
                }
            }
        }
        if replace {
            map_insert(destination, key.clone(), source_value.clone());
        }
        proof {
            assert(entries(*destination) =~= before.insert(key@, merged_value(below.get(key@), above[key@])));
            done = done.insert(key@);
            assert(entries(*destination) =~= merged(below, above.restrict(done)));
        }
        i += 1;
    }
    assert(above.restrict(done) =~= above);
}

/// After a merge every key of both objects is there. A key of the destination alone keeps its
/// value, two objects under one key are merged, and any other value of the source replaces what
/// stood under its key.
pub proof fn law_merge_by_key(
    below: Map<Seq<char>, Json>,
    above: Map<Seq<char>, Json>,
    key: Seq<char>,
)
    ensures
        merged(below, above).contains_key(key) <==> below.contains_key(key) || above.contains_key(
            key,
        ),
        below.contains_key(key) && !above.contains_key(key) ==> merged(below, above)[key]
            == below[key],
        above.contains_key(key) && !(below.contains_key(key) && below[key] is Object
            && above[key] is Object) ==> merged(below, above)[key] == above[key],
        below.contains_key(key) && above.contains_key(key) && below[key] is Object
            && above[key] is Object ==> merged(below, above)[key] == Json::Object(
            merged(below[key]->Object_0, above[key]->Object_0),
        ),
{
    if below.contains_key(key) && above.contains_key(key) && below[key] is Object
        && above[key] is Object {
        lemma_merged_objects(below[key]->Object_0, above[key]->Object_0);
    }
}

/// Merging into an empty object gives the source.
pub proof fn law_merge_into_empty(above: Map<Seq<char>, Json>)
    ensures
        merged(Map::empty(), above) == above,
{
    assert(merged(Map::empty(), above) =~= above);
}

/// Merging an empty object changes nothing.
pub proof fn law_merge_of_empty(below: Map<Seq<char>, Json>)
    ensures
        merged(below, Map::empty()) == below,
{
    assert(merged(below, Map::empty()) =~= below);
}

/// Laying a value over the outcome of laying it over another changes nothing.
proof fn lemma_merge_value_twice(destination: Option<Json>, source: Json)
    ensures
        merged_value(Some(merged_value(destination, source)), source) == merged_value(
            destination,
            source,
        ),
    decreases source,
{
    if let Json::Object(above) = source {
        let below = match destination {
            Some(Json::Object(below)) => below,
            _ => Map::empty(),
        };
        if destination is Some && destination->0 is Object {
            lemma_merged_objects(below, above);
        } else {
            law_merge_into_empty(above);
        }
        let once = merged(below, above);
        assert(merged_value(destination, source) == Json::Object(once));
        lemma_merged_objects(once, above);
        assert forall|key: Seq<char>| above.contains_key(key) implies #[trigger] merged(
            once,
            above,
        )[key] == once[key] by {
            lemma_entry_is_smaller(source, key);
            lemma_merge_value_twice(below.get(key), above[key]);
        }
        assert(merged(once, above) =~= once);
    }
}

/// Merging the same object a second time changes nothing.
pub proof fn law_merge_twice(below: Map<Seq<char>, Json>, above: Map<Seq<char>, Json>)
    ensures
        merged(merged(below, above), above) == merged(below, above),
{
    lemma_merge_value_twice(Some(Json::Object(below)), Json::Object(above));
    lemma_merged_objects(below, above);
    lemma_merged_objects(merged(below, above), above);
}

} // verus!
