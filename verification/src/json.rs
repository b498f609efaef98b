//! JSON text read with `serde_json`, and turned into the library's own tree
//! of tag values.
//!
//! What `serde_json` computes is not proved here. Its values are opaque; the
//! contracts below say what each of its functions returns in terms of three
//! names: the tree that a text parses to, the tree that a value holds and the
//! entries that an object holds.

use crate::tags::{distinct_keys, value_well_formed, Number, TagModel, TagValue, Tags};
use vstd::prelude::*;

verus! {

/// `serde_json::Value`, a parsed JSON value. Opaque to the verifier.
#[verifier::external_type_specification]
#[verifier::external_body]
pub struct ExJsonValue(serde_json::Value);

/// `serde_json::Map`, the entries of a JSON object. Opaque to the verifier.
#[verifier::external_type_specification]
#[verifier::external_body]
#[verifier::reject_recursive_types(K)]
#[verifier::reject_recursive_types(V)]
pub struct ExJsonMap<K, V>(serde_json::Map<K, V>);

/// `serde_json::Error`, why a text could not be parsed. Opaque to the
/// verifier.
#[verifier::external_type_specification]
#[verifier::external_body]
pub struct ExJsonError(serde_json::Error);

/// The tree that `serde_json::from_str` parses `text` to; `None` where it
/// refuses the text.
pub uninterp spec fn json_document(text: Seq<char>) -> Option<TagModel>;

/// The tree that a `serde_json::Value` holds.
pub uninterp spec fn json_content(value: serde_json::Value) -> TagModel;

/// The entries that a `serde_json::Map` holds, in the order in which it
/// walks them.
pub uninterp spec fn json_members(object: serde_json::Map<String, serde_json::Value>) -> Seq<
    (Seq<char>, TagModel),
>;

/// `serde_json::from_str`, read as a `Value`: the value holds the tree that
/// the text parses to, and an error comes exactly where the text parses to
/// none. Trusted, not proved.
#[verifier::external_body]
pub(crate) fn json_from_str(text: &str) -> (r: Result<serde_json::Value, serde_json::Error>)
    ensures
        match r {
            Ok(value) => json_document(text@) == Some(json_content(value)),
            Err(_) => json_document(text@) is None,
        },
{
    serde_json::from_str::<serde_json::Value>(text)
}

/// `Value::as_bool`: the boolean of a boolean value, `None` for any other
/// value. Trusted, not proved.
pub assume_specification[ serde_json::Value::as_bool ](value: &serde_json::Value) -> (r: Option<
    bool,
>)
    ensures
        r == (match json_content(*value) {
            TagModel::Bool(b) => Some(b),
            _ => None,
        }),
;

/// `Value::as_str`: the text of a string value, `None` for any other value.
/// Trusted, not proved.
pub assume_specification<'a>[ serde_json::Value::as_str ](value: &'a serde_json::Value) -> (r:
    Option<&'a str>)
    ensures
        match json_content(*value) {
            TagModel::Text(text) => r matches Some(s) && s@ == text,
            _ => r is None,
        },
;

/// `Value::as_i64`: the integer reading of a number value, `None` for any
/// other value. Trusted, not proved.
pub assume_specification[ serde_json::Value::as_i64 ](value: &serde_json::Value) -> (r: Option<
    i64,
>)
    ensures
        r == (match json_content(*value) {
            TagModel::Number(n) => n.integer,
            _ => None,
        }),
;

/// `Value::as_array`: the elements of an array value, each holding the
/// element of the tree at its place; `None` for any other value. Trusted,
/// not proved.
pub assume_specification<'a>[ serde_json::Value::as_array ](value: &'a serde_json::Value) -> (r:
    Option<&'a Vec<serde_json::Value>>)
    ensures
        match json_content(*value) {
            TagModel::Array(items) => r matches Some(elements) && elements@.len() == items.len()
                && forall|i: int|
                0 <= i < items.len() ==> json_content(#[trigger] elements@[i]) == items[i],
            _ => r is None,
        },
;

/// `Value::as_object`: the map of an object value, holding the entries of
/// the tree; `None` for any other value. Trusted, not proved.
pub assume_specification<'a>[ serde_json::Value::as_object ](value: &'a serde_json::Value) -> (r:
    Option<&'a serde_json::Map<String, serde_json::Value>>)
    ensures
        match json_content(*value) {
            TagModel::Object(members) => r matches Some(object) && json_members(*object)
                == members,
            _ => r is None,
        },
;

/// The `Display` text of the `serde_json::Number` in a number value (by
/// `Value::as_number`), `None` for any other value. Trusted, not proved.
#[verifier::external_body]
pub(crate) fn json_number_text(value: &serde_json::Value) -> (r: Option<String>)
    ensures
        match json_content(*value) {
            TagModel::Number(n) => r matches Some(text) && text@ == n.text,
            _ => r is None,
        },
{
    match value.as_number() {
        Some(number) => Some(number.to_string()),
        None => None,
    }
}

/// The `Display` text of what `Value::as_f64` gives for a number value;
/// `None` where it gives nothing, and for any other value. Trusted, not
/// proved.
#[verifier::external_body]
pub(crate) fn json_float_text(value: &serde_json::Value) -> (r: Option<String>)
    ensures
        match json_content(*value) {
            TagModel::Number(n) => match r {
                Some(text) => n.float_text == Some(text@),
                None => n.float_text is None,
            },
            _ => r is None,
        },
{
    match value.as_f64() {
        Some(reading) => Some(reading.to_string()),
        None => None,
    }
}

/// `Map::iter`, collected: the entries of the map in the order in which it
/// walks them. A map holds no key twice. Trusted, not proved.
#[verifier::external_body]
pub(crate) fn json_entries<'a>(object: &'a serde_json::Map<String, serde_json::Value>) -> (r: Vec<
    (&'a String, &'a serde_json::Value),
>)
    ensures
        r@.len() == json_members(*object).len(),
        forall|i: int|
            0 <= i < r@.len() ==> (#[trigger] r@[i]).0@ == json_members(*object)[i].0
                && json_content(*r@[i].1) == json_members(*object)[i].1,
        forall|i: int, j: int|
            0 <= i < j < r@.len() ==> (#[trigger] r@[i]).0@ != (#[trigger] r@[j]).0@,
{
    object.iter().collect()
}

/// The tag value that a JSON value holds.
pub fn tag_value_of_json(value: &serde_json::Value) -> (r: TagValue)
    ensures
        r@ == json_content(*value),
        r.well_formed(),
    decreases json_content(*value),
{
    if let Some(b) = value.as_bool() {
        return TagValue::Bool(b);
    }
    if let Some(text) = value.as_str() {
        return TagValue::Text(text.to_owned());
    }
    if let Some(text) = json_number_text(value) {
        let integer = value.as_i64();
        let float_text = json_float_text(value);
        return TagValue::Number(Number { text, integer, float_text });
    }
    if let Some(elements) = value.as_array() {
        let ghost models = json_content(*value)->Array_0;
        let mut items: Vec<TagValue> = Vec::new();
        let mut i: usize = 0;
        while i < elements.len()
            invariant
                i <= elements@.len(),
                json_content(*value) == TagModel::Array(models),
                elements@.len() == models.len(),
                forall|k: int|
                    0 <= k < models.len() ==> json_content(#[trigger] elements@[k]) == models[k],
                items@.len() == i,
                forall|k: int| 0 <= k < i ==> (#[trigger] items@[k])@ == models[k],
                forall|k: int| 0 <= k < i ==> value_well_formed(#[trigger] models[k]),
            decreases elements@.len() - i,
        {
            assert(json_content(elements@[i as int]) == models[i as int]);
            assert(decreases_to!(json_content(*value) => json_content(*value)->Array_0));
            assert(decreases_to!(models => models[i as int]));
            let item = tag_value_of_json(&elements[i]);
            items.push(item);
            i += 1;
        }
        let r = TagValue::Array(items);
        assert(r@->Array_0 =~= models);
        return r;
    }
    if let Some(object) = value.as_object() {
        let tags = tags_of_json(object);
        let r = TagValue::Object(tags);
        assert(r@->Object_0 =~= tags@);
        return r;
    }
    TagValue::Null
}

/// The tags that a JSON object holds.
pub fn tags_of_json(object: &serde_json::Map<String, serde_json::Value>) -> (tags: Tags)
    ensures
        tags@ == json_members(*object),
        tags.well_formed(),
    decreases json_members(*object),
{
    let ghost members = json_members(*object);
    let pairs = json_entries(object);
    let mut entries: Vec<(String, TagValue)> = Vec::new();
    let mut i: usize = 0;
    while i < pairs.len()
        invariant
            i <= pairs@.len(),
            members == json_members(*object),
            pairs@.len() == members.len(),
            forall|k: int|
                0 <= k < pairs@.len() ==> (#[trigger] pairs@[k]).0@ == members[k].0
                    && json_content(*pairs@[k].1) == members[k].1,
            entries@.len() == i,
            forall|k: int|
                0 <= k < i ==> (#[trigger] entries@[k]).0@ == members[k].0 && entries@[k].1@
                    == members[k].1,
            forall|k: int| 0 <= k < i ==> value_well_formed((#[trigger] members[k]).1),
        decreases pairs@.len() - i,
    {
        let key = pairs[i].0.as_str().to_owned();
        let item = tag_value_of_json(pairs[i].1);
        entries.push((key, item));
        i += 1;
    }
    let tags = Tags { entries };
    assert(tags@ =~= members);
    assert(distinct_keys(members)) by {
        assert forall|a: int, b: int| 0 <= a < b < members.len() implies (#[trigger] members[a]).0
            != (#[trigger] members[b]).0 by {
            assert(pairs@[a].0@ == members[a].0);
            assert(pairs@[b].0@ == members[b].0);
        }
    }
    tags
}

/// Parses `text` as JSON. Which texts parse, and to what, is `serde_json`'s
/// to say: the result is the tree that it gives.
pub fn parse_json(text: &str) -> (r: Option<TagValue>)
    ensures
        match r {
            Some(document) => json_document(text@) == Some(document@) && document.well_formed(),
            None => json_document(text@) is None,
        },
{
    match json_from_str(text) {
        Ok(value) => Some(tag_value_of_json(&value)),
        Err(_) => None,
    }
}

} // verus!
