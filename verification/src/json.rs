//! What `serde_json` reads in JSON, as far as cargo's metadata needs it.

use vstd::prelude::*;

use crate::text::opt_text;

verus! {

/// What a JSON value is.
pub enum JsonNode {
    Text(Seq<char>),
    Flag(bool),
    List(Seq<JsonNode>),
    Object(Map<Seq<char>, JsonNode>),
    /// A number or null.
    Other,
}

/// What stands under `key` in an object.
pub open spec fn member_of(node: JsonNode, key: Seq<char>) -> Option<JsonNode> {
    match node {
        JsonNode::Object(members) => if members.dom().contains(key) {
            Some(members[key])
        } else {
            None
        },
        _ => None,
    }
}

/// The text of a node that is one.
pub open spec fn text_of(node: JsonNode) -> Option<Seq<char>> {
    match node {
        JsonNode::Text(text) => Some(text),
        _ => None,
    }
}

/// The text under `key` in an object.
pub open spec fn member_text(node: JsonNode, key: Seq<char>) -> Option<Seq<char>> {
    match member_of(node, key) {
        Some(member) => text_of(member),
        None => None,
    }
}

/// A value of `serde_json`.
#[verifier::external_type_specification]
#[verifier::external_body]
pub struct ExJsonValue(serde_json::Value);

/// What a value is.
pub uninterp spec fn json_node(value: serde_json::Value) -> JsonNode;

/// What the value is that `serde_json` reads in the bytes, or what it says about bytes that are not
/// JSON.
pub uninterp spec fn json_read(bytes: Seq<u8>) -> Result<JsonNode, Seq<char>>;

/// `serde_json::from_slice` into a `Value`, and the `Display` form of its error: whether it can
/// read the bytes, what the value is, and what it says about bytes that are not JSON depend on the
/// bytes alone.
#[verifier::external_body]
pub(crate) fn parse_json(bytes: &[u8]) -> (r: Result<serde_json::Value, String>)
    ensures
        match r {
            Ok(value) => json_read(bytes@) == Ok::<JsonNode, Seq<char>>(json_node(value)),
            Err(complaint) => json_read(bytes@) == Err::<JsonNode, Seq<char>>(complaint@),
        },
{
    serde_json::from_slice(bytes).map_err(|error| error.to_string())
}

/// `Value::get` with a string: what stands under the key in an object.
#[verifier::external_body]
pub(crate) fn member<'a>(value: &'a serde_json::Value, key: &str) -> (r: Option<
    &'a serde_json::Value,
>)
    ensures
        match r {
            Some(member) => member_of(json_node(*value), key@) == Some(json_node(*member)),
            None => member_of(json_node(*value), key@) is None,
        },
{
    value.get(key)
}

/// `Value::as_str`: the text of a value that is a string.
pub assume_specification[ serde_json::Value::as_str ](value: &serde_json::Value) -> (r: Option<
    &str,
>)
    ensures
        match r {
            Some(text) => json_node(*value) == JsonNode::Text(text@),
            None => json_node(*value) !is Text,
        },
;

/// `Value::as_bool`: the flag of a value that is a boolean.
pub assume_specification[ serde_json::Value::as_bool ](value: &serde_json::Value) -> (r: Option<
    bool,
>)
    ensures
        match r {
            Some(flag) => json_node(*value) == JsonNode::Flag(flag),
            None => json_node(*value) !is Flag,
        },
;

/// `Value::as_array`: the elements of a value that is an array.
pub assume_specification[ serde_json::Value::as_array ](value: &serde_json::Value) -> (r: Option<
    &Vec<serde_json::Value>,
>)
    ensures
        match r {
            Some(elements) => json_node(*value) == JsonNode::List(
                elements@.map_values(|element: serde_json::Value| json_node(element)),
            ),
            None => json_node(*value) !is List,
        },
;

/// The text under `key` in an object.
pub fn text_member(value: &serde_json::Value, key: &str) -> (r: Option<String>)
    ensures
        opt_text(r) == member_text(json_node(*value), key@),
{
    match member(value, key) {
        Some(found) => match found.as_str() {
            Some(text) => Some(text.to_owned()),
            None => None,
        },
        None => None,
    }
}

/// The text under a key is there exactly if the value is an object with a text under it.
pub proof fn texts_stand_under_keys(
    members: Map<Seq<char>, JsonNode>,
    key: Seq<char>,
    text: Seq<char>,
    node: JsonNode,
)
    ensures
        member_text(JsonNode::Object(members), key) == Some(text) <==> members.dom().contains(key)
            && members[key] == JsonNode::Text(text),
        node !is Object ==> member_text(node, key) is None,
{
}

}
