//! The request bodies sent to the recommendation service.
use vstd::prelude::*;

verus! {

/// The JSON text of an object with one string member.
pub uninterp spec fn json_member_text(key: Seq<char>, value: Seq<char>) -> Seq<u8>;

/// The JSON text of an object with a string member and a member that holds an
/// empty object.
pub uninterp spec fn json_member_and_empty_text(
    key: Seq<char>,
    value: Seq<char>,
    empty_key: Seq<char>,
) -> Seq<u8>;

/// Relies on `serde_json::to_vec` on an object of one string member: the bytes
/// depend on the key and the value alone.
#[verifier::external_body]
fn json_member(key: &str, value: &str) -> (r: Vec<u8>)
    ensures
        r@ == json_member_text(key@, value@),
{
    let mut object = serde_json::Map::new();
    object.insert(key.to_string(), serde_json::Value::String(value.to_string()));
    serde_json::to_vec(&serde_json::Value::Object(object)).unwrap_or_default()
}

/// Relies on `serde_json::to_vec` on an object of a string member and a member
/// that holds an empty object: the bytes depend on the keys and the value alone.
#[verifier::external_body]
fn json_member_and_empty(key: &str, value: &str, empty_key: &str) -> (r: Vec<u8>)
    ensures
        r@ == json_member_and_empty_text(key@, value@, empty_key@),
{
    let mut object = serde_json::Map::new();
    object.insert(key.to_string(), serde_json::Value::String(value.to_string()));
    object.insert(empty_key.to_string(), serde_json::Value::Object(serde_json::Map::new()));
    serde_json::to_vec(&serde_json::Value::Object(object)).unwrap_or_default()
}

/// The body that asks the service to turn a request into a device specification.
pub fn model_request_body(prompt: &str) -> (r: Vec<u8>)
    ensures
        r@ == json_member_text("user_message"@, prompt@),
{
    json_member("user_message", prompt)
}

/// The body of a free-text query, with the (empty) set of worked examples.
pub fn query_request_body(user_text: &str) -> (r: Vec<u8>)
    ensures
        r@ == json_member_and_empty_text("user_message"@, user_text@, "few_shot"@),
{
    json_member_and_empty("user_message", user_text, "few_shot")
}

} // verus!
