//! Signed tokens and their JSON payload, as the `jsonwebtoken` and
//! `serde_json` crates make them.
//!
//! Everything in this file is trusted: it declares the outside types, names
//! what they hold, and states of each outside call what its source shows.
//! The rules of the session tokens are in [`crate::auth`], verified against
//! these contracts.

use vstd::prelude::*;

verus! {

/// `serde_json::Value`, any JSON value.
#[verifier::external_type_specification]
#[verifier::external_body]
pub struct ExJsonValue(serde_json::Value);

/// `serde_json::Map`, the members of a JSON object.
#[verifier::external_type_specification]
#[verifier::external_body]
#[verifier::reject_recursive_types(K)]
#[verifier::reject_recursive_types(V)]
pub struct ExJsonObject<K, V>(serde_json::Map<K, V>);

/// `jsonwebtoken::errors::Error`, why a token could not be made or read.
#[verifier::external_type_specification]
#[verifier::external_body]
pub struct ExTokenError(jsonwebtoken::errors::Error);

/// The members of a JSON object whose value is a string, by key.
pub uninterp spec fn json_strings(object: serde_json::Map<String, serde_json::Value>) -> Map<
    Seq<char>,
    Seq<char>,
>;

/// The members of a JSON object whose value is an integer from 0 to
/// `u64::MAX`, by key.
pub uninterp spec fn json_numbers(object: serde_json::Map<String, serde_json::Value>) -> Map<
    Seq<char>,
    u64,
>;

/// The names of all members of a JSON object, whatever their values are.
pub uninterp spec fn json_members(object: serde_json::Map<String, serde_json::Value>) -> Set<
    Seq<char>,
>;

/// The object is a plain set of claims: each of its members is a string or
/// an integer from 0 to `u64::MAX`, and `exp` is among the integers.
pub open spec fn plain_claims(object: serde_json::Map<String, serde_json::Value>) -> bool {
    &&& json_numbers(object).contains_key("exp"@)
    &&& forall|name: Seq<char>| #[trigger]
        json_members(object).contains(name) ==> json_strings(object).contains_key(name)
            || json_numbers(object).contains_key(name)
}

/// What a token carries for the holder of `secret`: the string members and
/// the integer members of its payload, or nothing where the token cannot be
/// read. It cannot be read if it is not three base64 parts signed with
/// HMAC-SHA256 under `secret`, if its payload is not a JSON object with a
/// numeric `exp`, or if a member that is a list or an object stops the
/// reading of the payload. The time plays no part in it.
pub uninterp spec fn token_payload(secret: Seq<u8>, token: Seq<char>) -> Option<
    (Map<Seq<char>, Seq<char>>, Map<Seq<char>, u64>),
>;

/// Trusted: calls `serde_json::Map::new`, which makes an object without
/// members.
#[verifier::external_body]
pub(crate) fn json_object() -> (object: serde_json::Map<String, serde_json::Value>)
    ensures
        json_strings(object) == (Map::<Seq<char>, Seq<char>>::empty()),
        json_numbers(object) == (Map::<Seq<char>, u64>::empty()),
        json_members(object) == Set::<Seq<char>>::empty(),
{
    serde_json::Map::new()
}

/// Trusted: calls `serde_json::Map::insert` with a `Value::String`; the
/// member `key` is then that string, whatever it was before.
#[verifier::external_body]
pub(crate) fn json_put_text(
    object: &mut serde_json::Map<String, serde_json::Value>,
    key: &str,
    text: &str,
)
    ensures
        json_strings(*final(object)) == json_strings(*old(object)).insert(key@, text@),
        json_numbers(*final(object)) == json_numbers(*old(object)).remove(key@),
        json_members(*final(object)) == json_members(*old(object)).insert(key@),
{
    object.insert(key.to_owned(), serde_json::Value::from(text));
}

/// Trusted: calls `serde_json::Map::insert` with a `Value::Number` made from
/// a `u64`; the member `key` is then that number, whatever it was before.
#[verifier::external_body]
pub(crate) fn json_put_number(
    object: &mut serde_json::Map<String, serde_json::Value>,
    key: &str,
    number: u64,
)
    ensures
        json_strings(*final(object)) == json_strings(*old(object)).remove(key@),
        json_numbers(*final(object)) == json_numbers(*old(object)).insert(key@, number),
        json_members(*final(object)) == json_members(*old(object)).insert(key@),
{
    object.insert(key.to_owned(), serde_json::Value::from(number));
}

/// Trusted: calls `serde_json::Map::get` and `serde_json::Value::as_str`;
/// the result is the member `key` if there is one and it is a string.
#[verifier::external_body]
pub(crate) fn json_text(object: &serde_json::Map<String, serde_json::Value>, key: &str) -> (text:
    Option<String>)
    ensures
        match text {
            Some(found) => json_strings(*object).contains_key(key@) && json_strings(
                *object,
            )[key@] == found@,
            None => !json_strings(*object).contains_key(key@),
        },
{
    object.get(key).and_then(serde_json::Value::as_str).map(str::to_owned)
}

/// Trusted: calls `serde_json::Map::get` and `serde_json::Value::as_u64`;
/// the result is the member `key` if there is one and it is an integer that
/// fits `u64`.
#[verifier::external_body]
pub(crate) fn json_number(object: &serde_json::Map<String, serde_json::Value>, key: &str) -> (number:
    Option<u64>)
    ensures
        match number {
            Some(found) => json_numbers(*object).contains_key(key@) && json_numbers(
                *object,
            )[key@] == found,
            None => !json_numbers(*object).contains_key(key@),
        },
{
    object.get(key).and_then(serde_json::Value::as_u64)
}

/// Trusted: calls `jsonwebtoken::encode` with the default header (HS256) and
/// `EncodingKey::from_secret`. The contract claims two things. A token
/// always comes back: the key is of the header's family, a header and a JSON
/// object always serialize, and signing with HMAC does not fail. And a token
/// made from [`plain_claims`] carries, for the same secret, the members it
/// was made from. Of an object with a member of another kind the second is
/// not claimed: reading the token back can fail on it.
#[verifier::external_body]
pub(crate) fn sign_claims(
    secret: &[u8],
    claims: &serde_json::Map<String, serde_json::Value>,
) -> (outcome: Result<String, jsonwebtoken::errors::Error>)
    ensures
        outcome is Ok,
        outcome matches Ok(token) ==> (plain_claims(*claims) ==> token_payload(secret@, token@)
            == Some((json_strings(*claims), json_numbers(*claims)))),
{
    jsonwebtoken::encode(
        &jsonwebtoken::Header::default(),
        claims,
        &jsonwebtoken::EncodingKey::from_secret(secret),
    )
}

/// Trusted: calls `jsonwebtoken::decode` with `DecodingKey::from_secret` and
/// the default validation (HS256, `exp` required) with the check of `exp`
/// against the clock switched off, so that the outcome depends on the
/// arguments alone; the contract names it.
#[verifier::external_body]
pub(crate) fn read_claims(secret: &[u8], token: &str) -> (outcome: Result<
    serde_json::Map<String, serde_json::Value>,
    jsonwebtoken::errors::Error,
>)
    ensures
        match outcome {
            Ok(claims) => token_payload(secret@, token@) == Some(
                (json_strings(claims), json_numbers(claims)),
            ),
            Err(_) => token_payload(secret@, token@) is None,
        },
{
    let mut validation = jsonwebtoken::Validation::default();
    validation.validate_exp = false;
    let key = jsonwebtoken::DecodingKey::from_secret(secret);
    jsonwebtoken::decode(token, &key, &validation).map(|data| data.claims)
}

/// Trusted: calls `jsonwebtoken::get_current_timestamp`, the seconds since
/// the Unix epoch by the system clock. Nothing is claimed of the result.
#[verifier::external_body]
pub(crate) fn unix_time() -> (seconds: u64) {
    jsonwebtoken::get_current_timestamp()
}

} // verus!
