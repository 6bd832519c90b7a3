//! Checking JSON data against a JSON Schema with the `jsonschema` crate.
//!
//! `jsonschema` resolves a `$ref` anew each time it validates through it,
//! with no guard against references that lead back to themselves: with the
//! schema `{"$ref":"#"}` validation recurses until the stack overflows.
//! Parsing and compiling a schema never follow a `$ref`; the last step,
//! validation, is made here only for schemas without a `$ref` key
//! ([`schema_without_refs`]), and [`check_schema`] reports where that step
//! is left to the caller.
use vstd::prelude::*;
use vstd::utf8::encode_utf8;
use crate::json::{json_normalized, normalize_json};
use crate::uri::{find_first, find_piece};

verus! {

/// The message of the error that `jsonschema::JSONSchema::compile` gives for
/// the schema parsed from the JSON text `schema`, if it gives one.
pub uninterp spec fn schema_compile_error(schema: Seq<char>) -> Option<Seq<char>>;

/// The message of the first error that `jsonschema` reports when the data
/// parsed from `data` is validated against the schema compiled from `schema`,
/// if there is one.
pub uninterp spec fn schema_first_violation(schema: Seq<char>, data: Seq<char>) -> Option<Seq<char>>;

/// The bytes of `"$ref":`: how `serde_json` writes the key `$ref` of an
/// object member, before its value.
pub open spec fn ref_key() -> Seq<u8> {
    seq![0x22u8, 0x24u8, 0x72u8, 0x65u8, 0x66u8, 0x22u8, 0x3au8]
}

/// The schema text `schema` holds no member keyed `$ref`: as `serde_json`
/// writes it back, it never shows `"$ref":` (which is how such a key is
/// written, wherever it stands; a string `$ref` is followed by no colon), or
/// it is not JSON at all.
pub open spec fn schema_without_refs(schema: Seq<char>) -> bool {
    match json_normalized(schema) {
        Ok(t) => find_first(encode_utf8(t), ref_key()) is None,
        Err(_) => true,
    }
}

/// Whether the schema text `schema_json` holds no `$ref` (see [`schema_without_refs`]).
pub fn free_of_refs(schema_json: &str) -> (r: bool)
    ensures
        r == schema_without_refs(schema_json@),
{
    match normalize_json(schema_json) {
        Ok(t) => {
            let key: Vec<u8> = vec![0x22u8, 0x24u8, 0x72u8, 0x65u8, 0x66u8, 0x22u8, 0x3au8];
            assert(key@ =~= ref_key());
            let bytes = t.as_str().as_bytes();
            let found = find_piece(bytes, 0, key.as_slice(), 0, 7);
            assert(bytes@.subrange(0, bytes@.len() as int) =~= bytes@);
            assert(key@.subrange(0, 7) =~= key@);
            found.is_none()
        },
        Err(_) => true,
    }
}

/// Parses the JSON text `schema_json` with `serde_json` and compiles it
/// with `jsonschema::JSONSchema::compile`; gives the compile error's message,
/// if any. The contract claims only that the outcome is a function of the
/// text (named [`schema_compile_error`]). Compiling builds a `$ref` lazily
/// and does not follow it.
#[verifier::external_body]
fn schema_error_of(schema_json: &str) -> (r: Option<String>)
    requires
        json_normalized(schema_json@) is Ok,
    ensures
        match r {
            Some(e) => schema_compile_error(schema_json@) == Some(e@),
            None => schema_compile_error(schema_json@) is None,
        },
{
    let schema: serde_json::Value = serde_json::from_str(schema_json).unwrap_or_default();
    jsonschema::JSONSchema::compile(&schema).err().map(|e| e.to_string())
}

/// Validates the data parsed from `data_json` against the schema compiled
/// from `schema_json` (`jsonschema::JSONSchema::validate`) and gives the
/// message of the first error reported, if any. The contract claims only
/// that the outcome is a function of the two texts (named
/// [`schema_first_violation`]). It admits only schemas without a `$ref`
/// key, through which validation could loop.
#[verifier::external_body]
fn first_violation(schema_json: &str, data_json: &str) -> (r: Option<String>)
    requires
        json_normalized(schema_json@) is Ok,
        schema_without_refs(schema_json@),
        json_normalized(data_json@) is Ok,
        schema_compile_error(schema_json@) is None,
    ensures
        match r {
            Some(e) => schema_first_violation(schema_json@, data_json@) == Some(e@),
            None => schema_first_violation(schema_json@, data_json@) is None,
        },
{
    let schema: serde_json::Value = serde_json::from_str(schema_json).unwrap_or_default();
    let data: serde_json::Value = serde_json::from_str(data_json).unwrap_or_default();
    match jsonschema::JSONSchema::compile(&schema) {
        Ok(compiled) => match compiled.validate(&data) {
            Ok(()) => None,
            Err(mut errors) => errors.next().map(|e| e.to_string()),
        },
        Err(_) => None,
    }
}

/// What [`validate_schema`] answers for the texts `schema` and `data`.
pub open spec fn validation_outcome(schema: Seq<char>, data: Seq<char>) -> Option<Seq<char>> {
    match json_normalized(schema) {
        Err(e) => Some("Invalid schema: "@ + e),
        Ok(_) => match json_normalized(data) {
            Err(e) => Some("Invalid data: "@ + e),
            Ok(_) => match schema_compile_error(schema) {
                Some(e) => Some("Invalid schema: "@ + e),
                None => schema_first_violation(schema, data),
            },
        },
    }
}

/// `prefix` followed by `rest`.
fn prefixed(prefix: &str, rest: &str) -> (r: String)
    ensures
        r@ == prefix@ + rest@,
{
    let mut s = String::from_str(prefix);
    s.append(rest);
    s
}

/// Checking `data` against `schema` comes to `jsonschema`'s validation with
/// a schema that holds a `$ref` key: both texts are JSON, the schema
/// compiles, and it has such a key.
pub open spec fn validates_with_refs(schema: Seq<char>, data: Seq<char>) -> bool {
    &&& json_normalized(schema) is Ok
    &&& json_normalized(data) is Ok
    &&& schema_compile_error(schema) is None
    &&& !schema_without_refs(schema)
}

/// How far the library takes the check of some data against a schema.
pub enum SchemaCheck {
    /// What checking answers: `None` where the data is valid, else a message.
    Answer(Option<String>),
    /// The schema has a `$ref` key; only `jsonschema`'s validation is left to do.
    ValidateWithRefs,
}

/// Checks `data_json` against `schema_json` up to `jsonschema`'s
/// validation: a schema or data that is not JSON, or a schema that does not
/// compile, gives a message that says so; otherwise, for a schema without a
/// `$ref` key, the first error that validation reports, if any; for a schema
/// with one, [`SchemaCheck::ValidateWithRefs`].
pub fn check_schema(schema_json: String, data_json: String) -> (r: SchemaCheck)
    ensures
        match r {
            SchemaCheck::Answer(Some(m)) => !validates_with_refs(schema_json@, data_json@)
                && validation_outcome(schema_json@, data_json@) == Some(m@),
            SchemaCheck::Answer(None) => !validates_with_refs(schema_json@, data_json@)
                && validation_outcome(schema_json@, data_json@) is None,
            SchemaCheck::ValidateWithRefs => validates_with_refs(schema_json@, data_json@),
        },
{
    if let Err(e) = normalize_json(schema_json.as_str()) {
        return SchemaCheck::Answer(Some(prefixed("Invalid schema: ", e.as_str())));
    }
    if let Err(e) = normalize_json(data_json.as_str()) {
        return SchemaCheck::Answer(Some(prefixed("Invalid data: ", e.as_str())));
    }
    if let Some(e) = schema_error_of(schema_json.as_str()) {
        return SchemaCheck::Answer(Some(prefixed("Invalid schema: ", e.as_str())));
    }
    if !free_of_refs(schema_json.as_str()) {
        return SchemaCheck::ValidateWithRefs;
    }
    SchemaCheck::Answer(first_violation(schema_json.as_str(), data_json.as_str()))
}

/// Checks the JSON text `data_json` against the JSON Schema `schema_json`:
/// `None` where the data is valid, else a message. A schema or data that is
/// not JSON, or a schema that does not compile, gives a message that says so.
/// Where both are JSON and the schema compiles, it must hold no `$ref` key
/// (see [`check_schema`] for the check that admits one).
pub fn validate_schema(schema_json: String, data_json: String) -> (r: Option<String>)
    requires
        !validates_with_refs(schema_json@, data_json@),
    ensures
        match r {
            Some(m) => validation_outcome(schema_json@, data_json@) == Some(m@),
            None => validation_outcome(schema_json@, data_json@) is None,
        },
{
    match check_schema(schema_json, data_json) {
        SchemaCheck::Answer(a) => a,
        SchemaCheck::ValidateWithRefs => {
            // ruled out by the precondition
            proof {
                assert(false);
            }
            None
        },
    }
}

}
