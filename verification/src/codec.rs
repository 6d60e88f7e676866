//! The calls into `serde_yaml` and `serde_json`.
//!
//! Nothing in this module is proved. Each function makes one call and states
//! what the rest of the library relies on: that the outcome of the call is
//! determined by its argument. The spec functions without a body give those
//! outcomes a name.

use vstd::prelude::*;

verus! {

/// The structured value that both formats are read into and written from.
#[verifier::external_type_specification]
#[verifier::external_body]
pub struct ExValue(serde_json::Value);

/// The error of the JSON reader and writer.
#[verifier::external_type_specification]
#[verifier::external_body]
pub struct ExJsonError(serde_json::Error);

/// The error of the YAML reader and writer.
#[verifier::external_type_specification]
#[verifier::external_body]
pub struct ExYamlError(serde_yaml::Error);

/// What `serde_yaml::from_str` makes of a text when asked for a
/// `serde_json::Value`.
pub uninterp spec fn yaml_reading(text: Seq<char>) -> Result<serde_json::Value, serde_yaml::Error>;

/// What `serde_json::from_str` makes of a text when asked for a
/// `serde_json::Value`.
pub uninterp spec fn json_reading(text: Seq<char>) -> Result<serde_json::Value, serde_json::Error>;

/// What `serde_json::to_string` makes of a value: its compact JSON text.
pub uninterp spec fn json_writing(value: serde_json::Value) -> Result<Seq<char>, serde_json::Error>;

/// What `serde_yaml::to_string` makes of a value: its block-style YAML text.
pub uninterp spec fn yaml_writing(value: serde_json::Value) -> Result<Seq<char>, serde_yaml::Error>;

/// The text that a `serde_yaml::Error` displays.
pub uninterp spec fn yaml_error_text(error: serde_yaml::Error) -> Seq<char>;

/// The text that a `serde_json::Error` displays.
pub uninterp spec fn json_error_text(error: serde_json::Error) -> Seq<char>;

/// Calls `serde_yaml::from_str` for a `serde_json::Value`. The contract
/// claims only that the outcome, value or error, depends on the text alone.
#[verifier::external_body]
pub(crate) fn read_yaml(text: &str) -> (parsed: Result<serde_json::Value, serde_yaml::Error>)
    ensures
        parsed == yaml_reading(text@),
{
    serde_yaml::from_str::<serde_json::Value>(text)
}

/// Calls `serde_json::from_str` for a `serde_json::Value`. The contract
/// claims only that the outcome, value or error, depends on the text alone.
#[verifier::external_body]
pub(crate) fn read_json(text: &str) -> (parsed: Result<serde_json::Value, serde_json::Error>)
    ensures
        parsed == json_reading(text@),
{
    serde_json::from_str::<serde_json::Value>(text)
}

/// Calls `serde_json::to_string` on a value. The contract claims only that
/// the outcome, text or error, depends on the value alone.
#[verifier::external_body]
pub(crate) fn write_json(value: &serde_json::Value) -> (written: Result<String, serde_json::Error>)
    ensures
        match written {
            Ok(text) => json_writing(*value) == Ok::<Seq<char>, serde_json::Error>(text@),
            Err(error) => json_writing(*value) == Err::<Seq<char>, serde_json::Error>(error),
        },
{
    serde_json::to_string(value)
}

/// Calls `serde_yaml::to_string` on a value. The contract claims only that
/// the outcome, text or error, depends on the value alone.
#[verifier::external_body]
pub(crate) fn write_yaml(value: &serde_json::Value) -> (written: Result<String, serde_yaml::Error>)
    ensures
        match written {
            Ok(text) => yaml_writing(*value) == Ok::<Seq<char>, serde_yaml::Error>(text@),
            Err(error) => yaml_writing(*value) == Err::<Seq<char>, serde_yaml::Error>(error),
        },
{
    serde_yaml::to_string(value)
}

/// Calls `to_string` on a `serde_yaml::Error`, which formats it through its
/// `Display` impl. The contract claims only that the text depends on the
/// error alone.
#[verifier::external_body]
pub(crate) fn yaml_error_message(error: &serde_yaml::Error) -> (message: String)
    ensures
        message@ == yaml_error_text(*error),
{
    error.to_string()
}

/// Calls `to_string` on a `serde_json::Error`, which formats it through its
/// `Display` impl. The contract claims only that the text depends on the
/// error alone.
#[verifier::external_body]
pub(crate) fn json_error_message(error: &serde_json::Error) -> (message: String)
    ensures
        message@ == json_error_text(*error),
{
    error.to_string()
}

} // verus!
