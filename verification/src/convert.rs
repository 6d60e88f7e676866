//! The conversion core: text in one format to text in the other, through the
//! structured value that both formats share.

use crate::codec::{
    json_error_message, json_error_text, json_reading, json_writing, read_json, read_yaml,
    write_json, write_yaml, yaml_error_message, yaml_error_text, yaml_reading, yaml_writing,
};
use crate::error::{ConvertError, ErrorKind, Failure, outcome_view};
use vstd::prelude::*;

verus! {

/// The failure that stands for an input that its reader rejected.
pub open spec fn parse_failure(message: Seq<char>) -> Failure {
    Failure { kind: ErrorKind::Parse, message }
}

/// The failure that stands for a value that its writer rejected.
pub open spec fn serialization_failure(message: Seq<char>) -> Failure {
    Failure { kind: ErrorKind::Serialization, message }
}

/// The outcome of a conversion whose last step was the JSON writer: the text
/// as written, or a serialization failure with the writer's message.
pub open spec fn json_text_outcome(written: Result<Seq<char>, serde_json::Error>) -> Result<
    Seq<char>,
    Failure,
> {
    match written {
        Ok(text) => Ok(text),
        Err(error) => Err(serialization_failure(json_error_text(error))),
    }
}

/// The outcome of a conversion whose last step was the YAML writer: the text
/// as written, or a serialization failure with the writer's message.
pub open spec fn yaml_text_outcome(written: Result<Seq<char>, serde_yaml::Error>) -> Result<
    Seq<char>,
    Failure,
> {
    match written {
        Ok(text) => Ok(text),
        Err(error) => Err(serialization_failure(yaml_error_text(error))),
    }
}

/// The JSON outcome for what the YAML reader made of an input: a parse
/// failure with the reader's message, or the value written as compact JSON.
pub open spec fn json_after_yaml(parsed: Result<serde_json::Value, serde_yaml::Error>) -> Result<
    Seq<char>,
    Failure,
> {
    match parsed {
        Ok(value) => json_text_outcome(json_writing(value)),
        Err(error) => Err(parse_failure(yaml_error_text(error))),
    }
}

/// The YAML outcome for what the JSON reader made of an input: a parse
/// failure with the reader's message, or the value written in the style asked
/// for. Block style is what the YAML writer emits. Flow style is the compact
/// bracketed form on one line, which is the value's compact JSON text.
pub open spec fn yaml_after_json(
    parsed: Result<serde_json::Value, serde_json::Error>,
    block_style: bool,
) -> Result<Seq<char>, Failure> {
    match parsed {
        Ok(value) => if block_style {
            yaml_text_outcome(yaml_writing(value))
        } else {
            json_text_outcome(json_writing(value))
        },
        Err(error) => Err(parse_failure(json_error_text(error))),
    }
}

/// What converting a YAML text to JSON gives.
pub open spec fn yaml_to_json_outcome(text: Seq<char>) -> Result<Seq<char>, Failure> {
    json_after_yaml(yaml_reading(text))
}

/// What converting a JSON text to YAML in the given style gives.
pub open spec fn json_to_yaml_outcome(text: Seq<char>, block_style: bool) -> Result<
    Seq<char>,
    Failure,
> {
    yaml_after_json(json_reading(text), block_style)
}

/// What checking a YAML text gives: nothing, or the parse failure.
pub open spec fn yaml_validity(text: Seq<char>) -> Result<(), Failure> {
    match yaml_reading(text) {
        Ok(_) => Ok(()),
        Err(error) => Err(parse_failure(yaml_error_text(error))),
    }
}

/// What checking a JSON text gives: nothing, or the parse failure.
pub open spec fn json_validity(text: Seq<char>) -> Result<(), Failure> {
    match json_reading(text) {
        Ok(_) => Ok(()),
        Err(error) => Err(parse_failure(json_error_text(error))),
    }
}

/// The outcome of a check as contracts see it.
pub open spec fn validity_view(checked: Result<(), ConvertError>) -> Result<(), Failure> {
    match checked {
        Ok(_) => Ok(()),
        Err(error) => Err(error@),
    }
}

/// Turns what the JSON writer returned into the outcome of the conversion.
pub fn json_text_result(written: Result<String, serde_json::Error>) -> (outcome: Result<
    String,
    ConvertError,
>)
    ensures
        match written {
            Ok(text) => outcome_view(outcome) == Ok::<Seq<char>, Failure>(text@),
            Err(error) => outcome_view(outcome) == Err::<Seq<char>, Failure>(
                serialization_failure(json_error_text(error)),
            ),
        },
{
    match written {
        Ok(text) => Ok(text),
        Err(error) => Err(
            ConvertError::new(ErrorKind::Serialization, json_error_message(&error)),
        ),
    }
}

/// Turns what the YAML writer returned into the outcome of the conversion.
pub fn yaml_text_result(written: Result<String, serde_yaml::Error>) -> (outcome: Result<
    String,
    ConvertError,
>)
    ensures
        match written {
            Ok(text) => outcome_view(outcome) == Ok::<Seq<char>, Failure>(text@),
            Err(error) => outcome_view(outcome) == Err::<Seq<char>, Failure>(
                serialization_failure(yaml_error_text(error)),
            ),
        },
{
    match written {
        Ok(text) => Ok(text),
        Err(error) => Err(
            ConvertError::new(ErrorKind::Serialization, yaml_error_message(&error)),
        ),
    }
}

/// Finishes a YAML to JSON conversion from what the YAML reader returned.
pub fn json_from_yaml_result(parsed: Result<serde_json::Value, serde_yaml::Error>) -> (outcome:
    Result<String, ConvertError>)
    ensures
        outcome_view(outcome) == json_after_yaml(parsed),
{
    match parsed {
        Ok(value) => json_text_result(write_json(&value)),
        Err(error) => Err(ConvertError::new(ErrorKind::Parse, yaml_error_message(&error))),
    }
}

/// Finishes a JSON to YAML conversion from what the JSON reader returned.
pub fn yaml_from_json_result(
    parsed: Result<serde_json::Value, serde_json::Error>,
    block_style: bool,
) -> (outcome: Result<String, ConvertError>)
    ensures
        outcome_view(outcome) == yaml_after_json(parsed, block_style),
{
    match parsed {
        Ok(value) => if block_style {
            yaml_text_result(write_yaml(&value))
        } else {
            json_text_result(write_json(&value))
        },
        Err(error) => Err(ConvertError::new(ErrorKind::Parse, json_error_message(&error))),
    }
}

/// Reads `yaml_str` as YAML and writes the value as compact JSON.
///
/// Fails with a parse error, carrying the reader's message, exactly when the
/// YAML reader rejects the text, and with a serialization error exactly when
/// the JSON writer rejects the value.
pub fn parse_yaml_to_json(yaml_str: &str) -> (outcome: Result<String, ConvertError>)
    ensures
        outcome_view(outcome) == yaml_to_json_outcome(yaml_str@),
{
    json_from_yaml_result(read_yaml(yaml_str))
}

/// Reads `json_str` as JSON and writes the value as YAML: in block style,
/// indented over several lines, if `block_style` is set, and otherwise in flow
/// style, bracketed on one line.
///
/// Fails with a parse error, carrying the reader's message, exactly when the
/// JSON reader rejects the text, and with a serialization error exactly when
/// the writer rejects the value.
pub fn encode_json_to_yaml(json_str: &str, block_style: bool) -> (outcome: Result<
    String,
    ConvertError,
>)
    ensures
        outcome_view(outcome) == json_to_yaml_outcome(json_str@, block_style),
{
    yaml_from_json_result(read_json(json_str), block_style)
}

/// Checks that `yaml_str` is YAML that the reader accepts, and keeps nothing
/// of what was read.
pub fn validate_yaml(yaml_str: &str) -> (checked: Result<(), ConvertError>)
    ensures
        validity_view(checked) == yaml_validity(yaml_str@),
{
    match read_yaml(yaml_str) {
        Ok(_) => Ok(()),
        Err(error) => Err(ConvertError::new(ErrorKind::Parse, yaml_error_message(&error))),
    }
}

/// Checks that `json_str` is JSON that the reader accepts, and keeps nothing
/// of what was read.
pub fn validate_json(json_str: &str) -> (checked: Result<(), ConvertError>)
    ensures
        validity_view(checked) == json_validity(json_str@),
{
    match read_json(json_str) {
        Ok(_) => Ok(()),
        Err(error) => Err(ConvertError::new(ErrorKind::Parse, json_error_message(&error))),
    }
}

/// Checking a text fails exactly when converting it fails at the reader,
/// and then with the same failure. The style asked for has no part in it.
pub proof fn lemma_validation_agrees_with_conversion(text: Seq<char>, block_style: bool)
    ensures
        yaml_validity(text) is Err <==> (yaml_to_json_outcome(text) matches Err(failure)
            && failure.kind == ErrorKind::Parse),
        yaml_validity(text) matches Err(failure) ==> yaml_to_json_outcome(text) == Err::<
            Seq<char>,
            Failure,
        >(failure),
        json_validity(text) is Err <==> (json_to_yaml_outcome(text, block_style) matches Err(
            failure,
        ) && failure.kind == ErrorKind::Parse),
        json_validity(text) matches Err(failure) ==> json_to_yaml_outcome(text, block_style)
            == Err::<Seq<char>, Failure>(failure),
{
}

/// The two conversions lose nothing between the reader and the writer.
/// Wherever the YAML reader gives back the value that a text was written
/// from, converting JSON to YAML and back gives the compact JSON text of the
/// value that was read, in either style.
pub proof fn lemma_json_comes_back(
    text: Seq<char>,
    block_style: bool,
    value: serde_json::Value,
    yaml: Seq<char>,
)
    ensures
        json_reading(text) == Ok::<serde_json::Value, serde_json::Error>(value)
            && json_to_yaml_outcome(text, block_style) == Ok::<Seq<char>, Failure>(yaml)
            && yaml_reading(yaml) == Ok::<serde_json::Value, serde_yaml::Error>(value)
            ==> yaml_to_json_outcome(yaml) == json_text_outcome(json_writing(value)),
        json_reading(text) == Ok::<serde_json::Value, serde_json::Error>(value)
            && json_to_yaml_outcome(text, false) == Ok::<Seq<char>, Failure>(yaml)
            && yaml_reading(yaml) == Ok::<serde_json::Value, serde_yaml::Error>(value)
            ==> yaml_to_json_outcome(yaml) == Ok::<Seq<char>, Failure>(yaml),
{
}

} // verus!
