//! The boundary layer: from the bytes a caller hands over to the text that
//! is handed back. An absent input gives an absent reply. Any other input
//! gives a reply, and a failure is told in the reply's text.

use crate::convert::{
    encode_json_to_yaml, json_to_yaml_outcome, parse_yaml_to_json, yaml_to_json_outcome,
};
use crate::error::{ConvertError, ErrorKind, Failure, outcome_view};
use crate::text::{
    c_content, decode_text, error_payload_bytes, error_text, escape_quote_chars,
    lemma_escape_chars_keeps_nul_out, lemma_escape_chars_without_quotes, lemma_payload_is_text,
    lemma_text_without_nul_is_kept, OwnedText,
};
use vstd::prelude::*;
use vstd::utf8::{decode_utf8, encode_utf8, valid_utf8};

verus! {

/// The failure that stands for input that is not UTF-8 text.
pub open spec fn encoding_failure() -> Failure {
    Failure { kind: ErrorKind::InvalidEncoding, message: "Invalid UTF-8 in input"@ }
}

/// The text of an input, or the failure to decode it.
pub open spec fn decoded_input(bytes: Seq<u8>) -> Result<Seq<char>, Failure> {
    if valid_utf8(bytes) {
        Ok(decode_utf8(bytes))
    } else {
        Err(encoding_failure())
    }
}

/// The reply that tells an outcome, as the content of a C string: the bytes
/// of the text of a success, or of the text that reports a failure with its
/// message.
pub open spec fn reply_text(outcome: Result<Seq<char>, Failure>) -> Seq<u8> {
    match outcome {
        Ok(text) => c_content(encode_utf8(text)),
        Err(failure) => c_content(encode_utf8(error_text(failure.message))),
    }
}

/// The reply to a request to convert the YAML in `bytes` to JSON.
pub open spec fn yaml_parse_reply(bytes: Seq<u8>) -> Seq<u8> {
    match decoded_input(bytes) {
        Ok(text) => reply_text(yaml_to_json_outcome(text)),
        Err(failure) => reply_text(Err(failure)),
    }
}

/// The reply to a request to convert the JSON in `bytes` to YAML, in block
/// style unless `block_style` is zero.
pub open spec fn yaml_encode_reply(bytes: Seq<u8>, block_style: i32) -> Seq<u8> {
    match decoded_input(bytes) {
        Ok(text) => reply_text(json_to_yaml_outcome(text, block_style != 0)),
        Err(failure) => reply_text(Err(failure)),
    }
}

/// Decodes the bytes of an input as UTF-8 text.
pub fn decode_input(bytes: &[u8]) -> (decoded: Result<&str, ConvertError>)
    ensures
        match decoded {
            Ok(text) => decoded_input(bytes@) == Ok::<Seq<char>, Failure>(text@),
            Err(error) => decoded_input(bytes@) == Err::<Seq<char>, Failure>(error@),
        },
{
    broadcast use vstd::utf8::encode_utf8_decode_utf8;

    match decode_text(bytes) {
        Some(text) => Ok(text),
        None => Err(
            ConvertError::new(ErrorKind::InvalidEncoding, "Invalid UTF-8 in input".to_owned()),
        ),
    }
}

/// Makes the reply that tells the outcome of a conversion.
pub fn conversion_reply(outcome: Result<String, ConvertError>) -> (reply: OwnedText)
    ensures
        reply@ == reply_text(outcome_view(outcome)),
{
    match outcome {
        Ok(text) => OwnedText::new(text.as_str().as_bytes_vec()),
        Err(error) => {
            proof {
                lemma_payload_is_text(error@.message);
            }
            OwnedText::new(error_payload_bytes(error.message().as_bytes()))
        },
    }
}

/// Converts YAML to JSON for a caller across the boundary.
///
/// `input` is the caller's text without its terminator, or `None` where the
/// caller passed no text. No text gives no reply. Any text gives a reply: the
/// JSON, or an error payload where the bytes are not UTF-8 or the conversion
/// failed.
pub fn yaml_parse(input: Option<&[u8]>) -> (output: Option<OwnedText>)
    ensures
        match input {
            None => output is None,
            Some(bytes) => output matches Some(reply) && reply@ == yaml_parse_reply(bytes@),
        },
        input matches Some(bytes) ==> !valid_utf8(bytes@) ==> (output matches Some(reply)
            && reply@ == encode_utf8("{\"error\":\"Invalid UTF-8 in input\"}"@)),
{
    proof {
        match input {
            Some(bytes) => if !valid_utf8(bytes@) {
                lemma_undecodable_input_reply(bytes@, 0);
            },
            None => {},
        }
    }
    match input {
        None => None,
        Some(bytes) => match decode_input(bytes) {
            Ok(text) => Some(conversion_reply(parse_yaml_to_json(text))),
            Err(error) => Some(conversion_reply(Err(error))),
        },
    }
}

/// Converts JSON to YAML for a caller across the boundary, in block style
/// unless `block_style` is zero.
///
/// `input` is the caller's text without its terminator, or `None` where the
/// caller passed no text. No text gives no reply. Any text gives a reply: the
/// YAML, or an error payload where the bytes are not UTF-8 or the conversion
/// failed.
pub fn yaml_encode(input: Option<&[u8]>, block_style: i32) -> (output: Option<OwnedText>)
    ensures
        match input {
            None => output is None,
            Some(bytes) => output matches Some(reply) && reply@ == yaml_encode_reply(
                bytes@,
                block_style,
            ),
        },
        input matches Some(bytes) ==> !valid_utf8(bytes@) ==> (output matches Some(reply)
            && reply@ == encode_utf8("{\"error\":\"Invalid UTF-8 in input\"}"@)),
{
    proof {
        match input {
            Some(bytes) => if !valid_utf8(bytes@) {
                lemma_undecodable_input_reply(bytes@, block_style);
            },
            None => {},
        }
    }
    match input {
        None => None,
        Some(bytes) => match decode_input(bytes) {
            Ok(text) => Some(conversion_reply(encode_json_to_yaml(text, block_style != 0))),
            Err(error) => Some(conversion_reply(Err(error))),
        },
    }
}

/// The text that names a build of the library: its name, its version and,
/// in parentheses, its authors.
pub open spec fn version_text(name: Seq<char>, version: Seq<char>, authors: Seq<char>) -> Seq<
    char,
> {
    name + " "@ + version + " ("@ + authors + ")"@
}

/// Puts together the text that names this build of the library.
///
/// The text is for a caller to read, not to own: it is no `OwnedText`, and
/// is never handed back for release.
pub fn yaml_bridge_version(name: &str, version: &str, authors: &str) -> (text: String)
    ensures
        text@ == version_text(name@, version@, authors@),
{
    let mut text = name.to_owned();
    text.append(" ");
    text.append(version);
    text.append(" (");
    text.append(authors);
    text.append(")");
    text
}

/// A text without a NUL character is told in full: the reply to a success
/// with that text is the bytes of the text.
pub proof fn lemma_success_is_told(text: Seq<char>)
    requires
        !text.contains('\0'),
    ensures
        reply_text(Ok(text)) == encode_utf8(text),
{
    lemma_text_without_nul_is_kept(text);
}

/// A failure whose message has no NUL character is told in full: the reply
/// is the bytes of a JSON object with the one member `error`, whose value is
/// the whole message with its double quotes escaped.
pub proof fn lemma_failure_is_told(failure: Failure)
    requires
        !failure.message.contains('\0'),
    ensures
        reply_text(Err(failure)) == encode_utf8(
            "{\"error\":\""@ + escape_quote_chars(failure.message) + "\"}"@,
        ),
{
    reveal_strlit("{\"error\":\"");
    reveal_strlit("\"}");
    let opening = "{\"error\":\""@;
    let closing = "\"}"@;
    let escaped = escape_quote_chars(failure.message);
    lemma_escape_chars_keeps_nul_out(failure.message);
    let told = error_text(failure.message);
    assert forall|i: int| 0 <= i < told.len() implies told[i] != '\0' by {
        if i < opening.len() {
            assert(told[i] == opening[i]);
        } else if i < opening.len() + escaped.len() {
            assert(told[i] == escaped[i - opening.len()]);
            assert(escaped.contains(told[i]));
        } else {
            assert(told[i] == closing[i - opening.len() - escaped.len()]);
        }
    }
    lemma_text_without_nul_is_kept(told);
}

/// Every reply is UTF-8 text.
pub proof fn lemma_reply_is_text(outcome: Result<Seq<char>, Failure>)
    ensures
        valid_utf8(reply_text(outcome)),
{
    broadcast use vstd::utf8::encode_utf8_valid_utf8;

    assert(valid_utf8(Seq::<u8>::empty()));
}

/// Input that is not UTF-8 text gets one fixed reply from either conversion,
/// whatever the YAML and JSON readers and writers would do.
pub proof fn lemma_undecodable_input_reply(bytes: Seq<u8>, block_style: i32)
    requires
        !valid_utf8(bytes),
    ensures
        yaml_parse_reply(bytes) == encode_utf8("{\"error\":\"Invalid UTF-8 in input\"}"@),
        yaml_encode_reply(bytes, block_style) == encode_utf8(
            "{\"error\":\"Invalid UTF-8 in input\"}"@,
        ),
{
    reveal_strlit("{\"error\":\"");
    reveal_strlit("\"}");
    reveal_strlit("Invalid UTF-8 in input");
    reveal_strlit("{\"error\":\"Invalid UTF-8 in input\"}");
    let message = "Invalid UTF-8 in input"@;
    let whole = "{\"error\":\"Invalid UTF-8 in input\"}"@;
    assert(!message.contains('"'));
    assert(!message.contains('\0'));
    lemma_escape_chars_without_quotes(message);
    assert(error_text(message) =~= whole);
    lemma_failure_is_told(encoding_failure());
}

} // verus!
