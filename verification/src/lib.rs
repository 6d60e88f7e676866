//! Conversion between YAML and JSON text for callers on the far side of a C
//! interface.
//!
//! The conversion core turns text into text through a structured value that
//! `serde_yaml` and `serde_json` read and write. The boundary layer takes the
//! bytes a caller hands over, checks their encoding, runs the core and folds
//! every failure into the reply, so that a caller always gets text back. A
//! last-error slot keeps one message for the caller between calls.

pub mod boundary;
pub mod codec;
pub mod convert;
pub mod encoding;
pub mod error;
pub mod slot;
pub mod text;

pub use boundary::{conversion_reply, decode_input, yaml_bridge_version, yaml_encode, yaml_parse};
pub use convert::{
    encode_json_to_yaml, json_from_yaml_result, json_text_result, parse_yaml_to_json,
    validate_json, validate_yaml, yaml_from_json_result, yaml_text_result,
};
pub use error::{ConvertError, ErrorKind};
pub use slot::{get_last_error, set_last_error, ErrorSlot};
pub use text::{error_payload_bytes, escape_quote_bytes, OwnedText};
