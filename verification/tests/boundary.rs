use serde_json::Value;
use yaml_bridge::{
    conversion_reply, decode_input, yaml_bridge_version, yaml_encode, yaml_parse, ConvertError,
    ErrorKind, OwnedText,
};

const INVALID_UTF8_REPLY: &[u8] = br#"{"error":"Invalid UTF-8 in input"}"#;

fn reply_text(reply: Option<OwnedText>) -> String {
    String::from_utf8(reply.unwrap().into_bytes()).unwrap()
}

#[test]
fn no_input_gives_no_reply() {
    assert!(yaml_parse(None).is_none());
    assert!(yaml_encode(None, 0).is_none());
    assert!(yaml_encode(None, 1).is_none());
}

#[test]
fn empty_input_is_not_absent_input() {
    assert_eq!(reply_text(yaml_parse(Some(b""))), "null");
    let reply = reply_text(yaml_encode(Some(b""), 1));
    assert_eq!(
        reply,
        r#"{"error":"EOF while parsing a value at line 1 column 0"}"#
    );
}

#[test]
fn yaml_is_converted_across_the_boundary() {
    let reply = yaml_parse(Some(b"key: value\nlist:\n- 1\n- 2\n"));
    assert_eq!(reply_text(reply), r#"{"key":"value","list":[1,2]}"#);
}

#[test]
fn json_is_converted_across_the_boundary_in_the_style_asked_for() {
    let input: &[u8] = br#"{"key":"value","list":[1,2]}"#;
    assert_eq!(
        reply_text(yaml_encode(Some(input), 1)),
        "key: value\nlist:\n- 1\n- 2\n"
    );
    assert_eq!(
        reply_text(yaml_encode(Some(input), -7)),
        "key: value\nlist:\n- 1\n- 2\n"
    );
    assert_eq!(
        reply_text(yaml_encode(Some(input), 0)),
        r#"{"key":"value","list":[1,2]}"#
    );
}

#[test]
fn malformed_yaml_is_told_in_the_reply() {
    let input: &[u8] = b"key: : invalid\n-broken: structure";
    let reply = reply_text(yaml_parse(Some(input)));
    assert!(reply.starts_with(r#"{"error":""#));
    assert!(reply.ends_with(r#""}"#));
    let message = &reply[r#"{"error":""#.len()..reply.len() - r#""}"#.len()];
    assert!(!message.is_empty());

    let shown = serde_yaml::from_str::<Value>("key: : invalid\n-broken: structure")
        .unwrap_err()
        .to_string();
    assert_eq!(message, shown.replace('"', "\\\""));

    let parsed: Value = serde_json::from_str(&reply).unwrap();
    assert!(parsed["error"].is_string());
}

#[test]
fn malformed_json_is_told_in_the_reply() {
    let input: &[u8] = br#"{"key": "value", invalid_structure}"#;
    for block_style in [0, 1] {
        let reply = reply_text(yaml_encode(Some(input), block_style));
        assert_eq!(
            reply,
            r#"{"error":"key must be a string at line 1 column 18"}"#
        );
    }
}

#[test]
fn input_that_is_not_utf8_gets_the_fixed_reply() {
    let inputs: [&[u8]; 4] = [
        &[0xff],
        &[b'a', b':', b' ', 0xc3],
        &[0xed, 0xa0, 0x80],
        &[b'{', b'}', 0x80],
    ];
    for input in inputs {
        assert_eq!(yaml_parse(Some(input)).unwrap().as_bytes(), INVALID_UTF8_REPLY);
        assert_eq!(
            yaml_encode(Some(input), 0).unwrap().as_bytes(),
            INVALID_UTF8_REPLY
        );
        assert_eq!(
            yaml_encode(Some(input), 1).unwrap().as_bytes(),
            INVALID_UTF8_REPLY
        );
    }
}

#[test]
fn text_beyond_ascii_is_decoded_and_converted() {
    let reply = yaml_parse(Some("name: caf\u{e9} \u{4e2d}\u{6587}".as_bytes()));
    assert_eq!(reply_text(reply), "{\"name\":\"caf\u{e9} \u{4e2d}\u{6587}\"}");
}

#[test]
fn decoding_gives_the_text_or_an_encoding_error() {
    assert_eq!(decode_input(b"plain").unwrap(), "plain");
    assert_eq!(decode_input("caf\u{e9}".as_bytes()).unwrap(), "caf\u{e9}");
    assert_eq!(decode_input(b"").unwrap(), "");

    let error = decode_input(&[b'a', 0xff]).unwrap_err();
    assert_eq!(error.kind, ErrorKind::InvalidEncoding);
    assert_eq!(error.message, "Invalid UTF-8 in input");
}

#[test]
fn a_reply_is_the_text_or_the_error_payload() {
    let reply = conversion_reply(Ok(String::from("a: 1\n")));
    assert_eq!(reply.as_bytes(), b"a: 1\n");

    let error = ConvertError::new(ErrorKind::Parse, String::from("found \"x\" at \"y\""));
    let reply = conversion_reply(Err(error));
    assert_eq!(
        reply.as_bytes(),
        br#"{"error":"found \"x\" at \"y\""}"#
    );

    let error = ConvertError::new(ErrorKind::Serialization, String::new());
    let reply = conversion_reply(Err(error));
    assert_eq!(reply.as_bytes(), br#"{"error":""}"#);

    let error = ConvertError::new(
        ErrorKind::InvalidEncoding,
        String::from("Invalid UTF-8 in input"),
    );
    assert_eq!(conversion_reply(Err(error)).as_bytes(), INVALID_UTF8_REPLY);
}

#[test]
fn a_reply_with_a_nul_byte_inside_is_empty() {
    let reply = conversion_reply(Ok(String::from("a\0b")));
    assert_eq!(reply.as_bytes(), b"");

    let error = ConvertError::new(ErrorKind::Parse, String::from("bad\0byte"));
    assert_eq!(conversion_reply(Err(error)).as_bytes(), b"");
}

#[test]
fn replies_never_hold_a_nul_byte() {
    let inputs: [&[u8]; 3] = [b"a: \"x\\0y\"", b"\0", b"k: v"];
    for input in inputs {
        let reply = yaml_parse(Some(input)).unwrap();
        assert!(!reply.as_bytes().contains(&0));
    }
}

#[test]
fn version_text_names_package_version_and_authors() {
    assert_eq!(
        yaml_bridge_version("yaml-bridge", "1.2.3", "A. Author <a@example.org>"),
        "yaml-bridge 1.2.3 (A. Author <a@example.org>)"
    );
    assert_eq!(yaml_bridge_version("", "", ""), "  ()");
}

#[test]
fn a_yaml_reader_message_is_told_word_for_word() {
    let reply = reply_text(yaml_parse(Some(b"a: &x 1\nb: *y\n")));
    assert_eq!(reply, r#"{"error":"unknown anchor at line 2 column 4"}"#);
}
