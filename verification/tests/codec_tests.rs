use toy_lsp::codec::decode_message;
use toy_lsp::codec::encode_message;
use toy_lsp::codec::split_frame;
use toy_lsp::codec::MessageCodec;
use toy_lsp::codec::SplitResult;
use toy_lsp::errors::DecodeError;
use toy_lsp::errors::EncodeError;
use toy_lsp::json::to_json_bytes;
use toy_lsp::json::Json;
use toy_lsp::json::JsonMember;
use toy_lsp::parse::parse_json_x;

fn obj(members: Vec<(&str, Json)>) -> Json {
    Json::Obj(
        members
            .into_iter()
            .map(|(k, v)| JsonMember { key: k.to_string(), val: v })
            .collect(),
    )
}

fn s(text: &str) -> Json {
    Json::Str(text.to_string())
}

#[test]
fn test_encode() {
    let expected = "Content-Length: 16\r\n\r\n{\"testing\":true}";
    let actual = encode_message(&obj(vec![("testing", Json::Bool(true))])).unwrap();
    assert_eq!(expected.as_bytes(), actual.as_slice());
}

#[test]
fn test_decode() {
    let expected = obj(vec![("testing", Json::Bool(true))]);
    let actual = decode_message(b"Content-Length: 16\r\n\r\n{\"testing\":true}").unwrap();
    assert_eq!(expected, actual);
}

#[test]
fn split_complete_frame_consumes_exactly() {
    let body = "{\"testing\":true}";
    let buf = format!("Content-Length: {}\r\n\r\n{}", body.len(), body);
    // header length + 4 + content length covers the whole buffer
    let header_len = buf.find("\r\n\r\n").unwrap();
    match split_frame(buf.as_bytes()) {
        SplitResult::Complete { consumed, body_start } => {
            assert_eq!(consumed, header_len + 4 + body.len());
            assert_eq!(consumed, buf.len());
            assert_eq!(body_start, header_len + 4);
            assert_eq!(&buf.as_bytes()[body_start..consumed], body.as_bytes());
        }
        _ => panic!("expected a complete frame"),
    }
}

#[test]
fn split_partial_body_then_complete() {
    let body = "{\"testing\":true}";
    let full = format!("Content-Length: {}\r\n\r\n{}", body.len(), body);
    let cut = full.len() - 7;
    let partial = &full.as_bytes()[..cut];
    assert!(matches!(split_frame(partial), SplitResult::Incomplete));
    // once the remaining bytes arrive, the same cumulative buffer is complete
    match split_frame(full.as_bytes()) {
        SplitResult::Complete { consumed, body_start } => {
            assert_eq!(consumed, full.len());
            assert_eq!(&full.as_bytes()[body_start..consumed], body.as_bytes());
        }
        _ => panic!("expected a complete frame"),
    }
}

#[test]
fn split_no_delimiter_is_incomplete() {
    assert!(matches!(split_frame(b"Content-Len"), SplitResult::Incomplete));
}

#[test]
fn multibyte_text_frames_by_byte_count() {
    let v = obj(vec![("text", s("h\u{e9}llo \u{1f60e}"))]);
    let encoded = encode_message(&v).unwrap();
    let body = "{\"text\":\"h\u{e9}llo \u{1f60e}\"}";
    // the declared length counts bytes, not characters
    let expected = format!("Content-Length: {}\r\n\r\n{}", body.len(), body);
    assert_eq!(expected.as_bytes(), encoded.as_slice());
    assert!(body.len() > body.chars().count());
    // decoding reproduces the exact original string
    let back = decode_message(&encoded).unwrap();
    assert_eq!(v, back);
}

#[test]
fn decode_missing_delimiter() {
    assert_eq!(
        decode_message(b"Content-Length: 16"),
        Err(DecodeError::MissingDelimiter)
    );
}

#[test]
fn decode_header_not_utf8() {
    let buf = [0x43u8, 0xFF, 0xFE, 13, 10, 13, 10];
    assert_eq!(decode_message(&buf), Err(DecodeError::HeaderNotUtf8));
}

#[test]
fn decode_missing_prefix() {
    match decode_message(b"Length: 5\r\n\r\nhello") {
        Err(DecodeError::MissingPrefix { found }) => assert_eq!(found, "Length: 5"),
        other => panic!("expected a missing prefix error, got {:?}", other),
    }
}

#[test]
fn decode_invalid_length_field() {
    match decode_message(b"Content-Length: abc\r\n\r\nhello") {
        Err(DecodeError::InvalidLengthField { field }) => assert_eq!(field, "abc"),
        other => panic!("expected an invalid length error, got {:?}", other),
    }
}

#[test]
fn decode_incomplete_body() {
    assert_eq!(
        decode_message(b"Content-Length: 10\r\n\r\nabc"),
        Err(DecodeError::IncompleteBody { expected: 10, found: 3 })
    );
}

#[test]
fn decode_malformed_body() {
    assert_eq!(
        decode_message(b"Content-Length: 5\r\n\r\n{{{{{"),
        Err(DecodeError::Json)
    );
}

#[test]
fn codec_discards_buffer_after_malformed_header() {
    let mut codec = MessageCodec;
    let mut buf: Vec<u8> = b"Length: 5\r\n\r\nhello".to_vec();
    match codec.decode(&mut buf) {
        Err(DecodeError::MissingPrefix { found }) => assert_eq!(found, "Length: 5"),
        other => panic!("expected a missing prefix error, got {:?}", other),
    }
    // the buffer was discarded: well-formed frames arriving afterwards decode
    assert!(buf.is_empty());
    buf.extend_from_slice(b"Content-Length: 16\r\n\r\n{\"testing\":true}");
    let frame = codec.decode(&mut buf).unwrap().unwrap();
    assert_eq!(frame.as_slice(), &b"Content-Length: 16\r\n\r\n{\"testing\":true}"[..]);
    assert!(buf.is_empty());
}

#[test]
fn codec_waits_for_more_bytes() {
    let mut codec = MessageCodec;
    let mut buf: Vec<u8> = b"Content-Length: 16\r\n\r\n{\"tes".to_vec();
    assert_eq!(codec.decode(&mut buf), Ok(None));
    assert_eq!(buf, b"Content-Length: 16\r\n\r\n{\"tes".to_vec());
}

#[test]
fn codec_encode_appends_frame() {
    let mut codec = MessageCodec;
    let mut out: Vec<u8> = Vec::new();
    codec
        .encode(&obj(vec![("testing", Json::Bool(true))]), &mut out)
        .unwrap();
    assert_eq!(out.as_slice(), &b"Content-Length: 16\r\n\r\n{\"testing\":true}"[..]);
}

#[test]
fn encode_rejects_unescapable_control_character() {
    let v = s("bad\u{1}byte");
    assert_eq!(to_json_bytes(&v), None);
    assert_eq!(encode_message(&v), None);
    let mut codec = MessageCodec;
    let mut out: Vec<u8> = Vec::new();
    assert_eq!(codec.encode(&v, &mut out), Err(EncodeError::Unserializable));
    assert!(out.is_empty());
}

#[test]
fn json_escapes_round_trip() {
    let v = obj(vec![("text", s("line\none\t\"quoted\" back\\slash\r"))]);
    let bytes = to_json_bytes(&v).unwrap();
    let back = parse_json_x(bytes.as_slice()).unwrap();
    assert_eq!(v, back);
}

#[test]
fn json_parser_accepts_whitespace_and_escapes() {
    let text = " { \"a\" : [ 1 , true , null , \"x\\u0041\" ] } ";
    // \u escapes are not in the supported subset: this input is rejected
    assert_eq!(parse_json_x(text.as_bytes()), None);
    let ok = " { \"a\" : [ 1 , true , null , \"x\\n\" ] } ";
    let parsed = parse_json_x(ok.as_bytes()).unwrap();
    let expected = obj(vec![(
        "a",
        Json::Arr(vec![Json::Int(1), Json::Bool(true), Json::Null, s("x\n")]),
    )]);
    assert_eq!(parsed, expected);
}

#[test]
fn json_parser_rejects_trailing_bytes_and_overflow() {
    assert_eq!(parse_json_x(b"{} extra"), None);
    assert_eq!(parse_json_x(b"18446744073709551615"), Some(Json::Int(u64::MAX)));
    assert_eq!(parse_json_x(b"18446744073709551616"), None);
}

#[test]
fn nested_structures_round_trip() {
    let v = obj(vec![
        ("a", Json::Arr(vec![obj(vec![("b", Json::Int(0))]), Json::Arr(vec![])])),
        ("c", obj(vec![])),
        ("d", s("")),
    ]);
    let bytes = to_json_bytes(&v).unwrap();
    assert_eq!(
        std::str::from_utf8(bytes.as_slice()).unwrap(),
        "{\"a\":[{\"b\":0},[]],\"c\":{},\"d\":\"\"}"
    );
    assert_eq!(parse_json_x(bytes.as_slice()).unwrap(), v);
}

#[test]
fn length_field_tolerates_sign_and_whitespace() {
    // a leading plus and surrounding ASCII whitespace still parse
    let v = decode_message(b"Content-Length:  +16 \r\n\r\n{\"testing\":true}").unwrap();
    assert_eq!(v, obj(vec![("testing", Json::Bool(true))]));
    // an empty field does not
    match decode_message(b"Content-Length: \r\n\r\n") {
        Err(DecodeError::InvalidLengthField { field }) => assert_eq!(field, ""),
        other => panic!("expected an invalid length error, got {:?}", other),
    }
}

#[test]
fn decode_error_message_for_missing_delimiter() {
    let err = decode_message(b"Content-Length: 16").unwrap_err();
    assert_eq!(
        err.message(),
        "could not find the message separator \"\\r\\n\\r\\n\" in the buffer"
    );
}
