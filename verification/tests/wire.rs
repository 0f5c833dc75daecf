//! The wire frame: exact output, escaping, and the parse round trip.

use message_relay::model::message::StreamMessage;
use message_relay::wire::{encode_frame, parse_frame};

fn msg(id: i32, user: i32, quote: Option<i32>, t: i64, ty: i32, body: &str) -> StreamMessage {
    StreamMessage {
        id,
        user_id: user,
        quote_id: quote,
        send_time: t,
        message_type: ty,
        message: body.to_string(),
    }
}

#[test]
fn frame_has_the_exact_field_set_and_order() {
    let m = msg(42, 3, None, 1700000000, 1, "hi");
    assert_eq!(
        encode_frame(&m),
        "{\"id\":42,\"userId\":3,\"quoteId\":null,\"sendTime\":1700000000,\"messageType\":1,\"message\":\"hi\"}"
    );
}

#[test]
fn frame_writes_a_quoted_message_id_as_a_number() {
    let m = msg(1, 2, Some(99), 5, 0, "q");
    assert_eq!(
        encode_frame(&m),
        "{\"id\":1,\"userId\":2,\"quoteId\":99,\"sendTime\":5,\"messageType\":0,\"message\":\"q\"}"
    );
}

#[test]
fn frame_writes_negative_numbers_with_a_sign() {
    let m = msg(-7, -1, Some(-2), -1234567890123, -3, "");
    assert_eq!(
        encode_frame(&m),
        "{\"id\":-7,\"userId\":-1,\"quoteId\":-2,\"sendTime\":-1234567890123,\"messageType\":-3,\"message\":\"\"}"
    );
}

#[test]
fn frame_escapes_quotes_backslashes_and_control_characters() {
    let m = msg(1, 1, None, 0, 0, "a\"b\\c\nd\u{1f}");
    assert_eq!(
        encode_frame(&m),
        "{\"id\":1,\"userId\":1,\"quoteId\":null,\"sendTime\":0,\"messageType\":0,\"message\":\"a\\\"b\\\\c\\u000ad\\u001f\"}"
    );
}

#[test]
fn frame_is_valid_json_with_the_expected_fields() {
    let m = msg(42, 3, None, 1700000000, 1, "say \"hi\"\n");
    let v: serde_json::Value = serde_json::from_str(&encode_frame(&m)).unwrap();
    assert_eq!(v["id"], 42);
    assert_eq!(v["userId"], 3);
    assert!(v["quoteId"].is_null());
    assert_eq!(v["sendTime"], 1700000000i64);
    assert_eq!(v["messageType"], 1);
    assert_eq!(v["message"], "say \"hi\"\n");
}

#[test]
fn round_trip_plain() {
    let m = msg(42, 3, None, 1700000000, 1, "hi");
    assert_eq!(parse_frame(&encode_frame(&m)), Some(m));
}

#[test]
fn round_trip_with_quote_escapes_and_unicode() {
    let m = msg(-5, 7, Some(12), -99, 2, "tab\there \"quoted\" back\\slash ünïcødé 漢字");
    assert_eq!(parse_frame(&encode_frame(&m)), Some(m));
}

#[test]
fn round_trip_at_the_integer_extremes() {
    let m = msg(i32::MIN, i32::MAX, Some(i32::MIN), i64::MIN, i32::MAX, "");
    assert_eq!(parse_frame(&encode_frame(&m)), Some(m.clone()));
    let m2 = msg(0, 0, Some(0), i64::MAX, 0, "0");
    assert_eq!(parse_frame(&encode_frame(&m2)), Some(m2));
}

#[test]
fn parse_rejects_what_the_writer_never_writes() {
    // Missing field.
    assert_eq!(parse_frame("{\"id\":1,\"userId\":2}"), None);
    // Trailing text after the closing brace.
    assert_eq!(
        parse_frame(
            "{\"id\":1,\"userId\":2,\"quoteId\":null,\"sendTime\":3,\"messageType\":4,\"message\":\"m\"}x"
        ),
        None
    );
    // Whitespace the writer never emits.
    assert_eq!(
        parse_frame(
            "{\"id\": 1,\"userId\":2,\"quoteId\":null,\"sendTime\":3,\"messageType\":4,\"message\":\"m\"}"
        ),
        None
    );
    // An id outside the 32-bit range.
    assert_eq!(
        parse_frame(
            "{\"id\":2147483648,\"userId\":2,\"quoteId\":null,\"sendTime\":3,\"messageType\":4,\"message\":\"m\"}"
        ),
        None
    );
    // An unterminated body.
    assert_eq!(
        parse_frame(
            "{\"id\":1,\"userId\":2,\"quoteId\":null,\"sendTime\":3,\"messageType\":4,\"message\":\"m"
        ),
        None
    );
    // An escape the writer never uses.
    assert_eq!(
        parse_frame(
            "{\"id\":1,\"userId\":2,\"quoteId\":null,\"sendTime\":3,\"messageType\":4,\"message\":\"\\x\"}"
        ),
        None
    );
    assert_eq!(parse_frame(""), None);
}

#[test]
fn parse_accepts_the_boundary_of_the_64_bit_range_only() {
    let ok = "{\"id\":1,\"userId\":2,\"quoteId\":null,\"sendTime\":-9223372036854775808,\"messageType\":4,\"message\":\"m\"}";
    assert!(parse_frame(ok).is_some());
    let too_small = "{\"id\":1,\"userId\":2,\"quoteId\":null,\"sendTime\":-9223372036854775809,\"messageType\":4,\"message\":\"m\"}";
    assert_eq!(parse_frame(too_small), None);
}
