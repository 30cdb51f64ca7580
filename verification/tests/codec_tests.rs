use jsbridge::codec::{decode, encode};
use jsbridge::value::HostValue;

fn round_trips(v: HostValue) {
    let text = encode(&v).expect("primitive values encode");
    let back = decode(text.as_str()).expect("an encoding decodes");
    assert_eq!(back, v);
}

#[test]
fn nil_encodes_as_null() {
    assert_eq!(encode(&HostValue::Nil).unwrap(), "null");
}

#[test]
fn true_encodes_as_true() {
    assert_eq!(encode(&HostValue::True).unwrap(), "true");
}

#[test]
fn integers_encode_as_decimal_digits() {
    assert_eq!(encode(&HostValue::Int(0)).unwrap(), "0");
    assert_eq!(encode(&HostValue::Int(42)).unwrap(), "42");
    assert_eq!(encode(&HostValue::Int(-7)).unwrap(), "-7");
    assert_eq!(encode(&HostValue::Int(1000)).unwrap(), "1000");
    assert_eq!(
        encode(&HostValue::Int(i64::MAX)).unwrap(),
        "9223372036854775807"
    );
    assert_eq!(
        encode(&HostValue::Int(i64::MIN)).unwrap(),
        "-9223372036854775808"
    );
}

#[test]
fn strings_encode_quoted_and_escaped() {
    assert_eq!(
        encode(&HostValue::Text(String::from("pong"))).unwrap(),
        "\"pong\""
    );
    assert_eq!(encode(&HostValue::Text(String::new())).unwrap(), "\"\"");
    assert_eq!(
        encode(&HostValue::Text(String::from("a\"b\\c"))).unwrap(),
        "\"a\\\"b\\\\c\""
    );
}

#[test]
fn opaque_objects_have_no_encoding() {
    assert!(encode(&HostValue::Obj(7)).is_none());
}

#[test]
fn round_trip_on_each_primitive_shape() {
    round_trips(HostValue::Nil);
    round_trips(HostValue::True);
    round_trips(HostValue::Int(0));
    round_trips(HostValue::Int(42));
    round_trips(HostValue::Int(-7));
    round_trips(HostValue::Int(i64::MAX));
    round_trips(HostValue::Int(i64::MIN));
    round_trips(HostValue::Text(String::new()));
    round_trips(HostValue::Text(String::from("pong")));
    round_trips(HostValue::Text(String::from("quote \" and slash \\")));
    round_trips(HostValue::Text(String::from("null")));
}

#[test]
fn decode_reads_each_primitive_shape() {
    assert_eq!(decode("null").unwrap(), HostValue::Nil);
    assert_eq!(decode("true").unwrap(), HostValue::True);
    assert_eq!(decode("42").unwrap(), HostValue::Int(42));
    assert_eq!(decode("-7").unwrap(), HostValue::Int(-7));
    assert_eq!(
        decode("\"pong\"").unwrap(),
        HostValue::Text(String::from("pong"))
    );
    assert_eq!(
        decode("9223372036854775807").unwrap(),
        HostValue::Int(i64::MAX)
    );
    assert_eq!(
        decode("-9223372036854775808").unwrap(),
        HostValue::Int(i64::MIN)
    );
}

#[test]
fn guest_false_decodes_to_nil() {
    assert_eq!(decode("false").unwrap(), HostValue::Nil);
}

#[test]
fn control_characters_encode_as_their_escapes() {
    assert_eq!(
        encode(&HostValue::Text(String::from("a\nb\tc"))).unwrap(),
        "\"a\\nb\\tc\""
    );
    assert_eq!(
        encode(&HostValue::Text(String::from("\r\u{8}\u{c}"))).unwrap(),
        "\"\\r\\b\\f\""
    );
    assert_eq!(
        encode(&HostValue::Text(String::from("\u{1}\u{1f}"))).unwrap(),
        "\"\\u0001\\u001f\""
    );
}

#[test]
fn escapes_decode_to_their_characters() {
    assert_eq!(
        decode("\"a\\nb\\tc\"").unwrap(),
        HostValue::Text(String::from("a\nb\tc"))
    );
    assert_eq!(
        decode("\"\\r\\b\\f\\/\"").unwrap(),
        HostValue::Text(String::from("\r\u{8}\u{c}/"))
    );
    assert_eq!(
        decode("\"\\u0041\\u001F\\u20AC\"").unwrap(),
        HostValue::Text(String::from("A\u{1f}\u{20ac}"))
    );
}

#[test]
fn control_characters_round_trip() {
    for v in [
        HostValue::Text(String::from("line one\nline two\t(tabbed)")),
        HostValue::Text(String::from("\u{0}\u{1}\u{8}\u{c}\u{1f}")),
        HostValue::Text(String::from("mixed \"quotes\" and \\ and \r\n")),
        HostValue::Text(String::from("euro \u{20ac}, astral \u{1f600}")),
    ] {
        round_trips(v);
    }
}

#[test]
fn decode_rejects_malformed_escapes() {
    assert!(decode("\"dangling\\\"").is_none());
    assert!(decode("\"\\x\"").is_none());
    assert!(decode("\"\\u12\"").is_none());
    assert!(decode("\"\\u12g4\"").is_none());
    assert!(decode("\"\\uD800\"").is_none());
    assert!(decode("\"raw\ncontrol\"").is_none());
    assert!(decode("fals").is_none());
    assert!(decode("falsehood").is_none());
}

#[test]
fn decode_rejects_what_encodes_nothing() {
    assert!(decode("").is_none());
    assert!(decode("-").is_none());
    assert!(decode("-0").is_none());
    assert!(decode("007").is_none());
    assert!(decode("nul").is_none());
    assert!(decode("truth").is_none());
    assert!(decode("pong").is_none());
    assert!(decode("\"unterminated").is_none());
    assert!(decode("\"stray\"quote\"").is_none());
    assert!(decode("12x").is_none());
    assert!(decode("9223372036854775808").is_none());
    assert!(decode("-9223372036854775809").is_none());
}
