use cedar_bench::attrs::{AttrValue, AttributeRecord};
use cedar_bench::json::{
    entities_json, push_escaped_char, push_list, push_long, push_object, push_quoted, push_value,
};
use cedar_bench::text::{digit, push_decimal};
use serde_json::Value;

fn decimal(n: u64) -> String {
    let mut out = String::new();
    push_decimal(&mut out, n);
    out
}

fn quoted(s: &str) -> String {
    let mut out = String::new();
    push_quoted(&mut out, s);
    out
}

fn long(v: i64) -> String {
    let mut out = String::new();
    push_long(&mut out, v);
    out
}

#[test]
fn numerals_have_no_leading_zero() {
    assert_eq!(decimal(0), "0");
    assert_eq!(decimal(7), "7");
    assert_eq!(decimal(10), "10");
    assert_eq!(decimal(105), "105");
    assert_eq!(decimal(1_000_000), "1000000");
    assert_eq!(decimal(u64::MAX), "18446744073709551615");
    for n in 0..2000u64 {
        assert_eq!(decimal(n), n.to_string());
    }
}

#[test]
fn numerals_are_appended() {
    let mut out = String::from("extra");
    push_decimal(&mut out, 42);
    assert_eq!(out, "extra42");
}

#[test]
fn digits() {
    let all: String = (0..10).map(digit).collect();
    assert_eq!(all, "0123456789");
}

#[test]
fn integers_as_json() {
    assert_eq!(long(0), "0");
    assert_eq!(long(95), "95");
    assert_eq!(long(-1), "-1");
    assert_eq!(long(-120), "-120");
    assert_eq!(long(i64::MAX), "9223372036854775807");
    assert_eq!(long(i64::MIN), "-9223372036854775808");
}

#[test]
fn strings_are_escaped() {
    assert_eq!(quoted(""), "\"\"");
    assert_eq!(quoted("admin"), "\"admin\"");
    assert_eq!(quoted("a\"b"), "\"a\\\"b\"");
    assert_eq!(quoted("a\\b"), "\"a\\\\b\"");
    assert_eq!(quoted("a\nb"), "\"a\\u000ab\"");
    assert_eq!(quoted("\u{0}\u{1f}"), "\"\\u0000\\u001f\"");
    assert_eq!(quoted(" ~"), "\" ~\"");
    assert_eq!(quoted("caf\u{e9} \u{1f600}"), "\"caf\u{e9} \u{1f600}\"");
    let mut out = String::from("x");
    push_escaped_char(&mut out, '\t');
    assert_eq!(out, "x\\u0009");
}

#[test]
fn escaped_strings_read_back() {
    let samples = ["", "plain", "quote \" and \\ slash", "line\nbreak\ttab\r", "\u{0}\u{7}\u{1b}", "caf\u{e9}"];
    for s in samples {
        let read: Value = serde_json::from_str(&quoted(s)).expect("valid JSON");
        assert_eq!(read, Value::String(s.to_string()));
    }
}

#[test]
fn lists_are_comma_separated() {
    let mut out = String::new();
    push_list(&mut out, &Vec::new());
    assert_eq!(out, "[]");
    let mut out = String::new();
    push_list(&mut out, &vec![String::from("flag1")]);
    assert_eq!(out, "[\"flag1\"]");
    let mut out = String::from("x");
    push_list(&mut out, &vec![String::from("u1"), String::from("u2"), String::from("u\"3")]);
    assert_eq!(out, "x[\"u1\",\"u2\",\"u\\\"3\"]");
}

#[test]
fn values_by_variant() {
    let cases = [
        (AttrValue::Text(String::from("us")), "\"us\""),
        (AttrValue::Long(-5), "-5"),
        (AttrValue::Flag(true), "true"),
        (AttrValue::Flag(false), "false"),
        (AttrValue::TextSet(vec![String::from("a"), String::from("b")]), "[\"a\",\"b\"]"),
    ];
    for (value, expected) in cases {
        let mut out = String::new();
        push_value(&mut out, &value);
        assert_eq!(out, expected);
    }
}

#[test]
fn objects_keep_the_order_of_the_record() {
    let mut record = AttributeRecord::new();
    let mut out = String::new();
    push_object(&mut out, &record);
    assert_eq!(out, "{}");
    record.set("role", AttrValue::Text(String::from("admin")));
    record.set("level", AttrValue::Long(10));
    record.set("verified", AttrValue::Flag(true));
    record.set("roles", AttrValue::TextSet(Vec::new()));
    let mut out = String::new();
    push_object(&mut out, &record);
    assert_eq!(out, "{\"role\":\"admin\",\"level\":10,\"verified\":true,\"roles\":[]}");
}

#[test]
fn entity_document_is_exact() {
    let mut record = AttributeRecord::new();
    record.set("level", AttrValue::Long(3));
    let doc = entities_json("test-user", &record, "test-resource");
    assert_eq!(
        doc,
        "[{\"uid\":{\"type\":\"User\",\"id\":\"test-user\"},\"attrs\":{\"level\":3},\"parents\":[]},\
         {\"uid\":{\"type\":\"Resource\",\"id\":\"test-resource\"},\"attrs\":{},\"parents\":[]}]"
    );
}

#[test]
fn entity_document_reads_back() {
    let mut record = AttributeRecord::new();
    record.set("role", AttrValue::Text(String::from("ad\"min")));
    record.set("age", AttrValue::Long(30));
    record.set("trial", AttrValue::Flag(false));
    record.set("roles", AttrValue::TextSet(vec![String::from("user")]));
    let doc = entities_json("al\\ice", &record, "res");
    let read: Value = serde_json::from_str(&doc).expect("valid JSON");
    let entities = read.as_array().expect("an array");
    assert_eq!(entities.len(), 2);
    let user = &entities[0];
    assert_eq!(user["uid"]["type"], Value::from("User"));
    assert_eq!(user["uid"]["id"], Value::from("al\\ice"));
    assert_eq!(user["parents"], Value::Array(Vec::new()));
    let attrs = user["attrs"].as_object().expect("an object");
    assert_eq!(attrs.len(), 4);
    assert_eq!(attrs["role"], Value::from("ad\"min"));
    assert_eq!(attrs["age"], Value::from(30));
    assert_eq!(attrs["trial"], Value::from(false));
    assert_eq!(attrs["roles"], Value::Array(vec![Value::from("user")]));
    let resource = &entities[1];
    assert_eq!(resource["uid"]["type"], Value::from("Resource"));
    assert_eq!(resource["uid"]["id"], Value::from("res"));
    assert_eq!(resource["attrs"].as_object().map(|o| o.len()), Some(0));
}
