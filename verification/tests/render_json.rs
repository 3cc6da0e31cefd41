use json_to_sqlite::render::render;
use json_to_sqlite::render::render_into;
use json_to_sqlite::storage::coerce;
use json_to_sqlite::storage::SqlValue;
use json_to_sqlite::value::JsonMember;
use json_to_sqlite::value::JsonNumber;
use json_to_sqlite::value::JsonValue;

fn from_parsed(value: &serde_json::Value) -> JsonValue {
    match value {
        serde_json::Value::Null => JsonValue::Null,
        serde_json::Value::Bool(flag) => JsonValue::Bool(*flag),
        serde_json::Value::Number(n) => match n.as_i64() {
            Some(whole) => JsonValue::Number(JsonNumber::Integer(whole)),
            None => JsonValue::Number(JsonNumber::Decimal(n.to_string())),
        },
        serde_json::Value::String(text) => JsonValue::String(text.clone()),
        serde_json::Value::Array(items) => JsonValue::Array(items.iter().map(from_parsed).collect()),
        serde_json::Value::Object(members) => JsonValue::Object(
            members
                .iter()
                .map(|(key, value)| JsonMember { key: key.clone(), value: from_parsed(value) })
                .collect(),
        ),
    }
}

fn parsed(source: &str) -> serde_json::Value {
    serde_json::from_str(source).unwrap()
}

#[test]
fn rendering_matches_the_compact_form_of_the_json_crate() {
    let sources = [
        "null",
        "true",
        "false",
        "0",
        "-17",
        "9223372036854775807",
        "-9223372036854775808",
        "18446744073709551615",
        "1.5",
        "-0.25",
        "1e30",
        "\"plain\"",
        "\"say \\\"hi\\\"\"",
        "\"back\\\\slash\"",
        "\"line\\nbreak\\ttab\"",
        "\"\\u0001 control\"",
        "\"été ☃\"",
        "[]",
        "{}",
        "[1,2,3]",
        "[[],[[]],{}]",
        "{\"a\":1}",
        "{\"a\":{\"b\":[true,null,\"x\"]},\"z\":-3}",
        "{\"rows\":[{\"id\":1,\"name\":\"a\"},{\"id\":2,\"name\":\"b\"}]}",
        "{\"key with \\\"quotes\\\"\":[1.25,\"v\"]}",
    ];
    for source in sources {
        let value = parsed(source);
        assert_eq!(render(&from_parsed(&value)), value.to_string(), "for {}", source);
    }
}

#[test]
fn rendering_escapes_strings() {
    assert_eq!(render(&JsonValue::String("a\"b".to_string())), "\"a\\\"b\"");
    assert_eq!(render(&JsonValue::String(String::new())), "\"\"");
}

#[test]
fn rendering_writes_the_entries_as_the_json_crate_orders_them() {
    let value = JsonValue::Object(vec![
        JsonMember { key: "z".to_string(), value: JsonValue::Number(JsonNumber::Integer(1)) },
        JsonMember { key: "a".to_string(), value: JsonValue::Null },
    ]);
    let mut outside = serde_json::Map::new();
    outside.insert("z".to_string(), serde_json::Value::from(1));
    outside.insert("a".to_string(), serde_json::Value::Null);
    assert_eq!(render(&value), serde_json::Value::Object(outside).to_string());
    assert_eq!(render(&value), "{\"a\":null,\"z\":1}");
}

#[test]
fn a_decimal_is_written_as_the_json_crate_writes_the_number() {
    let decimal = |literal: &str| JsonValue::Number(JsonNumber::Decimal(literal.to_string()));
    assert_eq!(render(&decimal("2.5")), "2.5");
    assert_eq!(render(&decimal("67.012345")), "67.012345");
    assert_eq!(render(&decimal("0.000000")), "0.0");
    assert_eq!(render(&decimal("18446744073709551615")), "18446744073709551615");
    assert_eq!(render(&decimal("not a number")), "null");
}

#[test]
fn rendering_appends_to_what_is_there() {
    let mut out = String::from("v=");
    render_into(&mut out, &JsonValue::Array(vec![JsonValue::Bool(true), JsonValue::Null]));
    assert_eq!(out, "v=[true,null]");
}

#[test]
fn values_are_coerced_to_their_storage_form() {
    assert_eq!(coerce(&JsonValue::Null), SqlValue::Null);
    assert_eq!(coerce(&JsonValue::Bool(true)), SqlValue::Integer(1));
    assert_eq!(coerce(&JsonValue::Bool(false)), SqlValue::Integer(0));
    assert_eq!(coerce(&JsonValue::Number(JsonNumber::Integer(-4))), SqlValue::Integer(-4));
    assert_eq!(
        coerce(&JsonValue::Number(JsonNumber::Decimal("2.5".to_string()))),
        SqlValue::Real("2.5".to_string())
    );
    assert_eq!(coerce(&JsonValue::String("t".to_string())), SqlValue::Text("t".to_string()));
    assert_eq!(
        coerce(&from_parsed(&parsed("[1,\"a\"]"))),
        SqlValue::Text("[1,\"a\"]".to_string())
    );
    assert_eq!(
        coerce(&from_parsed(&parsed("{\"k\":[true]}"))),
        SqlValue::Text("{\"k\":[true]}".to_string())
    );
}

#[test]
fn a_clone_equals_its_original() {
    let value = from_parsed(&parsed("{\"a\":[1,{\"b\":\"c\"},2.5],\"d\":null}"));
    assert_eq!(value.clone(), value);
}
