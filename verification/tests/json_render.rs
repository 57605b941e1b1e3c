use codegang_datasource::json::{render, Json};

fn s(x: &str) -> String {
    x.to_string()
}

#[test]
fn renders_null_and_bools() {
    assert_eq!(render(&Json::Null), "null");
    assert_eq!(render(&Json::Bool(true)), "true");
    assert_eq!(render(&Json::Bool(false)), "false");
}

#[test]
fn renders_integers() {
    assert_eq!(render(&Json::Int(0)), "0");
    assert_eq!(render(&Json::Int(42)), "42");
    assert_eq!(render(&Json::Int(-123)), "-123");
    assert_eq!(render(&Json::Int(i64::MAX)), "9223372036854775807");
    assert_eq!(render(&Json::Int(i64::MIN)), "-9223372036854775808");
}

#[test]
fn renders_strings_with_escapes() {
    assert_eq!(render(&Json::Str(s("plain"))), "\"plain\"");
    assert_eq!(render(&Json::Str(s("a\"b\\c"))), "\"a\\\"b\\\\c\"");
    assert_eq!(render(&Json::Str(s("line\nbreak\ttab\r"))), "\"line\\nbreak\\ttab\\r\"");
    assert_eq!(render(&Json::Str(s("\u{8}\u{c}\u{1}\u{1f}"))), "\"\\b\\f\\u0001\\u001f\"");
    assert_eq!(render(&Json::Str(s("uni\u{e9}\u{4e2d}"))), "\"uni\u{e9}\u{4e2d}\"");
}

#[test]
fn renders_arrays_and_objects() {
    let arr = Json::Arr(vec![Json::Int(1), Json::Str(s("x")), Json::Null]);
    assert_eq!(render(&arr), "[1,\"x\",null]");
    let obj = Json::Obj(vec![
        (s("a"), Json::Int(1)),
        (s("b"), Json::Arr(vec![])),
        (s("c"), Json::Obj(vec![(s("d"), Json::Bool(false))])),
    ]);
    assert_eq!(render(&obj), "{\"a\":1,\"b\":[],\"c\":{\"d\":false}}");
    assert_eq!(render(&Json::Arr(vec![])), "[]");
    assert_eq!(render(&Json::Obj(vec![])), "{}");
}

#[test]
fn rendered_text_is_valid_json() {
    let obj = Json::Obj(vec![
        (s("k\"ey"), Json::Str(s("v\nal"))),
        (s("n"), Json::Int(-7)),
        (s("list"), Json::Arr(vec![Json::Bool(true), Json::Null])),
    ]);
    let text = render(&obj);
    let parsed: serde_json::Value = serde_json::from_str(&text).expect("renderer emits valid JSON");
    assert_eq!(parsed["k\"ey"], serde_json::Value::String("v\nal".to_string()));
    assert_eq!(parsed["n"], serde_json::Value::from(-7));
    assert_eq!(parsed["list"][0], serde_json::Value::Bool(true));
}
