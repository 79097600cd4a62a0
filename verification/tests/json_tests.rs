use baml_engine::json::{clone_json, object_insert, to_json_string, Json};
use baml_engine::text::{decimal, replace_all, starts_with};

fn obj(entries: Vec<(&str, Json)>) -> Json {
    let mut o: Vec<(String, Json)> = Vec::new();
    for (k, v) in entries {
        object_insert(&mut o, k.to_string(), v);
    }
    Json::Object(o)
}

#[test]
fn object_keys_come_out_sorted() {
    let j = obj(vec![("b", Json::Num(2)), ("a", Json::Num(1)), ("c", Json::Bool(true))]);
    assert_eq!(to_json_string(&j), r#"{"a":1,"b":2,"c":true}"#);
}

#[test]
fn object_insert_replaces_existing_key() {
    let j = obj(vec![("k", Json::Num(1)), ("other", Json::Null), ("k", Json::Num(7))]);
    assert_eq!(to_json_string(&j), r#"{"k":7,"other":null}"#);
}

#[test]
fn key_order_is_by_code_point_and_prefix() {
    let j = obj(vec![("ab", Json::Num(1)), ("a", Json::Num(2)), ("B", Json::Num(3)), ("é", Json::Num(4))]);
    assert_eq!(to_json_string(&j), r#"{"B":3,"a":2,"ab":1,"é":4}"#);
}

#[test]
fn strings_are_escaped_by_serde_json() {
    let j = Json::Array(vec![Json::Str("a\"b\n".to_string()), Json::Null, Json::Bool(false)]);
    assert_eq!(to_json_string(&j), "[\"a\\\"b\\n\",null,false]");
}

#[test]
fn raw_values_are_written_compactly() {
    let v: serde_json::Value = serde_json::from_str("{ \"z\": [1, 2.5], \"a\": \"x\" }").unwrap();
    assert_eq!(to_json_string(&Json::Raw(v)), r#"{"a":"x","z":[1,2.5]}"#);
}

#[test]
fn empty_containers() {
    assert_eq!(to_json_string(&Json::Array(vec![])), "[]");
    assert_eq!(to_json_string(&Json::Object(vec![])), "{}");
}

#[test]
fn clone_json_keeps_text() {
    let v: serde_json::Value = serde_json::from_str("[true]").unwrap();
    let j = obj(vec![("x", Json::Raw(v)), ("y", Json::Array(vec![Json::Num(3)]))]);
    let c = clone_json(&j);
    assert_eq!(to_json_string(&c), to_json_string(&j));
    assert_eq!(to_json_string(&c), r#"{"x":[true],"y":[3]}"#);
}

#[test]
fn decimal_formats_numbers() {
    assert_eq!(decimal(0), "0");
    assert_eq!(decimal(7), "7");
    assert_eq!(decimal(2024), "2024");
    assert_eq!(decimal(u64::MAX as u128), "18446744073709551615");
}

#[test]
fn replace_all_matches_str_replace() {
    let cases = [
        ("aaa", "aa", "b"),
        ("abcabc", "bc", "X"),
        ("abc", "", "-"),
        ("", "", "-"),
        ("hello", "z", "y"),
        ("xx{a}xx", "{a}", "{b}"),
        ("ab", "abc", "q"),
    ];
    for (s, p, r) in cases {
        assert_eq!(replace_all(s, p, r), s.replace(p, r), "{s:?} {p:?} {r:?}");
    }
}

#[test]
fn replace_by_itself_is_identity() {
    assert_eq!(replace_all("abab a", "ab", "ab"), "abab a");
}

#[test]
fn replace_absent_pattern_is_identity() {
    assert_eq!(replace_all("hello world", "xyz", "Q"), "hello world");
}

#[test]
fn starts_with_prefixes() {
    assert!(starts_with("http://localhost:11434", "http://localhost"));
    assert!(!starts_with("https://api.openai.com", "http://localhost"));
    assert!(!starts_with("http", "http://localhost"));
    assert!(starts_with("abc", ""));
}

#[test]
fn string_escapes_follow_serde_json() {
    let s = Json::Str("q\"b\\\u{8}\t\n\u{c}\r\u{1}\u{1f}é/".to_string());
    assert_eq!(to_json_string(&s), "\"q\\\"b\\\\\\b\\t\\n\\f\\r\\u0001\\u001fé/\"");
    assert_eq!(to_json_string(&s), serde_json::to_string("q\"b\\\u{8}\t\n\u{c}\r\u{1}\u{1f}é/").unwrap());
}
