use baml_engine::json::to_json_string;
use baml_engine::openapi::{content_prefix, generated_file_name, generated_schema};
use baml_engine::serve::{call_answer, check_call_args, echo_items, error_body, sse_events, sse_message, CallError, ServeArgs};

#[test]
fn serve_defaults_and_address() {
    let a = ServeArgs::defaults();
    assert_eq!(a.from, "./baml_src");
    assert_eq!(a.port, 2024);
    assert!(!a.no_version_check);
    assert_eq!(a.bind_address(), "0.0.0.0:2024");
    let b = ServeArgs { from: "x".to_string(), port: 80, no_version_check: true };
    assert_eq!(b.bind_address(), "0.0.0.0:80");
}

#[test]
fn test_streams() {
    assert_eq!(sse_message("hi"), "<message>hi</message>");
    let e = sse_events("hi");
    assert_eq!(e.len(), 10);
    assert!(e.iter().all(|m| m == "<message>hi</message>"));
    assert_eq!(echo_items("yo"), vec!["yo".to_string(); 3]);
}

#[test]
fn call_errors() {
    assert!(matches!(check_call_args(false, true), Err(CallError::ArgsNotConvertible)));
    assert!(matches!(check_call_args(true, false), Err(CallError::ArgsNotMap)));
    assert!(check_call_args(true, true).is_ok());
    assert_eq!(CallError::ArgsNotConvertible.message(), "Failed to convert arguments from JSON to BamlValue");
    assert_eq!(CallError::ArgsNotMap.message(), "Arguments provided must be a map, from arg name to value");
    assert_eq!(CallError::ResultNotParsed.message(), "Failed to parse result");
    assert_eq!(CallError::CallFailed("boom".to_string()).message(), "boom");
    assert_eq!(to_json_string(&error_body("boom")), r#"{"error":"boom"}"#);
}

#[test]
fn openapi_document() {
    let s = generated_schema();
    assert!(s.paths.is_empty() && s.schemas.is_empty());
    assert_eq!(generated_file_name(), "openapi.yaml");
}

#[test]
fn openapi_content_prefix() {
    let p = content_prefix();
    assert!(p.starts_with("\n####"));
    assert!(p.contains("#  $ openapi-generator generate -i openapi.yaml -g <language> -o <output_dir>\n"));
    assert!(p.ends_with("re-generate this code.\n\n        "));
}

#[test]
fn call_answers() {
    let (status, body) = call_answer(Ok(serde_json::Value::from("done")));
    assert_eq!(status, 200);
    assert_eq!(to_json_string(&body), "\"done\"");
    let (status, body) = call_answer(Err("Failed to parse result".to_string()));
    assert_eq!(status, 500);
    assert_eq!(to_json_string(&body), r#"{"error":"Failed to parse result"}"#);
}
