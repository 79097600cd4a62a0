use baml_engine::json::Json;
use baml_engine::lint::{
    apply_replacers, choose_client, collect_mini_errors, ArgType, ChooseClientError, ClientDecl,
    Diagnostic, FunctionArgs, FunctionDecl, LeafClient, NamedArg, NamedSchema, PromptAst,
    Replacers, Schema, Span, StringSpan, TestCaseDecl, VariantDecl,
};
use baml_engine::lint_output::{lint_output, print_diagnostics, serialize_function, selected_test_for, SFunctionSyntax};
use baml_engine::lint_preview::{select_test, serialize_impls, PromptPreview};
use baml_engine::lint::MiniError;
use baml_engine::prompt::ChatMessagePart;

fn span(start: usize, end: usize) -> Span {
    Span { start, end, source_file: "main.baml".to_string() }
}

fn diag(start: usize, msg: &str) -> Diagnostic {
    Diagnostic { span: span(start, start + 1), message: msg.to_string() }
}

fn leaf(name: &str) -> LeafClient {
    LeafClient { name: name.to_string(), provider: "openai".to_string(), model: Some("gpt-4o".to_string()) }
}

fn schema() -> Schema {
    Schema {
        enums: vec![],
        classes: vec![],
        clients: vec![
            ClientDecl {
                name: "GPT4".to_string(),
                span: span(10, 14),
                provider: "openai".to_string(),
                model: Some("gpt-4o".to_string()),
                flat_clients: vec![leaf("GPT4")],
            },
            ClientDecl {
                name: "Fallback".to_string(),
                span: span(20, 28),
                provider: "fallback".to_string(),
                model: None,
                flat_clients: vec![leaf("A"), leaf("B")],
            },
            ClientDecl {
                name: "Empty".to_string(),
                span: span(30, 35),
                provider: "round-robin".to_string(),
                model: None,
                flat_clients: vec![],
            },
        ],
        old_functions: vec![],
        new_functions: vec![],
    }
}

fn new_function(client: Option<&str>) -> FunctionDecl {
    FunctionDecl {
        name: "Extract".to_string(),
        span: span(40, 47),
        is_old: false,
        input: FunctionArgs::Named(vec![]),
        output: FunctionArgs::Unnamed(ArgType { field_type: "string".to_string(), json_schema: Json::Null }),
        tests: vec![],
        variants: vec![],
        client: client.map(|c| (c.to_string(), span(50, 50 + c.len()))),
        has_prompt: true,
    }
}

#[test]
fn string_span_new() {
    let s = StringSpan::new("Foo", &span(3, 6));
    assert_eq!(s.value, "Foo");
    assert_eq!((s.start, s.end), (3, 6));
    assert_eq!(s.source_file, "main.baml");
}

#[test]
fn mini_errors_warnings_then_errors() {
    let m = collect_mini_errors(&vec![diag(1, "w")], &vec![diag(5, "e1"), diag(9, "e2")]);
    assert_eq!(m.len(), 3);
    assert!(m[0].is_warning && m[0].text == "w" && m[0].start == 1);
    assert!(!m[1].is_warning && m[1].text == "e1");
    assert!(!m[2].is_warning && m[2].text == "e2" && m[2].end == 10);
}

#[test]
fn print_diagnostics_without_response() {
    let m = vec![MiniError { start: 1, end: 5, text: "w".to_string(), is_warning: true, source_file: "a.baml".to_string() }];
    assert_eq!(
        print_diagnostics(m, None),
        r#"{"diagnostics":[{"end":5,"is_warning":true,"source_file":"a.baml","start":1,"text":"w"}],"ok":false,"response":null}"#
    );
}

#[test]
fn print_diagnostics_with_response() {
    assert_eq!(print_diagnostics(vec![], Some(Json::Bool(true))), r#"{"diagnostics":[],"ok":true,"response":true}"#);
}

#[test]
fn lint_with_errors_has_no_response() {
    let out = lint_output(&vec![diag(1, "w")], &vec![diag(2, "bad")], &schema(), &vec![]);
    assert_eq!(
        out,
        r#"{"diagnostics":[{"end":2,"is_warning":true,"source_file":"main.baml","start":1,"text":"w"},{"end":3,"is_warning":false,"source_file":"main.baml","start":2,"text":"bad"}],"ok":false,"response":null}"#
    );
}

#[test]
fn lint_preview_of_a_schema() {
    let mut s = schema();
    s.clients.truncate(1);
    s.enums.push(NamedSchema { name: "Color".to_string(), span: span(0, 5), json_schema: Json::Str("enum".to_string()) });
    s.new_functions.push(FunctionDecl {
        tests: vec![TestCaseDecl { name: "t1".to_string(), span: span(60, 62), content: "{ \"x\": 1 }".to_string() }],
        ..new_function(Some("GPT4"))
    });
    let out = lint_output(&vec![], &vec![], &s, &vec![]);
    let expected: String = [
        r#"{"diagnostics":[],"ok":true,"response":{"classes":[],"clients":[{"name":{"end":14,"source_file":"main.baml","start":10,"value":"GPT4"}}],"#,
        r#""enums":[{"jsonSchema":"enum","name":{"end":5,"source_file":"main.baml","start":0,"value":"Color"}}],"#,
        r#""functions":[{"impls":[],"input":{"arg_type":"named","values":[]},"name":{"end":47,"source_file":"main.baml","start":40,"value":"Extract"},"#,
        r#""output":{"arg_type":"positional","jsonSchema":null,"type":"string"},"syntax":"Version2","#,
        r#""test_cases":[{"content":{"x":1},"name":{"end":62,"source_file":"main.baml","start":60,"value":"t1"}}]}]}}"#,
    ]
    .concat();
    assert_eq!(out, expected);
}

#[test]
fn invalid_test_content_is_null() {
    let s = schema();
    let f = FunctionDecl {
        tests: vec![TestCaseDecl { name: "t".to_string(), span: span(0, 1), content: "not json".to_string() }],
        input: FunctionArgs::Named(vec![NamedArg {
            name: "doc".to_string(),
            span: span(2, 5),
            arg: ArgType { field_type: "string".to_string(), json_schema: Json::Null },
        }]),
        ..new_function(Some("GPT4"))
    };
    let sf = serialize_function(&s, &f, SFunctionSyntax::Version2, None);
    assert_eq!(sf.test_cases.len(), 1);
    assert_eq!(baml_engine::json::to_json_string(&sf.test_cases[0]), r#"{"content":null,"name":{"end":1,"source_file":"main.baml","start":0,"value":"t"}}"#);
    assert_eq!(
        baml_engine::json::to_json_string(&sf.input),
        r#"{"arg_type":"named","values":[{"jsonSchema":null,"name":{"end":5,"source_file":"main.baml","start":2,"value":"doc"},"type":"string"}]}"#
    );
}

#[test]
fn replacers_apply_inputs_then_outputs() {
    let r = Replacers {
        input: vec![("{#input.name}".to_string(), "name".to_string())],
        output: vec![("{#print_type(output)}".to_string(), "string".to_string())],
    };
    assert_eq!(
        apply_replacers(&r, "Hi {#input.name}, answer as {#print_type(output)}".to_string()),
        "Hi {name}, answer as string"
    );
    let none = Replacers { input: vec![], output: vec![] };
    assert_eq!(apply_replacers(&none, "same".to_string()), "same");
}

#[test]
fn old_function_impls() {
    let s = schema();
    let f = FunctionDecl {
        is_old: true,
        variants: vec![
            VariantDecl {
                name: "v1".to_string(),
                span: span(70, 72),
                prompt_key_span: span(80, 90),
                prompt: PromptAst::Text("Say {#x}".to_string()),
                client_name: "GPT4".to_string(),
                client_span: span(75, 79),
                replacers: Replacers { input: vec![("{#x}".to_string(), "x".to_string())], output: vec![] },
            },
            VariantDecl {
                name: "v2".to_string(),
                span: span(100, 102),
                prompt_key_span: span(110, 120),
                prompt: PromptAst::Chat(vec![(None, "sys".to_string()), (Some("user".to_string()), "hi".to_string())]),
                client_name: "Missing".to_string(),
                client_span: span(105, 112),
                replacers: Replacers { input: vec![], output: vec![] },
            },
        ],
        ..new_function(None)
    };
    let impls = serialize_impls(&s, &f, None);
    assert_eq!(impls.len(), 2);
    match &impls[0].prompt {
        PromptPreview::Completion { completion, test_case } => {
            assert_eq!(completion, "Say {x}");
            assert!(test_case.is_none());
        }
        _ => panic!("expected completion"),
    }
    assert_eq!(impls[0].client.identifier.value, "GPT4");
    assert_eq!(impls[0].client.identifier.start, 10);
    assert_eq!(impls[0].client.provider, "openai");
    match &impls[1].prompt {
        PromptPreview::Chat { chat, .. } => {
            assert_eq!(chat.len(), 2);
            assert_eq!(chat[0].role, "system");
            assert_eq!(chat[1].role, "user");
            assert!(matches!(&chat[1].parts[0], ChatMessagePart::Text(t) if t == "hi"));
        }
        _ => panic!("expected chat"),
    }
    assert_eq!(impls[1].client.identifier.value, "Missing");
    assert_eq!(impls[1].client.identifier.start, 105);
    assert_eq!(impls[1].client.provider, "");
    assert!(impls[1].client.model.is_none());
    let sf = serialize_function(&s, &f, SFunctionSyntax::Version1, None);
    let j = baml_engine::lint_output::function_to_json(&s, &f, sf);
    let text = baml_engine::json::to_json_string(&j);
    assert!(text.contains(r#""prompt":{"completion":"Say {x}","test_case":null,"type":"Completion"}"#));
    assert!(text.contains(r#"{"parts":[{"Text":"sys"}],"role":"system"}"#));
    assert!(text.ends_with(r#""syntax":"Version1","test_cases":[]}"#));
}

#[test]
fn new_function_has_no_impls() {
    let s = schema();
    assert!(serialize_impls(&s, &new_function(Some("GPT4")), None).is_empty());
}

#[test]
fn choose_client_direct_and_via_strategy() {
    let s = schema();
    let (ic, rc, names) = choose_client(&s, &new_function(Some("GPT4")), None).unwrap();
    assert_eq!(ic.identifier.value, "GPT4");
    assert_eq!(ic.identifier.start, 50);
    assert_eq!(rc.name, "GPT4");
    assert_eq!(names, vec!["GPT4".to_string()]);

    let (ic, rc, names) = choose_client(&s, &new_function(Some("Fallback")), None).unwrap();
    assert_eq!(ic.identifier.value, "A (via Fallback)");
    assert_eq!(rc.name, "A");
    assert_eq!(names, vec!["A".to_string(), "B".to_string()]);

    let (ic, _, _) = choose_client(&s, &new_function(Some("Fallback")), Some("B".to_string())).unwrap();
    assert_eq!(ic.identifier.value, "B (via Fallback)");
    let (ic, _, _) = choose_client(&s, &new_function(Some("Fallback")), Some("Z".to_string())).unwrap();
    assert_eq!(ic.identifier.value, "A (via Fallback)");
}

#[test]
fn choose_client_errors() {
    let s = schema();
    match choose_client(&s, &new_function(None), None) {
        Err(ChooseClientError::NoClient(m)) => assert_eq!(m, "function Extract does not have a client"),
        _ => panic!(),
    }
    match choose_client(&s, &new_function(Some("Nope")), None) {
        Err(ChooseClientError::ClientNotFound(m)) => assert_eq!(m, "client Nope not found"),
        _ => panic!(),
    }
    match choose_client(&s, &new_function(Some("Empty")), None) {
        Err(ChooseClientError::Unresolved(m)) => assert_eq!(m, "failed to resolve client Empty"),
        _ => panic!(),
    }
}

#[test]
fn test_selection() {
    let f = FunctionDecl {
        tests: vec![
            TestCaseDecl { name: "a".to_string(), span: span(0, 1), content: "{}".to_string() },
            TestCaseDecl { name: "b".to_string(), span: span(0, 1), content: "{}".to_string() },
        ],
        ..new_function(None)
    };
    assert_eq!(select_test(&f, Some(&"b".to_string())), Some(1));
    assert_eq!(select_test(&f, Some(&"zzz".to_string())), Some(0));
    assert_eq!(select_test(&f, None), Some(0));
    assert_eq!(select_test(&new_function(None), None), None);
    let sel = vec![("Extract".to_string(), "b".to_string())];
    assert_eq!(selected_test_for(&sel, "Extract").map(|s| s.as_str()), Some("b"));
    assert!(selected_test_for(&sel, "Other").is_none());
}

#[test]
fn lint_with_errors_reports_even_without_prompts() {
    let mut s = schema();
    s.new_functions.push(FunctionDecl { has_prompt: false, ..new_function(Some("GPT4")) });
    let out = lint_output(&vec![], &vec![diag(4, "missing prompt")], &s, &vec![]);
    assert_eq!(
        out,
        r#"{"diagnostics":[{"end":5,"is_warning":false,"source_file":"main.baml","start":4,"text":"missing prompt"}],"ok":false,"response":null}"#
    );
}
