use baml_engine::llm_client::{
    options_to_map, printout_layout, resolve_options, AllowedMetadata, ContentError, ErrorCode, LLMCompleteResponse,
    LLMCompleteResponseMetadata, LLMErrorResponse, LLMResponse,
};
use baml_engine::prompt::RenderedPrompt;

fn complete(content: &str, finish: Option<&str>) -> LLMCompleteResponse {
    LLMCompleteResponse {
        client: "gpt".to_string(),
        model: "gpt-4o".to_string(),
        prompt: RenderedPrompt::Completion("hi".to_string()),
        request_options: vec![],
        content: content.to_string(),
        start_time: web_time::SystemTime::now(),
        latency: web_time::Duration::from_millis(1234),
        metadata: LLMCompleteResponseMetadata {
            baml_is_complete: true,
            finish_reason: finish.map(|s| s.to_string()),
            prompt_tokens: None,
            output_tokens: None,
            total_tokens: None,
        },
    }
}

#[test]
fn error_code_from_u16_known_codes() {
    assert!(matches!(ErrorCode::from_u16(401), ErrorCode::InvalidAuthentication));
    assert!(matches!(ErrorCode::from_u16(403), ErrorCode::NotSupported));
    assert!(matches!(ErrorCode::from_u16(429), ErrorCode::RateLimited));
    assert!(matches!(ErrorCode::from_u16(500), ErrorCode::ServerError));
    assert!(matches!(ErrorCode::from_u16(503), ErrorCode::ServiceUnavailable));
    assert!(matches!(ErrorCode::from_u16(404), ErrorCode::Other(404)));
    assert!(matches!(ErrorCode::from_u16(0), ErrorCode::Other(0)));
}

#[test]
fn error_code_from_status_agrees_with_from_u16() {
    for code in [200u16, 401, 403, 418, 429, 500, 502, 503] {
        let status = reqwest::StatusCode::from_u16(code).unwrap();
        assert_eq!(
            ErrorCode::from_status(status).to_string(),
            ErrorCode::from_u16(code).to_string()
        );
    }
    assert!(matches!(
        ErrorCode::from_status(reqwest::StatusCode::IM_A_TEAPOT),
        ErrorCode::Other(418)
    ));
}

#[test]
fn error_code_texts() {
    assert_eq!(ErrorCode::InvalidAuthentication.to_string(), "InvalidAuthentication (401)");
    assert_eq!(ErrorCode::NotSupported.to_string(), "NotSupported (403)");
    assert_eq!(ErrorCode::RateLimited.to_string(), "RateLimited (429)");
    assert_eq!(ErrorCode::ServerError.to_string(), "ServerError (500)");
    assert_eq!(ErrorCode::ServiceUnavailable.to_string(), "ServiceUnavailable (503)");
    assert_eq!(ErrorCode::UnsupportedResponse(418).to_string(), "BadResponse 418");
    assert_eq!(ErrorCode::Other(2).to_string(), "Unspecified error code: 2");
}

#[test]
fn allowed_metadata() {
    assert!(AllowedMetadata::All.is_allowed("anything"));
    assert!(!AllowedMetadata::NoneAllowed.is_allowed("anything"));
    let only = AllowedMetadata::Only(vec!["user".to_string(), "trace".to_string()]);
    assert!(only.is_allowed("user"));
    assert!(only.is_allowed("trace"));
    assert!(!only.is_allowed("users"));
    assert!(!only.is_allowed(""));
}

#[test]
fn content_of_each_outcome() {
    let ok = LLMResponse::Success(complete("the answer", None));
    assert_eq!(ok.content().ok(), Some("the answer"));

    let other = LLMResponse::OtherFailure("timeout".to_string());
    match other.content() {
        Err(ContentError::LLMFailedToCall(m)) => assert_eq!(m, "LLM failed to call: timeout"),
        _ => panic!("expected a failure"),
    }

    let failure = LLMResponse::LLMFailure(LLMErrorResponse {
        client: "c".to_string(),
        model: None,
        prompt: RenderedPrompt::Completion("p".to_string()),
        request_options: serde_json::Map::new(),
        start_time: web_time::SystemTime::now(),
        latency: web_time::Duration::from_millis(5),
        message: "bad".to_string(),
        code: ErrorCode::Other(500),
    });
    match failure.content() {
        Err(ContentError::LLMCallFailed(f)) => assert_eq!(f.message, "bad"),
        _ => panic!("expected the failure"),
    }
}

#[test]
fn header_line() {
    let r = complete("x", Some("stop"));
    assert_eq!(r.header_line(), "Client: gpt (gpt-4o) - 1234ms. StopReason: stop");
    let r = complete("x", None);
    assert_eq!(
        r.header_line_with_millis(7),
        "Client: gpt (gpt-4o) - 7ms. StopReason: unknown"
    );
}

#[test]
fn resolve_options_all_resolved() {
    let opts = vec![
        ("model".to_string(), Ok(serde_json::Value::from("gpt-4o"))),
        ("max_tokens".to_string(), Ok(serde_json::Value::from(100))),
    ];
    let r = resolve_options("MyClient", opts).unwrap();
    assert_eq!(r.len(), 2);
    assert_eq!(r[0].0, "model");
    assert_eq!(r[0].1, serde_json::Value::from("gpt-4o"));
    assert_eq!(r[1].1, serde_json::Value::from(100));
}

#[test]
fn resolve_options_first_failure_named() {
    let opts = vec![
        ("model".to_string(), Ok(serde_json::Value::from("gpt-4o"))),
        ("api_key".to_string(), Err("env var missing".to_string())),
        ("base_url".to_string(), Err("also missing".to_string())),
    ];
    assert_eq!(
        resolve_options("MyClient", opts).unwrap_err(),
        "client MyClient could not resolve options.api_key"
    );
}

#[test]
fn content_error_messages() {
    let other = LLMResponse::OtherFailure("timeout".to_string());
    assert_eq!(other.content().unwrap_err().message(), "LLM failed to call: timeout");
    let failure = LLMResponse::LLMFailure(LLMErrorResponse {
        client: "c".to_string(),
        model: None,
        prompt: RenderedPrompt::Completion("p".to_string()),
        request_options: serde_json::Map::new(),
        start_time: web_time::SystemTime::UNIX_EPOCH,
        latency: web_time::Duration::from_millis(5),
        message: "bad".to_string(),
        code: ErrorCode::Other(500),
    });
    let m = failure.content().unwrap_err().message();
    assert!(m.starts_with("LLM call failed: LLMErrorResponse {"));
    assert!(m.contains("message: \"bad\""));
    assert!(m.contains("request_options: {}"));
}

#[test]
fn failure_options_print_as_a_map() {
    let opts = options_to_map(&vec![
        ("temperature".to_string(), serde_json::Value::from(1u64)),
        ("model".to_string(), serde_json::Value::from("a")),
        ("temperature".to_string(), serde_json::Value::from(2u64)),
    ]);
    assert_eq!(opts.len(), 2);
    assert_eq!(opts.get("temperature"), Some(&serde_json::Value::from(2u64)));
    let failure = LLMResponse::LLMFailure(LLMErrorResponse {
        client: "c".to_string(),
        model: None,
        prompt: RenderedPrompt::Completion("p".to_string()),
        request_options: opts,
        start_time: web_time::SystemTime::UNIX_EPOCH,
        latency: web_time::Duration::from_millis(5),
        message: "bad".to_string(),
        code: ErrorCode::Other(500),
    });
    let m = failure.printout("");
    assert!(m.contains("request_options: {\"model\": String(\"a\"), \"temperature\": Number(2)}"), "{m}");
}

#[test]
fn printout_of_a_response() {
    let r = complete("the reply", Some("stop"));
    let expected = "Client: gpt (gpt-4o) - 1234ms. StopReason: stop\n---PROMPT---\nhi\n---LLM REPLY---\nthe reply";
    assert_eq!(r.printout("hi"), expected);
    assert_eq!(LLMResponse::Success(complete("the reply", Some("stop"))).printout("hi"), expected);
    assert_eq!(LLMResponse::OtherFailure("timeout".to_string()).printout("hi"), "LLM call failed: timeout");
    assert_eq!(printout_layout("a", "b", "c", "d", "e"), "a\nb\nc\nd\ne");
}

#[test]
fn header_line_uses_the_latency() {
    let mut r = complete("x", Some("length"));
    r.latency = web_time::Duration::from_micros(56_789);
    assert_eq!(r.header_line(), "Client: gpt (gpt-4o) - 56ms. StopReason: length");
}

#[test]
fn error_code_text_holds_the_number_and_differs() {
    let codes = [0u16, 7, 200, 401, 403, 404, 418, 429, 500, 503, 999, 65535];
    for c in codes {
        assert!(ErrorCode::from_u16(c).to_string().contains(&c.to_string()));
    }
    for a in codes {
        for b in codes {
            if a != b {
                assert_ne!(ErrorCode::from_u16(a).to_string(), ErrorCode::from_u16(b).to_string());
            }
        }
    }
}
