use baml_engine::json::{to_json_string, Json};
use baml_engine::llm_client::{AllowedMetadata, ErrorCode, LLMResponse, ResolveMediaUrls};
use baml_engine::openai::{ClientSpec, OpenAIClient, PostRequestProperties};
use baml_engine::openai_request::PromptRef;
use baml_engine::openai_response::{
    stream_continues, stream_event, ChatCompletionChoice, ChatCompletionChoiceDelta,
    ChatCompletionResponse, ChatCompletionResponseDelta, CompletionUsage, FinishReason,
};
use baml_engine::prompt::{
    BamlMedia, BamlMediaContent, BamlMediaType, ChatMessagePart, RenderedChatMessage,
    RenderedPrompt,
};

fn props(base_url: &str, proxy: Option<&str>, api_key: Option<&str>) -> PostRequestProperties {
    PostRequestProperties {
        default_role: "system".to_string(),
        base_url: base_url.to_string(),
        proxy_url: proxy.map(|s| s.to_string()),
        api_key: api_key.map(|s| s.to_string()),
        headers: vec![("x-team".to_string(), "core".to_string())],
        query_params: vec![],
        properties: vec![
            ("model".to_string(), serde_json::Value::from("gpt-4o")),
            ("temperature".to_string(), serde_json::from_str("0.5").unwrap()),
        ],
        allowed_metadata: AllowedMetadata::All,
    }
}

fn spec(name: &str) -> ClientSpec {
    ClientSpec { name: name.to_string(), provider: "openai".to_string(), retry_policy: Some("Retry3".to_string()) }
}

fn client() -> OpenAIClient {
    OpenAIClient::new(&spec("GPT4"), props("https://api.openai.com/v1", None, Some("sk")))
}

fn user(text: &str) -> RenderedChatMessage {
    RenderedChatMessage { role: "user".to_string(), parts: vec![ChatMessagePart::Text(text.to_string())] }
}

fn obj_text(o: Vec<(String, Json)>) -> String {
    to_json_string(&Json::Object(o))
}

#[test]
fn constructors_set_provider_and_features() {
    let c = client();
    assert_eq!(c.name, "GPT4");
    assert_eq!(c.provider, "openai");
    assert_eq!(c.retry_policy_name(), Some("Retry3"));
    assert_eq!(c.context().name, "GPT4");
    assert_eq!(c.context().default_role, "system");
    assert!(c.model_features().chat);
    assert!(!c.model_features().completion);
    assert!(!c.model_features().anthropic_system_constraints);
    assert_eq!(c.model_features().resolve_media_urls, ResolveMediaUrls::Never);
    assert!(c.allowed_metadata().is_allowed("x"));
    assert_eq!(c.chat_options().default_role, "system");
    assert_eq!(c.client_properties().len(), 2);
    assert_eq!(c.request_options().len(), 2);
    let o = OpenAIClient::new_ollama(&spec("L"), props("http://localhost:11434/v1", None, None));
    assert_eq!(o.provider, "ollama");
    let a = OpenAIClient::new_azure(&spec("A"), props("https://x.azure.com", None, None));
    assert_eq!(a.provider, "azure");
    assert_eq!(OpenAIClient::dynamic_new(&spec("D"), props("u", None, None)).provider, "openai");
    assert_eq!(OpenAIClient::dynamic_new_ollama(&spec("D"), props("u", None, None)).provider, "ollama");
    assert_eq!(OpenAIClient::dynamic_new_azure(&spec("D"), props("u", None, None)).provider, "azure");
}

#[test]
fn text_message() {
    let c = client();
    let m = c.to_chat_message(vec![], "hello").unwrap();
    assert_eq!(obj_text(m), r#"{"text":"hello","type":"text"}"#);
}

#[test]
fn media_url_message() {
    let c = client();
    let media = BamlMedia {
        media_type: BamlMediaType::Image,
        mime_type: None,
        content: BamlMediaContent::Url("https://x/y.png".to_string()),
    };
    let m = c.to_media_message(vec![], &media).unwrap();
    assert_eq!(obj_text(m), r#"{"image_url":{"url":"https://x/y.png"},"type":"image_url"}"#);
}

#[test]
fn media_base64_message_uses_double_suffix() {
    let c = client();
    let media = BamlMedia {
        media_type: BamlMediaType::Audio,
        mime_type: Some("audio/mp3".to_string()),
        content: BamlMediaContent::Base64("QUJD".to_string()),
    };
    let m = c.to_media_message(vec![], &media).unwrap();
    assert_eq!(
        obj_text(m),
        r#"{"audio_url_url":{"url":"data:audio/mp3;base64,QUJD"},"type":"audio_url"}"#
    );
}

#[test]
fn media_errors() {
    let c = client();
    let no_mime = BamlMedia {
        media_type: BamlMediaType::Image,
        mime_type: None,
        content: BamlMediaContent::Base64("QUJD".to_string()),
    };
    assert_eq!(c.to_media_message(vec![], &no_mime).unwrap_err(), "Media mime type is not set");
    let file = BamlMedia {
        media_type: BamlMediaType::Image,
        mime_type: Some("image/png".to_string()),
        content: BamlMediaContent::File("a.png".to_string()),
    };
    assert_eq!(
        c.to_media_message(vec![], &file).unwrap_err(),
        "BAML internal error (openai): file should have been resolved to base64"
    );
}

#[test]
fn chat_messages() {
    let c = client();
    let chat = vec![
        RenderedChatMessage { role: "system".to_string(), parts: vec![ChatMessagePart::Text("be brief".to_string())] },
        user("hi"),
    ];
    let m = c.chat_to_message(&chat).unwrap();
    assert_eq!(
        obj_text(m),
        r#"{"messages":[{"content":[{"text":"be brief","type":"text"}],"role":"system"},{"content":[{"text":"hi","type":"text"}],"role":"user"}]}"#
    );
}

#[test]
fn chat_messages_first_error() {
    let c = client();
    let bad = RenderedChatMessage {
        role: "user".to_string(),
        parts: vec![ChatMessagePart::Media(BamlMedia {
            media_type: BamlMediaType::Image,
            mime_type: None,
            content: BamlMediaContent::File("f".to_string()),
        })],
    };
    let err = c.chat_to_message(&vec![user("a"), bad]).unwrap_err();
    assert_eq!(err, "BAML internal error (openai): file should have been resolved to base64");
}

#[test]
fn chat_request_plan() {
    let c = client();
    let chat = vec![user("hi")];
    let plan = c.build_request(PromptRef::Chat(&chat), true, false).unwrap();
    assert_eq!(plan.url, "https://api.openai.com/v1/chat/completions");
    assert!(plan.query_params.is_none());
    assert_eq!(plan.headers, vec![("x-team".to_string(), "core".to_string())]);
    assert_eq!(plan.bearer_token.as_deref(), Some("sk"));
    assert_eq!(
        obj_text(plan.body),
        r#"{"messages":[{"content":[{"text":"hi","type":"text"}],"role":"user"}],"model":"gpt-4o","temperature":0.5}"#
    );
}

#[test]
fn completion_stream_request_through_proxy() {
    let mut p = props("https://api.openai.com/v1", Some("https://proxy.example"), None);
    p.query_params = vec![("api-version".to_string(), "1".to_string())];
    let c = OpenAIClient::new(&spec("GPT4"), p);
    let prompt = "Say hi".to_string();
    let plan = c.build_request(PromptRef::Completion(&prompt), true, true).unwrap();
    assert_eq!(plan.url, "https://proxy.example/completions");
    assert_eq!(plan.query_params, Some(vec![("api-version".to_string(), "1".to_string())]));
    assert_eq!(
        plan.headers,
        vec![
            ("x-team".to_string(), "core".to_string()),
            ("baml-original-url".to_string(), "https://api.openai.com/v1".to_string()),
        ]
    );
    assert!(plan.bearer_token.is_none());
    assert_eq!(
        obj_text(plan.body),
        r#"{"model":"gpt-4o","prompt":"Say hi","stream":true,"stream_options":{"include_usage":true},"temperature":0.5}"#
    );
}

#[test]
fn localhost_is_never_proxied() {
    let c = OpenAIClient::new_ollama(&spec("L"), props("http://localhost:11434/v1", Some("https://proxy"), None));
    assert!(!c.uses_proxy(true));
    let chat = vec![user("x")];
    let plan = c.build_request(PromptRef::Chat(&chat), true, true).unwrap();
    assert_eq!(plan.url, "http://localhost:11434/v1/chat/completions");
    assert_eq!(plan.headers.len(), 1);
    // only the openai provider asks for usage in streams
    assert!(!obj_text(plan.body).contains("stream_options"));
}

#[test]
fn proxy_not_allowed() {
    let c = OpenAIClient::new(&spec("G"), props("https://api", Some("https://proxy"), None));
    assert!(c.uses_proxy(true));
    assert!(!c.uses_proxy(false));
}

#[test]
fn build_request_error() {
    let c = client();
    let bad = vec![RenderedChatMessage {
        role: "user".to_string(),
        parts: vec![ChatMessagePart::Media(BamlMedia {
            media_type: BamlMediaType::Audio,
            mime_type: None,
            content: BamlMediaContent::Base64("x".to_string()),
        })],
    }];
    assert_eq!(c.build_request(PromptRef::Chat(&bad), false, false).unwrap_err(), "Media mime type is not set");
}

#[test]
fn chat_response_success() {
    let c = client();
    let resp = ChatCompletionResponse {
        model: "gpt-4o-2024".to_string(),
        choices: vec![ChatCompletionChoice { content: Some("Hello!".to_string()), finish_reason: Some(FinishReason::Stop) }],
        usage: Some(CompletionUsage { prompt_tokens: 3, completion_tokens: 2, total_tokens: 5 }),
    };
    let now = web_time::SystemTime::now();
    match c.chat_response(vec![user("hi")], now, web_time::Duration::from_millis(10), resp) {
        LLMResponse::Success(r) => {
            assert_eq!(r.client, "GPT4");
            assert_eq!(r.model, "gpt-4o-2024");
            assert_eq!(r.content, "Hello!");
            assert!(r.metadata.baml_is_complete);
            assert_eq!(r.metadata.finish_reason.as_deref(), Some("stop"));
            assert_eq!(r.metadata.prompt_tokens, Some(3));
            assert_eq!(r.metadata.output_tokens, Some(2));
            assert_eq!(r.metadata.total_tokens, Some(5));
            assert_eq!(r.request_options.len(), 2);
            assert!(matches!(r.prompt, RenderedPrompt::Chat(ref m) if m.len() == 1));
        }
        _ => panic!("expected success"),
    }
}

#[test]
fn chat_response_length_is_incomplete() {
    let c = client();
    let resp = ChatCompletionResponse {
        model: "m".to_string(),
        choices: vec![ChatCompletionChoice { content: None, finish_reason: Some(FinishReason::Length) }],
        usage: None,
    };
    match c.chat_response(vec![], web_time::SystemTime::now(), web_time::Duration::ZERO, resp) {
        LLMResponse::Success(r) => {
            assert_eq!(r.content, "");
            assert!(!r.metadata.baml_is_complete);
            assert_eq!(r.metadata.finish_reason, None);
            assert_eq!(r.metadata.total_tokens, None);
        }
        _ => panic!("expected success"),
    }
}

#[test]
fn chat_response_needs_exactly_one_choice() {
    let c = client();
    let resp = ChatCompletionResponse { model: "m".to_string(), choices: vec![], usage: None };
    match c.chat_response(vec![], web_time::SystemTime::now(), web_time::Duration::ZERO, resp) {
        LLMResponse::LLMFailure(f) => {
            assert_eq!(f.message, "Expected exactly one choices block, got 0");
            assert!(matches!(f.code, ErrorCode::Other(200)));
            assert!(f.model.is_none());
            assert_eq!(f.client, "GPT4");
            assert_eq!(f.request_options.len(), c.request_options().len());
            for (k, v) in c.request_options() {
                assert_eq!(f.request_options.get(k), Some(v));
            }
        }
        _ => panic!("expected failure"),
    }
}

fn delta(content: Option<&str>, finish: Option<FinishReason>, usage: Option<CompletionUsage>) -> ChatCompletionResponseDelta {
    ChatCompletionResponseDelta {
        model: "gpt-4o".to_string(),
        choices: vec![ChatCompletionChoiceDelta { content: content.map(|s| s.to_string()), finish_reason: finish }],
        usage,
    }
}

#[test]
fn stream_accumulates_content() {
    let c = client();
    let mut state = c.stream_initial(vec![user("hi")], web_time::SystemTime::now(), web_time::Duration::ZERO);
    assert_eq!(state.content, "");
    assert_eq!(state.model, "");
    let r1 = stream_event(&mut state, Ok(delta(Some("Hel"), None, None)), web_time::Duration::from_millis(1));
    assert!(matches!(r1, LLMResponse::Success(ref r) if r.content == "Hel" && !r.metadata.baml_is_complete));
    let r2 = stream_event(&mut state, Ok(delta(Some("lo"), Some(FinishReason::Stop), None)), web_time::Duration::from_millis(2));
    assert!(matches!(r2, LLMResponse::Success(ref r) if r.content == "Hello" && r.metadata.baml_is_complete));
    let usage_only = ChatCompletionResponseDelta {
        model: "ignored".to_string(),
        choices: vec![],
        usage: Some(CompletionUsage { prompt_tokens: 1, completion_tokens: 2, total_tokens: 3 }),
    };
    let r3 = stream_event(&mut state, Ok(usage_only), web_time::Duration::from_millis(3));
    match r3 {
        LLMResponse::Success(r) => {
            assert_eq!(r.content, "Hello");
            assert_eq!(r.model, "gpt-4o");
            assert_eq!(r.metadata.finish_reason.as_deref(), Some("stop"));
            assert_eq!(r.metadata.total_tokens, Some(3));
            assert_eq!(r.latency, web_time::Duration::from_millis(3));
        }
        _ => panic!("expected success"),
    }
}

#[test]
fn stream_records_other_finish_reasons() {
    let c = client();
    let mut state = c.stream_initial(vec![], web_time::SystemTime::now(), web_time::Duration::ZERO);
    stream_event(&mut state, Ok(delta(None, Some(FinishReason::ContentFilter), None)), web_time::Duration::ZERO);
    assert_eq!(state.metadata.finish_reason.as_deref(), Some("content_filter"));
    assert!(!state.metadata.baml_is_complete);
}

#[test]
fn stream_parse_error_keeps_state() {
    let c = client();
    let mut state = c.stream_initial(vec![], web_time::SystemTime::now(), web_time::Duration::ZERO);
    let r = stream_event(&mut state, Err("invalid JSON".to_string()), web_time::Duration::from_millis(4));
    match r {
        LLMResponse::LLMFailure(f) => {
            assert_eq!(f.message, "Failed to parse event: invalid JSON");
            assert!(matches!(f.code, ErrorCode::Other(2)));
            assert!(f.model.is_none());
        }
        _ => panic!("expected failure"),
    }
    stream_event(&mut state, Ok(delta(Some("x"), None, None)), web_time::Duration::ZERO);
    let r = stream_event(&mut state, Err("e".to_string()), web_time::Duration::ZERO);
    assert!(matches!(r, LLMResponse::LLMFailure(ref f) if f.model.as_deref() == Some("gpt-4o")));
    assert_eq!(state.content, "x");
}

#[test]
fn stream_stops_at_done_or_error() {
    assert!(stream_continues(Some("{\"a\":1}")));
    assert!(!stream_continues(Some("[DONE]")));
    assert!(!stream_continues(None));
}

#[test]
fn finish_reason_names() {
    assert_eq!(FinishReason::Stop.to_string(), "stop");
    assert_eq!(FinishReason::Length.to_string(), "length");
    assert_eq!(FinishReason::ToolCalls.to_string(), "tool_calls");
    assert_eq!(FinishReason::ContentFilter.to_string(), "content_filter");
    assert_eq!(FinishReason::FunctionCall.to_string(), "function_call");
}

#[test]
fn stream_keeps_the_last_usage() {
    let c = client();
    let mut state = c.stream_initial(vec![user("hi")], web_time::SystemTime::now(), web_time::Duration::ZERO);
    assert_eq!(state.metadata.prompt_tokens, None);
    let u1 = CompletionUsage { prompt_tokens: 1, completion_tokens: 2, total_tokens: 3 };
    let u2 = CompletionUsage { prompt_tokens: 4, completion_tokens: 5, total_tokens: 9 };
    stream_event(&mut state, Ok(delta(Some("a"), None, Some(u1))), web_time::Duration::ZERO);
    stream_event(&mut state, Ok(delta(Some("b"), None, None)), web_time::Duration::ZERO);
    assert_eq!((state.metadata.prompt_tokens, state.metadata.output_tokens, state.metadata.total_tokens), (Some(1), Some(2), Some(3)));
    let r = stream_event(&mut state, Ok(delta(Some("c"), None, Some(u2))), web_time::Duration::ZERO);
    match r {
        LLMResponse::Success(r) => {
            assert_eq!(r.content, "abc");
            assert_eq!((r.metadata.prompt_tokens, r.metadata.output_tokens, r.metadata.total_tokens), (Some(4), Some(5), Some(9)));
        }
        _ => panic!("expected success"),
    }
}
