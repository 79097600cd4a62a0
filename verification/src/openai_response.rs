//! What the OpenAI-style client makes of responses: a whole chat completion,
//! the events of a streamed one, and the request it sends.
use vstd::prelude::*;

use crate::llm_client::{
    clone_complete, clone_options, json_map_entries, options_entries, options_to_map, same_complete, ErrorCode, LLMCompleteResponse,
    LLMCompleteResponseMetadata, LLMErrorResponse, LLMResponse,
};
use crate::openai::OpenAIClient;
use crate::prompt::{clone_prompt, messages_view, PromptView, RenderedChatMessage, RenderedPrompt};
use crate::text::{decimal, decimal_text};

verus! {

/// Why a completion stopped.
#[derive(Clone, Copy, PartialEq, Eq, Structural, Debug)]
pub enum FinishReason {
    Stop,
    Length,
    ToolCalls,
    ContentFilter,
    FunctionCall,
}

/// The wire name of a finish reason.
pub open spec fn finish_reason_text(r: FinishReason) -> Seq<char> {
    match r {
        FinishReason::Stop => "stop"@,
        FinishReason::Length => "length"@,
        FinishReason::ToolCalls => "tool_calls"@,
        FinishReason::ContentFilter => "content_filter"@,
        FinishReason::FunctionCall => "function_call"@,
    }
}

impl FinishReason {
    /// The wire name, e.g. `stop`.
    pub fn to_string(&self) -> (res: String)
        ensures
            res@ == finish_reason_text(*self),
    {
        match self {
            FinishReason::Stop => "stop".to_owned(),
            FinishReason::Length => "length".to_owned(),
            FinishReason::ToolCalls => "tool_calls".to_owned(),
            FinishReason::ContentFilter => "content_filter".to_owned(),
            FinishReason::FunctionCall => "function_call".to_owned(),
        }
    }
}

/// Token counts of a completion.
#[derive(Clone, Copy, PartialEq, Eq, Structural, Debug)]
pub struct CompletionUsage {
    pub prompt_tokens: u64,
    pub completion_tokens: u64,
    pub total_tokens: u64,
}

/// One choice of a chat completion: the message content and finish reason.
#[derive(Debug)]
pub struct ChatCompletionChoice {
    pub content: Option<String>,
    pub finish_reason: Option<FinishReason>,
}

/// A chat completion response.
#[derive(Debug)]
pub struct ChatCompletionResponse {
    pub model: String,
    pub choices: Vec<ChatCompletionChoice>,
    pub usage: Option<CompletionUsage>,
}

/// One choice of a streamed event: the content delta and finish reason.
#[derive(Debug)]
pub struct ChatCompletionChoiceDelta {
    pub content: Option<String>,
    pub finish_reason: Option<FinishReason>,
}

/// One event of a streamed chat completion.
#[derive(Debug)]
pub struct ChatCompletionResponseDelta {
    pub model: String,
    pub choices: Vec<ChatCompletionChoiceDelta>,
    pub usage: Option<CompletionUsage>,
}

/// The recorded finish reason for a reason: its name when it is `stop`,
/// nothing otherwise (a whole response records only a `stop`).
pub open spec fn stop_reason_recorded(r: Option<FinishReason>, recorded: Option<String>) -> bool {
    match recorded {
        Some(s) => r == Some(FinishReason::Stop) && s@ == "stop"@,
        None => r != Some(FinishReason::Stop),
    }
}

/// The recorded finish reason of a streamed event: the reason's name, if any.
pub open spec fn reason_recorded(r: Option<FinishReason>, recorded: Option<String>) -> bool {
    match (r, recorded) {
        (Some(f), Some(s)) => s@ == finish_reason_text(f),
        (None, None) => true,
        _ => false,
    }
}

/// The tokens counts recorded from a usage block.
pub open spec fn usage_recorded(u: Option<CompletionUsage>, m: LLMCompleteResponseMetadata) -> bool {
    match u {
        Some(x) => {
            &&& m.prompt_tokens == Some(x.prompt_tokens)
            &&& m.output_tokens == Some(x.completion_tokens)
            &&& m.total_tokens == Some(x.total_tokens)
        },
        None => {
            &&& m.prompt_tokens is None
            &&& m.output_tokens is None
            &&& m.total_tokens is None
        },
    }
}

/// The characters of optional content, empty when absent.
pub open spec fn content_or_empty(c: Option<String>) -> Seq<char> {
    match c {
        Some(s) => s@,
        None => Seq::empty(),
    }
}

impl OpenAIClient {
    /// What a chat call gives back, once the response has been parsed: a
    /// failure with code `Other(200)` unless there is exactly one choice,
    /// otherwise a success with that choice's content (empty if none).
    pub fn chat_response(
        &self,
        prompt: Vec<RenderedChatMessage>,
        start_time: web_time::SystemTime,
        latency: web_time::Duration,
        response: ChatCompletionResponse,
    ) -> (res: LLMResponse)
        ensures
            response.choices@.len() != 1 ==> (res matches LLMResponse::LLMFailure(f) && {
                &&& f.client == self.context.name
                &&& f.model is None
                &&& f.prompt@ == PromptView::Chat(messages_view(prompt@))
                &&& json_map_entries(f.request_options) == options_entries(self.properties.properties@)
                &&& f.start_time == start_time
                &&& f.latency == latency
                &&& f.message@ == "Expected exactly one choices block, got "@ + decimal_text(
                    response.choices@.len(),
                )
                &&& f.code == ErrorCode::Other(200)
            }),
            response.choices@.len() == 1 ==> (res matches LLMResponse::Success(r) && {
                let c = response.choices@[0];
                &&& r.client == self.context.name
                &&& r.model == response.model
                &&& r.prompt@ == PromptView::Chat(messages_view(prompt@))
                &&& r.request_options@ == self.properties.properties@
                &&& r.content@ == content_or_empty(c.content)
                &&& r.start_time == start_time
                &&& r.latency == latency
                &&& r.metadata.baml_is_complete == (c.finish_reason == Some(FinishReason::Stop))
                &&& stop_reason_recorded(c.finish_reason, r.metadata.finish_reason)
                &&& usage_recorded(response.usage, r.metadata)
            }),
    {
        let n = response.choices.len();
        if n != 1 {
            let mut message = "Expected exactly one choices block, got ".to_owned();
            let d = decimal(n as u128);
            message.append(d.as_str());
            return LLMResponse::LLMFailure(
                LLMErrorResponse {
                    client: self.context.name.clone(),
                    model: None,
                    prompt: RenderedPrompt::Chat(prompt),
                    request_options: options_to_map(&self.properties.properties),
                    start_time,
                    latency,
                    message,
                    code: ErrorCode::Other(200),
                },
            );
        }
        let content = match &response.choices[0].content {
            Some(s) => s.clone(),
            None => String::new(),
        };
        let is_stop = match response.choices[0].finish_reason {
            Some(FinishReason::Stop) => true,
            _ => false,
        };
        let finish_reason = if is_stop {
            Some(FinishReason::Stop.to_string())
        } else {
            None
        };
        let usage = response.usage;
        LLMResponse::Success(
            LLMCompleteResponse {
                client: self.context.name.clone(),
                model: response.model,
                prompt: RenderedPrompt::Chat(prompt),
                request_options: clone_options(&self.properties.properties),
                content,
                start_time,
                latency,
                metadata: LLMCompleteResponseMetadata {
                    baml_is_complete: is_stop,
                    finish_reason,
                    prompt_tokens: match usage {
                        Some(u) => Some(u.prompt_tokens),
                        None => None,
                    },
                    output_tokens: match usage {
                        Some(u) => Some(u.completion_tokens),
                        None => None,
                    },
                    total_tokens: match usage {
                        Some(u) => Some(u.total_tokens),
                        None => None,
                    },
                },
            },
        )
    }

    /// The response accumulated by a stream before its first event: no
    /// content, no model, not complete, no finish reason or token counts.
    pub fn stream_initial(
        &self,
        prompt: Vec<RenderedChatMessage>,
        start_time: web_time::SystemTime,
        latency: web_time::Duration,
    ) -> (res: LLMCompleteResponse)
        ensures
            res.client == self.context.name,
            res.prompt@ == PromptView::Chat(messages_view(prompt@)),
            res.request_options@ == self.properties.properties@,
            res.content@ == Seq::<char>::empty(),
            res.model@ == Seq::<char>::empty(),
            res.start_time == start_time,
            res.latency == latency,
            res.metadata == (LLMCompleteResponseMetadata {
                baml_is_complete: false,
                finish_reason: None,
                prompt_tokens: None,
                output_tokens: None,
                total_tokens: None,
            }),
    {
        LLMCompleteResponse {
            client: self.context.name.clone(),
            prompt: RenderedPrompt::Chat(prompt),
            content: String::new(),
            start_time,
            latency,
            model: String::new(),
            request_options: clone_options(&self.properties.properties),
            metadata: LLMCompleteResponseMetadata {
                baml_is_complete: false,
                finish_reason: None,
                prompt_tokens: None,
                output_tokens: None,
                total_tokens: None,
            },
        }
    }
}

/// Whether a stream goes on to the next event: only while events arrive
/// without error and their data is not `[DONE]`.
pub fn stream_continues(data: Option<&str>) -> (res: bool)
    ensures
        res == (data matches Some(d) && d@ != "[DONE]"@),
{
    match data {
        Some(d) => {
            let done = "[DONE]";
            !crate::text::str_eq(d, done)
        },
        None => false,
    }
}

/// The state after a parsed event: the first choice (if any) appends its
/// content, sets the model and the finish details; the latency is updated;
/// a usage block sets the token counts. Client, prompt, options and start
/// time are kept.
#[verifier::opaque]
pub open spec fn stream_advanced(
    old_state: LLMCompleteResponse,
    new_state: LLMCompleteResponse,
    event: ChatCompletionResponseDelta,
    latency: web_time::Duration,
) -> bool {
    &&& new_state.client == old_state.client
    &&& new_state.prompt@ == old_state.prompt@
    &&& new_state.request_options@ == old_state.request_options@
    &&& new_state.start_time == old_state.start_time
    &&& new_state.latency == latency
    &&& if event.choices@.len() > 0 {
        let c = event.choices@[0];
        &&& new_state.content@ == old_state.content@ + content_or_empty(c.content)
        &&& new_state.model == event.model
        &&& new_state.metadata.baml_is_complete == (c.finish_reason == Some(FinishReason::Stop))
        &&& reason_recorded(c.finish_reason, new_state.metadata.finish_reason)
    } else {
        &&& new_state.content == old_state.content
        &&& new_state.model == old_state.model
        &&& new_state.metadata.baml_is_complete == old_state.metadata.baml_is_complete
        &&& new_state.metadata.finish_reason == old_state.metadata.finish_reason
    }
    &&& match event.usage {
        Some(u) => usage_recorded(Some(u), new_state.metadata),
        None => {
            &&& new_state.metadata.prompt_tokens == old_state.metadata.prompt_tokens
            &&& new_state.metadata.output_tokens == old_state.metadata.output_tokens
            &&& new_state.metadata.total_tokens == old_state.metadata.total_tokens
        },
    }
}

/// Handles one event of a streamed chat completion. A parsed event advances
/// the accumulated response (see `stream_advanced`) and yields a copy of it
/// as a success; an event that failed to parse leaves the response as it was
/// and yields a failure with code `Other(2)`, the accumulated model (if any)
/// and `Failed to parse event: {error}`.
pub fn stream_event(
    state: &mut LLMCompleteResponse,
    event: Result<ChatCompletionResponseDelta, String>,
    latency: web_time::Duration,
) -> (res: LLMResponse)
    ensures
        match event {
            Ok(ev) => {
                &&& stream_advanced(*old(state), *final(state), ev, latency)
                &&& res matches LLMResponse::Success(r) && same_complete(r, *final(state))
            },
            Err(e) => {
                &&& *final(state) == *old(state)
                &&& res matches LLMResponse::LLMFailure(f) && {
                    &&& f.client == old(state).client
                    &&& (if old(state).model@.len() == 0 {
                        f.model is None
                    } else {
                        f.model == Some(old(state).model)
                    })
                    &&& f.prompt@ == old(state).prompt@
                    &&& json_map_entries(f.request_options) == options_entries(old(state).request_options@)
                    &&& f.start_time == old(state).start_time
                    &&& f.latency == latency
                    &&& f.message@ == "Failed to parse event: "@ + e@
                    &&& f.code == ErrorCode::Other(2)
                }
            },
        },
{
    reveal(stream_advanced);
    match event {
        Err(e) => {
            let model = if state.model.as_str().is_empty() {
                None
            } else {
                Some(state.model.clone())
            };
            let mut message = "Failed to parse event: ".to_owned();
            message.append(e.as_str());
            LLMResponse::LLMFailure(
                LLMErrorResponse {
                    client: state.client.clone(),
                    model,
                    prompt: clone_prompt(&state.prompt),
                    start_time: state.start_time,
                    request_options: options_to_map(&state.request_options),
                    latency,
                    message,
                    code: ErrorCode::Other(2),
                },
            )
        },
        Ok(ev) => {
            let ChatCompletionResponseDelta { model, choices, usage } = ev;
            if choices.len() > 0 {
                match &choices[0].content {
                    Some(c) => state.content.append(c.as_str()),
                    None => {},
                }
                state.model = model;
                match choices[0].finish_reason {
                    Some(FinishReason::Stop) => {
                        state.metadata.baml_is_complete = true;
                        state.metadata.finish_reason = Some(FinishReason::Stop.to_string());
                    },
                    r => {
                        state.metadata.baml_is_complete = false;
                        state.metadata.finish_reason = match r {
                            Some(f) => Some(f.to_string()),
                            None => None,
                        };
                    },
                }
            }
            state.latency = latency;
            match usage {
                Some(u) => {
                    state.metadata.prompt_tokens = Some(u.prompt_tokens);
                    state.metadata.output_tokens = Some(u.completion_tokens);
                    state.metadata.total_tokens = Some(u.total_tokens);
                },
                None => {},
            }
            LLMResponse::Success(clone_complete(state))
        },
    }
}

} // verus!
