//! Verified core of the BAML engine pieces: diagnostics and schema preview
//! for the formatter, the LLM client response model, the OpenAI-style
//! request/response logic, the serve front end's pure parts and the OpenAPI
//! generator's file layout.
use vstd::prelude::*;

pub mod json;
pub mod laws;
pub mod lint;
pub mod lint_output;
pub mod lint_preview;
pub mod llm_client;
pub mod openai;
pub mod openai_request;
pub mod openai_response;
pub mod openapi;
pub mod prompt;
pub mod serve;
pub mod text;

verus! {
} // verus!
