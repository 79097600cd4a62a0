# baml_engine

Verified core of several BAML engine components, written in Verus.

- `src/json.rs`: a JSON document model whose objects keep their keys in
  ascending order, with a compact writer; `serde_json` escapes strings and
  writes opaque values.
- `src/text.rs`: character-level helpers (`replace_all`, `starts_with`,
  decimal formatting) with exact specifications.
- `src/prompt.rs`: rendered prompts and chat messages.
- `src/llm_client.rs`: LLM call outcomes, error codes, allowed metadata,
  resolution of client options.
- `src/openai.rs`, `src/openai_request.rs`, `src/openai_response.rs`: the
  OpenAI-style client: configuration, JSON messages, the HTTP request it
  sends, and how (streamed) chat completions become responses.
- `src/lint.rs`, `src/lint_preview.rs`, `src/lint_output.rs`: the formatter's
  lint pass: diagnostics, function previews, and the printed document.
- `src/serve.rs`, `src/openapi.rs`: the pure parts of the `serve` command and
  of the OpenAPI generator.
- `src/laws.rs`: properties that relate several operations.

`app/` holds the I/O around the library: the command line, the HTTP server,
sending requests with `reqwest`, reading input and writing files.
