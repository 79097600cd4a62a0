//! What an LLM call gives back: successes, failures and their error codes,
//! plus the capabilities of a model and which metadata keys it accepts.
use vstd::prelude::*;

use crate::json::clone_value;
use crate::prompt::{clone_opt_string, clone_prompt, RenderedPrompt};
use crate::text::{decimal, decimal_text, str_eq};

verus! {

/// `web_time::SystemTime`, carried through unchanged.
#[verifier::external_type_specification]
#[verifier::external_body]
pub struct ExSystemTime(web_time::SystemTime);

/// `reqwest::StatusCode`, an HTTP status code.
#[verifier::external_type_specification]
#[verifier::external_body]
pub struct ExStatusCode(reqwest::StatusCode);

/// The number that `reqwest::StatusCode::as_u16` gives for a status code.
pub uninterp spec fn status_code_number(s: reqwest::StatusCode) -> u16;

/// Calls `reqwest::StatusCode::as_u16`. The contract claims the result is the
/// name `status_code_number` of the status, and lies in `100..=999`, the
/// only values from which a `StatusCode` can be built.
#[verifier::external_body]
pub(crate) fn status_as_u16(s: &reqwest::StatusCode) -> (res: u16)
    ensures
        res == status_code_number(*s),
        100 <= res <= 999,
{
    s.as_u16()
}

/// How media URLs in a prompt are resolved before sending.
#[derive(Clone, Copy, PartialEq, Eq, Structural, Debug)]
pub enum ResolveMediaUrls {
    Always,
    EnsureMime,
    Never,
}

/// Which metadata keys a client passes on.
#[derive(Debug)]
pub enum AllowedMetadata {
    All,
    NoneAllowed,
    Only(Vec<String>),
}

/// The set of keys allowed by `Only(keys)`.
pub open spec fn key_set(keys: Seq<String>) -> Set<Seq<char>> {
    Set::new(|k: Seq<char>| exists|i: int| 0 <= i < keys.len() && #[trigger] keys[i]@ == k)
}

/// Whether a metadata key is allowed.
pub open spec fn spec_is_allowed(m: AllowedMetadata, key: Seq<char>) -> bool {
    match m {
        AllowedMetadata::All => true,
        AllowedMetadata::NoneAllowed => false,
        AllowedMetadata::Only(keys) => key_set(keys@).contains(key),
    }
}

impl AllowedMetadata {
    /// Whether `key` may be passed on: always for `All`, never for `None`,
    /// and for `Only(keys)` exactly when `key` is one of `keys`.
    pub fn is_allowed(&self, key: &str) -> (res: bool)
        ensures
            res == spec_is_allowed(*self, key@),
    {
        match self {
            AllowedMetadata::All => true,
            AllowedMetadata::NoneAllowed => false,
            AllowedMetadata::Only(keys) => {
                let n = keys.len();
                for i in 0..n
                    invariant
                        n == keys@.len(),
                        *self == AllowedMetadata::Only(*keys),
                        forall|k: int| 0 <= k < i ==> keys@[k]@ != key@,
                {
                    if str_eq(keys[i].as_str(), key) {
                        assert(keys@[i as int]@ == key@);
                        assert(key_set(keys@).contains(key@));
                        return true;
                    }
                }
                false
            },
        }
    }
}

/// What a model supports.
#[derive(Debug)]
pub struct ModelFeatures {
    pub completion: bool,
    pub chat: bool,
    pub anthropic_system_constraints: bool,
    pub resolve_media_urls: ResolveMediaUrls,
    pub allowed_metadata: AllowedMetadata,
}

/// The error codes of a failed call.
#[derive(Debug)]
pub enum ErrorCode {
    /// 401
    InvalidAuthentication,
    /// 403
    NotSupported,
    /// 429
    RateLimited,
    /// 500
    ServerError,
    /// 503
    ServiceUnavailable,
    /// The response could not be parsed.
    UnsupportedResponse(u16),
    /// Any other error.
    Other(u16),
}

/// The error code for an HTTP status number.
pub open spec fn spec_from_u16(code: u16) -> ErrorCode {
    if code == 401 {
        ErrorCode::InvalidAuthentication
    } else if code == 403 {
        ErrorCode::NotSupported
    } else if code == 429 {
        ErrorCode::RateLimited
    } else if code == 500 {
        ErrorCode::ServerError
    } else if code == 503 {
        ErrorCode::ServiceUnavailable
    } else {
        ErrorCode::Other(code)
    }
}

/// The text of an error code.
pub open spec fn spec_error_code_text(c: ErrorCode) -> Seq<char> {
    match c {
        ErrorCode::InvalidAuthentication => "InvalidAuthentication (401)"@,
        ErrorCode::NotSupported => "NotSupported (403)"@,
        ErrorCode::RateLimited => "RateLimited (429)"@,
        ErrorCode::ServerError => "ServerError (500)"@,
        ErrorCode::ServiceUnavailable => "ServiceUnavailable (503)"@,
        ErrorCode::UnsupportedResponse(code) => "BadResponse "@ + decimal_text(code as nat),
        ErrorCode::Other(code) => "Unspecified error code: "@ + decimal_text(code as nat),
    }
}

impl ErrorCode {
    /// The text of the code, e.g. `RateLimited (429)` or `BadResponse 418`.
    pub fn to_string(&self) -> (res: String)
        ensures
            res@ == spec_error_code_text(*self),
    {
        match self {
            ErrorCode::InvalidAuthentication => "InvalidAuthentication (401)".to_owned(),
            ErrorCode::NotSupported => "NotSupported (403)".to_owned(),
            ErrorCode::RateLimited => "RateLimited (429)".to_owned(),
            ErrorCode::ServerError => "ServerError (500)".to_owned(),
            ErrorCode::ServiceUnavailable => "ServiceUnavailable (503)".to_owned(),
            ErrorCode::UnsupportedResponse(code) => {
                let mut s = "BadResponse ".to_owned();
                let d = decimal(*code as u128);
                s.append(d.as_str());
                s
            },
            ErrorCode::Other(code) => {
                let mut s = "Unspecified error code: ".to_owned();
                let d = decimal(*code as u128);
                s.append(d.as_str());
                s
            },
        }
    }

    /// The code for an HTTP status: the five known statuses get their own
    /// variant, every other status is `Other(status)`.
    pub fn from_status(status: reqwest::StatusCode) -> (res: ErrorCode)
        ensures
            res == spec_from_u16(status_code_number(status)),
    {
        let code = status_as_u16(&status);
        ErrorCode::from_u16(code)
    }

    /// The code for an HTTP status number: 401, 403, 429, 500 and 503 get
    /// their own variant, every other number `n` is `Other(n)`.
    pub fn from_u16(code: u16) -> (res: ErrorCode)
        ensures
            res == spec_from_u16(code),
    {
        match code {
            401 => ErrorCode::InvalidAuthentication,
            403 => ErrorCode::NotSupported,
            429 => ErrorCode::RateLimited,
            500 => ErrorCode::ServerError,
            503 => ErrorCode::ServiceUnavailable,
            code => ErrorCode::Other(code),
        }
    }
}

/// A copy of an error code.
pub fn clone_error_code(c: &ErrorCode) -> (res: ErrorCode)
    ensures
        res == *c,
{
    match c {
        ErrorCode::InvalidAuthentication => ErrorCode::InvalidAuthentication,
        ErrorCode::NotSupported => ErrorCode::NotSupported,
        ErrorCode::RateLimited => ErrorCode::RateLimited,
        ErrorCode::ServerError => ErrorCode::ServerError,
        ErrorCode::ServiceUnavailable => ErrorCode::ServiceUnavailable,
        ErrorCode::UnsupportedResponse(n) => ErrorCode::UnsupportedResponse(*n),
        ErrorCode::Other(n) => ErrorCode::Other(*n),
    }
}

/// Usage and completion details of a successful call.
#[derive(Debug)]
pub struct LLMCompleteResponseMetadata {
    pub baml_is_complete: bool,
    pub finish_reason: Option<String>,
    pub prompt_tokens: Option<u64>,
    pub output_tokens: Option<u64>,
    pub total_tokens: Option<u64>,
}

/// A copy of response metadata.
pub fn clone_metadata(m: &LLMCompleteResponseMetadata) -> (res: LLMCompleteResponseMetadata)
    ensures
        res == *m,
{
    LLMCompleteResponseMetadata {
        baml_is_complete: m.baml_is_complete,
        finish_reason: clone_opt_string(&m.finish_reason),
        prompt_tokens: m.prompt_tokens,
        output_tokens: m.output_tokens,
        total_tokens: m.total_tokens,
    }
}

/// `serde_json::Map`, the JSON object type, carried through unchanged.
#[verifier::external_type_specification]
#[verifier::external_body]
#[verifier::reject_recursive_types(K)]
#[verifier::reject_recursive_types(V)]
pub struct ExJsonMap<K, V>(serde_json::Map<K, V>);

/// A JSON object: `serde_json::Map` with string keys.
pub type JsonObject = serde_json::Map<String, serde_json::Value>;

/// The entries of a `serde_json::Map`: each key's characters and its value.
pub uninterp spec fn json_map_entries(m: JsonObject) -> Map<Seq<char>, serde_json::Value>;

/// Calls `serde_json::Map::new`; the contract claims the map has no entry.
#[verifier::external_body]
fn new_json_map() -> (res: JsonObject)
    ensures
        json_map_entries(res).dom() =~= Set::<Seq<char>>::empty(),
{
    serde_json::Map::new()
}

/// Calls `serde_json::Map::insert`; the contract claims the key now maps to
/// the value (replacing any earlier value) and every other entry is kept.
#[verifier::external_body]
fn json_map_insert(m: &mut JsonObject, k: String, v: serde_json::Value)
    ensures
        json_map_entries(*final(m)) == json_map_entries(*old(m)).insert(k@, v),
{
    m.insert(k, v);
}

/// Request options as a map: each name to its value, a later option with
/// the same name replacing an earlier one.
pub open spec fn options_entries(o: Seq<(String, serde_json::Value)>) -> Map<Seq<char>, serde_json::Value>
    decreases o.len(),
{
    if o.len() == 0 {
        Map::empty()
    } else {
        options_entries(o.drop_last()).insert(o.last().0@, o.last().1)
    }
}

/// Request options as a JSON object (a `serde_json::Map`).
pub fn options_to_map(o: &Vec<(String, serde_json::Value)>) -> (res: JsonObject)
    ensures
        json_map_entries(res) == options_entries(o@),
{
    let mut m = new_json_map();
    let n = o.len();
    for i in 0..n
        invariant
            n == o@.len(),
            json_map_entries(m) == options_entries(o@.take(i as int)),
    {
        let k = o[i].0.clone();
        let v = clone_value(&o[i].1);
        json_map_insert(&mut m, k, v);
        assert(o@.take(i + 1).drop_last() =~= o@.take(i as int));
    }
    assert(o@.take(n as int) =~= o@);
    m
}

/// A copy of request options (name and JSON value of each option).
pub fn clone_options(o: &Vec<(String, serde_json::Value)>) -> (res: Vec<(String, serde_json::Value)>)
    ensures
        res@ == o@,
{
    let mut out: Vec<(String, serde_json::Value)> = Vec::new();
    let n = o.len();
    for i in 0..n
        invariant
            n == o@.len(),
            out@ == o@.take(i as int),
    {
        out.push((o[i].0.clone(), clone_value(&o[i].1)));
        assert(o@.take(i + 1) =~= o@.take(i as int).push(o@[i as int]));
    }
    assert(o@.take(n as int) =~= o@);
    out
}

/// A successful call.
#[derive(Debug)]
pub struct LLMCompleteResponse {
    pub client: String,
    pub model: String,
    pub prompt: RenderedPrompt,
    pub request_options: Vec<(String, serde_json::Value)>,
    pub content: String,
    pub start_time: web_time::SystemTime,
    pub latency: web_time::Duration,
    pub metadata: LLMCompleteResponseMetadata,
}

/// Two successful responses hold the same contents.
pub open spec fn same_complete(a: LLMCompleteResponse, b: LLMCompleteResponse) -> bool {
    &&& a.client == b.client
    &&& a.model == b.model
    &&& a.prompt@ == b.prompt@
    &&& a.request_options@ == b.request_options@
    &&& a.content == b.content
    &&& a.start_time == b.start_time
    &&& a.latency == b.latency
    &&& a.metadata == b.metadata
}

/// A copy of a successful response.
pub fn clone_complete(r: &LLMCompleteResponse) -> (res: LLMCompleteResponse)
    ensures
        same_complete(res, *r),
{
    LLMCompleteResponse {
        client: r.client.clone(),
        model: r.model.clone(),
        prompt: clone_prompt(&r.prompt),
        request_options: clone_options(&r.request_options),
        content: r.content.clone(),
        start_time: r.start_time,
        latency: r.latency,
        metadata: clone_metadata(&r.metadata),
    }
}

/// A failed call.
#[derive(Debug)]
pub struct LLMErrorResponse {
    pub client: String,
    pub model: Option<String>,
    pub prompt: RenderedPrompt,
    /// The request's options, as a JSON object.
    pub request_options: JsonObject,
    pub start_time: web_time::SystemTime,
    pub latency: web_time::Duration,
    /// Short error message.
    pub message: String,
    pub code: ErrorCode,
}

/// The outcome of one call to an LLM.
#[derive(Debug)]
pub enum LLMResponse {
    Success(LLMCompleteResponse),
    LLMFailure(LLMErrorResponse),
    OtherFailure(String),
}

/// The outcome of a call with retries.
#[derive(Debug)]
pub struct RetryLLMResponse {
    pub client: Option<String>,
    pub passed: Option<Box<LLMResponse>>,
    pub failed: Vec<LLMResponse>,
}

/// Why a response has no content.
#[derive(Debug)]
pub enum ContentError<'a> {
    /// The LLM call failed; holds the failure, and `message` gives
    /// `LLM call failed: {failure:?}`.
    LLMCallFailed(&'a LLMErrorResponse),
    /// The call could not be made; holds `LLM failed to call: {message}`.
    LLMFailedToCall(String),
}

/// Formats a failure with `format!("{:?}", ..)`, std's derived `Debug`.
/// Nothing is stated of the text: std does not fix the layout of derived
/// `Debug` output.
#[verifier::external_body]
fn failure_debug_text(f: &LLMErrorResponse) -> String {
    format!("{:?}", f)
}

impl ContentError<'_> {
    /// The error message: `LLM call failed: {failure:?}` for a failed call,
    /// `LLM failed to call: {message}` for a call that could not be made.
    pub fn message(&self) -> (res: String)
        ensures
            match self {
                ContentError::LLMCallFailed(_) => exists|d: Seq<char>| res@ == "LLM call failed: "@ + d,
                ContentError::LLMFailedToCall(t) => res@ == t@,
            },
    {
        match self {
            ContentError::LLMCallFailed(f) => {
                let mut m = "LLM call failed: ".to_owned();
                let d = failure_debug_text(f);
                m.append(d.as_str());
                m
            },
            ContentError::LLMFailedToCall(t) => t.clone(),
        }
    }
}

impl LLMResponse {
    /// The content of a successful response; for a failure, the reason.
    pub fn content(&self) -> (res: Result<&str, ContentError<'_>>)
        ensures
            match self {
                LLMResponse::Success(r) => res matches Ok(c) && c@ == r.content@,
                LLMResponse::LLMFailure(f) => res matches Err(ContentError::LLMCallFailed(g))
                    && *g == *f,
                LLMResponse::OtherFailure(m) => res matches Err(ContentError::LLMFailedToCall(t))
                    && t@ == "LLM failed to call: "@ + m@,
            },
    {
        match self {
            LLMResponse::Success(r) => Ok(r.content.as_str()),
            LLMResponse::LLMFailure(f) => Err(ContentError::LLMCallFailed(f)),
            LLMResponse::OtherFailure(m) => {
                let mut t = "LLM failed to call: ".to_owned();
                t.append(m.as_str());
                Err(ContentError::LLMFailedToCall(t))
            },
        }
    }
}

/// The number that `web_time::Duration::as_millis` gives for a duration: its
/// whole milliseconds.
pub uninterp spec fn duration_as_millis(d: web_time::Duration) -> u128;

/// Calls `web_time::Duration::as_millis` (std's `Duration::as_millis`). The
/// contract claims the result is the name `duration_as_millis` of the
/// duration; it depends on the duration alone.
#[verifier::external_body]
fn duration_millis(d: &web_time::Duration) -> (res: u128)
    ensures
        res == duration_as_millis(*d),
{
    d.as_millis()
}

/// The first line of a response's printout.
pub open spec fn spec_header_line(r: LLMCompleteResponse, millis: u128) -> Seq<char> {
    "Client: "@ + r.client@ + " ("@ + r.model@ + ") - "@ + decimal_text(millis as nat) + "ms. StopReason: "@
        + match r.metadata.finish_reason {
        Some(f) => f@,
        None => "unknown"@,
    }
}

impl LLMCompleteResponse {
    /// `Client: {client} ({model}) - {millis}ms. StopReason: {reason}`, where
    /// the reason is `unknown` when there is none.
    pub fn header_line_with_millis(&self, millis: u128) -> (res: String)
        ensures
            res@ == spec_header_line(*self, millis),
    {
        let mut s = "Client: ".to_owned();
        s.append(self.client.as_str());
        s.append(" (");
        s.append(self.model.as_str());
        s.append(") - ");
        let d = decimal(millis);
        s.append(d.as_str());
        s.append("ms. StopReason: ");
        match &self.metadata.finish_reason {
            Some(f) => s.append(f.as_str()),
            None => s.append("unknown"),
        }
        s
    }

    /// The first line of the printout, with the latency in milliseconds.
    pub fn header_line(&self) -> (res: String)
        ensures
            res@ == spec_header_line(*self, duration_as_millis(self.latency)),
    {
        let ms = duration_millis(&self.latency);
        self.header_line_with_millis(ms)
    }

    /// The printout of a successful response, given the text of its prompt:
    /// the header line, `---PROMPT---`, the prompt, `---LLM REPLY---` and the
    /// reply, one per line.
    pub fn printout(&self, prompt_text: &str) -> (res: String)
        ensures
            res@ == spec_printout(*self, duration_as_millis(self.latency), prompt_text@),
    {
        let header = self.header_line();
        printout_layout(header.as_str(), PROMPT_LABEL, prompt_text, REPLY_LABEL, self.content.as_str())
    }
}

/// The label above the prompt in a response's printout.
pub const PROMPT_LABEL: &'static str = "---PROMPT---";

/// The label above the reply in a response's printout.
pub const REPLY_LABEL: &'static str = "---LLM REPLY---";

/// Five pieces, one per line, with no line break after the last.
pub open spec fn spec_layout(
    header: Seq<char>,
    prompt_label: Seq<char>,
    prompt: Seq<char>,
    reply_label: Seq<char>,
    reply: Seq<char>,
) -> Seq<char> {
    header + "\n"@ + prompt_label + "\n"@ + prompt + "\n"@ + reply_label + "\n"@ + reply
}

/// The printout of a successful response whose latency is `millis`
/// milliseconds and whose prompt reads `prompt`.
pub open spec fn spec_printout(r: LLMCompleteResponse, millis: u128, prompt: Seq<char>) -> Seq<char> {
    spec_layout(spec_header_line(r, millis), PROMPT_LABEL@, prompt, REPLY_LABEL@, r.content@)
}

/// Lays out the printout of a response from its pieces, each as it is to be
/// shown (plain, or styled by the caller): header, prompt label, prompt,
/// reply label and reply, one per line.
pub fn printout_layout(header: &str, prompt_label: &str, prompt: &str, reply_label: &str, reply: &str) -> (res: String)
    ensures
        res@ == spec_layout(header@, prompt_label@, prompt@, reply_label@, reply@),
{
    let mut s = header.to_owned();
    s.append("\n");
    s.append(prompt_label);
    s.append("\n");
    s.append(prompt);
    s.append("\n");
    s.append(reply_label);
    s.append("\n");
    s.append(reply);
    s
}

impl LLMResponse {
    /// The printout of a response, given the text of its prompt (used only
    /// for a success): a success's printout, `LLM call failed: {failure:?}`
    /// for a failed call, `LLM call failed: {message}` for a call that could
    /// not be made.
    pub fn printout(&self, prompt_text: &str) -> (res: String)
        ensures
            match self {
                LLMResponse::Success(r) => res@ == spec_printout(*r, duration_as_millis(r.latency), prompt_text@),
                LLMResponse::LLMFailure(_) => exists|d: Seq<char>| res@ == "LLM call failed: "@ + d,
                LLMResponse::OtherFailure(m) => res@ == "LLM call failed: "@ + m@,
            },
    {
        match self {
            LLMResponse::Success(r) => r.printout(prompt_text),
            LLMResponse::LLMFailure(f) => {
                let mut m = "LLM call failed: ".to_owned();
                let d = failure_debug_text(f);
                m.append(d.as_str());
                m
            },
            LLMResponse::OtherFailure(message) => {
                let mut m = "LLM call failed: ".to_owned();
                m.append(message.as_str());
                m
            },
        }
    }
}

/// Collects a client's resolved options. The first option that failed to
/// resolve gives the error `client {name} could not resolve options.{key}`;
/// otherwise every option comes back with its value, in order.
pub fn resolve_options(client_name: &str, options: Vec<(String, Result<serde_json::Value, String>)>) -> (res: Result<
    Vec<(String, serde_json::Value)>,
    String,
>)
    ensures
        match res {
            Ok(v) => (forall|i: int| 0 <= i < options@.len() ==> options@[i].1 is Ok) && v@.len()
                == options@.len() && forall|i: int|
                0 <= i < v@.len() ==> #[trigger] v@[i] == (options@[i].0, options@[i].1->Ok_0),
            Err(m) => exists|i: int|
                0 <= i < options@.len() && options@[i].1 is Err && (forall|k: int|
                    0 <= k < i ==> options@[k].1 is Ok) && m@ == "client "@ + client_name@
                    + " could not resolve options."@ + options@[i].0@,
        },
{
    let mut out: Vec<(String, serde_json::Value)> = Vec::new();
    let n = options.len();
    for i in 0..n
        invariant
            n == options@.len(),
            out@.len() == i,
            forall|k: int| 0 <= k < i ==> options@[k].1 is Ok,
            forall|k: int| 0 <= k < i ==> #[trigger] out@[k] == (options@[k].0, options@[k].1->Ok_0),
    {
        match &options[i].1 {
            Ok(v) => {
                out.push((options[i].0.clone(), clone_value(v)));
            },
            Err(_) => {
                let mut m = "client ".to_owned();
                m.append(client_name);
                m.append(" could not resolve options.");
                m.append(options[i].0.as_str());
                return Err(m);
            },
        }
    }
    Ok(out)
}

} // verus!
