//! The pure parts of the `serve` command: its arguments and defaults, the
//! address it listens on, the messages it streams and the errors it answers.
use vstd::prelude::*;

use crate::json::{empty_object, entries_view, jview, lemma_jview_object, obj_set, Json, JsonView};
use crate::text::{decimal, decimal_text};

verus! {

/// The arguments of `serve`.
#[derive(Debug)]
pub struct ServeArgs {
    /// Path to the `baml_src` directory.
    pub from: String,
    /// The port to expose BAML on.
    pub port: u16,
    /// Generate without checking for a version mismatch.
    pub no_version_check: bool,
}

impl ServeArgs {
    /// The defaults: `./baml_src`, port 2024, version check on.
    pub fn defaults() -> (res: ServeArgs)
        ensures
            res.from@ == "./baml_src"@,
            res.port == 2024,
            !res.no_version_check,
    {
        ServeArgs { from: "./baml_src".to_owned(), port: 2024, no_version_check: false }
    }

    /// The address the server listens on: `0.0.0.0:{port}`.
    pub fn bind_address(&self) -> (res: String)
        ensures
            res@ == "0.0.0.0:"@ + decimal_text(self.port as nat),
    {
        let mut s = "0.0.0.0:".to_owned();
        let d = decimal(self.port as u128);
        s.append(d.as_str());
        s
    }
}

/// The data of a server-sent test event: `<message>{msg}</message>`.
pub fn sse_message(msg: &str) -> (res: String)
    ensures
        res@ == "<message>"@ + msg@ + "</message>"@,
{
    let mut s = "<message>".to_owned();
    s.append(msg);
    s.append("</message>");
    s
}

/// `count` copies of a string.
pub fn repeated(msg: &str, count: usize) -> (res: Vec<String>)
    ensures
        res@.len() == count,
        forall|i: int| 0 <= i < count ==> #[trigger] res@[i]@ == msg@,
{
    let mut out: Vec<String> = Vec::new();
    for i in 0..count
        invariant
            out@.len() == i,
            forall|k: int| 0 <= k < i ==> #[trigger] out@[k]@ == msg@,
    {
        out.push(msg.to_owned());
    }
    out
}

/// The items of the echo stream: the message three times.
pub fn echo_items(msg: &str) -> (res: Vec<String>)
    ensures
        res@.len() == 3,
        forall|i: int| 0 <= i < 3 ==> #[trigger] res@[i]@ == msg@,
{
    repeated(msg, 3)
}

/// The data of the server-sent test stream: ten `<message>{msg}</message>`.
pub fn sse_events(msg: &str) -> (res: Vec<String>)
    ensures
        res@.len() == 10,
        forall|i: int| 0 <= i < 10 ==> #[trigger] res@[i]@ == "<message>"@ + msg@ + "</message>"@,
{
    let m = sse_message(msg);
    repeated(m.as_str(), 10)
}

/// Why a call through the server failed.
#[derive(Debug)]
pub enum CallError {
    /// The arguments are not a BAML value.
    ArgsNotConvertible,
    /// The arguments are not a map from argument name to value.
    ArgsNotMap,
    /// The function call failed, with its message.
    CallFailed(String),
    /// The result could not be parsed.
    ResultNotParsed,
}

/// The message of a call error.
pub open spec fn call_error_text(e: CallError) -> Seq<char> {
    match e {
        CallError::ArgsNotConvertible => "Failed to convert arguments from JSON to BamlValue"@,
        CallError::ArgsNotMap => "Arguments provided must be a map, from arg name to value"@,
        CallError::CallFailed(m) => m@,
        CallError::ResultNotParsed => "Failed to parse result"@,
    }
}

impl CallError {
    /// The message of the error.
    pub fn message(&self) -> (res: String)
        ensures
            res@ == call_error_text(*self),
    {
        match self {
            CallError::ArgsNotConvertible => "Failed to convert arguments from JSON to BamlValue".to_owned(),
            CallError::ArgsNotMap => "Arguments provided must be a map, from arg name to value".to_owned(),
            CallError::CallFailed(m) => m.clone(),
            CallError::ResultNotParsed => "Failed to parse result".to_owned(),
        }
    }
}

/// Checks the arguments of a call: they must have converted to a BAML value
/// and be a map.
pub fn check_call_args(converted: bool, is_map: bool) -> (res: Result<(), CallError>)
    ensures
        !converted ==> res matches Err(CallError::ArgsNotConvertible),
        converted && !is_map ==> res matches Err(CallError::ArgsNotMap),
        converted && is_map ==> res is Ok,
{
    if !converted {
        Err(CallError::ArgsNotConvertible)
    } else if !is_map {
        Err(CallError::ArgsNotMap)
    } else {
        Ok(())
    }
}

/// The body of an error answer: `{"error": message}`.
pub fn error_body(message: &str) -> (res: Json)
    ensures
        jview(res) == JsonView::Object(seq![("error"@, JsonView::Str(message@))]),
{
    let mut o = empty_object();
    obj_set(&mut o, "error", Json::Str(message.to_owned()));
    assert(entries_view(o@) =~= seq![("error"@, JsonView::Str(message@))]);
    proof {
        lemma_jview_object(o);
    }
    Json::Object(o)
}

/// The HTTP answer to a function call: status `200` with the call's result,
/// or status `500` with `{"error": message}` when the call failed.
pub fn call_answer(outcome: Result<serde_json::Value, String>) -> (res: (u16, Json))
    ensures
        match outcome {
            Ok(v) => res.0 == 200 && res.1 == Json::Raw(v),
            Err(m) => res.0 == 500 && jview(res.1) == JsonView::Object(seq![("error"@, JsonView::Str(m@))]),
        },
{
    match outcome {
        Ok(v) => (200, Json::Raw(v)),
        Err(m) => (500, error_body(m.as_str())),
    }
}

} // verus!
