//! The HTTP request that the OpenAI-style client sends: where it goes, its
//! headers and its JSON body.
use vstd::prelude::*;

use crate::json::{clone_value, entries_view, keys_sorted, lemma_jview_object, object_insert, view_insert, Json, JsonView};
use crate::openai::{spec_chat_message, OpenAIClient};
use crate::prompt::{clone_opt_string, RenderedChatMessage};
use crate::text::{spec_starts_with, starts_with, str_eq};

verus! {

/// The prompt of a request: completion text or chat messages.
pub enum PromptRef<'a> {
    Completion(&'a String),
    Chat(&'a Vec<RenderedChatMessage>),
}

/// An HTTP POST request to send.
#[derive(Debug)]
pub struct RequestPlan {
    pub url: String,
    /// Query parameters, when there are any.
    pub query_params: Option<Vec<(String, String)>>,
    /// Headers, in the order they are set.
    pub headers: Vec<(String, String)>,
    /// The bearer token for the `Authorization` header, if any.
    pub bearer_token: Option<String>,
    /// The JSON body (an object).
    pub body: Vec<(String, Json)>,
}

/// The body fields that come from the client's properties, set in order.
pub open spec fn spec_properties_object(props: Seq<(String, serde_json::Value)>) -> Seq<
    (Seq<char>, JsonView),
>
    decreases props.len(),
{
    if props.len() == 0 {
        seq![]
    } else {
        view_insert(
            spec_properties_object(props.drop_last()),
            props.last().0@,
            JsonView::Raw(props.last().1),
        )
    }
}

/// Whether a request goes through the proxy: it may, a proxy is configured,
/// and the base URL is not on `http://localhost` (never proxy Ollama).
pub open spec fn spec_uses_proxy(c: OpenAIClient, allow_proxy: bool) -> bool {
    &&& allow_proxy
    &&& c.properties.proxy_url is Some
    &&& !spec_starts_with(c.properties.base_url@, "http://localhost"@)
}

/// The URL a request goes to.
pub open spec fn spec_request_url(c: OpenAIClient, completion: bool, allow_proxy: bool) -> Seq<char> {
    let dest = if spec_uses_proxy(c, allow_proxy) {
        c.properties.proxy_url->Some_0@
    } else {
        c.properties.base_url@
    };
    dest + if completion {
        "/completions"@
    } else {
        "/chat/completions"@
    }
}

/// The headers a request sets: the client's headers, then
/// `baml-original-url: {base_url}` when it goes through the proxy.
pub open spec fn spec_request_headers(c: OpenAIClient, allow_proxy: bool) -> Seq<(Seq<char>, Seq<char>)> {
    let hs = c.properties.headers@.map_values(|h: (String, String)| (h.0@, h.1@));
    if spec_uses_proxy(c, allow_proxy) {
        hs.push(("baml-original-url"@, c.properties.base_url@))
    } else {
        hs
    }
}

/// Adds the streaming fields: `"stream": true` and, for the `openai`
/// provider, `"stream_options": {"include_usage": true}`.
pub open spec fn spec_stream_fields(
    body: Seq<(Seq<char>, JsonView)>,
    provider: Seq<char>,
    stream: bool,
) -> Seq<(Seq<char>, JsonView)> {
    if stream {
        let b = view_insert(body, "stream"@, JsonView::Bool(true));
        if provider == "openai"@ {
            view_insert(
                b,
                "stream_options"@,
                JsonView::Object(seq![("include_usage"@, JsonView::Bool(true))]),
            )
        } else {
            b
        }
    } else {
        body
    }
}

/// The request body: the client's properties, then `"prompt"` (completion)
/// or the chat's `"messages"`, then the streaming fields; or the error of
/// converting a chat message.
pub open spec fn spec_request_body(c: OpenAIClient, prompt: PromptRef, stream: bool) -> Result<
    Seq<(Seq<char>, JsonView)>,
    Seq<char>,
> {
    let base = spec_properties_object(c.properties.properties@);
    match prompt {
        PromptRef::Completion(p) => Ok(
            spec_stream_fields(view_insert(base, "prompt"@, JsonView::Str(p@)), c.provider@, stream),
        ),
        PromptRef::Chat(ms) => match spec_chat_message(ms@) {
            Ok(m) => Ok(
                spec_stream_fields(view_insert(base, "messages"@, m[0].1), c.provider@, stream),
            ),
            Err(e) => Err(e),
        },
    }
}

/// The header pairs as character sequences.
pub open spec fn headers_view(h: Seq<(String, String)>) -> Seq<(Seq<char>, Seq<char>)> {
    h.map_values(|p: (String, String)| (p.0@, p.1@))
}

/// A copy of a list of string pairs.
fn clone_pairs(v: &Vec<(String, String)>) -> (res: Vec<(String, String)>)
    ensures
        res@ == v@,
{
    let mut out: Vec<(String, String)> = Vec::new();
    let n = v.len();
    for i in 0..n
        invariant
            n == v@.len(),
            out@ == v@.take(i as int),
    {
        out.push((v[i].0.clone(), v[i].1.clone()));
        assert(v@.take(i + 1) =~= v@.take(i as int).push(v@[i as int]));
    }
    assert(v@.take(n as int) =~= v@);
    out
}

impl OpenAIClient {
    /// Whether a request goes through the proxy (see `spec_uses_proxy`).
    pub fn uses_proxy(&self, allow_proxy: bool) -> (res: bool)
        ensures
            res == spec_uses_proxy(*self, allow_proxy),
    {
        allow_proxy && self.properties.proxy_url.is_some() && !starts_with(
            self.properties.base_url.as_str(),
            "http://localhost",
        )
    }

    /// The JSON object of the client's properties.
    pub fn properties_object(&self) -> (res: Vec<(String, Json)>)
        ensures
            keys_sorted(res@),
            entries_view(res@) == spec_properties_object(self.properties.properties@),
    {
        let props = &self.properties.properties;
        let mut body: Vec<(String, Json)> = Vec::new();
        let n = props.len();
        assert(props@.take(0) =~= seq![]);
        assert(entries_view(body@) =~= seq![]);
        for i in 0..n
            invariant
                n == props@.len(),
                *props == self.properties.properties,
                keys_sorted(body@),
                entries_view(body@) == spec_properties_object(props@.take(i as int)),
        {
            assert(props@.take(i + 1).drop_last() =~= props@.take(i as int));
            object_insert(&mut body, props[i].0.clone(), Json::Raw(clone_value(&props[i].1)));
        }
        assert(props@.take(n as int) =~= props@);
        body
    }

    /// The request for a prompt (see `spec_request_url`,
    /// `spec_request_headers` and `spec_request_body`); it fails only when a
    /// chat message cannot be converted.
    pub fn build_request(&self, prompt: PromptRef, allow_proxy: bool, stream: bool) -> (res: Result<
        RequestPlan,
        String,
    >)
        ensures
            match res {
                Ok(r) => {
                    &&& r.url@ == spec_request_url(*self, prompt is Completion, allow_proxy)
                    &&& (if self.properties.query_params@.len() == 0 {
                        r.query_params is None
                    } else {
                        r.query_params matches Some(q) && q@ == self.properties.query_params@
                    })
                    &&& headers_view(r.headers@) == spec_request_headers(*self, allow_proxy)
                    &&& r.bearer_token == self.properties.api_key
                    &&& keys_sorted(r.body@)
                    &&& spec_request_body(*self, prompt, stream) == Ok::<_, Seq<char>>(
                        entries_view(r.body@),
                    )
                },
                Err(e) => spec_request_body(*self, prompt, stream) == Err::<
                    Seq<(Seq<char>, JsonView)>,
                    _,
                >(e@),
            },
    {
        let proxied = self.uses_proxy(allow_proxy);
        let mut url = if proxied {
            match &self.properties.proxy_url {
                Some(p) => p.clone(),
                None => self.properties.base_url.clone(),
            }
        } else {
            self.properties.base_url.clone()
        };
        match prompt {
            PromptRef::Completion(_) => url.append("/completions"),
            PromptRef::Chat(_) => url.append("/chat/completions"),
        }
        let query_params = if self.properties.query_params.len() == 0 {
            None
        } else {
            Some(clone_pairs(&self.properties.query_params))
        };
        let mut headers = clone_pairs(&self.properties.headers);
        if proxied {
            headers.push(("baml-original-url".to_owned(), self.properties.base_url.clone()));
        }
        assert(headers_view(headers@) =~= spec_request_headers(*self, allow_proxy));
        let mut body = self.properties_object();
        match prompt {
            PromptRef::Completion(p) => {
                object_insert(&mut body, "prompt".to_owned(), Json::Str(p.clone()));
            },
            PromptRef::Chat(messages) => {
                match self.chat_to_message(messages) {
                    Ok(m) => {
                        // the chat fields hold the single entry "messages"
                        let mut m = m;
                        assert(entries_view(m@).len() == 1);
                        let (k, v) = m.pop().unwrap();
                        assert(k@ == "messages"@);
                        object_insert(&mut body, k, v);
                    },
                    Err(e) => {
                        return Err(e);
                    },
                }
            },
        }
        if stream {
            object_insert(&mut body, "stream".to_owned(), Json::Bool(true));
            if str_eq(self.provider.as_str(), "openai") {
                let mut opts: Vec<(String, Json)> = Vec::new();
                opts.push(("include_usage".to_owned(), Json::Bool(true)));
                let ghost ov = entries_view(opts@);
                assert(ov =~= seq![("include_usage"@, JsonView::Bool(true))]);
                proof {
                    lemma_jview_object(opts);
                }
                object_insert(&mut body, "stream_options".to_owned(), Json::Object(opts));
            }
        }
        Ok(
            RequestPlan {
                url,
                query_params,
                headers,
                bearer_token: clone_opt_string(&self.properties.api_key),
                body,
            },
        )
    }
}

} // verus!
