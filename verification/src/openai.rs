//! The OpenAI-compatible client (also used for Ollama and Azure): its
//! configuration, the JSON messages it sends, the request it builds and how
//! it turns (streamed) chat completion responses into `LLMResponse`s.
use vstd::prelude::*;

use crate::json::{lemma_jview_array, lemma_jview_object, entries_view, items_view, jview, keys_sorted, object_insert, view_insert, Json, JsonView};
use crate::llm_client::{AllowedMetadata, ModelFeatures, ResolveMediaUrls};
use crate::prompt::{
    clone_opt_string, BamlMedia, BamlMediaContent, BamlMediaType, ChatMessagePart, ChatOptions,
    RenderContextClient, RenderedChatMessage,
};

verus! {

/// The resolved properties of an OpenAI-style client.
#[derive(Debug)]
pub struct PostRequestProperties {
    pub default_role: String,
    pub base_url: String,
    pub proxy_url: Option<String>,
    pub api_key: Option<String>,
    pub headers: Vec<(String, String)>,
    pub query_params: Vec<(String, String)>,
    /// Options sent as-is in the request body.
    pub properties: Vec<(String, serde_json::Value)>,
    pub allowed_metadata: AllowedMetadata,
}

/// The declaration of a client: its name, provider and retry policy.
#[derive(Debug)]
pub struct ClientSpec {
    pub name: String,
    pub provider: String,
    pub retry_policy: Option<String>,
}

/// An OpenAI-style LLM client.
#[derive(Debug)]
pub struct OpenAIClient {
    pub name: String,
    pub provider: String,
    pub retry_policy: Option<String>,
    pub context: RenderContextClient,
    pub features: ModelFeatures,
    pub properties: PostRequestProperties,
}

/// Two allowed-metadata settings allow the same keys in the same form.
pub open spec fn same_allowed(a: AllowedMetadata, b: AllowedMetadata) -> bool {
    match (a, b) {
        (AllowedMetadata::All, AllowedMetadata::All) => true,
        (AllowedMetadata::NoneAllowed, AllowedMetadata::NoneAllowed) => true,
        (AllowedMetadata::Only(x), AllowedMetadata::Only(y)) => x@ == y@,
        _ => false,
    }
}

/// A copy of an allowed-metadata setting.
pub fn clone_allowed(a: &AllowedMetadata) -> (res: AllowedMetadata)
    ensures
        same_allowed(res, *a),
{
    match a {
        AllowedMetadata::All => AllowedMetadata::All,
        AllowedMetadata::NoneAllowed => AllowedMetadata::NoneAllowed,
        AllowedMetadata::Only(keys) => {
            let mut out: Vec<String> = Vec::new();
            let n = keys.len();
            for i in 0..n
                invariant
                    n == keys@.len(),
                    out@ == keys@.take(i as int),
            {
                out.push(keys[i].clone());
                assert(keys@.take(i + 1) =~= keys@.take(i as int).push(keys@[i as int]));
            }
            assert(keys@.take(n as int) =~= keys@);
            AllowedMetadata::Only(out)
        },
    }
}

/// A client built for `provider` from a declaration and its properties:
/// chat only, no completion, no system-message constraints, media URLs never
/// resolved, and the properties' allowed metadata.
pub open spec fn is_built_client(
    c: OpenAIClient,
    client: ClientSpec,
    properties: PostRequestProperties,
    provider: Seq<char>,
) -> bool {
    &&& c.name == client.name
    &&& c.provider@ == provider
    &&& c.retry_policy == client.retry_policy
    &&& c.context.name == client.name
    &&& c.context.provider == client.provider
    &&& c.context.default_role == properties.default_role
    &&& c.features.chat
    &&& !c.features.completion
    &&& !c.features.anthropic_system_constraints
    &&& c.features.resolve_media_urls == ResolveMediaUrls::Never
    &&& same_allowed(c.features.allowed_metadata, properties.allowed_metadata)
    &&& c.properties == properties
}

fn make_client(client: &ClientSpec, properties: PostRequestProperties, provider: &str) -> (res: OpenAIClient)
    ensures
        is_built_client(res, *client, properties, provider@),
{
    let allowed = clone_allowed(&properties.allowed_metadata);
    let default_role = properties.default_role.clone();
    OpenAIClient {
        name: client.name.clone(),
        provider: provider.to_owned(),
        retry_policy: clone_opt_string(&client.retry_policy),
        context: RenderContextClient {
            name: client.name.clone(),
            provider: client.provider.clone(),
            default_role,
        },
        features: ModelFeatures {
            completion: false,
            chat: true,
            anthropic_system_constraints: false,
            resolve_media_urls: ResolveMediaUrls::Never,
            allowed_metadata: allowed,
        },
        properties,
    }
}

impl OpenAIClient {
    /// An `openai` client.
    pub fn new(client: &ClientSpec, properties: PostRequestProperties) -> (res: OpenAIClient)
        ensures
            is_built_client(res, *client, properties, "openai"@),
    {
        make_client(client, properties, "openai")
    }

    /// An `ollama` client.
    pub fn new_ollama(client: &ClientSpec, properties: PostRequestProperties) -> (res: OpenAIClient)
        ensures
            is_built_client(res, *client, properties, "ollama"@),
    {
        make_client(client, properties, "ollama")
    }

    /// An `azure` client.
    pub fn new_azure(client: &ClientSpec, properties: PostRequestProperties) -> (res: OpenAIClient)
        ensures
            is_built_client(res, *client, properties, "azure"@),
    {
        make_client(client, properties, "azure")
    }

    /// An `openai` client declared at run time.
    pub fn dynamic_new(client: &ClientSpec, properties: PostRequestProperties) -> (res: OpenAIClient)
        ensures
            is_built_client(res, *client, properties, "openai"@),
    {
        make_client(client, properties, "openai")
    }

    /// An `ollama` client declared at run time.
    pub fn dynamic_new_ollama(client: &ClientSpec, properties: PostRequestProperties) -> (res: OpenAIClient)
        ensures
            is_built_client(res, *client, properties, "ollama"@),
    {
        make_client(client, properties, "ollama")
    }

    /// An `azure` client declared at run time.
    pub fn dynamic_new_azure(client: &ClientSpec, properties: PostRequestProperties) -> (res: OpenAIClient)
        ensures
            is_built_client(res, *client, properties, "azure"@),
    {
        make_client(client, properties, "azure")
    }

    /// The name of the client's retry policy.
    pub fn retry_policy_name(&self) -> (res: Option<&str>)
        ensures
            match self.retry_policy {
                Some(p) => res matches Some(r) && r@ == p@,
                None => res is None,
            },
    {
        match &self.retry_policy {
            Some(p) => Some(p.as_str()),
            None => None,
        }
    }

    /// The options sent in the request body.
    pub fn client_properties(&self) -> (res: &Vec<(String, serde_json::Value)>)
        ensures
            *res == self.properties.properties,
    {
        &self.properties.properties
    }

    /// The options recorded with each response.
    pub fn request_options(&self) -> (res: &Vec<(String, serde_json::Value)>)
        ensures
            *res == self.properties.properties,
    {
        &self.properties.properties
    }

    /// Which metadata keys the client passes on.
    pub fn allowed_metadata(&self) -> (res: &AllowedMetadata)
        ensures
            *res == self.properties.allowed_metadata,
    {
        &self.properties.allowed_metadata
    }

    /// The client as seen by prompt rendering.
    pub fn context(&self) -> (res: &RenderContextClient)
        ensures
            *res == self.context,
    {
        &self.context
    }

    /// What the model supports.
    pub fn model_features(&self) -> (res: &ModelFeatures)
        ensures
            *res == self.features,
    {
        &self.features
    }

    /// Chat rendering options: the client's default role, any role allowed.
    pub fn chat_options(&self) -> (res: ChatOptions)
        ensures
            res.default_role == self.properties.default_role,
            res.valid_roles is None,
    {
        ChatOptions { default_role: self.properties.default_role.clone(), valid_roles: None }
    }
}

// ---------------------------------------------------------------------------
// Messages
// ---------------------------------------------------------------------------

/// An object's contents after adding a text part: `"type": "text"` and
/// `"text": text`.
pub open spec fn spec_text_message(content: Seq<(Seq<char>, JsonView)>, text: Seq<char>) -> Seq<
    (Seq<char>, JsonView),
> {
    view_insert(
        view_insert(content, "type"@, JsonView::Str("text"@)),
        "text"@,
        JsonView::Str(text),
    )
}

/// `image` or `audio`.
pub open spec fn media_kind(t: BamlMediaType) -> Seq<char> {
    match t {
        BamlMediaType::Image => "image"@,
        BamlMediaType::Audio => "audio"@,
    }
}

/// The error when a base64 attachment has no MIME type.
pub open spec fn missing_mime_message() -> Seq<char> {
    "Media mime type is not set"@
}

/// The error for an attachment that is still a local file.
pub open spec fn unresolved_file_message() -> Seq<char> {
    "BAML internal error (openai): file should have been resolved to base64"@
}

/// An object's contents after adding a media part. With `kind_url` being
/// `image_url` or `audio_url`: a URL gives `"type": kind_url` and
/// `kind_url: {"url": url}`; base64 data gives `"type": kind_url` and
/// `kind_url + "_url": {"url": "data:{mime};base64,{data}"}`, or an error
/// when the MIME type is missing; a file is an error.
pub open spec fn spec_media_message(content: Seq<(Seq<char>, JsonView)>, media: BamlMedia) -> Result<
    Seq<(Seq<char>, JsonView)>,
    Seq<char>,
> {
    let mt = media_kind(media.media_type) + "_url"@;
    match media.content {
        BamlMediaContent::Url(u) => Ok(
            view_insert(
                view_insert(content, "type"@, JsonView::Str(mt)),
                mt,
                JsonView::Object(seq![("url"@, JsonView::Str(u@))]),
            ),
        ),
        BamlMediaContent::Base64(b) => match media.mime_type {
            Some(m) => Ok(
                view_insert(
                    view_insert(content, "type"@, JsonView::Str(mt)),
                    mt + "_url"@,
                    JsonView::Object(
                        seq![("url"@, JsonView::Str("data:"@ + m@ + ";base64,"@ + b@))],
                    ),
                ),
            ),
            None => Err(missing_mime_message()),
        },
        BamlMediaContent::File(_) => Err(unresolved_file_message()),
    }
}

/// The contents of an object result.
pub open spec fn object_result_view(r: Result<Vec<(String, Json)>, String>) -> Result<
    Seq<(Seq<char>, JsonView)>,
    Seq<char>,
> {
    match r {
        Ok(o) => Ok(entries_view(o@)),
        Err(e) => Err(e@),
    }
}

/// The JSON of one message part, in a fresh object.
pub open spec fn spec_part_json(p: ChatMessagePart) -> Result<JsonView, Seq<char>> {
    match p {
        ChatMessagePart::Text(t) => Ok(JsonView::Object(spec_text_message(seq![], t@))),
        ChatMessagePart::Media(m) => match spec_media_message(seq![], m) {
            Ok(o) => Ok(JsonView::Object(o)),
            Err(e) => Err(e),
        },
    }
}

/// The JSON of each part, or the error of the first part that fails.
pub open spec fn spec_parts_json(ps: Seq<ChatMessagePart>) -> Result<Seq<JsonView>, Seq<char>>
    decreases ps.len(),
{
    if ps.len() == 0 {
        Ok(seq![])
    } else {
        match spec_parts_json(ps.drop_last()) {
            Err(e) => Err(e),
            Ok(v) => match spec_part_json(ps.last()) {
                Err(e) => Err(e),
                Ok(j) => Ok(v.push(j)),
            },
        }
    }
}

/// The JSON object of a chat message: `"role"` and the parts as `"content"`.
pub open spec fn spec_role_message(m: RenderedChatMessage) -> Result<Seq<(Seq<char>, JsonView)>, Seq<char>> {
    match spec_parts_json(m.parts@) {
        Ok(ps) => Ok(
            view_insert(
                view_insert(seq![], "role"@, JsonView::Str(m.role@)),
                "content"@,
                JsonView::Array(ps),
            ),
        ),
        Err(e) => Err(e),
    }
}

/// The JSON object of each message, or the first error.
pub open spec fn spec_messages_json(ms: Seq<RenderedChatMessage>) -> Result<Seq<JsonView>, Seq<char>>
    decreases ms.len(),
{
    if ms.len() == 0 {
        Ok(seq![])
    } else {
        match spec_messages_json(ms.drop_last()) {
            Err(e) => Err(e),
            Ok(v) => match spec_role_message(ms.last()) {
                Err(e) => Err(e),
                Ok(o) => Ok(v.push(JsonView::Object(o))),
            },
        }
    }
}

/// The body fields of a chat: `"messages"` with each message's object.
pub open spec fn spec_chat_message(ms: Seq<RenderedChatMessage>) -> Result<Seq<(Seq<char>, JsonView)>, Seq<char>> {
    match spec_messages_json(ms) {
        Ok(v) => Ok(view_insert(seq![], "messages"@, JsonView::Array(v))),
        Err(e) => Err(e),
    }
}

/// Sets `key` to a string value.
fn set_str(o: &mut Vec<(String, Json)>, key: &str, value: String)
    requires
        keys_sorted(old(o)@),
    ensures
        keys_sorted(final(o)@),
        entries_view(final(o)@) == view_insert(entries_view(old(o)@), key@, JsonView::Str(value@)),
{
    object_insert(o, key.to_owned(), Json::Str(value));
}

/// An object holding the single entry `key: value`.
fn single_entry(key: &str, value: Json) -> (res: Vec<(String, Json)>)
    ensures
        keys_sorted(res@),
        entries_view(res@) == seq![(key@, jview(value))],
{
    let mut o: Vec<(String, Json)> = Vec::new();
    let ghost v = jview(value);
    o.push((key.to_owned(), value));
    assert(entries_view(o@) =~= seq![(key@, v)]);
    o
}

impl OpenAIClient {
    /// Adds a text part to a message object: `"type": "text"`, `"text": text`.
    pub fn to_chat_message(&self, content: Vec<(String, Json)>, text: &str) -> (res: Result<
        Vec<(String, Json)>,
        String,
    >)
        requires
            keys_sorted(content@),
        ensures
            res matches Ok(o) && keys_sorted(o@),
            object_result_view(res) == Ok::<_, Seq<char>>(spec_text_message(entries_view(content@), text@)),
    {
        let mut content = content;
        set_str(&mut content, "type", "text".to_owned());
        set_str(&mut content, "text", text.to_owned());
        Ok(content)
    }

    /// Adds a media part to a message object (see `spec_media_message`).
    pub fn to_media_message(&self, content: Vec<(String, Json)>, media: &BamlMedia) -> (res: Result<
        Vec<(String, Json)>,
        String,
    >)
        requires
            keys_sorted(content@),
        ensures
            res matches Ok(o) ==> keys_sorted(o@),
            object_result_view(res) == spec_media_message(entries_view(content@), *media),
    {
        let mut content = content;
        let mut media_type = match media.media_type {
            BamlMediaType::Image => "image".to_owned(),
            BamlMediaType::Audio => "audio".to_owned(),
        };
        media_type.append("_url");
        match &media.content {
            BamlMediaContent::Url(url) => {
                set_str(&mut content, "type", media_type.clone());
                let inner = single_entry("url", Json::Str(url.clone()));
                let ghost iv = entries_view(inner@);
                object_insert(&mut content, media_type, Json::Object(inner));
                proof {
                    lemma_jview_object(inner);
                }
                Ok(content)
            },
            BamlMediaContent::Base64(b64) => {
                set_str(&mut content, "type", media_type.clone());
                match &media.mime_type {
                    Some(mime) => {
                        let mut data = "data:".to_owned();
                        data.append(mime.as_str());
                        data.append(";base64,");
                        data.append(b64.as_str());
                        let inner = single_entry("url", Json::Str(data));
                        let mut key = media_type;
                        key.append("_url");
                        object_insert(&mut content, key, Json::Object(inner));
                        proof {
                            lemma_jview_object(inner);
                        }
                        Ok(content)
                    },
                    None => Err("Media mime type is not set".to_owned()),
                }
            },
            BamlMediaContent::File(_) => Err(
                "BAML internal error (openai): file should have been resolved to base64".to_owned(),
            ),
        }
    }

    /// The JSON of each part in a fresh object; the first failing part's
    /// error otherwise.
    pub fn parts_to_message(&self, parts: &Vec<ChatMessagePart>) -> (res: Result<Vec<Json>, String>)
        ensures
            match res {
                Ok(v) => spec_parts_json(parts@) == Ok::<_, Seq<char>>(items_view(v@)),
                Err(e) => spec_parts_json(parts@) == Err::<Seq<JsonView>, _>(e@),
            },
    {
        let mut out: Vec<Json> = Vec::new();
        let n = parts.len();
        assert(parts@.take(0) =~= seq![]);
        assert(items_view(out@) =~= seq![]);
        for i in 0..n
            invariant
                n == parts@.len(),
                spec_parts_json(parts@.take(i as int)) == Ok::<_, Seq<char>>(items_view(out@)),
        {
            let ghost prev = out@;
            assert(parts@.take(i + 1).drop_last() =~= parts@.take(i as int));
            assert(parts@.take(i + 1).last() == parts@[i as int]);
            match &parts[i] {
                ChatMessagePart::Text(t) => {
                    let empty: Vec<(String, Json)> = Vec::new();
                    assert(entries_view(empty@) =~= seq![]);
                    let o = self.to_chat_message(empty, t.as_str());
                    match o {
                        Ok(o) => {
                            let ghost ov = entries_view(o@);
                            proof {
                                lemma_jview_object(o);
                            }
                            out.push(Json::Object(o));
                            assert(items_view(out@) =~= items_view(prev).push(JsonView::Object(ov)));
                        },
                        Err(e) => {
                            return Err(e);
                        },
                    }
                },
                ChatMessagePart::Media(m) => {
                    let empty: Vec<(String, Json)> = Vec::new();
                    assert(entries_view(empty@) =~= seq![]);
                    let o = self.to_media_message(empty, m);
                    match o {
                        Ok(o) => {
                            let ghost ov = entries_view(o@);
                            proof {
                                lemma_jview_object(o);
                            }
                            out.push(Json::Object(o));
                            assert(items_view(out@) =~= items_view(prev).push(JsonView::Object(ov)));
                        },
                        Err(e) => {
                            assert(spec_parts_json(parts@.take(i + 1)) == Err::<Seq<JsonView>, _>(e@));
                            proof {
                                lemma_parts_json_prefix_err(parts@, i as int + 1);
                            }
                            return Err(e);
                        },
                    }
                },
            }
        }
        assert(parts@.take(n as int) =~= parts@);
        Ok(out)
    }

    /// The JSON object of a chat message: `"role"` and the parts' JSON as
    /// `"content"`.
    pub fn role_to_message(&self, content: &RenderedChatMessage) -> (res: Result<Vec<(String, Json)>, String>)
        ensures
            res matches Ok(o) ==> keys_sorted(o@),
            object_result_view(res) == spec_role_message(*content),
    {
        let parts = self.parts_to_message(&content.parts);
        match parts {
            Ok(parts) => {
                let mut message: Vec<(String, Json)> = Vec::new();
                assert(entries_view(message@) =~= seq![]);
                set_str(&mut message, "role", content.role.clone());
                let ghost pv = items_view(parts@);
                object_insert(&mut message, "content".to_owned(), Json::Array(parts));
                proof {
                    lemma_jview_array(parts);
                }
                Ok(message)
            },
            Err(e) => Err(e),
        }
    }

    /// The body fields for a chat: `"messages"` with each message's object.
    pub fn chat_to_message(&self, chat: &Vec<RenderedChatMessage>) -> (res: Result<Vec<(String, Json)>, String>)
        ensures
            res matches Ok(o) ==> keys_sorted(o@),
            object_result_view(res) == spec_chat_message(chat@),
    {
        let mut msgs: Vec<Json> = Vec::new();
        let n = chat.len();
        assert(chat@.take(0) =~= seq![]);
        assert(items_view(msgs@) =~= seq![]);
        for i in 0..n
            invariant
                n == chat@.len(),
                spec_messages_json(chat@.take(i as int)) == Ok::<_, Seq<char>>(items_view(msgs@)),
        {
            let ghost prev = msgs@;
            assert(chat@.take(i + 1).drop_last() =~= chat@.take(i as int));
            assert(chat@.take(i + 1).last() == chat@[i as int]);
            match self.role_to_message(&chat[i]) {
                Ok(o) => {
                    let ghost ov = entries_view(o@);
                    proof {
                        lemma_jview_object(o);
                    }
                    msgs.push(Json::Object(o));
                    assert(items_view(msgs@) =~= items_view(prev).push(JsonView::Object(ov)));
                },
                Err(e) => {
                    proof {
                        lemma_messages_json_prefix_err(chat@, i as int + 1);
                    }
                    return Err(e);
                },
            }
        }
        assert(chat@.take(n as int) =~= chat@);
        let mut res: Vec<(String, Json)> = Vec::new();
        assert(entries_view(res@) =~= seq![]);
        let ghost mv = items_view(msgs@);
        object_insert(&mut res, "messages".to_owned(), Json::Array(msgs));
        proof {
            lemma_jview_array(msgs);
        }
        Ok(res)
    }
}

/// An error in a prefix of the parts is the error of all the parts.
proof fn lemma_parts_json_prefix_err(ps: Seq<ChatMessagePart>, k: int)
    requires
        0 <= k <= ps.len(),
        spec_parts_json(ps.take(k)) is Err,
    ensures
        spec_parts_json(ps) == spec_parts_json(ps.take(k)),
    decreases ps.len() - k,
{
    if k < ps.len() {
        assert(ps.take(k + 1).drop_last() =~= ps.take(k));
        lemma_parts_json_prefix_err(ps, k + 1);
    } else {
        assert(ps.take(k) =~= ps);
    }
}

/// An error in a prefix of the messages is the error of all the messages.
proof fn lemma_messages_json_prefix_err(ms: Seq<RenderedChatMessage>, k: int)
    requires
        0 <= k <= ms.len(),
        spec_messages_json(ms.take(k)) is Err,
    ensures
        spec_messages_json(ms) == spec_messages_json(ms.take(k)),
    decreases ms.len() - k,
{
    if k < ms.len() {
        assert(ms.take(k + 1).drop_last() =~= ms.take(k));
        lemma_messages_json_prefix_err(ms, k + 1);
    } else {
        assert(ms.take(k) =~= ms);
    }
}

} // verus!
