//! Rendered prompts and chat messages, as the LLM clients receive them, with
//! clones that provably keep their contents.
use vstd::prelude::*;

verus! {

/// The kind of a media attachment.
#[derive(Clone, Copy, PartialEq, Eq, Structural, Debug)]
pub enum BamlMediaType {
    Image,
    Audio,
}

/// Where a media attachment's bytes are.
#[derive(Debug)]
pub enum BamlMediaContent {
    /// A URL to the media.
    Url(String),
    /// The media's bytes, base64-encoded.
    Base64(String),
    /// A local file path, to be resolved before sending.
    File(String),
}

/// A media attachment of a chat message.
#[derive(Debug)]
pub struct BamlMedia {
    pub media_type: BamlMediaType,
    pub mime_type: Option<String>,
    pub content: BamlMediaContent,
}

/// One part of a rendered chat message.
#[derive(Debug)]
pub enum ChatMessagePart {
    Text(String),
    Media(BamlMedia),
}

/// A rendered chat message: a role and its parts.
#[derive(Debug)]
pub struct RenderedChatMessage {
    pub role: String,
    pub parts: Vec<ChatMessagePart>,
}

/// A rendered prompt: plain completion text or a list of chat messages.
#[derive(Debug)]
pub enum RenderedPrompt {
    Completion(String),
    Chat(Vec<RenderedChatMessage>),
}

/// The client that a prompt is rendered for.
#[derive(Debug)]
pub struct RenderContextClient {
    pub name: String,
    pub provider: String,
    pub default_role: String,
}

/// Options for rendering chat prompts.
#[derive(Debug)]
pub struct ChatOptions {
    pub default_role: String,
    pub valid_roles: Option<Vec<String>>,
}

impl View for RenderedChatMessage {
    type V = (Seq<char>, Seq<ChatMessagePart>);

    open spec fn view(&self) -> (Seq<char>, Seq<ChatMessagePart>) {
        (self.role@, self.parts@)
    }
}

/// The contents of a rendered prompt.
pub enum PromptView {
    Completion(Seq<char>),
    Chat(Seq<(Seq<char>, Seq<ChatMessagePart>)>),
}

/// The views of a list of chat messages.
pub open spec fn messages_view(m: Seq<RenderedChatMessage>) -> Seq<(Seq<char>, Seq<ChatMessagePart>)> {
    m.map_values(|x: RenderedChatMessage| x@)
}

impl View for RenderedPrompt {
    type V = PromptView;

    open spec fn view(&self) -> PromptView {
        match self {
            RenderedPrompt::Completion(s) => PromptView::Completion(s@),
            RenderedPrompt::Chat(m) => PromptView::Chat(messages_view(m@)),
        }
    }
}

/// A copy of an optional string.
pub fn clone_opt_string(s: &Option<String>) -> (res: Option<String>)
    ensures
        res == *s,
{
    match s {
        Some(t) => Some(t.clone()),
        None => None,
    }
}

/// A copy of a media attachment.
pub fn clone_media(m: &BamlMedia) -> (res: BamlMedia)
    ensures
        res == *m,
{
    BamlMedia {
        media_type: m.media_type,
        mime_type: clone_opt_string(&m.mime_type),
        content: match &m.content {
            BamlMediaContent::Url(u) => BamlMediaContent::Url(u.clone()),
            BamlMediaContent::Base64(b) => BamlMediaContent::Base64(b.clone()),
            BamlMediaContent::File(f) => BamlMediaContent::File(f.clone()),
        },
    }
}

/// A copy of a message part.
pub fn clone_part(p: &ChatMessagePart) -> (res: ChatMessagePart)
    ensures
        res == *p,
{
    match p {
        ChatMessagePart::Text(t) => ChatMessagePart::Text(t.clone()),
        ChatMessagePart::Media(m) => ChatMessagePart::Media(clone_media(m)),
    }
}

/// A copy of a chat message.
pub fn clone_message(m: &RenderedChatMessage) -> (res: RenderedChatMessage)
    ensures
        res@ == m@,
{
    let mut parts: Vec<ChatMessagePart> = Vec::new();
    let n = m.parts.len();
    for i in 0..n
        invariant
            n == m.parts@.len(),
            parts@ == m.parts@.take(i as int),
    {
        parts.push(clone_part(&m.parts[i]));
        assert(m.parts@.take(i + 1) =~= m.parts@.take(i as int).push(m.parts@[i as int]));
    }
    assert(m.parts@.take(n as int) =~= m.parts@);
    RenderedChatMessage { role: m.role.clone(), parts }
}

/// A copy of a list of chat messages.
pub fn clone_messages(m: &Vec<RenderedChatMessage>) -> (res: Vec<RenderedChatMessage>)
    ensures
        messages_view(res@) == messages_view(m@),
{
    let mut out: Vec<RenderedChatMessage> = Vec::new();
    let n = m.len();
    for i in 0..n
        invariant
            n == m@.len(),
            out@.len() == i,
            forall|k: int| 0 <= k < i ==> #[trigger] out@[k]@ == m@[k]@,
    {
        out.push(clone_message(&m[i]));
    }
    assert(messages_view(out@) =~= messages_view(m@));
    out
}

/// A copy of a rendered prompt.
pub fn clone_prompt(p: &RenderedPrompt) -> (res: RenderedPrompt)
    ensures
        res@ == p@,
{
    match p {
        RenderedPrompt::Completion(s) => RenderedPrompt::Completion(s.clone()),
        RenderedPrompt::Chat(m) => RenderedPrompt::Chat(clone_messages(m)),
    }
}

} // verus!
