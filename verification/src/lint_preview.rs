//! The lint pass's output: implementation previews of each function, the
//! JSON of the schema preview and the diagnostics document.
use vstd::prelude::*;

use crate::json::{lemma_items_view_push, empty_object, entries_view, items_view, jview, keys_sorted, obj_set, obj_set_array, obj_set_object, view_insert, Json, JsonView};
use crate::lint::{apply_replacers, choose_client, clone_span, find_client, is_string_span, spec_apply_replacers, spec_find_client, FunctionDecl, ImplClient, PromptAst, Schema, Span, StringSpan, TestCaseDecl, VariantDecl};
use crate::prompt::{clone_opt_string, ChatMessagePart, RenderedChatMessage};
use crate::text::str_eq;

verus! {

// ---------------------------------------------------------------------------
// Implementation previews
// ---------------------------------------------------------------------------

/// The preview of a prompt.
#[derive(Debug)]
pub enum PromptPreview {
    Completion { completion: String, test_case: Option<String> },
    Chat { chat: Vec<RenderedChatMessage>, test_case: Option<String> },
    Error { error: String, test_case: Option<String> },
}

/// The preview of one implementation of a function.
#[derive(Debug)]
pub struct Impl {
    pub name: StringSpan,
    pub prompt_key: Span,
    pub prompt: PromptPreview,
    pub client: ImplClient,
    pub client_list: Vec<String>,
    pub input_replacers: Vec<(String, String)>,
    pub output_replacers: Vec<(String, String)>,
}

/// The role of a chat part: its own, or `system`.
pub open spec fn part_role(role: Option<String>) -> Seq<char> {
    match role {
        Some(r) => r@,
        None => "system"@,
    }
}

/// `m` is the chat message of a prompt part: the part's role (or `system`)
/// and one text part, the part's text with the replacers applied.
pub open spec fn is_part_message(m: RenderedChatMessage, part: (Option<String>, String), v: VariantDecl) -> bool {
    &&& m.role@ == part_role(part.0)
    &&& m.parts@.len() == 1
    &&& m.parts@[0] matches ChatMessagePart::Text(t) && t@ == spec_apply_replacers(v.replacers, part.1@)
}

/// `p` previews the prompt of `v`: a completion of the text with the
/// replacers applied, or a chat of its parts; never with a test case.
pub open spec fn is_prompt_preview(p: PromptPreview, v: VariantDecl) -> bool {
    match v.prompt {
        PromptAst::Text(c) => p matches PromptPreview::Completion { completion, test_case } && completion@
            == spec_apply_replacers(v.replacers, c@) && test_case is None,
        PromptAst::Chat(parts) => p matches PromptPreview::Chat { chat, test_case } && test_case is None
            && chat@.len() == parts@.len() && forall|i: int|
            0 <= i < parts@.len() ==> #[trigger] is_part_message(chat@[i], parts@[i], v),
    }
}

/// `c` is the client of `v`'s preview: the declared client it names, or,
/// when no client has that name, the name itself with no provider or model.
pub open spec fn is_variant_client(c: ImplClient, schema: Schema, v: VariantDecl) -> bool {
    match spec_find_client(schema.clients@, v.client_name@) {
        Some(ci) => {
            let d = schema.clients@[ci];
            &&& is_string_span(c.identifier, d.name@, d.span)
            &&& c.provider == d.provider
            &&& c.model == d.model
        },
        None => {
            &&& is_string_span(c.identifier, v.client_name@, v.client_span)
            &&& c.provider@ == Seq::<char>::empty()
            &&& c.model is None
        },
    }
}

/// `i` previews the implementation `v`.
pub open spec fn is_variant_preview(i: Impl, schema: Schema, v: VariantDecl) -> bool {
    &&& is_string_span(i.name, v.name@, v.span)
    &&& i.prompt_key == v.prompt_key_span
    &&& is_prompt_preview(i.prompt, v)
    &&& is_variant_client(i.client, schema, v)
    &&& i.client_list@.len() == 0
    &&& i.input_replacers@.len() == 0
    &&& i.output_replacers@.len() == 0
}

fn preview_variant(schema: &Schema, v: &VariantDecl) -> (res: Impl)
    ensures
        is_variant_preview(res, *schema, *v),
{
    let prompt = match &v.prompt {
        PromptAst::Text(c) => PromptPreview::Completion {
            completion: apply_replacers(&v.replacers, c.clone()),
            test_case: None,
        },
        PromptAst::Chat(parts) => {
            let mut chat: Vec<RenderedChatMessage> = Vec::new();
            let n = parts.len();
            for i in 0..n
                invariant
                    n == parts@.len(),
                    v.prompt == PromptAst::Chat(*parts),
                    chat@.len() == i,
                    forall|k: int| 0 <= k < i ==> #[trigger] is_part_message(chat@[k], parts@[k], *v),
            {
                let role = match &parts[i].0 {
                    Some(r) => r.clone(),
                    None => "system".to_owned(),
                };
                let text = apply_replacers(&v.replacers, parts[i].1.clone());
                let mut msg_parts: Vec<ChatMessagePart> = Vec::new();
                msg_parts.push(ChatMessagePart::Text(text));
                chat.push(RenderedChatMessage { role, parts: msg_parts });
            }
            PromptPreview::Chat { chat, test_case: None }
        },
    };
    let client = match find_client(&schema.clients, v.client_name.as_str()) {
        Some(ci) => {
            let c = &schema.clients[ci];
            ImplClient {
                identifier: StringSpan::new(c.name.as_str(), &c.span),
                provider: c.provider.clone(),
                model: clone_opt_string(&c.model),
            }
        },
        None => ImplClient {
            identifier: StringSpan::new(v.client_name.as_str(), &v.client_span),
            provider: String::new(),
            model: None,
        },
    };
    proof {
        match spec_find_client(schema.clients@, v.client_name@) {
            Some(ci) => {},
            None => {},
        }
    }
    Impl {
        name: StringSpan::new(v.name.as_str(), &v.span),
        prompt_key: clone_span(&v.prompt_key_span),
        prompt,
        client,
        client_list: Vec::new(),
        input_replacers: Vec::new(),
        output_replacers: Vec::new(),
    }
}

/// The index of the test a preview renders: the test named `name` if
/// there is one, else the first test.
pub open spec fn spec_select_test(tests: Seq<TestCaseDecl>, name: Option<String>) -> Option<int> {
    let named = match name {
        Some(n) => if exists|i: int| 0 <= i < tests.len() && tests[i].name@ == n@ {
            Some(
                choose|i: int|
                    0 <= i < tests.len() && tests[i].name@ == n@ && forall|k: int|
                        0 <= k < i ==> tests[k].name@ != n@,
            )
        } else {
            None
        },
        None => None,
    };
    match named {
        Some(i) => Some(i),
        None => if tests.len() > 0 {
            Some(0)
        } else {
            None
        },
    }
}

/// Picks the test a preview renders (see `spec_select_test`).
pub fn select_test(func: &FunctionDecl, name: Option<&String>) -> (res: Option<usize>)
    ensures
        res == match spec_select_test(func.tests@, match name { Some(n) => Some(*n), None => None }) {
            Some(i) => Some(i as usize),
            None => None::<usize>,
        },
{
    match name {
        Some(n) => {
            let len = func.tests.len();
            for i in 0..len
                invariant
                    len == func.tests@.len(),
                    name == Some(n),
                    forall|k: int| 0 <= k < i ==> func.tests@[k].name@ != n@,
            {
                if str_eq(func.tests[i].name.as_str(), n.as_str()) {
                    proof {
                        let ts = func.tests@;
                        assert(exists|j: int| 0 <= j < ts.len() && ts[j].name@ == n@);
                        let c = choose|j: int|
                            0 <= j < ts.len() && ts[j].name@ == n@ && forall|k: int|
                                0 <= k < j ==> ts[k].name@ != n@;
                        assert(0 <= i < ts.len() && ts[i as int].name@ == n@ && forall|k: int|
                            0 <= k < i ==> ts[k].name@ != n@);
                        assert(c == i as int);
                    }
                    return Some(i);
                }
            }
        },
        None => {},
    }
    if func.tests.len() > 0 {
        Some(0)
    } else {
        None
    }
}

/// The implementation previews of a function: one per implementation for an
/// old-style function, none for a new-style one (whose prompt must be
/// present).
pub fn serialize_impls(schema: &Schema, func: &FunctionDecl, selected_test_name: Option<&String>) -> (res: Vec<Impl>)
    requires
        !func.is_old ==> func.has_prompt,
    ensures
        func.is_old ==> res@.len() == func.variants@.len() && forall|i: int|
            0 <= i < func.variants@.len() ==> #[trigger] is_variant_preview(res@[i], *schema, func.variants@[i]),
        !func.is_old ==> res@.len() == 0,
{
    if func.is_old {
        let mut out: Vec<Impl> = Vec::new();
        let n = func.variants.len();
        for i in 0..n
            invariant
                n == func.variants@.len(),
                out@.len() == i,
                forall|k: int| 0 <= k < i ==> #[trigger] is_variant_preview(out@[k], *schema, func.variants@[k]),
        {
            out.push(preview_variant(schema, &func.variants[i]));
        }
        out
    } else {
        // The client and test are resolved for rendering, which produces no
        // preview.
        let _client = choose_client(schema, func, None);
        let _test = select_test(func, selected_test_name);
        Vec::new()
    }
}

// ---------------------------------------------------------------------------
// JSON of the preview
// ---------------------------------------------------------------------------

/// `{"start", "end", "source_file"}` of a span.
pub open spec fn span_fields(s: Span) -> Seq<(Seq<char>, JsonView)> {
    view_insert(
        view_insert(
            view_insert(seq![], "start"@, JsonView::Num(s.start as u64)),
            "end"@,
            JsonView::Num(s.end as u64),
        ),
        "source_file"@,
        JsonView::Str(s.source_file@),
    )
}

/// The JSON of a span.
pub fn span_to_json(s: &Span) -> (res: Vec<(String, Json)>)
    ensures
        keys_sorted(res@),
        entries_view(res@) == span_fields(*s),
{
    let mut o = empty_object();
    obj_set(&mut o, "start", Json::Num(s.start as u64));
    obj_set(&mut o, "end", Json::Num(s.end as u64));
    obj_set(&mut o, "source_file", Json::Str(s.source_file.clone()));
    o
}

/// `{"value", "start", "end", "source_file"}` of a string span.
pub open spec fn string_span_fields(s: StringSpan) -> Seq<(Seq<char>, JsonView)> {
    view_insert(
        view_insert(
            view_insert(
                view_insert(seq![], "value"@, JsonView::Str(s.value@)),
                "start"@,
                JsonView::Num(s.start as u64),
            ),
            "end"@,
            JsonView::Num(s.end as u64),
        ),
        "source_file"@,
        JsonView::Str(s.source_file@),
    )
}

/// The JSON of a string span.
pub fn string_span_to_json(s: &StringSpan) -> (res: Vec<(String, Json)>)
    ensures
        keys_sorted(res@),
        entries_view(res@) == string_span_fields(*s),
{
    let mut o = empty_object();
    obj_set(&mut o, "value", Json::Str(s.value.clone()));
    obj_set(&mut o, "start", Json::Num(s.start as u64));
    obj_set(&mut o, "end", Json::Num(s.end as u64));
    obj_set(&mut o, "source_file", Json::Str(s.source_file.clone()));
    o
}

/// A string, or `null`.
pub open spec fn opt_str_view(s: Option<String>) -> JsonView {
    match s {
        Some(t) => JsonView::Str(t@),
        None => JsonView::Null,
    }
}

fn opt_str_json(s: &Option<String>) -> (res: Json)
    ensures
        jview(res) == opt_str_view(*s),
{
    match s {
        Some(t) => Json::Str(t.clone()),
        None => Json::Null,
    }
}

/// `{"identifier", "provider", "model"}` of an implementation's client.
pub open spec fn impl_client_fields(c: ImplClient) -> Seq<(Seq<char>, JsonView)> {
    view_insert(
        view_insert(
            view_insert(seq![], "identifier"@, JsonView::Object(string_span_fields(c.identifier))),
            "provider"@,
            JsonView::Str(c.provider@),
        ),
        "model"@,
        opt_str_view(c.model),
    )
}

fn impl_client_to_json(c: &ImplClient) -> (res: Vec<(String, Json)>)
    ensures
        keys_sorted(res@),
        entries_view(res@) == impl_client_fields(*c),
{
    let mut o = empty_object();
    obj_set_object(&mut o, "identifier", string_span_to_json(&c.identifier));
    obj_set(&mut o, "provider", Json::Str(c.provider.clone()));
    obj_set(&mut o, "model", opt_str_json(&c.model));
    o
}

/// The JSON of a text message part: `{"Text": text}`.
pub open spec fn text_part_view(t: Seq<char>) -> JsonView {
    JsonView::Object(seq![("Text"@, JsonView::Str(t))])
}

/// The parts of a message are all text.
pub open spec fn all_text(parts: Seq<ChatMessagePart>) -> bool {
    forall|i: int| 0 <= i < parts.len() ==> #[trigger] parts[i] is Text
}

/// The JSON of text parts.
pub open spec fn text_parts_view(parts: Seq<ChatMessagePart>) -> Seq<JsonView> {
    Seq::new(
        parts.len(),
        |i: int|
            match parts[i] {
                ChatMessagePart::Text(t) => text_part_view(t@),
                ChatMessagePart::Media(_) => JsonView::Null,
            },
    )
}

/// `{"role", "parts"}` of a chat message with text parts.
pub open spec fn message_fields(m: RenderedChatMessage) -> Seq<(Seq<char>, JsonView)> {
    view_insert(
        view_insert(seq![], "role"@, JsonView::Str(m.role@)),
        "parts"@,
        JsonView::Array(text_parts_view(m.parts@)),
    )
}

fn message_to_json(m: &RenderedChatMessage) -> (res: Vec<(String, Json)>)
    requires
        all_text(m.parts@),
    ensures
        keys_sorted(res@),
        entries_view(res@) == message_fields(*m),
{
    let mut parts: Vec<Json> = Vec::new();
    let n = m.parts.len();
    for i in 0..n
        invariant
            n == m.parts@.len(),
            all_text(m.parts@),
            items_view(parts@) == text_parts_view(m.parts@).take(i as int),
    {
        let ghost prev = parts@;
        match &m.parts[i] {
            ChatMessagePart::Text(t) => {
                let mut po = empty_object();
                obj_set(&mut po, "Text", Json::Str(t.clone()));
                assert(entries_view(po@) =~= seq![("Text"@, JsonView::Str(t@))]);
                proof {
                    crate::json::lemma_jview_object(po);
                }
                proof {
                    lemma_items_view_push(prev, Json::Object(po));
                }
                parts.push(Json::Object(po));
                assert(text_parts_view(m.parts@).take(i + 1) =~= text_parts_view(m.parts@).take(i as int).push(
                    text_part_view(t@),
                ));
            },
            ChatMessagePart::Media(_) => {
                assert(m.parts@[i as int] is Text);
            },
        }
    }
    assert(text_parts_view(m.parts@).take(n as int) =~= text_parts_view(m.parts@));
    let mut o = empty_object();
    obj_set(&mut o, "role", Json::Str(m.role.clone()));
    obj_set_array(&mut o, "parts", parts);
    o
}

/// Every chat message of a preview has only text parts.
pub open spec fn preview_text_only(p: PromptPreview) -> bool {
    match p {
        PromptPreview::Chat { chat, .. } => forall|i: int|
            0 <= i < chat@.len() ==> all_text(#[trigger] chat@[i].parts@),
        _ => true,
    }
}

/// The JSON of a prompt preview: `"type"` names the variant (`Completion`,
/// `Chat` or `Error`), next to the variant's fields.
pub open spec fn prompt_preview_fields(p: PromptPreview) -> Seq<(Seq<char>, JsonView)> {
    match p {
        PromptPreview::Completion { completion, test_case } => view_insert(
            view_insert(
                view_insert(seq![], "type"@, JsonView::Str("Completion"@)),
                "completion"@,
                JsonView::Str(completion@),
            ),
            "test_case"@,
            opt_str_view(test_case),
        ),
        PromptPreview::Chat { chat, test_case } => view_insert(
            view_insert(
                view_insert(seq![], "type"@, JsonView::Str("Chat"@)),
                "chat"@,
                JsonView::Array(
                    Seq::new(chat@.len(), |i: int| JsonView::Object(message_fields(chat@[i]))),
                ),
            ),
            "test_case"@,
            opt_str_view(test_case),
        ),
        PromptPreview::Error { error, test_case } => view_insert(
            view_insert(
                view_insert(seq![], "type"@, JsonView::Str("Error"@)),
                "error"@,
                JsonView::Str(error@),
            ),
            "test_case"@,
            opt_str_view(test_case),
        ),
    }
}

fn prompt_preview_to_json(p: &PromptPreview) -> (res: Vec<(String, Json)>)
    requires
        preview_text_only(*p),
    ensures
        keys_sorted(res@),
        entries_view(res@) == prompt_preview_fields(*p),
{
    let mut o = empty_object();
    match p {
        PromptPreview::Completion { completion, test_case } => {
            obj_set(&mut o, "type", Json::Str("Completion".to_owned()));
            obj_set(&mut o, "completion", Json::Str(completion.clone()));
            obj_set(&mut o, "test_case", opt_str_json(test_case));
        },
        PromptPreview::Chat { chat, test_case } => {
            obj_set(&mut o, "type", Json::Str("Chat".to_owned()));
            let mut msgs: Vec<Json> = Vec::new();
            let n = chat.len();
            for i in 0..n
                invariant
                    n == chat@.len(),
                    forall|k: int| 0 <= k < n ==> all_text(#[trigger] chat@[k].parts@),
                    items_view(msgs@) == Seq::new(
                        chat@.len(),
                        |k: int| JsonView::Object(message_fields(chat@[k])),
                    ).take(i as int),
            {
                let mo = message_to_json(&chat[i]);
                let ghost prev = msgs@;
                proof {
                    crate::json::lemma_jview_object(mo);
                    lemma_items_view_push(prev, Json::Object(mo));
                }
                msgs.push(Json::Object(mo));
                assert(Seq::new(chat@.len(), |k: int| JsonView::Object(message_fields(chat@[k]))).take(
                    i + 1,
                ) =~= Seq::new(chat@.len(), |k: int| JsonView::Object(message_fields(chat@[k]))).take(
                    i as int,
                ).push(JsonView::Object(message_fields(chat@[i as int]))));
            }
            assert(Seq::new(chat@.len(), |k: int| JsonView::Object(message_fields(chat@[k]))).take(
                n as int,
            ) =~= Seq::new(chat@.len(), |k: int| JsonView::Object(message_fields(chat@[k]))));
            obj_set_array(&mut o, "chat", msgs);
            obj_set(&mut o, "test_case", opt_str_json(test_case));
        },
        PromptPreview::Error { error, test_case } => {
            obj_set(&mut o, "type", Json::Str("Error".to_owned()));
            obj_set(&mut o, "error", Json::Str(error.clone()));
            obj_set(&mut o, "test_case", opt_str_json(test_case));
        },
    }
    o
}

/// A list of strings as JSON.
pub open spec fn strings_view(v: Seq<String>) -> Seq<JsonView> {
    Seq::new(v.len(), |i: int| JsonView::Str(v[i]@))
}

fn strings_to_json(v: &Vec<String>) -> (res: Vec<Json>)
    ensures
        items_view(res@) == strings_view(v@),
{
    let mut out: Vec<Json> = Vec::new();
    let n = v.len();
    for i in 0..n
        invariant
            n == v@.len(),
            items_view(out@) == strings_view(v@).take(i as int),
    {
        let ghost prev = out@;
        let x = Json::Str(v[i].clone());
        proof {
            lemma_items_view_push(prev, x);
        }
        out.push(x);
        assert(strings_view(v@).take(i + 1) =~= strings_view(v@).take(i as int).push(
            JsonView::Str(v@[i as int]@),
        ));
    }
    assert(strings_view(v@).take(n as int) =~= strings_view(v@));
    out
}

/// A list of string pairs as JSON: each pair is a two-element array.
pub open spec fn pairs_view(v: Seq<(String, String)>) -> Seq<JsonView> {
    Seq::new(v.len(), |i: int| JsonView::Array(seq![JsonView::Str(v[i].0@), JsonView::Str(v[i].1@)]))
}

fn pairs_to_json(v: &Vec<(String, String)>) -> (res: Vec<Json>)
    ensures
        items_view(res@) == pairs_view(v@),
{
    let mut out: Vec<Json> = Vec::new();
    let n = v.len();
    for i in 0..n
        invariant
            n == v@.len(),
            items_view(out@) == pairs_view(v@).take(i as int),
    {
        let mut pair: Vec<Json> = Vec::new();
        pair.push(Json::Str(v[i].0.clone()));
        pair.push(Json::Str(v[i].1.clone()));
        assert(items_view(pair@) =~= seq![JsonView::Str(v@[i as int].0@), JsonView::Str(v@[i as int].1@)]);
        proof {
            crate::json::lemma_jview_array(pair);
        }
        let ghost prev = out@;
        proof {
            lemma_items_view_push(prev, Json::Array(pair));
        }
        out.push(Json::Array(pair));
        assert(pairs_view(v@).take(i + 1) =~= pairs_view(v@).take(i as int).push(
            JsonView::Array(seq![JsonView::Str(v@[i as int].0@), JsonView::Str(v@[i as int].1@)]),
        ));
    }
    assert(pairs_view(v@).take(n as int) =~= pairs_view(v@));
    out
}

/// The JSON of an implementation preview.
pub open spec fn impl_fields(i: Impl) -> Seq<(Seq<char>, JsonView)> {
    let a = view_insert(seq![], "name"@, JsonView::Object(string_span_fields(i.name)));
    let b = view_insert(a, "prompt_key"@, JsonView::Object(span_fields(i.prompt_key)));
    let c = view_insert(b, "prompt"@, JsonView::Object(prompt_preview_fields(i.prompt)));
    let d = view_insert(c, "client"@, JsonView::Object(impl_client_fields(i.client)));
    let e = view_insert(d, "client_list"@, JsonView::Array(strings_view(i.client_list@)));
    let f = view_insert(e, "input_replacers"@, JsonView::Array(pairs_view(i.input_replacers@)));
    view_insert(f, "output_replacers"@, JsonView::Array(pairs_view(i.output_replacers@)))
}

/// The JSON of an implementation preview.
pub fn impl_to_json(i: &Impl) -> (res: Vec<(String, Json)>)
    requires
        preview_text_only(i.prompt),
    ensures
        keys_sorted(res@),
        entries_view(res@) == impl_fields(*i),
{
    let mut o = empty_object();
    obj_set_object(&mut o, "name", string_span_to_json(&i.name));
    obj_set_object(&mut o, "prompt_key", span_to_json(&i.prompt_key));
    obj_set_object(&mut o, "prompt", prompt_preview_to_json(&i.prompt));
    obj_set_object(&mut o, "client", impl_client_to_json(&i.client));
    obj_set_array(&mut o, "client_list", strings_to_json(&i.client_list));
    obj_set_array(&mut o, "input_replacers", pairs_to_json(&i.input_replacers));
    obj_set_array(&mut o, "output_replacers", pairs_to_json(&i.output_replacers));
    o
}

} // verus!
