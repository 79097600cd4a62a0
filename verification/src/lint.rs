//! The formatter's lint pass: diagnostics of a validated schema and a
//! preview of its functions (their arguments, tests, implementations and
//! clients).
use vstd::prelude::*;

use crate::text::{replace_all, spec_replace, str_eq};

verus! {

/// A span of a source file.
#[derive(Debug)]
pub struct Span {
    pub start: usize,
    pub end: usize,
    /// The path of the source file.
    pub source_file: String,
}

/// A copy of a span.
pub fn clone_span(s: &Span) -> (res: Span)
    ensures
        res == *s,
{
    Span { start: s.start, end: s.end, source_file: s.source_file.clone() }
}

/// A string together with the span it comes from.
#[derive(Debug)]
pub struct StringSpan {
    pub value: String,
    pub start: usize,
    pub end: usize,
    pub source_file: String,
}

/// `ss` holds `value` and the position of `span`.
pub open spec fn is_string_span(ss: StringSpan, value: Seq<char>, span: Span) -> bool {
    &&& ss.value@ == value
    &&& ss.start == span.start
    &&& ss.end == span.end
    &&& ss.source_file == span.source_file
}

impl StringSpan {
    /// `value` at the position of `span`.
    pub fn new(value: &str, span: &Span) -> (res: StringSpan)
        ensures
            is_string_span(res, value@, *span),
    {
        StringSpan {
            value: value.to_owned(),
            start: span.start,
            end: span.end,
            source_file: span.source_file.clone(),
        }
    }
}

/// A diagnostic (warning or error) of the schema.
#[derive(Debug)]
pub struct Diagnostic {
    pub span: Span,
    pub message: String,
}

/// A diagnostic as reported: its position, text and whether it is a warning.
#[derive(Debug)]
pub struct MiniError {
    pub start: usize,
    pub end: usize,
    pub text: String,
    pub is_warning: bool,
    pub source_file: String,
}

/// `e` reports the diagnostic `d`, flagged as a warning or not.
pub open spec fn reports(e: MiniError, d: Diagnostic, is_warning: bool) -> bool {
    &&& e.start == d.span.start
    &&& e.end == d.span.end
    &&& e.text == d.message
    &&& e.is_warning == is_warning
    &&& e.source_file == d.span.source_file
}

fn mini_error(d: &Diagnostic, is_warning: bool) -> (res: MiniError)
    ensures
        reports(res, *d, is_warning),
{
    MiniError {
        start: d.span.start,
        end: d.span.end,
        text: d.message.clone(),
        is_warning,
        source_file: d.span.source_file.clone(),
    }
}

/// The reported diagnostics: every warning (flagged as such), then every
/// error.
pub fn collect_mini_errors(warnings: &Vec<Diagnostic>, errors: &Vec<Diagnostic>) -> (res: Vec<MiniError>)
    ensures
        res@.len() == warnings@.len() + errors@.len(),
        forall|i: int| 0 <= i < warnings@.len() ==> reports(#[trigger] res@[i], warnings@[i], true),
        forall|j: int|
            0 <= j < errors@.len() ==> reports(#[trigger] res@[warnings@.len() + j], errors@[j], false),
{
    let mut out: Vec<MiniError> = Vec::new();
    let w = warnings.len();
    for i in 0..w
        invariant
            w == warnings@.len(),
            out@.len() == i,
            forall|k: int| 0 <= k < i ==> reports(#[trigger] out@[k], warnings@[k], true),
    {
        out.push(mini_error(&warnings[i], true));
    }
    let e = errors.len();
    for j in 0..e
        invariant
            w == warnings@.len(),
            e == errors@.len(),
            out@.len() == w + j,
            forall|k: int| 0 <= k < w ==> reports(#[trigger] out@[k], warnings@[k], true),
            forall|k: int| 0 <= k < j ==> reports(#[trigger] out@[w + k], errors@[k], false),
    {
        out.push(mini_error(&errors[j], false));
        assert(reports(out@[w + j], errors@[j as int], false));
    }
    out
}

// ---------------------------------------------------------------------------
// The validated schema
// ---------------------------------------------------------------------------

/// An enum or class: its name, where it is named, and its JSON schema.
pub struct NamedSchema {
    pub name: String,
    pub span: Span,
    pub json_schema: crate::json::Json,
}

/// A concrete (non-strategy) client.
#[derive(Debug)]
pub struct LeafClient {
    pub name: String,
    pub provider: String,
    pub model: Option<String>,
}

/// A client declaration, with the concrete clients it stands for (itself, or
/// the clients of a strategy).
#[derive(Debug)]
pub struct ClientDecl {
    pub name: String,
    pub span: Span,
    pub provider: String,
    pub model: Option<String>,
    pub flat_clients: Vec<LeafClient>,
}

/// The type of an argument: its text and JSON schema.
pub struct ArgType {
    pub field_type: String,
    pub json_schema: crate::json::Json,
}

/// A named argument.
pub struct NamedArg {
    pub name: String,
    pub span: Span,
    pub arg: ArgType,
}

/// The input or output of a function.
pub enum FunctionArgs {
    Named(Vec<NamedArg>),
    Unnamed(ArgType),
}

/// A test case of a function.
#[derive(Debug)]
pub struct TestCaseDecl {
    pub name: String,
    pub span: Span,
    /// The test's arguments as JSON text.
    pub content: String,
}

/// The prompt of an implementation: a plain string, or chat parts with an
/// optional role each.
#[derive(Debug)]
pub enum PromptAst {
    Text(String),
    Chat(Vec<(Option<String>, String)>),
}

/// Text substitutions of an implementation: each pair is a key and what
/// replaces it.
#[derive(Debug)]
pub struct Replacers {
    pub input: Vec<(String, String)>,
    pub output: Vec<(String, String)>,
}

/// An implementation (variant) of an old-style function.
#[derive(Debug)]
pub struct VariantDecl {
    pub name: String,
    pub span: Span,
    pub prompt_key_span: Span,
    pub prompt: PromptAst,
    pub client_name: String,
    pub client_span: Span,
    pub replacers: Replacers,
}

/// A function of the schema.
pub struct FunctionDecl {
    pub name: String,
    pub span: Span,
    /// Declared with the old `impl<llm, ...>` syntax.
    pub is_old: bool,
    pub input: FunctionArgs,
    pub output: FunctionArgs,
    pub tests: Vec<TestCaseDecl>,
    pub variants: Vec<VariantDecl>,
    /// The client (or strategy) named in the function body, with its span.
    pub client: Option<(String, Span)>,
    /// Whether the function body has a prompt.
    pub has_prompt: bool,
}

/// A validated schema.
pub struct Schema {
    pub enums: Vec<NamedSchema>,
    pub classes: Vec<NamedSchema>,
    pub clients: Vec<ClientDecl>,
    pub old_functions: Vec<FunctionDecl>,
    pub new_functions: Vec<FunctionDecl>,
}

/// The index of the first client declared under `name`.
pub open spec fn spec_find_client(clients: Seq<ClientDecl>, name: Seq<char>) -> Option<int> {
    if exists|i: int| 0 <= i < clients.len() && clients[i].name@ == name {
        Some(
            choose|i: int|
                0 <= i < clients.len() && clients[i].name@ == name && forall|k: int|
                    0 <= k < i ==> clients[k].name@ != name,
        )
    } else {
        None
    }
}

/// Looks up a client declaration by name; the first one declared wins.
pub fn find_client(clients: &Vec<ClientDecl>, name: &str) -> (res: Option<usize>)
    ensures
        match res {
            Some(i) => i < clients@.len() && clients@[i as int].name@ == name@ && forall|k: int|
                0 <= k < i ==> clients@[k].name@ != name@,
            None => forall|k: int| 0 <= k < clients@.len() ==> clients@[k].name@ != name@,
        },
{
    let n = clients.len();
    for i in 0..n
        invariant
            n == clients@.len(),
            forall|k: int| 0 <= k < i ==> clients@[k].name@ != name@,
    {
        if str_eq(clients[i].name.as_str(), name) {
            return Some(i);
        }
    }
    None
}

// ---------------------------------------------------------------------------
// Replacers
// ---------------------------------------------------------------------------

/// `c` after each input replacer in turn: its key becomes `{replacement}`.
pub open spec fn spec_apply_inputs(c: Seq<char>, reps: Seq<(String, String)>) -> Seq<char>
    decreases reps.len(),
{
    if reps.len() == 0 {
        c
    } else {
        spec_replace(
            spec_apply_inputs(c, reps.drop_last()),
            reps.last().0@,
            seq!['{'] + reps.last().1@ + seq!['}'],
        )
    }
}

/// `c` after each output replacer in turn: its key becomes the replacement.
pub open spec fn spec_apply_outputs(c: Seq<char>, reps: Seq<(String, String)>) -> Seq<char>
    decreases reps.len(),
{
    if reps.len() == 0 {
        c
    } else {
        spec_replace(spec_apply_outputs(c, reps.drop_last()), reps.last().0@, reps.last().1@)
    }
}

/// `content` with the input replacers applied, then the output replacers.
pub open spec fn spec_apply_replacers(r: Replacers, content: Seq<char>) -> Seq<char> {
    spec_apply_outputs(spec_apply_inputs(content, r.input@), r.output@)
}

/// Applies an implementation's replacers to a prompt text: every input key
/// becomes `{replacement}`, then every output key its replacement, in the
/// order the replacers are listed.
pub fn apply_replacers(r: &Replacers, content: String) -> (res: String)
    ensures
        res@ == spec_apply_replacers(*r, content@),
{
    let mut content = content;
    let ghost c0 = content@;
    let n = r.input.len();
    assert(r.input@.take(0) =~= seq![]);
    for i in 0..n
        invariant
            n == r.input@.len(),
            content@ == spec_apply_inputs(c0, r.input@.take(i as int)),
    {
        let mut braced = "{".to_owned();
        braced.append(r.input[i].1.as_str());
        braced.append("}");
        assert(braced@ =~= seq!['{'] + r.input@[i as int].1@ + seq!['}']) by {
            reveal_strlit("{");
            reveal_strlit("}");
        }
        content = replace_all(content.as_str(), r.input[i].0.as_str(), braced.as_str());
        assert(r.input@.take(i + 1).drop_last() =~= r.input@.take(i as int));
    }
    assert(r.input@.take(n as int) =~= r.input@);
    let ghost c1 = content@;
    let m = r.output.len();
    assert(r.output@.take(0) =~= seq![]);
    for j in 0..m
        invariant
            m == r.output@.len(),
            content@ == spec_apply_outputs(c1, r.output@.take(j as int)),
    {
        content = replace_all(content.as_str(), r.output[j].0.as_str(), r.output[j].1.as_str());
        assert(r.output@.take(j + 1).drop_last() =~= r.output@.take(j as int));
    }
    assert(r.output@.take(m as int) =~= r.output@);
    content
}

// ---------------------------------------------------------------------------
// Choosing a client
// ---------------------------------------------------------------------------

/// The client of an implementation preview.
#[derive(Debug)]
pub struct ImplClient {
    pub identifier: StringSpan,
    pub provider: String,
    pub model: Option<String>,
}

/// The client that prompts are rendered for.
#[derive(Debug)]
pub struct RenderClient {
    pub name: String,
    pub provider: String,
}

/// Why no client could be chosen.
#[derive(Debug)]
pub enum ChooseClientError {
    /// `function {name} does not have a client`
    NoClient(String),
    /// `client {name} not found`
    ClientNotFound(String),
    /// `failed to resolve client {name}`
    Unresolved(String),
}

/// The index of the first concrete client named `filter`, if any.
pub open spec fn spec_filtered(flat: Seq<LeafClient>, filter: Option<String>) -> Option<int> {
    match filter {
        Some(f) => if exists|i: int| 0 <= i < flat.len() && flat[i].name@ == f@ {
            Some(
                choose|i: int|
                    0 <= i < flat.len() && flat[i].name@ == f@ && forall|k: int|
                        0 <= k < i ==> flat[k].name@ != f@,
            )
        } else {
            None
        },
        None => None,
    }
}

/// The label of a chosen client: its name, or `{name} (via {strategy})` when
/// it was reached through a strategy of another name.
pub open spec fn client_label(chosen: Seq<char>, declared: Seq<char>) -> Seq<char> {
    if chosen == declared {
        chosen
    } else {
        chosen + " (via "@ + declared + ")"@
    }
}

/// Picks the concrete client for a function: among the concrete clients of
/// the client (or strategy) the function names, the first one named
/// `client_filter`, else the first one. Fails when the function names no
/// client, the name is not declared, or it stands for no concrete client.
/// The returned identifier always points at the function's client reference.
pub fn choose_client(schema: &Schema, func: &FunctionDecl, client_filter: Option<String>) -> (res: Result<
    (ImplClient, RenderClient, Vec<String>),
    ChooseClientError,
>)
    ensures
        match func.client {
            None => res matches Err(ChooseClientError::NoClient(m)) && m@ == "function "@ + func.name@
                + " does not have a client"@,
            Some((cname, cspan)) => match spec_find_client(schema.clients@, cname@) {
                None => res matches Err(ChooseClientError::ClientNotFound(m)) && m@ == "client "@
                    + cname@ + " not found"@,
                Some(ci) => {
                    let flat = schema.clients@[ci].flat_clients@;
                    if flat.len() == 0 {
                        res matches Err(ChooseClientError::Unresolved(m)) && m@
                            == "failed to resolve client "@ + cname@
                    } else {
                        let k = match spec_filtered(flat, client_filter) {
                            Some(k) => k,
                            None => 0,
                        };
                        res matches Ok((ic, rc, names)) && {
                            &&& is_string_span(ic.identifier, client_label(flat[k].name@, cname@), cspan)
                            &&& ic.provider == flat[k].provider
                            &&& ic.model == flat[k].model
                            &&& rc.name == flat[k].name
                            &&& rc.provider == flat[k].provider
                            &&& names@.len() == flat.len()
                            &&& forall|i: int| 0 <= i < flat.len() ==> #[trigger] names@[i] == flat[i].name
                        }
                    }
                },
            },
        },
{
    let (cname, cspan) = match &func.client {
        Some(c) => (&c.0, &c.1),
        None => {
            let mut m = "function ".to_owned();
            m.append(func.name.as_str());
            m.append(" does not have a client");
            return Err(ChooseClientError::NoClient(m));
        },
    };
    let ci = match find_client(&schema.clients, cname.as_str()) {
        Some(ci) => ci,
        None => {
            let mut m = "client ".to_owned();
            m.append(cname.as_str());
            m.append(" not found");
            return Err(ChooseClientError::ClientNotFound(m));
        },
    };
    let flat = &schema.clients[ci].flat_clients;
    if flat.len() == 0 {
        let mut m = "failed to resolve client ".to_owned();
        m.append(cname.as_str());
        return Err(ChooseClientError::Unresolved(m));
    }
    let mut k: usize = 0;
    let mut found = false;
    match &client_filter {
        Some(f) => {
            let n = flat.len();
            for i in 0..n
                invariant
                    n == flat@.len(),
                    k < n,
                    !found ==> k == 0,
                    !found ==> forall|j: int| 0 <= j < i ==> flat@[j].name@ != f@,
                    found ==> k < n && flat@[k as int].name@ == f@ && forall|j: int|
                        0 <= j < k ==> flat@[j].name@ != f@,
            {
                if !found && str_eq(flat[i].name.as_str(), f.as_str()) {
                    k = i;
                    found = true;
                }
            }
        },
        None => {},
    }
    proof {
        match client_filter {
            Some(f) => {
                if found {
                    assert(spec_filtered(flat@, client_filter) == Some(k as int));
                } else {
                    assert(spec_filtered(flat@, client_filter) is None);
                }
            },
            None => {},
        }
    }
    let chosen = &flat[k];
    let label = if str_eq(cname.as_str(), chosen.name.as_str()) {
        chosen.name.clone()
    } else {
        let mut l = chosen.name.clone();
        l.append(" (via ");
        l.append(cname.as_str());
        l.append(")");
        l
    };
    let mut names: Vec<String> = Vec::new();
    let n = flat.len();
    for i in 0..n
        invariant
            n == flat@.len(),
            names@.len() == i,
            forall|j: int| 0 <= j < i ==> #[trigger] names@[j] == flat@[j].name,
    {
        names.push(flat[i].name.clone());
    }
    Ok(
        (
            ImplClient {
                identifier: StringSpan::new(label.as_str(), cspan),
                provider: chosen.provider.clone(),
                model: crate::prompt::clone_opt_string(&chosen.model),
            },
            RenderClient { name: chosen.name.clone(), provider: chosen.provider.clone() },
            names,
        ),
    )
}

} // verus!
