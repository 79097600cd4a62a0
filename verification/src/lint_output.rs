//! The lint pass's result: the JSON of each function, of the whole schema
//! preview, and the diagnostics document that is printed.
use vstd::prelude::*;

use crate::json::{
    clone_json, empty_object, entries_view, items_view, json_value_parses, jview, keys_sorted,
    lemma_items_view_push, lemma_jview_object, obj_set, obj_set_array, obj_set_object,
    parse_json_value, parsed_json_value, to_json_string, view_insert, view_text, Json, JsonView,
};
use crate::lint::{
    collect_mini_errors, is_string_span, reports, spec_apply_replacers, spec_find_client, ArgType,
    Diagnostic, FunctionArgs, FunctionDecl, MiniError, NamedArg, NamedSchema, PromptAst, Schema, Span,
    StringSpan, TestCaseDecl, VariantDecl,
};
use crate::lint_preview::{impl_fields, impl_to_json, is_part_message, is_variant_preview, part_role, preview_text_only, serialize_impls, span_fields, string_span_to_json, text_part_view, text_parts_view, Impl, PromptPreview, all_text, message_fields, opt_str_view, strings_view, pairs_view};
use crate::text::str_eq;

verus! {

/// `{"value", "start", "end", "source_file"}` of a name at a span.
pub open spec fn name_fields(value: Seq<char>, span: Span) -> Seq<(Seq<char>, JsonView)> {
    view_insert(
        view_insert(
            view_insert(
                view_insert(seq![], "value"@, JsonView::Str(value)),
                "start"@,
                JsonView::Num(span.start as u64),
            ),
            "end"@,
            JsonView::Num(span.end as u64),
        ),
        "source_file"@,
        JsonView::Str(span.source_file@),
    )
}

// ---------------------------------------------------------------------------
// Implementation previews as JSON, computed from the declarations
// ---------------------------------------------------------------------------

/// The JSON of the prompt preview of `v`.
pub open spec fn variant_prompt_fields(v: VariantDecl) -> Seq<(Seq<char>, JsonView)> {
    match v.prompt {
        PromptAst::Text(c) => view_insert(
            view_insert(
                view_insert(seq![], "type"@, JsonView::Str("Completion"@)),
                "completion"@,
                JsonView::Str(spec_apply_replacers(v.replacers, c@)),
            ),
            "test_case"@,
            JsonView::Null,
        ),
        PromptAst::Chat(parts) => view_insert(
            view_insert(
                view_insert(seq![], "type"@, JsonView::Str("Chat"@)),
                "chat"@,
                JsonView::Array(
                    Seq::new(
                        parts@.len(),
                        |i: int|
                            JsonView::Object(
                                view_insert(
                                    view_insert(seq![], "role"@, JsonView::Str(part_role(parts@[i].0))),
                                    "parts"@,
                                    JsonView::Array(
                                        seq![text_part_view(spec_apply_replacers(v.replacers, parts@[i].1@))],
                                    ),
                                ),
                            ),
                    ),
                ),
            ),
            "test_case"@,
            JsonView::Null,
        ),
    }
}

/// The JSON of the client of `v`'s preview.
pub open spec fn variant_client_fields(schema: Schema, v: VariantDecl) -> Seq<(Seq<char>, JsonView)> {
    match spec_find_client(schema.clients@, v.client_name@) {
        Some(ci) => {
            let d = schema.clients@[ci];
            view_insert(
                view_insert(
                    view_insert(seq![], "identifier"@, JsonView::Object(name_fields(d.name@, d.span))),
                    "provider"@,
                    JsonView::Str(d.provider@),
                ),
                "model"@,
                opt_str_view(d.model),
            )
        },
        None => view_insert(
            view_insert(
                view_insert(
                    seq![],
                    "identifier"@,
                    JsonView::Object(name_fields(v.client_name@, v.client_span)),
                ),
                "provider"@,
                JsonView::Str(Seq::empty()),
            ),
            "model"@,
            JsonView::Null,
        ),
    }
}

/// The JSON of the preview of implementation `v`.
pub open spec fn variant_impl_fields(schema: Schema, v: VariantDecl) -> Seq<(Seq<char>, JsonView)> {
    let a = view_insert(seq![], "name"@, JsonView::Object(name_fields(v.name@, v.span)));
    let b = view_insert(a, "prompt_key"@, JsonView::Object(span_fields(v.prompt_key_span)));
    let c = view_insert(b, "prompt"@, JsonView::Object(variant_prompt_fields(v)));
    let d = view_insert(c, "client"@, JsonView::Object(variant_client_fields(schema, v)));
    let e = view_insert(d, "client_list"@, JsonView::Array(Seq::empty()));
    let f = view_insert(e, "input_replacers"@, JsonView::Array(Seq::empty()));
    view_insert(f, "output_replacers"@, JsonView::Array(Seq::empty()))
}

/// A preview of `v` has only text chat parts and the JSON of `v`'s preview.
pub proof fn lemma_variant_preview_json(i: Impl, schema: Schema, v: VariantDecl)
    requires
        is_variant_preview(i, schema, v),
    ensures
        preview_text_only(i.prompt),
        impl_fields(i) == variant_impl_fields(schema, v),
{
    match v.prompt {
        PromptAst::Text(c) => {},
        PromptAst::Chat(parts) => {
            if let PromptPreview::Chat { chat, test_case } = i.prompt {
                assert forall|k: int| 0 <= k < chat@.len() implies all_text(#[trigger] chat@[k].parts@) by {
                    assert(is_part_message(chat@[k], parts@[k], v));
                }
                let lhs = Seq::new(chat@.len(), |k: int| JsonView::Object(message_fields(chat@[k])));
                let rhs = Seq::new(
                    parts@.len(),
                    |k: int|
                        JsonView::Object(
                            view_insert(
                                view_insert(seq![], "role"@, JsonView::Str(part_role(parts@[k].0))),
                                "parts"@,
                                JsonView::Array(
                                    seq![text_part_view(spec_apply_replacers(v.replacers, parts@[k].1@))],
                                ),
                            ),
                        ),
                );
                assert forall|k: int| 0 <= k < lhs.len() implies lhs[k] == rhs[k] by {
                    assert(is_part_message(chat@[k], parts@[k], v));
                    assert(text_parts_view(chat@[k].parts@) =~= seq![
                        text_part_view(spec_apply_replacers(v.replacers, parts@[k].1@)),
                    ]);
                }
                assert(lhs =~= rhs);
            }
        },
    }
    assert(strings_view(i.client_list@) =~= Seq::empty());
    assert(pairs_view(i.input_replacers@) =~= Seq::empty());
    assert(pairs_view(i.output_replacers@) =~= Seq::empty());
}

// ---------------------------------------------------------------------------
// Functions
// ---------------------------------------------------------------------------

/// Which declaration syntax a function uses.
#[derive(Clone, Copy, PartialEq, Eq, Structural, Debug)]
pub enum SFunctionSyntax {
    /// `impl<llm, ...>` implementations.
    Version1,
    /// A single `function Name(args) -> Output {...}`.
    Version2,
}

/// The name of a syntax.
pub open spec fn syntax_name(s: SFunctionSyntax) -> Seq<char> {
    match s {
        SFunctionSyntax::Version1 => "Version1"@,
        SFunctionSyntax::Version2 => "Version2"@,
    }
}

/// The preview of a function.
pub struct SFunction {
    pub name: StringSpan,
    pub input: Json,
    pub output: Json,
    pub test_cases: Vec<Json>,
    pub impls: Vec<Impl>,
    pub syntax: SFunctionSyntax,
}

/// The JSON of a named argument: its name, type and JSON schema.
pub open spec fn named_arg_fields(a: NamedArg) -> Seq<(Seq<char>, JsonView)> {
    view_insert(
        view_insert(
            view_insert(seq![], "name"@, JsonView::Object(name_fields(a.name@, a.span))),
            "type"@,
            JsonView::Str(a.arg.field_type@),
        ),
        "jsonSchema"@,
        jview(a.arg.json_schema),
    )
}

/// The JSON of a function's input or output: `"arg_type": "named"` with the
/// arguments as `"values"`, or `"arg_type": "positional"` with the type and
/// JSON schema.
pub open spec fn args_view(a: FunctionArgs) -> JsonView {
    match a {
        FunctionArgs::Named(list) => JsonView::Object(
            view_insert(
                view_insert(seq![], "arg_type"@, JsonView::Str("named"@)),
                "values"@,
                JsonView::Array(Seq::new(list@.len(), |i: int| JsonView::Object(named_arg_fields(list@[i])))),
            ),
        ),
        FunctionArgs::Unnamed(t) => JsonView::Object(
            view_insert(
                view_insert(
                    view_insert(seq![], "arg_type"@, JsonView::Str("positional"@)),
                    "type"@,
                    JsonView::Str(t.field_type@),
                ),
                "jsonSchema"@,
                jview(t.json_schema),
            ),
        ),
    }
}

fn arg_type_fields(o: &mut Vec<(String, Json)>, t: &ArgType)
    requires
        keys_sorted(old(o)@),
    ensures
        keys_sorted(final(o)@),
        entries_view(final(o)@) == view_insert(
            view_insert(entries_view(old(o)@), "type"@, JsonView::Str(t.field_type@)),
            "jsonSchema"@,
            jview(t.json_schema),
        ),
{
    obj_set(o, "type", Json::Str(t.field_type.clone()));
    obj_set(o, "jsonSchema", clone_json(&t.json_schema));
}

/// The JSON of a function's input or output.
pub fn args_to_json(a: &FunctionArgs) -> (res: Json)
    ensures
        jview(res) == args_view(*a),
{
    let mut o = empty_object();
    match a {
        FunctionArgs::Named(list) => {
            obj_set(&mut o, "arg_type", Json::Str("named".to_owned()));
            let mut values: Vec<Json> = Vec::new();
            let n = list.len();
            let ghost target = Seq::new(list@.len(), |i: int| JsonView::Object(named_arg_fields(list@[i])));
            for i in 0..n
                invariant
                    n == list@.len(),
                    target == Seq::new(list@.len(), |i: int| JsonView::Object(named_arg_fields(list@[i]))),
                    items_view(values@) == target.take(i as int),
            {
                let mut v = empty_object();
                obj_set_object(&mut v, "name", string_span_to_json(&StringSpan::new(list[i].name.as_str(), &list[i].span)));
                arg_type_fields(&mut v, &list[i].arg);
                let ghost prev = values@;
                proof {
                    lemma_jview_object(v);
                    lemma_items_view_push(prev, Json::Object(v));
                }
                values.push(Json::Object(v));
                assert(target.take(i + 1) =~= target.take(i as int).push(target[i as int]));
            }
            assert(target.take(n as int) =~= target);
            obj_set_array(&mut o, "values", values);
        },
        FunctionArgs::Unnamed(t) => {
            obj_set(&mut o, "arg_type", Json::Str("positional".to_owned()));
            arg_type_fields(&mut o, t);
        },
    }
    proof {
        lemma_jview_object(o);
    }
    Json::Object(o)
}

/// The JSON of a test's arguments: the value the text parses to, or `null`.
pub open spec fn content_view(c: Seq<char>) -> JsonView {
    if json_value_parses(c) {
        JsonView::Raw(parsed_json_value(c))
    } else {
        JsonView::Null
    }
}

/// The JSON of a test case: its name and its arguments.
pub open spec fn test_case_view(t: TestCaseDecl) -> JsonView {
    JsonView::Object(
        view_insert(
            view_insert(seq![], "name"@, JsonView::Object(name_fields(t.name@, t.span))),
            "content"@,
            content_view(t.content@),
        ),
    )
}

/// The JSON of a test case.
pub fn test_case_to_json(t: &TestCaseDecl) -> (res: Json)
    ensures
        jview(res) == test_case_view(*t),
{
    let mut o = empty_object();
    obj_set_object(&mut o, "name", string_span_to_json(&StringSpan::new(t.name.as_str(), &t.span)));
    let content = match parse_json_value(t.content.as_str()) {
        Some(v) => Json::Raw(v),
        None => Json::Null,
    };
    obj_set(&mut o, "content", content);
    proof {
        lemma_jview_object(o);
    }
    Json::Object(o)
}

/// The JSON of a function's implementations.
pub open spec fn impls_view(schema: Schema, func: FunctionDecl) -> Seq<JsonView> {
    if func.is_old {
        Seq::new(
            func.variants@.len(),
            |i: int| JsonView::Object(variant_impl_fields(schema, func.variants@[i])),
        )
    } else {
        Seq::empty()
    }
}

/// The JSON of a function preview.
pub open spec fn function_view(schema: Schema, func: FunctionDecl, syntax: SFunctionSyntax) -> JsonView {
    let a = view_insert(seq![], "name"@, JsonView::Object(name_fields(func.name@, func.span)));
    let b = view_insert(a, "input"@, args_view(func.input));
    let c = view_insert(b, "output"@, args_view(func.output));
    let d = view_insert(
        c,
        "test_cases"@,
        JsonView::Array(Seq::new(func.tests@.len(), |i: int| test_case_view(func.tests@[i]))),
    );
    let e = view_insert(d, "impls"@, JsonView::Array(impls_view(schema, func)));
    JsonView::Object(view_insert(e, "syntax"@, JsonView::Str(syntax_name(syntax))))
}

/// The preview of a function: its name, input, output, tests and
/// implementation previews.
pub fn serialize_function(
    schema: &Schema,
    func: &FunctionDecl,
    syntax: SFunctionSyntax,
    selected_test_name: Option<&String>,
) -> (res: SFunction)
    requires
        !func.is_old ==> func.has_prompt,
    ensures
        is_string_span(res.name, func.name@, func.span),
        jview(res.input) == args_view(func.input),
        jview(res.output) == args_view(func.output),
        items_view(res.test_cases@) == Seq::new(func.tests@.len(), |i: int| test_case_view(func.tests@[i])),
        func.is_old ==> res.impls@.len() == func.variants@.len() && forall|i: int|
            0 <= i < func.variants@.len() ==> #[trigger] is_variant_preview(res.impls@[i], *schema, func.variants@[i]),
        !func.is_old ==> res.impls@.len() == 0,
        res.syntax == syntax,
{
    let mut tests: Vec<Json> = Vec::new();
    let n = func.tests.len();
    let ghost target = Seq::new(func.tests@.len(), |i: int| test_case_view(func.tests@[i]));
    for i in 0..n
        invariant
            n == func.tests@.len(),
            target == Seq::new(func.tests@.len(), |i: int| test_case_view(func.tests@[i])),
            items_view(tests@) == target.take(i as int),
    {
        let t = test_case_to_json(&func.tests[i]);
        let ghost prev = tests@;
        proof {
            lemma_items_view_push(prev, t);
        }
        tests.push(t);
        assert(target.take(i + 1) =~= target.take(i as int).push(target[i as int]));
    }
    assert(target.take(n as int) =~= target);
    SFunction {
        name: StringSpan::new(func.name.as_str(), &func.span),
        input: args_to_json(&func.input),
        output: args_to_json(&func.output),
        test_cases: tests,
        impls: serialize_impls(schema, func, selected_test_name),
        syntax,
    }
}

/// The JSON of a function preview.
pub fn function_to_json(schema: &Schema, func: &FunctionDecl, f: SFunction) -> (res: Json)
    requires
        is_string_span(f.name, func.name@, func.span),
        jview(f.input) == args_view(func.input),
        jview(f.output) == args_view(func.output),
        items_view(f.test_cases@) == Seq::new(func.tests@.len(), |i: int| test_case_view(func.tests@[i])),
        func.is_old ==> f.impls@.len() == func.variants@.len() && forall|i: int|
            0 <= i < func.variants@.len() ==> #[trigger] is_variant_preview(f.impls@[i], *schema, func.variants@[i]),
        !func.is_old ==> f.impls@.len() == 0,
    ensures
        jview(res) == function_view(*schema, *func, f.syntax),
{
    let ghost fv = f;
    let SFunction { name, input, output, test_cases, impls, syntax } = f;
    let mut o = empty_object();
    obj_set_object(&mut o, "name", string_span_to_json(&name));
    obj_set(&mut o, "input", input);
    obj_set(&mut o, "output", output);
    obj_set_array(&mut o, "test_cases", test_cases);
    let mut ims: Vec<Json> = Vec::new();
    let n = impls.len();
    let ghost target = impls_view(*schema, *func);
    for i in 0..n
        invariant
            n == impls@.len(),
            impls == fv.impls,
            target == impls_view(*schema, *func),
            func.is_old ==> n == func.variants@.len() && forall|k: int|
                0 <= k < func.variants@.len() ==> #[trigger] is_variant_preview(impls@[k], *schema, func.variants@[k]),
            !func.is_old ==> n == 0,
            items_view(ims@) == target.take(i as int),
    {
        proof {
            lemma_variant_preview_json(impls@[i as int], *schema, func.variants@[i as int]);
        }
        let io = impl_to_json(&impls[i]);
        let ghost prev = ims@;
        proof {
            lemma_jview_object(io);
            lemma_items_view_push(prev, Json::Object(io));
        }
        ims.push(Json::Object(io));
        assert(target.take(i + 1) =~= target.take(i as int).push(target[i as int]));
    }
    assert(target.take(n as int) =~= target);
    obj_set_array(&mut o, "impls", ims);
    obj_set(&mut o, "syntax", Json::Str(match syntax {
        SFunctionSyntax::Version1 => "Version1".to_owned(),
        SFunctionSyntax::Version2 => "Version2".to_owned(),
    }));
    proof {
        lemma_jview_object(o);
    }
    Json::Object(o)
}

// ---------------------------------------------------------------------------
// The whole preview and the diagnostics document
// ---------------------------------------------------------------------------

/// The JSON of an enum or class: its name and JSON schema.
pub open spec fn named_schema_fields(s: NamedSchema) -> Seq<(Seq<char>, JsonView)> {
    view_insert(
        view_insert(seq![], "name"@, JsonView::Object(name_fields(s.name@, s.span))),
        "jsonSchema"@,
        jview(s.json_schema),
    )
}

/// The JSON of a list of enums or classes.
pub open spec fn named_schemas_view(v: Seq<NamedSchema>) -> Seq<JsonView> {
    Seq::new(v.len(), |i: int| JsonView::Object(named_schema_fields(v[i])))
}

fn named_schemas_to_json(v: &Vec<NamedSchema>) -> (res: Vec<Json>)
    ensures
        items_view(res@) == named_schemas_view(v@),
{
    let mut out: Vec<Json> = Vec::new();
    let n = v.len();
    for i in 0..n
        invariant
            n == v@.len(),
            items_view(out@) == named_schemas_view(v@).take(i as int),
    {
        let mut o = empty_object();
        obj_set_object(&mut o, "name", string_span_to_json(&StringSpan::new(v[i].name.as_str(), &v[i].span)));
        obj_set(&mut o, "jsonSchema", clone_json(&v[i].json_schema));
        let ghost prev = out@;
        proof {
            lemma_jview_object(o);
            lemma_items_view_push(prev, Json::Object(o));
        }
        out.push(Json::Object(o));
        assert(named_schemas_view(v@).take(i + 1) =~= named_schemas_view(v@).take(i as int).push(
            named_schemas_view(v@)[i as int],
        ));
    }
    assert(named_schemas_view(v@).take(n as int) =~= named_schemas_view(v@));
    out
}

/// The JSON of the declared clients: each one's name.
pub open spec fn clients_view(v: Seq<crate::lint::ClientDecl>) -> Seq<JsonView> {
    Seq::new(
        v.len(),
        |i: int| JsonView::Object(view_insert(seq![], "name"@, JsonView::Object(name_fields(v[i].name@, v[i].span)))),
    )
}

fn clients_to_json(v: &Vec<crate::lint::ClientDecl>) -> (res: Vec<Json>)
    ensures
        items_view(res@) == clients_view(v@),
{
    let mut out: Vec<Json> = Vec::new();
    let n = v.len();
    for i in 0..n
        invariant
            n == v@.len(),
            items_view(out@) == clients_view(v@).take(i as int),
    {
        let mut o = empty_object();
        obj_set_object(&mut o, "name", string_span_to_json(&StringSpan::new(v[i].name.as_str(), &v[i].span)));
        let ghost prev = out@;
        proof {
            lemma_jview_object(o);
            lemma_items_view_push(prev, Json::Object(o));
        }
        out.push(Json::Object(o));
        assert(clients_view(v@).take(i + 1) =~= clients_view(v@).take(i as int).push(clients_view(v@)[i as int]));
    }
    assert(clients_view(v@).take(n as int) =~= clients_view(v@));
    out
}

/// Every new-style function has a prompt.
pub open spec fn prompts_present(funcs: Seq<FunctionDecl>) -> bool {
    forall|i: int| 0 <= i < funcs.len() ==> (!(#[trigger] funcs[i]).is_old ==> funcs[i].has_prompt)
}

/// The JSON of a list of functions, all with the same syntax.
pub open spec fn functions_view(schema: Schema, funcs: Seq<FunctionDecl>, syntax: SFunctionSyntax) -> Seq<JsonView> {
    Seq::new(funcs.len(), |i: int| function_view(schema, funcs[i], syntax))
}

/// The test selected for a function: the entry for its name, if any.
pub fn selected_test_for<'a>(selected: &'a Vec<(String, String)>, name: &str) -> (res: Option<&'a String>)
    ensures
        match res {
            Some(t) => exists|i: int|
                0 <= i < selected@.len() && selected@[i].0@ == name@ && *t == selected@[i].1,
            None => forall|i: int| 0 <= i < selected@.len() ==> selected@[i].0@ != name@,
        },
{
    let n = selected.len();
    for i in 0..n
        invariant
            n == selected@.len(),
            forall|k: int| 0 <= k < i ==> selected@[k].0@ != name@,
    {
        if str_eq(selected[i].0.as_str(), name) {
            return Some(&selected[i].1);
        }
    }
    None
}

fn functions_to_json(
    schema: &Schema,
    funcs: &Vec<FunctionDecl>,
    syntax: SFunctionSyntax,
    selected: &Vec<(String, String)>,
    out: &mut Vec<Json>,
)
    requires
        prompts_present(funcs@),
    ensures
        items_view(final(out)@) == items_view(old(out)@) + functions_view(*schema, funcs@, syntax),
{
    let ghost start = items_view(out@);
    let n = funcs.len();
    for i in 0..n
        invariant
            n == funcs@.len(),
            prompts_present(funcs@),
            items_view(out@) == start + functions_view(*schema, funcs@, syntax).take(i as int),
    {
        assert(!funcs@[i as int].is_old ==> funcs@[i as int].has_prompt);
        let sel = selected_test_for(selected, funcs[i].name.as_str());
        let f = serialize_function(schema, &funcs[i], syntax, sel);
        let j = function_to_json(schema, &funcs[i], f);
        let ghost prev = out@;
        proof {
            lemma_items_view_push(prev, j);
        }
        out.push(j);
        assert(functions_view(*schema, funcs@, syntax).take(i + 1) =~= functions_view(*schema, funcs@, syntax).take(
            i as int,
        ).push(functions_view(*schema, funcs@, syntax)[i as int]));
        assert(items_view(out@) =~= start + functions_view(*schema, funcs@, syntax).take(i + 1));
    }
    assert(functions_view(*schema, funcs@, syntax).take(n as int) =~= functions_view(*schema, funcs@, syntax));
}

/// The JSON of the schema preview: its enums, classes, clients and
/// functions (old-style ones first).
pub open spec fn response_view(schema: Schema) -> JsonView {
    let a = view_insert(seq![], "enums"@, JsonView::Array(named_schemas_view(schema.enums@)));
    let b = view_insert(a, "classes"@, JsonView::Array(named_schemas_view(schema.classes@)));
    let c = view_insert(b, "clients"@, JsonView::Array(clients_view(schema.clients@)));
    JsonView::Object(
        view_insert(
            c,
            "functions"@,
            JsonView::Array(
                functions_view(schema, schema.old_functions@, SFunctionSyntax::Version1) + functions_view(
                    schema,
                    schema.new_functions@,
                    SFunctionSyntax::Version2,
                ),
            ),
        ),
    )
}

/// The JSON of the schema preview (see `response_view`); `selected` names
/// the test to render for each function.
pub fn response_to_json(schema: &Schema, selected: &Vec<(String, String)>) -> (res: Json)
    requires
        prompts_present(schema.old_functions@),
        prompts_present(schema.new_functions@),
    ensures
        jview(res) == response_view(*schema),
{
    let mut o = empty_object();
    obj_set_array(&mut o, "enums", named_schemas_to_json(&schema.enums));
    obj_set_array(&mut o, "classes", named_schemas_to_json(&schema.classes));
    obj_set_array(&mut o, "clients", clients_to_json(&schema.clients));
    let mut funcs: Vec<Json> = Vec::new();
    assert(items_view(funcs@) =~= seq![]);
    functions_to_json(schema, &schema.old_functions, SFunctionSyntax::Version1, selected, &mut funcs);
    functions_to_json(schema, &schema.new_functions, SFunctionSyntax::Version2, selected, &mut funcs);
    assert(items_view(funcs@) =~= functions_view(*schema, schema.old_functions@, SFunctionSyntax::Version1)
        + functions_view(*schema, schema.new_functions@, SFunctionSyntax::Version2));
    obj_set_array(&mut o, "functions", funcs);
    proof {
        lemma_jview_object(o);
    }
    Json::Object(o)
}

/// `{"start", "end", "text", "is_warning", "source_file"}` of a reported
/// diagnostic.
pub open spec fn mini_error_fields(e: MiniError) -> Seq<(Seq<char>, JsonView)> {
    view_insert(
        view_insert(
            view_insert(
                view_insert(
                    view_insert(seq![], "start"@, JsonView::Num(e.start as u64)),
                    "end"@,
                    JsonView::Num(e.end as u64),
                ),
                "text"@,
                JsonView::Str(e.text@),
            ),
            "is_warning"@,
            JsonView::Bool(e.is_warning),
        ),
        "source_file"@,
        JsonView::Str(e.source_file@),
    )
}

/// The diagnostics document: `"ok"` (whether there is a response),
/// `"diagnostics"` and `"response"` (or `null`).
pub open spec fn diagnostics_doc(diagnostics: Seq<JsonView>, response: Option<JsonView>) -> JsonView {
    JsonView::Object(
        view_insert(
            view_insert(
                view_insert(seq![], "ok"@, JsonView::Bool(response is Some)),
                "diagnostics"@,
                JsonView::Array(diagnostics),
            ),
            "response"@,
            match response {
                Some(r) => r,
                None => JsonView::Null,
            },
        ),
    )
}

/// The JSON of reported diagnostics.
pub open spec fn mini_errors_view(v: Seq<MiniError>) -> Seq<JsonView> {
    Seq::new(v.len(), |i: int| JsonView::Object(mini_error_fields(v[i])))
}

/// The printed diagnostics document (see `diagnostics_doc`).
pub fn print_diagnostics(diagnostics: Vec<MiniError>, response: Option<Json>) -> (res: String)
    ensures
        res@ == view_text(
            diagnostics_doc(
                mini_errors_view(diagnostics@),
                match response {
                    Some(r) => Some(jview(r)),
                    None => None,
                },
            ),
        ),
{
    let mut items: Vec<Json> = Vec::new();
    let n = diagnostics.len();
    for i in 0..n
        invariant
            n == diagnostics@.len(),
            items_view(items@) == mini_errors_view(diagnostics@).take(i as int),
    {
        let e = &diagnostics[i];
        let mut o = empty_object();
        obj_set(&mut o, "start", Json::Num(e.start as u64));
        obj_set(&mut o, "end", Json::Num(e.end as u64));
        obj_set(&mut o, "text", Json::Str(e.text.clone()));
        obj_set(&mut o, "is_warning", Json::Bool(e.is_warning));
        obj_set(&mut o, "source_file", Json::Str(e.source_file.clone()));
        let ghost prev = items@;
        proof {
            lemma_jview_object(o);
            lemma_items_view_push(prev, Json::Object(o));
        }
        items.push(Json::Object(o));
        assert(mini_errors_view(diagnostics@).take(i + 1) =~= mini_errors_view(diagnostics@).take(
            i as int,
        ).push(mini_errors_view(diagnostics@)[i as int]));
    }
    assert(mini_errors_view(diagnostics@).take(n as int) =~= mini_errors_view(diagnostics@));
    let mut doc = empty_object();
    let ok = response.is_some();
    obj_set(&mut doc, "ok", Json::Bool(ok));
    obj_set_array(&mut doc, "diagnostics", items);
    let r = match response {
        Some(r) => r,
        None => Json::Null,
    };
    obj_set(&mut doc, "response", r);
    let d = Json::Object(doc);
    proof {
        lemma_jview_object(doc);
    }
    to_json_string(&d)
}

/// The JSON of a diagnostic reported as a warning or an error.
pub open spec fn diagnostic_fields(d: Diagnostic, is_warning: bool) -> JsonView {
    JsonView::Object(
        view_insert(
            view_insert(
                view_insert(
                    view_insert(
                        view_insert(seq![], "start"@, JsonView::Num(d.span.start as u64)),
                        "end"@,
                        JsonView::Num(d.span.end as u64),
                    ),
                    "text"@,
                    JsonView::Str(d.message@),
                ),
                "is_warning"@,
                JsonView::Bool(is_warning),
            ),
            "source_file"@,
            JsonView::Str(d.span.source_file@),
        ),
    )
}

/// The JSON of the reported diagnostics: the warnings, then the errors.
pub open spec fn reported_view(warnings: Seq<Diagnostic>, errors: Seq<Diagnostic>) -> Seq<JsonView> {
    Seq::new(warnings.len(), |i: int| diagnostic_fields(warnings[i], true)) + Seq::new(
        errors.len(),
        |i: int| diagnostic_fields(errors[i], false),
    )
}

/// The lint result of a validated schema: the diagnostics document with
/// every warning and error, and, only when there is no error, the schema
/// preview as the response.
pub fn lint_output(
    warnings: &Vec<Diagnostic>,
    errors: &Vec<Diagnostic>,
    schema: &Schema,
    selected_tests: &Vec<(String, String)>,
) -> (res: String)
    requires
        errors@.len() == 0 ==> prompts_present(schema.old_functions@),
        errors@.len() == 0 ==> prompts_present(schema.new_functions@),
    ensures
        res@ == view_text(
            diagnostics_doc(
                reported_view(warnings@, errors@),
                if errors@.len() > 0 {
                    None
                } else {
                    Some(response_view(*schema))
                },
            ),
        ),
{
    let minis = collect_mini_errors(warnings, errors);
    assert(mini_errors_view(minis@) =~= reported_view(warnings@, errors@)) by {
        assert forall|i: int| 0 <= i < minis@.len() implies mini_errors_view(minis@)[i]
            == reported_view(warnings@, errors@)[i] by {
            if i < warnings@.len() {
                assert(reports(minis@[i], warnings@[i], true));
            } else {
                assert(reports(minis@[warnings@.len() + (i - warnings@.len())], errors@[i - warnings@.len()], false));
            }
        }
    }
    if errors.len() > 0 {
        return print_diagnostics(minis, None);
    }
    let response = response_to_json(schema, selected_tests);
    print_diagnostics(minis, Some(response))
}

} // verus!
