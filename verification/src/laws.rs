//! Properties that relate several operations of the library.
use vstd::prelude::*;

use crate::json::{key_lt, lemma_key_lt_irreflexive, lemma_key_lt_total, lemma_key_lt_transitive, view_insert, JsonView};
use crate::llm_client::{spec_error_code_text, spec_from_u16, LLMCompleteResponse};
use crate::openai_response::{content_or_empty, stream_advanced, usage_recorded, ChatCompletionResponseDelta, CompletionUsage};
use crate::lint::{Schema, spec_apply_inputs, spec_apply_outputs, spec_apply_replacers, Diagnostic, Replacers};
use crate::lint_output::{diagnostic_fields, diagnostics_doc, reported_view, response_view};
use crate::openai::{spec_text_message, spec_part_json, spec_parts_json, spec_role_message, spec_messages_json, OpenAIClient};
use crate::openai_request::{spec_properties_object, spec_request_body, PromptRef};
use crate::openai_response::FinishReason;
use crate::prompt::{ChatMessagePart, RenderedChatMessage};
use crate::text::{decimal_text, digit_char, spec_replace};

verus! {

/// The keys of object contents are strictly ascending.
pub open spec fn view_keys_sorted(e: Seq<(Seq<char>, JsonView)>) -> bool {
    forall|i: int, j: int| 0 <= i < j < e.len() ==> key_lt(#[trigger] e[i].0, #[trigger] e[j].0)
}

/// The value of the first entry with key `k`, if any.
pub open spec fn view_lookup(e: Seq<(Seq<char>, JsonView)>, k: Seq<char>) -> Option<JsonView>
    decreases e.len(),
{
    if e.len() == 0 {
        None
    } else if e[0].0 == k {
        Some(e[0].1)
    } else {
        view_lookup(e.drop_first(), k)
    }
}

/// Setting a key in an object (as `serde_json::Map::insert` does) keeps the
/// keys ascending, makes the key read back the value just set, and leaves
/// every other key reading what it read before.
pub proof fn law_object_set_then_get(e: Seq<(Seq<char>, JsonView)>, k: Seq<char>, v: JsonView, other: Seq<char>)
    requires
        view_keys_sorted(e),
    ensures
        view_keys_sorted(view_insert(e, k, v)),
        view_lookup(view_insert(e, k, v), k) == Some(v),
        other != k ==> view_lookup(view_insert(e, k, v), other) == view_lookup(e, other),
    decreases e.len(),
{
    lemma_key_lt_irreflexive(k);
    if e.len() == 0 {
        assert(view_insert(e, k, v).drop_first() =~= e);
        assert(view_lookup(view_insert(e, k, v), other) == view_lookup(view_insert(e, k, v).drop_first(), other)
            || other == k);
    } else if e[0].0 == k {
        let r = e.update(0, (k, v));
        assert(r.drop_first() =~= e.drop_first());
        if other != k {
            assert(view_lookup(r, other) == view_lookup(r.drop_first(), other));
            assert(view_lookup(e, other) == view_lookup(e.drop_first(), other));
        }
        assert(view_keys_sorted(r)) by {
            assert forall|i: int, j: int| 0 <= i < j < r.len() implies key_lt(#[trigger] r[i].0, #[trigger] r[j].0) by {
                assert(key_lt(e[i].0, e[j].0));
            }
        }
    } else if key_lt(k, e[0].0) {
        let r = seq![(k, v)] + e;
        assert(r.drop_first() =~= e);
        assert(view_keys_sorted(r)) by {
            assert forall|i: int, j: int| 0 <= i < j < r.len() implies key_lt(#[trigger] r[i].0, #[trigger] r[j].0) by {
                if i == 0 {
                    if j > 1 {
                        lemma_key_lt_transitive(k, e[0].0, e[j - 1].0);
                    }
                } else {
                    assert(key_lt(e[i - 1].0, e[j - 1].0));
                }
            }
        }
        if other != k {
            assert(view_lookup(r, other) == view_lookup(r.drop_first(), other));
        }
    } else {
        lemma_key_lt_total(e[0].0, k);
        let t = e.drop_first();
        assert(view_keys_sorted(t)) by {
            assert forall|i: int, j: int| 0 <= i < j < t.len() implies key_lt(#[trigger] t[i].0, #[trigger] t[j].0) by {
                assert(key_lt(e[i + 1].0, e[j + 1].0));
            }
        }
        law_object_set_then_get(t, k, v, other);
        let ins = view_insert(t, k, v);
        let r = seq![e[0]] + ins;
        assert(r.drop_first() =~= ins);
        // every key of the rest is greater than the first key
        assert forall|j: int| 0 <= j < ins.len() implies key_lt(e[0].0, #[trigger] ins[j].0) by {
            lemma_view_insert_keys(t, k, v, j);
            if ins[j].0 != k {
                let jj = choose|jj: int| 0 <= jj < t.len() && t[jj].0 == ins[j].0;
                assert(key_lt(e[0].0, e[jj + 1].0));
            }
        }
        if other != k && e[0].0 != other {
            assert(view_lookup(r, other) == view_lookup(ins, other));
            assert(view_lookup(e, other) == view_lookup(t, other));
        }
        assert(view_lookup(r, k) == view_lookup(ins, k));
        assert(view_keys_sorted(r)) by {
            assert forall|i: int, j: int| 0 <= i < j < r.len() implies key_lt(#[trigger] r[i].0, #[trigger] r[j].0) by {
                if i == 0 {
                    assert(key_lt(e[0].0, ins[j - 1].0));
                } else {
                    assert(r[i] == ins[i - 1]);
                    assert(r[j] == ins[j - 1]);
                }
            }
        }
    }
}

/// Every key after setting is the key set or a key that was there.
proof fn lemma_view_insert_keys(e: Seq<(Seq<char>, JsonView)>, k: Seq<char>, v: JsonView, j: int)
    requires
        0 <= j < view_insert(e, k, v).len(),
    ensures
        view_insert(e, k, v)[j].0 == k || exists|jj: int| 0 <= jj < e.len() && e[jj].0 == view_insert(e, k, v)[j].0,
    decreases e.len(),
{
    if e.len() == 0 {
    } else if e[0].0 == k {
        if j > 0 {
            assert(e[j].0 == view_insert(e, k, v)[j].0);
        }
    } else if key_lt(k, e[0].0) {
        if j > 0 {
            assert(e[j - 1].0 == view_insert(e, k, v)[j].0);
        }
    } else {
        if j == 0 {
            assert(e[0].0 == view_insert(e, k, v)[0].0);
        } else {
            let t = e.drop_first();
            assert(view_insert(e, k, v)[j] == view_insert(t, k, v)[j - 1]);
            lemma_view_insert_keys(t, k, v, j - 1);
            if view_insert(t, k, v)[j - 1].0 != k {
                let jj = choose|jj: int| 0 <= jj < t.len() && t[jj].0 == view_insert(t, k, v)[j - 1].0;
                assert(e[jj + 1].0 == view_insert(e, k, v)[j].0);
            }
        }
    }
}

/// Replacing a pattern by itself leaves a string unchanged.
pub proof fn law_replace_by_itself(s: Seq<char>, pat: Seq<char>)
    requires
        pat.len() > 0,
    ensures
        spec_replace(s, pat, pat) == s,
    decreases s.len(),
{
    if s.len() < pat.len() {
    } else if s.subrange(0, pat.len() as int) == pat {
        let rest = s.subrange(pat.len() as int, s.len() as int);
        law_replace_by_itself(rest, pat);
        assert(pat + rest =~= s);
    } else {
        law_replace_by_itself(s.drop_first(), pat);
        assert(seq![s[0]] + s.drop_first() =~= s);
    }
}

/// A pattern that does not occur in a string leaves it unchanged, whatever
/// replaces it.
pub proof fn law_replace_absent(s: Seq<char>, pat: Seq<char>, rep: Seq<char>)
    requires
        pat.len() > 0,
        forall|i: int| 0 <= i && i + pat.len() <= s.len() ==> #[trigger] s.subrange(i, i + pat.len()) != pat,
    ensures
        spec_replace(s, pat, rep) == s,
    decreases s.len(),
{
    if s.len() < pat.len() {
    } else {
        assert(s.subrange(0, 0 + pat.len() as int) != pat);
        let t = s.drop_first();
        assert forall|i: int| 0 <= i && i + pat.len() <= t.len() implies #[trigger] t.subrange(i, i + pat.len()) != pat by {
            assert(t.subrange(i, i + pat.len()) =~= s.subrange(i + 1, i + 1 + pat.len()));
        }
        law_replace_absent(t, pat, rep);
        assert(seq![s[0]] + t =~= s);
    }
}

/// The content that a streamed event contributes: its first choice's delta.
pub open spec fn delta_text(e: ChatCompletionResponseDelta) -> Seq<char> {
    if e.choices@.len() > 0 {
        content_or_empty(e.choices@[0].content)
    } else {
        Seq::empty()
    }
}

/// The content that a run of events contributes, in order.
pub open spec fn deltas_text(es: Seq<ChatCompletionResponseDelta>) -> Seq<char>
    decreases es.len(),
{
    if es.len() == 0 {
        Seq::empty()
    } else {
        deltas_text(es.drop_last()) + delta_text(es.last())
    }
}

/// One parsed event appends its delta and keeps client, prompt, options and
/// start time.
proof fn lemma_stream_step(
    a: LLMCompleteResponse,
    b: LLMCompleteResponse,
    e: ChatCompletionResponseDelta,
    l: web_time::Duration,
)
    requires
        stream_advanced(a, b, e, l),
    ensures
        b.content@ == a.content@ + delta_text(e),
        b.client == a.client,
        b.prompt@ == a.prompt@,
        b.request_options@ == a.request_options@,
        b.start_time == a.start_time,
{
    reveal(stream_advanced);
    if e.choices@.len() == 0 {
        assert(a.content@ + delta_text(e) =~= a.content@);
    }
}

/// Over a run of parsed events, the accumulated content is the content it
/// started with followed by every event's delta, in order; the client,
/// prompt, options and start time never change.
pub proof fn law_stream_accumulates(
    states: Seq<LLMCompleteResponse>,
    events: Seq<ChatCompletionResponseDelta>,
    latencies: Seq<web_time::Duration>,
)
    requires
        states.len() == events.len() + 1,
        latencies.len() == events.len(),
        forall|i: int| 0 <= i < events.len() ==> stream_advanced(#[trigger] states[i], states[i + 1], events[i], latencies[i]),
    ensures
        states.last().content@ == states[0].content@ + deltas_text(events),
        states.last().client == states[0].client,
        states.last().prompt@ == states[0].prompt@,
        states.last().request_options@ == states[0].request_options@,
        states.last().start_time == states[0].start_time,
    decreases events.len(),
{
    if events.len() == 0 {
        assert(states[0].content@ + deltas_text(events) =~= states[0].content@);
    } else {
        let n = events.len() as int;
        let ps = states.drop_last();
        let pe = events.drop_last();
        let pl = latencies.drop_last();
        assert forall|i: int| 0 <= i < pe.len() implies stream_advanced(#[trigger] ps[i], ps[i + 1], pe[i], pl[i]) by {
            assert(ps[i] == states[i] && ps[i + 1] == states[i + 1] && pe[i] == events[i] && pl[i] == latencies[i]);
        }
        law_stream_accumulates(ps, pe, pl);
        lemma_stream_step(states[n - 1], states[n], events[n - 1], latencies[n - 1]);
        assert(states[0].content@ + deltas_text(events) =~= states[0].content@ + deltas_text(pe) + delta_text(
            events.last(),
        ));
    }
}

/// The usage block of the last event that has one, if any.
pub open spec fn last_usage(es: Seq<ChatCompletionResponseDelta>) -> Option<CompletionUsage>
    decreases es.len(),
{
    if es.len() == 0 {
        None
    } else {
        match es.last().usage {
            Some(u) => Some(u),
            None => last_usage(es.drop_last()),
        }
    }
}

/// A stream's responses, from the one it starts with (no content, no token
/// counts, as `stream_initial` gives) through the one after each parsed
/// event: after the first `n` events the content is the concatenation of
/// those events' first-choice deltas, the token counts are those of the last
/// of them that carried a usage block (none if none did), and client,
/// prompt, options and start time are those the stream started with.
pub proof fn law_stream_run(
    states: Seq<LLMCompleteResponse>,
    events: Seq<ChatCompletionResponseDelta>,
    latencies: Seq<web_time::Duration>,
    n: int,
)
    requires
        states.len() == events.len() + 1,
        latencies.len() == events.len(),
        states[0].content@ == Seq::<char>::empty(),
        usage_recorded(None, states[0].metadata),
        forall|i: int| 0 <= i < events.len() ==> stream_advanced(#[trigger] states[i], states[i + 1], events[i], latencies[i]),
        0 <= n <= events.len(),
    ensures
        states[n].content@ == deltas_text(events.take(n)),
        usage_recorded(last_usage(events.take(n)), states[n].metadata),
        states[n].client == states[0].client,
        states[n].prompt@ == states[0].prompt@,
        states[n].request_options@ == states[0].request_options@,
        states[n].start_time == states[0].start_time,
    decreases n,
{
    if n == 0 {
        assert(events.take(0) =~= Seq::<ChatCompletionResponseDelta>::empty());
    } else {
        law_stream_run(states, events, latencies, n - 1);
        assert(stream_advanced(states[n - 1], states[n], events[n - 1], latencies[n - 1]));
        lemma_stream_step(states[n - 1], states[n], events[n - 1], latencies[n - 1]);
        let t = events.take(n);
        assert(t.drop_last() =~= events.take(n - 1));
        assert(t.last() == events[n - 1]);
        reveal(stream_advanced);
    }
}

/// `decimal_text` is never empty.
proof fn lemma_decimal_nonempty(a: nat)
    ensures
        decimal_text(a).len() >= 1,
    decreases a,
{
    if a >= 10 {
        lemma_decimal_nonempty(a / 10);
    }
}

/// Different numbers have different decimal texts.
proof fn lemma_decimal_injective(a: nat, b: nat)
    requires
        decimal_text(a) == decimal_text(b),
    ensures
        a == b,
    decreases a,
{
    if a < 10 && b < 10 {
        assert(decimal_text(a)[0] == digit_char(a));
        assert(decimal_text(b)[0] == digit_char(b));
    } else if a < 10 {
        lemma_decimal_nonempty(b / 10);
        assert(decimal_text(b).len() >= 2);
    } else if b < 10 {
        lemma_decimal_nonempty(a / 10);
        assert(decimal_text(a).len() >= 2);
    } else {
        let da = decimal_text(a / 10);
        let db = decimal_text(b / 10);
        assert(decimal_text(a) == da.push(digit_char(a % 10)));
        assert(decimal_text(b) == db.push(digit_char(b % 10)));
        assert(da =~= decimal_text(a).drop_last());
        assert(db =~= decimal_text(b).drop_last());
        lemma_decimal_injective(a / 10, b / 10);
        assert(digit_char(a % 10) == decimal_text(a).last());
        assert(a % 10 == b % 10);
        assert(a == 10 * (a / 10) + a % 10);
        assert(b == 10 * (b / 10) + b % 10);
    }
}

/// The text of the error code for an HTTP status number holds the number's
/// decimal digits.
pub proof fn law_error_code_text_has_number(code: u16)
    ensures
        exists|i: int|
            0 <= i && i + decimal_text(code as nat).len() <= spec_error_code_text(spec_from_u16(code)).len()
                && #[trigger] spec_error_code_text(spec_from_u16(code)).subrange(i, i + decimal_text(code as nat).len())
                == decimal_text(code as nat),
{
    let d = decimal_text(code as nat);
    let t = spec_error_code_text(spec_from_u16(code));
    reveal_with_fuel(decimal_text, 4);
    let w: int = if code == 401 {
        23
    } else if code == 403 {
        14
    } else if code == 429 {
        13
    } else if code == 500 {
        13
    } else if code == 503 {
        20
    } else {
        24
    };
    if code == 401 {
        reveal_strlit("InvalidAuthentication (401)");
        assert(d =~= seq!['4', '0', '1']);
    } else if code == 403 {
        reveal_strlit("NotSupported (403)");
        assert(d =~= seq!['4', '0', '3']);
    } else if code == 429 {
        reveal_strlit("RateLimited (429)");
        assert(d =~= seq!['4', '2', '9']);
    } else if code == 500 {
        reveal_strlit("ServerError (500)");
        assert(d =~= seq!['5', '0', '0']);
    } else if code == 503 {
        reveal_strlit("ServiceUnavailable (503)");
        assert(d =~= seq!['5', '0', '3']);
    } else {
        reveal_strlit("Unspecified error code: ");
        assert(t == "Unspecified error code: "@ + d);
    }
    assert(t.subrange(w, w + d.len()) =~= d);
}

/// Different HTTP status numbers give error codes with different texts.
pub proof fn law_error_code_text_injective(c1: u16, c2: u16)
    requires
        c1 != c2,
    ensures
        spec_error_code_text(spec_from_u16(c1)) != spec_error_code_text(spec_from_u16(c2)),
{
    reveal_strlit("InvalidAuthentication (401)");
    reveal_strlit("NotSupported (403)");
    reveal_strlit("RateLimited (429)");
    reveal_strlit("ServerError (500)");
    reveal_strlit("ServiceUnavailable (503)");
    reveal_strlit("Unspecified error code: ");
    let t1 = spec_error_code_text(spec_from_u16(c1));
    let t2 = spec_error_code_text(spec_from_u16(c2));
    let p = "Unspecified error code: "@;
    if t1 == t2 {
        let named1 = c1 == 401 || c1 == 403 || c1 == 429 || c1 == 500 || c1 == 503;
        let named2 = c2 == 401 || c2 == 403 || c2 == 429 || c2 == 500 || c2 == 503;
        if !named1 && !named2 {
            assert(t1 == p + decimal_text(c1 as nat));
            assert(t2 == p + decimal_text(c2 as nat));
            assert(decimal_text(c1 as nat) =~= t1.subrange(p.len() as int, t1.len() as int));
            assert(decimal_text(c2 as nat) =~= t2.subrange(p.len() as int, t2.len() as int));
            lemma_decimal_injective(c1 as nat, c2 as nat);
        } else if !named1 {
            assert(t1[0] == 'U');
            assert(t2[0] != 'U');
        } else if !named2 {
            assert(t2[0] == 'U');
            assert(t1[0] != 'U');
        } else {
            assert(t1.len() != t2.len() || t1[0] != t2[0] || t1[4] != t2[4]);
        }
    }
}

/// The lint document reports every diagnostic, whether or not there are
/// errors: one entry per warning (in order, marked as a warning, with its
/// text and position) followed by one per error (marked as an error).
pub proof fn law_lint_reports_every_diagnostic(warnings: Seq<Diagnostic>, errors: Seq<Diagnostic>)
    ensures
        reported_view(warnings, errors).len() == warnings.len() + errors.len(),
        forall|i: int| 0 <= i < warnings.len() ==> #[trigger] reported_view(warnings, errors)[i]
            == diagnostic_fields(warnings[i], true),
        forall|j: int| 0 <= j < errors.len() ==> #[trigger] reported_view(warnings, errors)[warnings.len() + j]
            == diagnostic_fields(errors[j], false),
{
    let r = reported_view(warnings, errors);
    assert forall|j: int| 0 <= j < errors.len() implies #[trigger] r[warnings.len() + j]
        == diagnostic_fields(errors[j], false) by {
        assert(r[warnings.len() + j] == Seq::new(errors.len(), |i: int| diagnostic_fields(errors[i], false))[j]);
    }
}

/// The entry of a diagnostic reads back its text, its position, its file
/// and whether it is a warning.
pub proof fn law_diagnostic_entry(d: Diagnostic, is_warning: bool)
    ensures
        diagnostic_fields(d, is_warning) matches JsonView::Object(e) && {
            &&& view_keys_sorted(e)
            &&& view_lookup(e, "is_warning"@) == Some(JsonView::Bool(is_warning))
            &&& view_lookup(e, "text"@) == Some(JsonView::Str(d.message@))
            &&& view_lookup(e, "start"@) == Some(JsonView::Num(d.span.start as u64))
            &&& view_lookup(e, "end"@) == Some(JsonView::Num(d.span.end as u64))
            &&& view_lookup(e, "source_file"@) == Some(JsonView::Str(d.span.source_file@))
        },
{
    reveal_strlit("start");
    reveal_strlit("end");
    reveal_strlit("text");
    reveal_strlit("is_warning");
    reveal_strlit("source_file");
    assert("start"@.len() == 5);
    assert("end"@.len() == 3);
    assert("text"@.len() == 4);
    assert("is_warning"@.len() == 10);
    assert("source_file"@.len() == 11);
    assert("start"@ != "end"@);
    assert("start"@ != "text"@);
    assert("start"@ != "is_warning"@);
    assert("start"@ != "source_file"@);
    assert("end"@ != "text"@);
    assert("end"@ != "is_warning"@);
    assert("end"@ != "source_file"@);
    assert("text"@ != "is_warning"@);
    assert("text"@ != "source_file"@);
    assert("is_warning"@ != "source_file"@);
    let e0: Seq<(Seq<char>, JsonView)> = seq![];
    let e1 = view_insert(e0, "start"@, JsonView::Num(d.span.start as u64));
    let e2 = view_insert(e1, "end"@, JsonView::Num(d.span.end as u64));
    let e3 = view_insert(e2, "text"@, JsonView::Str(d.message@));
    let e4 = view_insert(e3, "is_warning"@, JsonView::Bool(is_warning));
    let e5 = view_insert(e4, "source_file"@, JsonView::Str(d.span.source_file@));
    assert(view_keys_sorted(e0));
    law_object_set_then_get(e0, "start"@, JsonView::Num(d.span.start as u64), "start"@);
    law_object_set_then_get(e0, "start"@, JsonView::Num(d.span.start as u64), "end"@);
    law_object_set_then_get(e0, "start"@, JsonView::Num(d.span.start as u64), "text"@);
    law_object_set_then_get(e0, "start"@, JsonView::Num(d.span.start as u64), "is_warning"@);
    law_object_set_then_get(e0, "start"@, JsonView::Num(d.span.start as u64), "source_file"@);
    law_object_set_then_get(e1, "end"@, JsonView::Num(d.span.end as u64), "start"@);
    law_object_set_then_get(e1, "end"@, JsonView::Num(d.span.end as u64), "end"@);
    law_object_set_then_get(e1, "end"@, JsonView::Num(d.span.end as u64), "text"@);
    law_object_set_then_get(e1, "end"@, JsonView::Num(d.span.end as u64), "is_warning"@);
    law_object_set_then_get(e1, "end"@, JsonView::Num(d.span.end as u64), "source_file"@);
    law_object_set_then_get(e2, "text"@, JsonView::Str(d.message@), "start"@);
    law_object_set_then_get(e2, "text"@, JsonView::Str(d.message@), "end"@);
    law_object_set_then_get(e2, "text"@, JsonView::Str(d.message@), "text"@);
    law_object_set_then_get(e2, "text"@, JsonView::Str(d.message@), "is_warning"@);
    law_object_set_then_get(e2, "text"@, JsonView::Str(d.message@), "source_file"@);
    law_object_set_then_get(e3, "is_warning"@, JsonView::Bool(is_warning), "start"@);
    law_object_set_then_get(e3, "is_warning"@, JsonView::Bool(is_warning), "end"@);
    law_object_set_then_get(e3, "is_warning"@, JsonView::Bool(is_warning), "text"@);
    law_object_set_then_get(e3, "is_warning"@, JsonView::Bool(is_warning), "is_warning"@);
    law_object_set_then_get(e3, "is_warning"@, JsonView::Bool(is_warning), "source_file"@);
    law_object_set_then_get(e4, "source_file"@, JsonView::Str(d.span.source_file@), "start"@);
    law_object_set_then_get(e4, "source_file"@, JsonView::Str(d.span.source_file@), "end"@);
    law_object_set_then_get(e4, "source_file"@, JsonView::Str(d.span.source_file@), "text"@);
    law_object_set_then_get(e4, "source_file"@, JsonView::Str(d.span.source_file@), "is_warning"@);
    law_object_set_then_get(e4, "source_file"@, JsonView::Str(d.span.source_file@), "source_file"@);
    assert("start"@ != "end"@);
    assert("start"@ != "text"@);
    assert("start"@ != "is_warning"@);
    assert("start"@ != "source_file"@);
    assert("end"@ != "text"@);
    assert("end"@ != "is_warning"@);
    assert("end"@ != "source_file"@);
    assert("text"@ != "is_warning"@);
    assert("text"@ != "source_file"@);
    assert("is_warning"@ != "source_file"@);
    assert(diagnostic_fields(d, is_warning) == JsonView::Object(e5));
}

/// The lint document: `ok` is true exactly when there is a response, the
/// `diagnostics` array is the reported entries, and `response` is the
/// response or `null`.
pub proof fn law_lint_document(diagnostics: Seq<JsonView>, response: Option<JsonView>)
    ensures
        diagnostics_doc(diagnostics, response) matches JsonView::Object(e) && {
            &&& view_lookup(e, "ok"@) == Some(JsonView::Bool(response is Some))
            &&& view_lookup(e, "diagnostics"@) == Some(JsonView::Array(diagnostics))
            &&& view_lookup(e, "response"@) == Some(match response {
                Some(r) => r,
                None => JsonView::Null,
            })
        },
{
    reveal_strlit("ok");
    reveal_strlit("diagnostics");
    reveal_strlit("response");
    let rv = match response {
        Some(r) => r,
        None => JsonView::Null,
    };
    let e0: Seq<(Seq<char>, JsonView)> = seq![];
    let e1 = view_insert(e0, "ok"@, JsonView::Bool(response is Some));
    let e2 = view_insert(e1, "diagnostics"@, JsonView::Array(diagnostics));
    assert(view_keys_sorted(e0));
    law_object_set_then_get(e0, "ok"@, JsonView::Bool(response is Some), "ok"@);
    law_object_set_then_get(e0, "ok"@, JsonView::Bool(response is Some), "diagnostics"@);
    law_object_set_then_get(e0, "ok"@, JsonView::Bool(response is Some), "response"@);
    law_object_set_then_get(e1, "diagnostics"@, JsonView::Array(diagnostics), "ok"@);
    law_object_set_then_get(e1, "diagnostics"@, JsonView::Array(diagnostics), "diagnostics"@);
    law_object_set_then_get(e1, "diagnostics"@, JsonView::Array(diagnostics), "response"@);
    law_object_set_then_get(e2, "response"@, rv, "ok"@);
    law_object_set_then_get(e2, "response"@, rv, "diagnostics"@);
    law_object_set_then_get(e2, "response"@, rv, "response"@);
    assert("ok"@.len() == 2);
    assert("diagnostics"@.len() == 11);
    assert("response"@.len() == 8);
    assert("ok"@ != "diagnostics"@);
    assert("ok"@ != "response"@);
    assert(view_lookup(e1, "ok"@) == Some(JsonView::Bool(response is Some)));
    assert(view_lookup(e2, "ok"@) == Some(JsonView::Bool(response is Some)));
    assert(diagnostics_doc(diagnostics, response) == JsonView::Object(view_insert(e2, "response"@, rv)));
}

/// Input replacers apply one after another, each to what the ones before it
/// left: adding a replacer at the end replaces every occurrence of its key
/// in the earlier result by `{replacement}`.
pub proof fn law_input_replacers_fold(c: Seq<char>, reps: Seq<(String, String)>, r: (String, String))
    ensures
        spec_apply_inputs(c, reps.push(r)) == spec_replace(
            spec_apply_inputs(c, reps),
            r.0@,
            seq!['{'] + r.1@ + seq!['}'],
        ),
        spec_apply_inputs(c, seq![]) == c,
{
    assert(reps.push(r).drop_last() =~= reps);
}

/// Every input replacer takes part: the result of the first `i + 1`
/// replacers is that of the first `i` with the key of replacer `i` replaced.
pub proof fn law_input_replacers_each(c: Seq<char>, reps: Seq<(String, String)>, i: int)
    requires
        0 <= i < reps.len(),
    ensures
        spec_apply_inputs(c, reps.take(i + 1)) == spec_replace(
            spec_apply_inputs(c, reps.take(i)),
            reps[i].0@,
            seq!['{'] + reps[i].1@ + seq!['}'],
        ),
{
    law_input_replacers_fold(c, reps.take(i), reps[i]);
    assert(reps.take(i).push(reps[i]) =~= reps.take(i + 1));
}

/// Output replacers apply one after another in the same way, with the
/// replacement as it is.
pub proof fn law_output_replacers_fold(c: Seq<char>, reps: Seq<(String, String)>, r: (String, String))
    ensures
        spec_apply_outputs(c, reps.push(r)) == spec_replace(spec_apply_outputs(c, reps), r.0@, r.1@),
        spec_apply_outputs(c, seq![]) == c,
{
    assert(reps.push(r).drop_last() =~= reps);
}

/// With no replacers a prompt is left as it is; the input replacers all
/// act before the output replacers.
pub proof fn law_replacers_order(r: Replacers, content: Seq<char>)
    ensures
        spec_apply_replacers(r, content) == spec_apply_outputs(spec_apply_inputs(content, r.input@), r.output@),
        r.input@.len() == 0 && r.output@.len() == 0 ==> spec_apply_replacers(r, content) == content,
{
}

/// A parsed streamed event with a choice marks the response complete
/// exactly when that choice finished with `stop`, and records the finish
/// reason's name.
pub proof fn law_stream_complete_only_on_stop(
    a: LLMCompleteResponse,
    b: LLMCompleteResponse,
    e: ChatCompletionResponseDelta,
    l: web_time::Duration,
)
    requires
        stream_advanced(a, b, e, l),
        e.choices@.len() > 0,
    ensures
        b.metadata.baml_is_complete <==> e.choices@[0].finish_reason == Some(FinishReason::Stop),
        e.choices@[0].finish_reason is None <==> b.metadata.finish_reason is None,
        e.choices@[0].finish_reason matches Some(FinishReason::Length) ==> !b.metadata.baml_is_complete,
{
    reveal(stream_advanced);
}

/// Setting keys one after another from an empty object keeps them ascending.
proof fn lemma_properties_sorted(props: Seq<(String, serde_json::Value)>)
    ensures
        view_keys_sorted(spec_properties_object(props)),
    decreases props.len(),
{
    if props.len() > 0 {
        lemma_properties_sorted(props.drop_last());
        law_object_set_then_get(
            spec_properties_object(props.drop_last()),
            props.last().0@,
            JsonView::Raw(props.last().1),
            props.last().0@,
        );
    }
}

/// A streaming request's body is the plain body with `"stream": true`, and
/// it asks for usage (`stream_options`) exactly when the provider is
/// `openai`; for any other provider nothing else is added. (The plain body
/// is assumed not to set `stream_options` itself through the client's
/// options.)
pub proof fn law_stream_options_only_for_openai(c: OpenAIClient, p: PromptRef)
    requires
        spec_request_body(c, p, false) is Ok,
        view_lookup(spec_request_body(c, p, false)->Ok_0, "stream_options"@) is None,
    ensures
        spec_request_body(c, p, true) matches Ok(b) && {
            &&& view_lookup(b, "stream"@) == Some(JsonView::Bool(true))
            &&& (view_lookup(b, "stream_options"@) is Some <==> c.provider@ == "openai"@)
            &&& c.provider@ != "openai"@ ==> b == view_insert(
                spec_request_body(c, p, false)->Ok_0,
                "stream"@,
                JsonView::Bool(true),
            )
        },
{
    reveal_strlit("stream");
    reveal_strlit("stream_options");
    reveal_strlit("openai");
    reveal_strlit("prompt");
    reveal_strlit("messages");
    let plain = spec_request_body(c, p, false)->Ok_0;
    let base = spec_properties_object(c.properties.properties@);
    lemma_properties_sorted(c.properties.properties@);
    let k: Seq<char> = match p {
        PromptRef::Completion(_) => "prompt"@,
        PromptRef::Chat(_) => "messages"@,
    };
    let v: JsonView = choose|v: JsonView| plain == view_insert(base, k, v);
    assert(plain == view_insert(base, k, v));
    law_object_set_then_get(base, k, v, k);
    let s1 = view_insert(plain, "stream"@, JsonView::Bool(true));
    law_object_set_then_get(plain, "stream"@, JsonView::Bool(true), "stream_options"@);
    law_object_set_then_get(plain, "stream"@, JsonView::Bool(true), "stream"@);
    let so = JsonView::Object(seq![("include_usage"@, JsonView::Bool(true))]);
    law_object_set_then_get(s1, "stream_options"@, so, "stream"@);
    law_object_set_then_get(s1, "stream_options"@, so, "stream_options"@);
}

/// The JSON of a message's parts has one entry per part, in order, each the
/// JSON of that part alone; it fails exactly when some part fails.
pub proof fn law_parts_one_entry_each(ps: Seq<ChatMessagePart>)
    ensures
        spec_parts_json(ps) is Ok <==> (forall|i: int| 0 <= i < ps.len() ==> #[trigger] spec_part_json(ps[i]) is Ok),
        spec_parts_json(ps) matches Ok(v) ==> {
            &&& v.len() == ps.len()
            &&& forall|i: int| 0 <= i < ps.len() ==> Ok::<JsonView, Seq<char>>(#[trigger] v[i]) == spec_part_json(ps[i])
        },
    decreases ps.len(),
{
    if ps.len() > 0 {
        let q = ps.drop_last();
        law_parts_one_entry_each(q);
        assert forall|i: int| 0 <= i < q.len() implies q[i] == ps[i] by {}
        if spec_parts_json(ps) is Ok {
            assert(spec_part_json(ps[ps.len() - 1]) is Ok);
        } else if spec_parts_json(q) is Err {
            let j = choose|j: int| 0 <= j < q.len() && !(#[trigger] spec_part_json(q[j]) is Ok);
            assert(!(spec_part_json(ps[j]) is Ok));
        } else {
            assert(!(spec_part_json(ps[ps.len() - 1]) is Ok));
        }
    }
}

/// A message's object holds its role and, as `content`, the array of its
/// parts' JSON (one entry per part).
pub proof fn law_message_content(m: RenderedChatMessage)
    ensures
        spec_role_message(m) matches Ok(o) ==> (spec_parts_json(m.parts@) matches Ok(ps) && {
            &&& view_lookup(o, "role"@) == Some(JsonView::Str(m.role@))
            &&& view_lookup(o, "content"@) == Some(JsonView::Array(ps))
            &&& ps.len() == m.parts@.len()
        }),
        spec_role_message(m) is Ok <==> spec_parts_json(m.parts@) is Ok,
{
    reveal_strlit("role");
    reveal_strlit("content");
    law_parts_one_entry_each(m.parts@);
    if let Ok(ps) = spec_parts_json(m.parts@) {
        let e0: Seq<(Seq<char>, JsonView)> = seq![];
        assert(view_keys_sorted(e0));
        let e1 = view_insert(e0, "role"@, JsonView::Str(m.role@));
        assert("role"@.len() == 4);
        assert("content"@.len() == 7);
        assert("role"@ != "content"@);
        law_object_set_then_get(e0, "role"@, JsonView::Str(m.role@), "role"@);
        law_object_set_then_get(e1, "content"@, JsonView::Array(ps), "role"@);
        assert("role"@ != "content"@);
        law_object_set_then_get(e1, "content"@, JsonView::Array(ps), "content"@);
        assert(spec_role_message(m) == Ok::<_, Seq<char>>(view_insert(e1, "content"@, JsonView::Array(ps))));
    }
}

/// A chat's messages become one object each, in order; converting fails
/// exactly when some message fails.
pub proof fn law_messages_one_entry_each(ms: Seq<RenderedChatMessage>)
    ensures
        spec_messages_json(ms) is Ok <==> (forall|i: int| 0 <= i < ms.len() ==> #[trigger] spec_role_message(ms[i]) is Ok),
        spec_messages_json(ms) matches Ok(v) ==> {
            &&& v.len() == ms.len()
            &&& forall|i: int| 0 <= i < ms.len() ==> #[trigger] v[i] == JsonView::Object(spec_role_message(ms[i])->Ok_0)
        },
    decreases ms.len(),
{
    if ms.len() > 0 {
        let q = ms.drop_last();
        law_messages_one_entry_each(q);
        assert forall|i: int| 0 <= i < q.len() implies q[i] == ms[i] by {}
        if spec_messages_json(ms) is Ok {
            assert(spec_role_message(ms[ms.len() - 1]) is Ok);
        } else if spec_messages_json(q) is Err {
            let j = choose|j: int| 0 <= j < q.len() && !(#[trigger] spec_role_message(q[j]) is Ok);
            assert(!(spec_role_message(ms[j]) is Ok));
        } else {
            assert(!(spec_role_message(ms[ms.len() - 1]) is Ok));
        }
    }
}

/// The response the lint document carries: the schema preview, only when
/// there is no error.
pub open spec fn lint_response(errors: Seq<Diagnostic>, schema: Schema) -> Option<JsonView> {
    if errors.len() > 0 {
        None
    } else {
        Some(response_view(schema))
    }
}

/// What `lint_output` prints, read back: `ok` is true exactly when there is
/// no error, `diagnostics` has one entry per warning and then one per error
/// (warnings included whether or not there are errors), and `response` is
/// the schema preview exactly when there is no error, `null` otherwise.
pub proof fn law_lint_output(warnings: Seq<Diagnostic>, errors: Seq<Diagnostic>, schema: Schema)
    ensures
        diagnostics_doc(reported_view(warnings, errors), lint_response(errors, schema)) matches JsonView::Object(e)
            && {
            &&& view_lookup(e, "ok"@) == Some(JsonView::Bool(errors.len() == 0))
            &&& view_lookup(e, "diagnostics"@) matches Some(JsonView::Array(d)) && d.len() == warnings.len()
                + errors.len() && (forall|i: int|
                0 <= i < warnings.len() ==> #[trigger] d[i] == diagnostic_fields(warnings[i], true))
            &&& errors.len() > 0 ==> view_lookup(e, "response"@) == Some(JsonView::Null)
            &&& errors.len() == 0 ==> view_lookup(e, "response"@) == Some(response_view(schema))
        },
{
    law_lint_document(reported_view(warnings, errors), lint_response(errors, schema));
    law_lint_reports_every_diagnostic(warnings, errors);
}

/// A text part becomes an object whose `text` is the text and whose `type`
/// is `text`.
pub proof fn law_text_part(t: String)
    ensures
        spec_part_json(ChatMessagePart::Text(t)) matches Ok(JsonView::Object(o)) && {
            &&& view_lookup(o, "text"@) == Some(JsonView::Str(t@))
            &&& view_lookup(o, "type"@) == Some(JsonView::Str("text"@))
        },
{
    reveal_strlit("text");
    reveal_strlit("type");
    assert("text"@.len() == 4);
    assert("type"@.len() == 4);
    assert("text"@[1] != "type"@[1]);
    assert("text"@ != "type"@);
    let e0: Seq<(Seq<char>, JsonView)> = seq![];
    assert(view_keys_sorted(e0));
    let e1 = view_insert(e0, "type"@, JsonView::Str("text"@));
    law_object_set_then_get(e0, "type"@, JsonView::Str("text"@), "type"@);
    law_object_set_then_get(e0, "type"@, JsonView::Str("text"@), "text"@);
    law_object_set_then_get(e1, "text"@, JsonView::Str(t@), "type"@);
    law_object_set_then_get(e1, "text"@, JsonView::Str(t@), "text"@);
    assert(spec_text_message(e0, t@) == view_insert(e1, "text"@, JsonView::Str(t@)));
}

/// Whether `pat` occurs somewhere in `s`.
pub open spec fn occurs_in(s: Seq<char>, pat: Seq<char>) -> bool {
    exists|i: int| 0 <= i && i + pat.len() <= s.len() && #[trigger] s.subrange(i, i + pat.len()) == pat
}

/// The start of a replaced text agrees with the start of the original until
/// the first inserted replacement.
proof fn lemma_replace_prefix(t: Seq<char>, pat: Seq<char>, rep: Seq<char>, k: int)
    requires
        pat.len() > 0,
        rep.len() > 0,
        0 <= k <= spec_replace(t, pat, rep).len(),
    ensures
        (k <= t.len() && spec_replace(t, pat, rep).subrange(0, k) == t.subrange(0, k)) || exists|j: int|
            0 <= j < k && #[trigger] spec_replace(t, pat, rep)[j] == rep[0],
    decreases t.len(),
{
    let r = spec_replace(t, pat, rep);
    if t.len() < pat.len() {
        assert(r == t);
    } else if t.subrange(0, pat.len() as int) == pat {
        if k > 0 {
            assert(r[0] == rep[0]);
        } else {
            assert(r.subrange(0, 0) =~= t.subrange(0, 0));
        }
    } else if k == 0 {
        assert(r.subrange(0, 0) =~= t.subrange(0, 0));
    } else {
        let t1 = t.drop_first();
        let r1 = spec_replace(t1, pat, rep);
        assert(r == seq![t[0]] + r1);
        lemma_replace_prefix(t1, pat, rep, k - 1);
        if k - 1 <= t1.len() && r1.subrange(0, k - 1) == t1.subrange(0, k - 1) {
            assert forall|m: int| 0 <= m < k implies r[m] == t[m] by {
                if m > 0 {
                    assert(r1.subrange(0, k - 1)[m - 1] == t1.subrange(0, k - 1)[m - 1]);
                }
            }
            assert(r.subrange(0, k) =~= t.subrange(0, k));
        } else {
            let j = choose|j: int| 0 <= j < k - 1 && #[trigger] r1[j] == rep[0];
            assert(r[j + 1] == rep[0]);
        }
    }
}

/// Replacing every occurrence of a non-empty pattern leaves none, when the
/// replacement does not hold the pattern and neither its first nor its last
/// character occurs in the pattern (so no occurrence can straddle it).
pub proof fn law_replace_leaves_no_occurrence(s: Seq<char>, pat: Seq<char>, rep: Seq<char>)
    requires
        pat.len() > 0,
        rep.len() > 0,
        !pat.contains(rep[0]),
        !pat.contains(rep.last()),
        !occurs_in(rep, pat),
    ensures
        !occurs_in(spec_replace(s, pat, rep), pat),
    decreases s.len(),
{
    let r = spec_replace(s, pat, rep);
    let l = pat.len() as int;
    if s.len() < l {
        assert(r == s);
    } else if s.subrange(0, l) == pat {
        let t = s.subrange(l, s.len() as int);
        law_replace_leaves_no_occurrence(t, pat, rep);
        let rest = spec_replace(t, pat, rep);
        assert(r == rep + rest);
        assert forall|i: int| 0 <= i && i + l <= r.len() implies #[trigger] r.subrange(i, i + l) != pat by {
            if i + l <= rep.len() {
                assert(r.subrange(i, i + l) =~= rep.subrange(i, i + l));
            } else if i < rep.len() {
                let k = rep.len() - 1 - i;
                if r.subrange(i, i + l) == pat {
                    assert(pat[k] == r[rep.len() - 1]);
                    assert(pat[k] == rep.last());
                }
            } else {
                assert(r.subrange(i, i + l) =~= rest.subrange(i - rep.len(), i - rep.len() + l));
            }
        }
    } else {
        let t = s.drop_first();
        law_replace_leaves_no_occurrence(t, pat, rep);
        let rest = spec_replace(t, pat, rep);
        assert(r == seq![s[0]] + rest);
        assert forall|i: int| 0 <= i && i + l <= r.len() implies #[trigger] r.subrange(i, i + l) != pat by {
            if i == 0 {
                if r.subrange(0, l) == pat {
                    lemma_replace_prefix(t, pat, rep, l - 1);
                    if l - 1 <= t.len() && rest.subrange(0, l - 1) == t.subrange(0, l - 1) {
                        assert(s.subrange(0, l) =~= seq![s[0]] + t.subrange(0, l - 1));
                        assert(r.subrange(0, l) =~= seq![s[0]] + rest.subrange(0, l - 1));
                    } else {
                        let j = choose|j: int| 0 <= j < l - 1 && #[trigger] rest[j] == rep[0];
                        assert(pat[j + 1] == r[j + 1]);
                        assert(pat[j + 1] == rep[0]);
                    }
                }
            } else {
                assert(r.subrange(i, i + l) =~= rest.subrange(i - 1, i - 1 + l));
            }
        }
    }
}

/// After an input replacer runs, its key is gone from the prompt: every
/// occurrence became `{replacement}`. This holds for any key that is not
/// empty, holds no brace and does not occur in its own replacement.
pub proof fn law_input_replacer_removes_key(c: Seq<char>, reps: Seq<(String, String)>, r: (String, String))
    requires
        r.0@.len() > 0,
        !r.0@.contains('{'),
        !r.0@.contains('}'),
        !occurs_in(r.1@, r.0@),
    ensures
        !occurs_in(spec_apply_inputs(c, reps.push(r)), r.0@),
{
    let pat = r.0@;
    let v = r.1@;
    let rep = seq!['{'] + v + seq!['}'];
    let l = pat.len() as int;
    assert(rep[0] == '{');
    assert(rep.last() == '}');
    assert forall|i: int| 0 <= i && i + l <= rep.len() implies #[trigger] rep.subrange(i, i + l) != pat by {
        if rep.subrange(i, i + l) == pat {
            if i == 0 {
                assert(pat[0] == rep[0]);
            } else if i + l == rep.len() {
                assert(pat[l - 1] == rep[rep.len() - 1]);
            } else {
                assert(rep.subrange(i, i + l) =~= v.subrange(i - 1, i - 1 + l));
            }
        }
    }
    law_input_replacers_fold(c, reps, r);
    law_replace_leaves_no_occurrence(spec_apply_inputs(c, reps), pat, rep);
}

} // verus!
