//! A JSON document model whose objects keep their keys in ascending order
//! (the order in which `serde_json` writes the keys of a map), and a compact
//! writer for it.
use vstd::prelude::*;

use crate::text::{chars_of, decimal, decimal_text, digit_char, push_char};

verus! {

/// `serde_json::Value`, carried through unchanged.
#[verifier::external_type_specification]
#[verifier::external_body]
pub struct ExJsonValue(serde_json::Value);

/// A lower-case hexadecimal digit.
pub open spec fn hex_digit(d: nat) -> char {
    if d < 10 {
        digit_char(d)
    } else if d == 10 {
        'a'
    } else if d == 11 {
        'b'
    } else if d == 12 {
        'c'
    } else if d == 13 {
        'd'
    } else if d == 14 {
        'e'
    } else {
        'f'
    }
}

/// How `serde_json` writes one character inside a string literal: `"` and
/// `\` behind a backslash; backspace, tab, line feed, form feed and carriage
/// return as `\b \t \n \f \r`; every other control character below
/// `0x20` as `\u00XX` in lower-case hex; any other character as itself.
pub open spec fn json_char_escape(c: char) -> Seq<char> {
    if c == '"' {
        seq!['\\', '"']
    } else if c == '\\' {
        seq!['\\', '\\']
    } else if c == '\u{8}' {
        seq!['\\', 'b']
    } else if c == '\t' {
        seq!['\\', 't']
    } else if c == '\n' {
        seq!['\\', 'n']
    } else if c == '\u{c}' {
        seq!['\\', 'f']
    } else if c == '\r' {
        seq!['\\', 'r']
    } else if (c as nat) < 0x20 {
        seq!['\\', 'u', '0', '0', hex_digit((c as nat) / 16), hex_digit((c as nat) % 16)]
    } else {
        seq![c]
    }
}

/// The characters of a string with each one escaped as `serde_json` does.
pub open spec fn json_escape(s: Seq<char>) -> Seq<char>
    decreases s.len(),
{
    if s.len() == 0 {
        Seq::empty()
    } else {
        json_escape(s.drop_last()) + json_char_escape(s.last())
    }
}

/// The text that `serde_json::to_string` writes for a string: the escaped
/// string between double quotes.
pub open spec fn json_string_literal(s: Seq<char>) -> Seq<char> {
    seq!['"'] + json_escape(s) + seq!['"']
}

/// The compact text that `serde_json::to_string` writes for a value.
pub uninterp spec fn json_value_text(v: serde_json::Value) -> Seq<char>;

/// Whether `serde_json::from_str::<serde_json::Value>` accepts the text.
pub uninterp spec fn json_value_parses(s: Seq<char>) -> bool;

/// The value that `serde_json::from_str::<serde_json::Value>` reads from the
/// text, when it accepts it.
pub uninterp spec fn parsed_json_value(s: Seq<char>) -> serde_json::Value;

/// Calls `serde_json::to_string` on a string slice. The contract claims the
/// result is `json_string_literal` of the slice's characters: the string
/// between double quotes, escaped by `serde_json`'s table (`ESCAPE` and
/// `write_char_escape` in `ser.rs`). Serialising a `str` cannot fail (it
/// writes into memory and `str` has no map keys), so the error arm is never
/// taken.
#[verifier::external_body]
pub(crate) fn quote_json_string(s: &str) -> (res: String)
    ensures
        res@ == json_string_literal(s@),
{
    match serde_json::to_string(s) {
        Ok(t) => t,
        Err(_) => String::new(),
    }
}

/// Calls `serde_json::to_string` on a `serde_json::Value`. The contract
/// claims the result is the name `json_value_text` of the value; a `Value`
/// only has string keys, so serialising it cannot fail.
#[verifier::external_body]
pub(crate) fn value_to_text(v: &serde_json::Value) -> (res: String)
    ensures
        res@ == json_value_text(*v),
{
    match serde_json::to_string(v) {
        Ok(t) => t,
        Err(_) => String::new(),
    }
}

/// Calls `serde_json::from_str::<serde_json::Value>`. The contract claims
/// that a value comes back exactly when the text parses (the name
/// `json_value_parses`) and that it is the name `parsed_json_value` of the
/// text; what the value holds is not stated.
#[verifier::external_body]
pub(crate) fn parse_json_value(s: &str) -> (res: Option<serde_json::Value>)
    ensures
        res is Some <==> json_value_parses(s@),
        res matches Some(v) ==> v == parsed_json_value(s@),
{
    match serde_json::from_str::<serde_json::Value>(s) {
        Ok(v) => Some(v),
        Err(_) => None,
    }
}

/// Calls `Clone::clone` on a `serde_json::Value`; the derived clone gives an
/// equal value.
#[verifier::external_body]
pub(crate) fn clone_value(v: &serde_json::Value) -> (res: serde_json::Value)
    ensures
        res == *v,
{
    v.clone()
}

/// A JSON document. `Object` entries are kept in strictly ascending key
/// order (see `keys_sorted`); `Raw` carries a `serde_json::Value` as it is.
#[derive(Debug)]
pub enum Json {
    Null,
    Bool(bool),
    Num(u64),
    Str(String),
    Array(Vec<Json>),
    Object(Vec<(String, Json)>),
    Raw(serde_json::Value),
}

/// The contents of a document, with strings as character sequences.
pub enum JsonView {
    Null,
    Bool(bool),
    Num(u64),
    Str(Seq<char>),
    Array(Seq<JsonView>),
    Object(Seq<(Seq<char>, JsonView)>),
    Raw(serde_json::Value),
}

/// The contents of a document.
pub open spec fn jview(j: Json) -> JsonView
    decreases j,
{
    match j {
        Json::Null => JsonView::Null,
        Json::Bool(b) => JsonView::Bool(b),
        Json::Num(n) => JsonView::Num(n),
        Json::Str(s) => JsonView::Str(s@),
        Json::Raw(v) => JsonView::Raw(v),
        Json::Array(items) => JsonView::Array(
            Seq::new(
                items@.len(),
                |i: int|
                    {
                        if 0 <= i < items@.len() {
                            proof {
                                broadcast use vstd::std_specs::vec::axiom_vec_index_decreases;

                                assert(decreases_to!(items => items[i]));
                            }
                            jview(items@[i])
                        } else {
                            JsonView::Null
                        }
                    },
            ),
        ),
        Json::Object(entries) => JsonView::Object(
            Seq::new(
                entries@.len(),
                |i: int|
                    {
                        if 0 <= i < entries@.len() {
                            proof {
                                broadcast use vstd::std_specs::vec::axiom_vec_index_decreases;

                                assert(decreases_to!(entries => entries[i]));
                                assert(decreases_to!(entries[i] => entries[i].1));
                            }
                            (entries@[i].0@, jview(entries@[i].1))
                        } else {
                            (Seq::empty(), JsonView::Null)
                        }
                    },
            ),
        ),
    }
}

/// The contents of an object's entries.
pub open spec fn entries_view(e: Seq<(String, Json)>) -> Seq<(Seq<char>, JsonView)> {
    Seq::new(e.len(), |i: int| (e[i].0@, jview(e[i].1)))
}

/// The contents of a list of documents.
pub open spec fn items_view(items: Seq<Json>) -> Seq<JsonView> {
    Seq::new(items.len(), |i: int| jview(items[i]))
}

/// The contents of an object document are the contents of its entries.
pub proof fn lemma_jview_object(e: Vec<(String, Json)>)
    ensures
        jview(Json::Object(e)) == JsonView::Object(entries_view(e@)),
{
    if let JsonView::Object(v) = jview(Json::Object(e)) {
        assert(v =~= entries_view(e@));
    }
}

/// The contents of an array document are the contents of its items.
pub proof fn lemma_jview_array(items: Vec<Json>)
    ensures
        jview(Json::Array(items)) == JsonView::Array(items_view(items@)),
{
    if let JsonView::Array(v) = jview(Json::Array(items)) {
        assert(v =~= items_view(items@));
    }
}

/// The contents of an object's entries after setting `key` to `value`, for
/// entries whose keys ascend: an equal key has its value replaced, otherwise
/// the entry goes before the first greater key.
pub open spec fn view_insert(e: Seq<(Seq<char>, JsonView)>, key: Seq<char>, value: JsonView) -> Seq<
    (Seq<char>, JsonView),
>
    decreases e.len(),
{
    if e.len() == 0 {
        seq![(key, value)]
    } else if e[0].0 == key {
        e.update(0, (key, value))
    } else if key_lt(key, e[0].0) {
        seq![(key, value)] + e
    } else {
        seq![e[0]] + view_insert(e.drop_first(), key, value)
    }
}

/// Lexicographic order on characters by code point: the order of `String`'s
/// `Ord` (UTF-8 preserves code point order).
pub open spec fn key_lt(a: Seq<char>, b: Seq<char>) -> bool
    decreases a.len(),
{
    if a.len() == 0 {
        b.len() > 0
    } else if b.len() == 0 {
        false
    } else if a[0] != b[0] {
        (a[0] as int) < (b[0] as int)
    } else {
        key_lt(a.drop_first(), b.drop_first())
    }
}

/// The keys of the entries are strictly ascending.
pub open spec fn keys_sorted(e: Seq<(String, Json)>) -> bool {
    forall|i: int, j: int| 0 <= i < j < e.len() ==> key_lt(#[trigger] e[i].0@, #[trigger] e[j].0@)
}

/// `key_lt` is irreflexive.
pub proof fn lemma_key_lt_irreflexive(a: Seq<char>)
    ensures
        !key_lt(a, a),
    decreases a.len(),
{
    if a.len() > 0 {
        lemma_key_lt_irreflexive(a.drop_first());
    }
}

/// Two different keys are ordered one way or the other, never both.
pub proof fn lemma_key_lt_total(a: Seq<char>, b: Seq<char>)
    ensures
        a != b ==> (key_lt(a, b) || key_lt(b, a)),
        !(key_lt(a, b) && key_lt(b, a)),
    decreases a.len(),
{
    if a.len() > 0 && b.len() > 0 {
        if a[0] == b[0] {
            lemma_key_lt_total(a.drop_first(), b.drop_first());
            if a != b {
                assert(a.drop_first() != b.drop_first()) by {
                    if a.drop_first() == b.drop_first() {
                        assert(a =~= seq![a[0]] + a.drop_first());
                        assert(b =~= seq![b[0]] + b.drop_first());
                    }
                }
            }
        } else {
        }
    } else if a.len() == 0 && b.len() == 0 {
        assert(a =~= b);
    }
}

/// `key_lt` is transitive.
pub proof fn lemma_key_lt_transitive(a: Seq<char>, b: Seq<char>, c: Seq<char>)
    requires
        key_lt(a, b),
        key_lt(b, c),
    ensures
        key_lt(a, c),
    decreases a.len(),
{
    if a.len() > 0 && b.len() > 0 && c.len() > 0 {
        if a[0] == b[0] && b[0] == c[0] {
            lemma_key_lt_transitive(a.drop_first(), b.drop_first(), c.drop_first());
        }
    }
}

/// Setting a key that is present replaces its entry in place.
proof fn lemma_view_insert_update(e: Seq<(Seq<char>, JsonView)>, key: Seq<char>, value: JsonView, p: int)
    requires
        0 <= p < e.len(),
        e[p].0 == key,
        forall|i: int| 0 <= i < p ==> key_lt(#[trigger] e[i].0, key),
    ensures
        view_insert(e, key, value) == e.update(p, (key, value)),
    decreases p,
{
    if p > 0 {
        lemma_key_lt_irreflexive(key);
        lemma_key_lt_total(e[0].0, key);
        let r = e.drop_first();
        assert forall|i: int| 0 <= i < p - 1 implies key_lt(#[trigger] r[i].0, key) by {
            assert(r[i] == e[i + 1]);
        }
        lemma_view_insert_update(r, key, value, p - 1);
        assert(seq![e[0]] + r.update(p - 1, (key, value)) =~= e.update(p, (key, value)));
    }
}

/// Setting a key that is absent puts its entry between the smaller and the
/// greater keys.
proof fn lemma_view_insert_insert(e: Seq<(Seq<char>, JsonView)>, key: Seq<char>, value: JsonView, p: int)
    requires
        0 <= p <= e.len(),
        forall|i: int| 0 <= i < p ==> key_lt(#[trigger] e[i].0, key),
        forall|i: int| p <= i < e.len() ==> key_lt(key, #[trigger] e[i].0),
    ensures
        view_insert(e, key, value) == e.insert(p, (key, value)),
    decreases p,
{
    lemma_key_lt_irreflexive(key);
    if e.len() == 0 {
        assert(e.insert(p, (key, value)) =~= seq![(key, value)]);
    } else if p == 0 {
        assert(e[0].0 != key);
        assert(e.insert(0, (key, value)) =~= seq![(key, value)] + e);
    } else {
        lemma_key_lt_total(e[0].0, key);
        let r = e.drop_first();
        assert forall|i: int| 0 <= i < p - 1 implies key_lt(#[trigger] r[i].0, key) by {
            assert(r[i] == e[i + 1]);
        }
        assert forall|i: int| p - 1 <= i < r.len() implies key_lt(key, #[trigger] r[i].0) by {
            assert(r[i] == e[i + 1]);
        }
        lemma_view_insert_insert(r, key, value, p - 1);
        assert(seq![e[0]] + r.insert(p - 1, (key, value)) =~= e.insert(p, (key, value)));
    }
}

/// Compares two character sequences by `key_lt`.
pub fn chars_lt(a: &Vec<char>, b: &Vec<char>) -> (res: bool)
    ensures
        res == key_lt(a@, b@),
{
    let mut i: usize = 0;
    assert(a@.skip(0) =~= a@);
    assert(b@.skip(0) =~= b@);
    while i < a.len() && i < b.len()
        invariant
            i <= a.len(),
            i <= b.len(),
            forall|k: int| 0 <= k < i ==> a@[k] == b@[k],
            key_lt(a@, b@) == key_lt(a@.skip(i as int), b@.skip(i as int)),
        decreases a.len() - i,
    {
        if a[i] != b[i] {
            return a[i] < b[i];
        }
        assert(a@.skip(i as int).drop_first() =~= a@.skip(i + 1));
        assert(b@.skip(i as int).drop_first() =~= b@.skip(i + 1));
        i = i + 1;
    }
    i < b.len()
}

/// Sets `key` to `value` in an object's entries, keeping the keys strictly
/// ascending: an entry with an equal key has its value replaced in place,
/// otherwise the entry goes in before the first greater key. This is what
/// `serde_json::Map::insert` does to a map's iteration order.
pub fn object_insert(entries: &mut Vec<(String, Json)>, key: String, value: Json)
    requires
        keys_sorted(old(entries)@),
    ensures
        keys_sorted(final(entries)@),
        entries_view(final(entries)@) == view_insert(entries_view(old(entries)@), key@, jview(value)),
{
    let ghost e = entries@;
    let kc = chars_of(key.as_str());
    let n = entries.len();
    let mut p: usize = 0;
    let mut found = false;
    while p < n && !found
        invariant
            n == entries@.len(),
            entries@ == e,
            keys_sorted(e),
            kc@ == key@,
            p <= n,
            forall|i: int| 0 <= i < p ==> key_lt(#[trigger] e[i].0@, key@),
            found ==> p < n && !key_lt(e[p as int].0@, key@),
        decreases n - p + (if found { 0int } else { 1int }),
    {
        let ec = chars_of(entries[p].0.as_str());
        if chars_lt(&ec, &kc) {
            p = p + 1;
        } else {
            found = true;
        }
    }
    if p < n {
        let ec = chars_of(entries[p].0.as_str());
        if !chars_lt(&kc, &ec) {
            proof {
                lemma_key_lt_total(e[p as int].0@, key@);
            }
            let ghost kv = key@;
            let ghost vv = jview(value);
            entries.set(p, (key, value));
            proof {
                lemma_view_insert_update(entries_view(e), kv, vv, p as int);
                assert(entries_view(entries@) =~= entries_view(e).update(p as int, (kv, vv)));
                assert forall|i: int, j: int|
                    0 <= i < j < entries@.len() implies key_lt(
                    #[trigger] entries@[i].0@,
                    #[trigger] entries@[j].0@,
                ) by {
                    assert(key_lt(e[i].0@, e[j].0@));
                }
            }
            return;
        }
    }
    proof {
        assert forall|i: int| 0 <= i < e.len() implies e[i].0@ != key@ by {
            if i < p {
                lemma_key_lt_irreflexive(key@);
            } else {
                lemma_key_lt_irreflexive(key@);
                if i > p {
                    lemma_key_lt_transitive(key@, e[p as int].0@, e[i].0@);
                }
            }
        }
        assert forall|i: int| p <= i < e.len() implies key_lt(key@, #[trigger] e[i].0@) by {
            if i > p {
                lemma_key_lt_transitive(key@, e[p as int].0@, e[i].0@);
            }
        }
    }
    let ghost kv = key@;
    let ghost vv = jview(value);
    entries.insert(p, (key, value));
    proof {
        lemma_view_insert_insert(entries_view(e), kv, vv, p as int);
        assert(entries_view(entries@) =~= entries_view(e).insert(p as int, (kv, vv)));
        assert forall|i: int, j: int|
            0 <= i < j < entries@.len() implies key_lt(
            #[trigger] entries@[i].0@,
            #[trigger] entries@[j].0@,
        ) by {
            if i < p && j == p {
            } else if i < p && j > p {
                lemma_key_lt_transitive(e[i].0@, key@, e[j - 1].0@);
            } else if i == p {
            } else if i < p {
            } else {
                assert(key_lt(e[i - 1].0@, e[j - 1].0@));
            }
        }
    }
}

/// The compact text of a document: what `serde_json::to_string` writes for
/// the corresponding `serde_json::Value` (no spaces; object keys in the order
/// held, which `keys_sorted` makes ascending).
pub open spec fn view_text(v: JsonView) -> Seq<char>
    decreases v,
{
    match v {
        JsonView::Null => seq!['n', 'u', 'l', 'l'],
        JsonView::Bool(b) => if b {
            seq!['t', 'r', 'u', 'e']
        } else {
            seq!['f', 'a', 'l', 's', 'e']
        },
        JsonView::Num(n) => decimal_text(n as nat),
        JsonView::Str(s) => json_string_literal(s),
        JsonView::Raw(x) => json_value_text(x),
        JsonView::Array(items) => seq!['['] + view_items_text(items) + seq![']'],
        JsonView::Object(entries) => seq!['{'] + view_entries_text(entries) + seq!['}'],
    }
}

/// The texts of the items, separated by commas.
pub open spec fn view_items_text(items: Seq<JsonView>) -> Seq<char>
    decreases items,
{
    if items.len() == 0 {
        seq![]
    } else if items.len() == 1 {
        view_text(items[0])
    } else {
        view_items_text(items.drop_last()) + seq![','] + view_text(items.last())
    }
}

/// `"key":value` for each entry, separated by commas.
pub open spec fn view_entries_text(entries: Seq<(Seq<char>, JsonView)>) -> Seq<char>
    decreases entries,
{
    if entries.len() == 0 {
        seq![]
    } else if entries.len() == 1 {
        json_string_literal(entries[0].0) + seq![':'] + view_text(entries[0].1)
    } else {
        view_entries_text(entries.drop_last()) + seq![','] + json_string_literal(entries.last().0)
            + seq![':'] + view_text(entries.last().1)
    }
}

/// Appends the compact text of a document.
pub fn write_json(j: &Json, out: &mut String)
    ensures
        final(out)@ == old(out)@ + view_text(jview(*j)),
    decreases j,
{
    let ghost start = out@;
    match j {
        Json::Null => {
            out.append("null");
            proof {
                reveal_strlit("null");
            }
            assert(out@ =~= start + view_text(jview(*j)));
        },
        Json::Bool(b) => {
            if *b {
                out.append("true");
                proof {
                    reveal_strlit("true");
                }
            } else {
                out.append("false");
                proof {
                    reveal_strlit("false");
                }
            }
            assert(out@ =~= start + view_text(jview(*j)));
        },
        Json::Num(n) => {
            let t = decimal(*n as u128);
            out.append(t.as_str());
        },
        Json::Str(s) => {
            let t = quote_json_string(s.as_str());
            out.append(t.as_str());
        },
        Json::Raw(v) => {
            let t = value_to_text(v);
            out.append(t.as_str());
        },
        Json::Array(items) => {
            push_char(out, '[');
            write_items(items, out);
            push_char(out, ']');
            proof {
                lemma_jview_array(*items);
            }
            assert(out@ =~= start + view_text(jview(*j)));
        },
        Json::Object(entries) => {
            push_char(out, '{');
            write_entries(entries, out);
            push_char(out, '}');
            proof {
                lemma_jview_object(*entries);
            }
            assert(out@ =~= start + view_text(jview(*j)));
        },
    }
}

fn write_items(items: &Vec<Json>, out: &mut String)
    ensures
        final(out)@ == old(out)@ + view_items_text(items_view(items@)),
    decreases items,
{
    let ghost start = out@;
    let n = items.len();
    assert(items_view(items@.take(0)) =~= seq![]);
    for i in 0..n
        invariant
            n == items@.len(),
            out@ == start + view_items_text(items_view(items@.take(i as int))),
    {
        proof {
            broadcast use vstd::std_specs::vec::axiom_vec_index_decreases;

            assert(decreases_to!(items => items[i as int]));
        }
        if i > 0 {
            push_char(out, ',');
        }
        write_json(&items[i], out);
        proof {
            let t = items_view(items@.take(i + 1));
            assert(t.drop_last() =~= items_view(items@.take(i as int)));
            assert(t.last() == jview(items@[i as int]));
            assert(out@ =~= start + view_items_text(t));
        }
    }
    assert(items@.take(n as int) =~= items@);
}

fn write_entries(entries: &Vec<(String, Json)>, out: &mut String)
    ensures
        final(out)@ == old(out)@ + view_entries_text(entries_view(entries@)),
    decreases entries,
{
    let ghost start = out@;
    let n = entries.len();
    assert(entries_view(entries@.take(0)) =~= seq![]);
    for i in 0..n
        invariant
            n == entries@.len(),
            out@ == start + view_entries_text(entries_view(entries@.take(i as int))),
    {
        proof {
            broadcast use vstd::std_specs::vec::axiom_vec_index_decreases;

            assert(decreases_to!(entries => entries[i as int]));
            assert(decreases_to!(entries[i as int] => entries[i as int].1));
        }
        if i > 0 {
            push_char(out, ',');
        }
        let k = quote_json_string(entries[i].0.as_str());
        out.append(k.as_str());
        push_char(out, ':');
        write_json(&entries[i].1, out);
        proof {
            let t = entries_view(entries@.take(i + 1));
            assert(t.drop_last() =~= entries_view(entries@.take(i as int)));
            assert(t.last() == (entries@[i as int].0@, jview(entries@[i as int].1)));
            assert(out@ =~= start + view_entries_text(t));
        }
    }
    assert(entries@.take(n as int) =~= entries@);
}

/// The compact text of a document as a new string.
pub fn to_json_string(j: &Json) -> (res: String)
    ensures
        res@ == view_text(jview(*j)),
{
    let mut out = String::new();
    write_json(j, &mut out);
    assert(out@ =~= view_text(jview(*j)));
    out
}

/// Sets `key` to `value` in an object (see `object_insert`).
pub fn obj_set(o: &mut Vec<(String, Json)>, key: &str, value: Json)
    requires
        keys_sorted(old(o)@),
    ensures
        keys_sorted(final(o)@),
        entries_view(final(o)@) == view_insert(entries_view(old(o)@), key@, jview(value)),
{
    object_insert(o, key.to_owned(), value);
}

/// Sets `key` to an object value.
pub fn obj_set_object(o: &mut Vec<(String, Json)>, key: &str, value: Vec<(String, Json)>)
    requires
        keys_sorted(old(o)@),
    ensures
        keys_sorted(final(o)@),
        entries_view(final(o)@) == view_insert(
            entries_view(old(o)@),
            key@,
            JsonView::Object(entries_view(value@)),
        ),
{
    proof {
        lemma_jview_object(value);
    }
    object_insert(o, key.to_owned(), Json::Object(value));
}

/// Sets `key` to an array value.
pub fn obj_set_array(o: &mut Vec<(String, Json)>, key: &str, value: Vec<Json>)
    requires
        keys_sorted(old(o)@),
    ensures
        keys_sorted(final(o)@),
        entries_view(final(o)@) == view_insert(
            entries_view(old(o)@),
            key@,
            JsonView::Array(items_view(value@)),
        ),
{
    proof {
        lemma_jview_array(value);
    }
    object_insert(o, key.to_owned(), Json::Array(value));
}

/// Appending a document appends its contents.
pub proof fn lemma_items_view_push(s: Seq<Json>, x: Json)
    ensures
        items_view(s.push(x)) == items_view(s).push(jview(x)),
{
    assert(items_view(s.push(x)) =~= items_view(s).push(jview(x)));
}

/// A copy of a document.
pub fn clone_json(j: &Json) -> (res: Json)
    ensures
        jview(res) == jview(*j),
    decreases j,
{
    match j {
        Json::Null => Json::Null,
        Json::Bool(b) => Json::Bool(*b),
        Json::Num(n) => Json::Num(*n),
        Json::Str(s) => Json::Str(s.clone()),
        Json::Raw(v) => Json::Raw(clone_value(v)),
        Json::Array(items) => {
            let out = clone_items(items);
            proof {
                lemma_jview_array(out);
                lemma_jview_array(*items);
            }
            Json::Array(out)
        },
        Json::Object(entries) => {
            let out = clone_entries(entries);
            proof {
                lemma_jview_object(out);
                lemma_jview_object(*entries);
            }
            Json::Object(out)
        },
    }
}

/// A copy of a list of documents.
pub fn clone_items(items: &Vec<Json>) -> (res: Vec<Json>)
    ensures
        items_view(res@) == items_view(items@),
    decreases items,
{
    let mut out: Vec<Json> = Vec::new();
    let n = items.len();
    assert(items_view(out@) =~= items_view(items@.take(0)));
    for i in 0..n
        invariant
            n == items@.len(),
            items_view(out@) == items_view(items@.take(i as int)),
    {
        proof {
            broadcast use vstd::std_specs::vec::axiom_vec_index_decreases;

            assert(decreases_to!(items => items[i as int]));
        }
        let ghost prev = out@;
        let c = clone_json(&items[i]);
        out.push(c);
        assert(items_view(out@) =~= items_view(prev).push(jview(items@[i as int])));
        assert(items_view(items@.take(i + 1)) =~= items_view(items@.take(i as int)).push(
            jview(items@[i as int]),
        ));
    }
    assert(items@.take(n as int) =~= items@);
    out
}

/// A copy of an object's entries.
pub fn clone_entries(entries: &Vec<(String, Json)>) -> (res: Vec<(String, Json)>)
    ensures
        entries_view(res@) == entries_view(entries@),
        keys_sorted(entries@) ==> keys_sorted(res@),
    decreases entries,
{
    let mut out: Vec<(String, Json)> = Vec::new();
    let n = entries.len();
    assert(entries_view(out@) =~= entries_view(entries@.take(0)));
    for i in 0..n
        invariant
            n == entries@.len(),
            entries_view(out@) == entries_view(entries@.take(i as int)),
            out@.len() == i,
            forall|k: int| 0 <= k < i ==> #[trigger] out@[k].0 == entries@[k].0,
    {
        proof {
            broadcast use vstd::std_specs::vec::axiom_vec_index_decreases;

            assert(decreases_to!(entries => entries[i as int]));
            assert(decreases_to!(entries[i as int] => entries[i as int].1));
        }
        let ghost prev = out@;
        let c = clone_json(&entries[i].1);
        out.push((entries[i].0.clone(), c));
        assert(entries_view(out@) =~= entries_view(prev).push(
            (entries@[i as int].0@, jview(entries@[i as int].1)),
        ));
        assert(entries_view(entries@.take(i + 1)) =~= entries_view(entries@.take(i as int)).push(
            (entries@[i as int].0@, jview(entries@[i as int].1)),
        ));
    }
    assert(entries@.take(n as int) =~= entries@);
    out
}

/// An empty object.
pub fn empty_object() -> (res: Vec<(String, Json)>)
    ensures
        keys_sorted(res@),
        entries_view(res@) == Seq::<(Seq<char>, JsonView)>::empty(),
{
    let o: Vec<(String, Json)> = Vec::new();
    assert(entries_view(o@) =~= Seq::<(Seq<char>, JsonView)>::empty());
    o
}

} // verus!
