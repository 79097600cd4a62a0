//! Character-level string helpers with exact specifications.
use vstd::prelude::*;

verus! {

/// Appends one character to a string (`String::push`).
#[verifier::external_body]
pub(crate) fn push_char(s: &mut String, c: char)
    ensures
        final(s)@ == old(s)@.push(c),
{
    s.push(c);
}

/// Compares two string slices as `==` on `str` does: equal exactly when they
/// hold the same characters.
pub(crate) fn str_eq(a: &str, b: &str) -> (res: bool)
    ensures
        res == (a@ == b@),
{
    let x = chars_of(a);
    let y = chars_of(b);
    if x.len() != y.len() {
        return false;
    }
    let n = x.len();
    for i in 0..n
        invariant
            n == x@.len(),
            n == y@.len(),
            x@ == a@,
            y@ == b@,
            forall|k: int| 0 <= k < i ==> x@[k] == y@[k],
    {
        if x[i] != y[i] {
            return false;
        }
    }
    assert(x@ =~= y@);
    true
}

/// The characters of a string slice, in order.
pub fn chars_of(s: &str) -> (res: Vec<char>)
    ensures
        res@ == s@,
{
    let mut res: Vec<char> = Vec::new();
    for c in it: s.chars()
        invariant
            res@ == it.seq().take(it.index() as int),
    {
        res.push(c);
    }
    res
}

/// Whether `s` begins with `prefix`.
pub open spec fn spec_starts_with(s: Seq<char>, prefix: Seq<char>) -> bool {
    prefix.len() <= s.len() && s.subrange(0, prefix.len() as int) == prefix
}

/// Whether `s` begins with `prefix` (`str::starts_with` with a string
/// pattern).
pub fn starts_with(s: &str, prefix: &str) -> (res: bool)
    ensures
        res == spec_starts_with(s@, prefix@),
{
    let a = chars_of(s);
    let b = chars_of(prefix);
    if b.len() > a.len() {
        return false;
    }
    let n = b.len();
    for i in 0..n
        invariant
            n == b@.len(),
            n <= a@.len(),
            a@ == s@,
            b@ == prefix@,
            forall|k: int| 0 <= k < i ==> a@[k] == b@[k],
    {
        if a[i] != b[i] {
            assert(a@.subrange(0, n as int)[i as int] != b@[i as int]);
            assert(a@.subrange(0, n as int) != b@);
            return false;
        }
    }
    assert(a@.subrange(0, n as int) =~= b@);
    true
}

/// `s` with every occurrence of `pat` replaced by `rep`, scanning left to
/// right without overlaps (`str::replace`). An empty pattern matches before
/// every character and at the end.
pub open spec fn spec_replace(s: Seq<char>, pat: Seq<char>, rep: Seq<char>) -> Seq<char>
    decreases s.len(),
{
    if pat.len() == 0 {
        spec_replace_empty(s, rep)
    } else if s.len() < pat.len() {
        s
    } else if s.subrange(0, pat.len() as int) == pat {
        rep + spec_replace(s.subrange(pat.len() as int, s.len() as int), pat, rep)
    } else {
        seq![s[0]] + spec_replace(s.drop_first(), pat, rep)
    }
}

/// `rep` before every character of `s` and at its end.
pub open spec fn spec_replace_empty(s: Seq<char>, rep: Seq<char>) -> Seq<char>
    decreases s.len(),
{
    if s.len() == 0 {
        rep
    } else {
        rep + seq![s[0]] + spec_replace_empty(s.drop_first(), rep)
    }
}

/// Whether `pat` occurs in `s` at position `i`.
fn matches_at(s: &Vec<char>, i: usize, pat: &Vec<char>) -> (res: bool)
    requires
        i + pat@.len() <= s@.len(),
    ensures
        res == (s@.skip(i as int).subrange(0, pat@.len() as int) == pat@),
{
    let m = pat.len();
    for k in 0..m
        invariant
            m == pat@.len(),
            i + m <= s@.len(),
            s@.len() == s.len(),
            forall|j: int| 0 <= j < k ==> s@[i + j] == pat@[j],
    {
        if s[i + k] != pat[k] {
            assert(s@.skip(i as int).subrange(0, m as int)[k as int] != pat@[k as int]);
            return false;
        }
    }
    assert(s@.skip(i as int).subrange(0, m as int) =~= pat@);
    true
}

/// Replaces every occurrence of `pat` in `s` by `rep` (`str::replace`).
pub fn replace_all(s: &str, pat: &str, rep: &str) -> (res: String)
    ensures
        res@ == spec_replace(s@, pat@, rep@),
{
    let sc = chars_of(s);
    let pc = chars_of(pat);
    let n = sc.len();
    let m = pc.len();
    let mut out = String::new();
    if m == 0 {
        assert(sc@.skip(0) =~= sc@);
        for i in 0..n
            invariant
                n == sc@.len(),
                out@ + spec_replace_empty(sc@.skip(i as int), rep@) == spec_replace_empty(sc@, rep@),
        {
            let ghost rest = sc@.skip(i as int);
            assert(rest.drop_first() =~= sc@.skip(i + 1));
            assert(out@ + rep@ + seq![sc@[i as int]] + spec_replace_empty(sc@.skip(i + 1), rep@) =~= out@
                + spec_replace_empty(rest, rep@));
            out.append(rep);
            push_char(&mut out, sc[i]);
        }
        out.append(rep);
        assert(sc@.skip(n as int) =~= seq![]);
        assert(out@ =~= spec_replace_empty(sc@, rep@));
        return out;
    }
    let mut i: usize = 0;
    assert(sc@.skip(0) =~= sc@);
    while i < n
        invariant
            n == sc@.len(),
            m == pc@.len(),
            m > 0,
            pc@ == pat@,
            i <= n,
            out@ + spec_replace(sc@.skip(i as int), pc@, rep@) == spec_replace(sc@, pc@, rep@),
        decreases n - i,
    {
        let ghost rest = sc@.skip(i as int);
        if m <= n - i && matches_at(&sc, i, &pc) {
            assert(rest.subrange(m as int, rest.len() as int) =~= sc@.skip((i + m) as int));
            assert(out@ + rep@ + spec_replace(sc@.skip((i + m) as int), pc@, rep@) =~= out@
                + spec_replace(rest, pc@, rep@));
            out.append(rep);
            i = i + m;
        } else {
            proof {
                if rest.len() < m {
                    assert(spec_replace(rest, pc@, rep@) == rest);
                    assert(rest.drop_first() =~= sc@.skip(i + 1));
                    assert(spec_replace(rest.drop_first(), pc@, rep@) == rest.drop_first());
                    assert(rest =~= seq![rest[0]] + rest.drop_first());
                } else {
                    assert(rest.drop_first() =~= sc@.skip(i + 1));
                }
            }
            assert(out@ + seq![sc@[i as int]] + spec_replace(sc@.skip(i + 1), pc@, rep@) =~= out@
                + spec_replace(rest, pc@, rep@));
            push_char(&mut out, sc[i]);
            i = i + 1;
        }
    }
    assert(sc@.skip(n as int) =~= seq![]);
    assert(out@ =~= spec_replace(sc@, pc@, rep@));
    out
}

/// The decimal digit character for `d < 10`.
pub open spec fn digit_char(d: nat) -> char {
    if d == 0 { '0' } else if d == 1 { '1' } else if d == 2 { '2' } else if d == 3 { '3' }
    else if d == 4 { '4' } else if d == 5 { '5' } else if d == 6 { '6' } else if d == 7 { '7' }
    else if d == 8 { '8' } else { '9' }
}

/// The decimal representation of `n`, without sign or leading zeros.
pub open spec fn decimal_text(n: nat) -> Seq<char>
    decreases n,
{
    if n < 10 {
        seq![digit_char(n)]
    } else {
        decimal_text(n / 10).push(digit_char(n % 10))
    }
}

fn digit(d: u128) -> (c: char)
    requires
        d < 10,
    ensures
        c == digit_char(d as nat),
{
    if d == 0 { '0' } else if d == 1 { '1' } else if d == 2 { '2' } else if d == 3 { '3' }
    else if d == 4 { '4' } else if d == 5 { '5' } else if d == 6 { '6' } else if d == 7 { '7' }
    else if d == 8 { '8' } else { '9' }
}

/// Appends the decimal representation of `n`.
pub fn push_decimal(s: &mut String, n: u128)
    ensures
        final(s)@ == old(s)@ + decimal_text(n as nat),
    decreases n,
{
    if n < 10 {
        push_char(s, digit(n));
        assert(old(s)@ + decimal_text(n as nat) =~= old(s)@.push(digit_char(n as nat)));
    } else {
        push_decimal(s, n / 10);
        push_char(s, digit(n % 10));
        assert(decimal_text(n as nat) == decimal_text((n / 10) as nat).push(digit_char((n % 10) as nat)));
        assert(old(s)@ + decimal_text(n as nat) =~= old(s)@ + decimal_text((n / 10) as nat) + seq![digit_char((n % 10) as nat)]);
    }
}

/// The decimal representation of `n` as a new string.
pub fn decimal(n: u128) -> (res: String)
    ensures
        res@ == decimal_text(n as nat),
{
    let mut s = String::new();
    push_decimal(&mut s, n);
    assert(s@ =~= decimal_text(n as nat));
    s
}

/// A string made of the given characters.
pub fn string_of(cs: &Vec<char>) -> (res: String)
    ensures
        res@ == cs@,
{
    let mut s = String::new();
    let n = cs.len();
    for i in 0..n
        invariant
            n == cs@.len(),
            s@ == cs@.take(i as int),
    {
        push_char(&mut s, cs[i]);
        assert(cs@.take(i + 1) =~= cs@.take(i as int).push(cs@[i as int]));
    }
    assert(cs@.take(n as int) =~= cs@);
    s
}

} // verus!
