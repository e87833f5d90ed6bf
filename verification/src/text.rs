//! Character-level text helpers: substitution of placeholders, splitting on
//! whitespace, joining with a separator and decimal rendering of numbers.
//!
//! Strings are modelled by their view, a `Seq<char>`.
use vstd::prelude::*;

verus! {

// ─── Specifications ──────────────────────────────────────────────────────────

/// `s` with every occurrence of `pat` replaced by `rep`, scanning left to
/// right; matches do not overlap. The empty pattern occurs before every
/// character and at the end.
pub open spec fn replace_spec(s: Seq<char>, pat: Seq<char>, rep: Seq<char>) -> Seq<char>
    decreases s.len(),
{
    if pat.len() == 0 {
        if s.len() == 0 {
            rep
        } else {
            rep + seq![s[0]] + replace_spec(s.skip(1), pat, rep)
        }
    } else if s.len() < pat.len() {
        s
    } else if s.take(pat.len() as int) == pat {
        rep + replace_spec(s.skip(pat.len() as int), pat, rep)
    } else {
        seq![s[0]] + replace_spec(s.skip(1), pat, rep)
    }
}

/// `s` holds no `$`.
pub open spec fn no_dollar(s: Seq<char>) -> bool {
    forall|i: int| 0 <= i < s.len() ==> #[trigger] s[i] != '$'
}

/// A placeholder (a pattern that starts with `$`) does not occur in text
/// without `$`, so replacing it changes nothing.
pub proof fn lemma_replace_absent(s: Seq<char>, pat: Seq<char>, rep: Seq<char>)
    requires
        pat.len() > 0,
        pat[0] == '$',
        no_dollar(s),
    ensures
        replace_spec(s, pat, rep) == s,
    decreases s.len(),
{
    if s.len() >= pat.len() {
        assert(s.take(pat.len() as int)[0] == s[0]);
        assert(s.take(pat.len() as int) != pat);
        assert(no_dollar(s.skip(1))) by {
            assert forall|i: int| 0 <= i < s.skip(1).len() implies #[trigger] s.skip(1)[i]
                != '$' by {
                assert(s.skip(1)[i] == s[i + 1]);
            }
        }
        lemma_replace_absent(s.skip(1), pat, rep);
        assert(seq![s[0]] + s.skip(1) =~= s);
    }
}

/// Replacing a placeholder in text that starts with `$`, has no other `$`
/// and does not start with the placeholder changes nothing.
pub proof fn lemma_replace_other_placeholder(s: Seq<char>, pat: Seq<char>, rep: Seq<char>)
    requires
        pat.len() > 0,
        pat[0] == '$',
        s.len() > 0,
        no_dollar(s.skip(1)),
        !(s.len() >= pat.len() && s.take(pat.len() as int) == pat),
    ensures
        replace_spec(s, pat, rep) == s,
{
    lemma_replace_absent(s.skip(1), pat, rep);
    assert(seq![s[0]] + s.skip(1) =~= s);
}

/// Text that is exactly the pattern is replaced by the replacement.
pub proof fn lemma_replace_whole(pat: Seq<char>, rep: Seq<char>)
    requires
        pat.len() > 0,
    ensures
        replace_spec(pat, pat, rep) == rep,
{
    assert(pat.take(pat.len() as int) =~= pat);
    assert(pat.skip(pat.len() as int).len() == 0);
    assert(replace_spec(pat.skip(pat.len() as int), pat, rep) == pat.skip(pat.len() as int));
    assert(rep + pat.skip(pat.len() as int) =~= rep);
}

/// Whether `c` has the Unicode `White_Space` property (what `char::is_whitespace`
/// decides): U+0009 to U+000D, U+0020, U+0085, U+00A0, U+1680, U+2000 to U+200A,
/// U+2028, U+2029, U+202F, U+205F and U+3000.
pub open spec fn char_is_whitespace(c: char) -> bool {
    let u = c as u32;
    ||| 0x9 <= u <= 0xd
    ||| u == 0x20
    ||| u == 0x85
    ||| u == 0xa0
    ||| u == 0x1680
    ||| 0x2000 <= u <= 0x200a
    ||| u == 0x2028
    ||| u == 0x2029
    ||| u == 0x202f
    ||| u == 0x205f
    ||| u == 0x3000
}

/// The words of `s` that follow the partial word `cur`: maximal runs of
/// characters that are not whitespace, in order.
pub open spec fn words_from(s: Seq<char>, cur: Seq<char>) -> Seq<Seq<char>>
    decreases s.len(),
{
    if s.len() == 0 {
        if cur.len() == 0 { seq![] } else { seq![cur] }
    } else if char_is_whitespace(s[0]) {
        (if cur.len() == 0 { seq![] } else { seq![cur] }) + words_from(s.skip(1), seq![])
    } else {
        words_from(s.skip(1), cur.push(s[0]))
    }
}

/// The whitespace-separated words of `s`.
pub open spec fn words(s: Seq<char>) -> Seq<Seq<char>> {
    words_from(s, seq![])
}

/// The parts joined, with `sep` between each two neighbours.
pub open spec fn join_spec(parts: Seq<Seq<char>>, sep: Seq<char>) -> Seq<char>
    decreases parts.len(),
{
    if parts.len() == 0 {
        seq![]
    } else if parts.len() == 1 {
        parts[0]
    } else {
        join_spec(parts.drop_last(), sep) + sep + parts.last()
    }
}

/// The ASCII digit for `d < 10`.
pub open spec fn digit_char(d: nat) -> char {
    if d == 0 { '0' }
    else if d == 1 { '1' }
    else if d == 2 { '2' }
    else if d == 3 { '3' }
    else if d == 4 { '4' }
    else if d == 5 { '5' }
    else if d == 6 { '6' }
    else if d == 7 { '7' }
    else if d == 8 { '8' }
    else { '9' }
}

/// The decimal rendering of `n`, without leading zeros.
pub open spec fn decimal(n: nat) -> Seq<char>
    decreases n,
{
    if n < 10 {
        seq![digit_char(n)]
    } else {
        decimal(n / 10).push(digit_char(n % 10))
    }
}

/// `s` without the leading `prefix` when it starts with it, else `s` itself.
pub open spec fn strip_prefix_or_self(s: Seq<char>, prefix: Seq<char>) -> Seq<char> {
    if prefix.len() <= s.len() && s.take(prefix.len() as int) == prefix {
        s.skip(prefix.len() as int)
    } else {
        s
    }
}

/// The characters of each string.
pub open spec fn strings_view(v: Seq<String>) -> Seq<Seq<char>> {
    v.map_values(|s: String| s@)
}

/// Viewing commutes with pushing.
pub proof fn lemma_strings_view_push(v: Seq<String>, x: String)
    ensures
        strings_view(v.push(x)) == strings_view(v).push(x@),
{
    assert(strings_view(v.push(x)) =~= strings_view(v).push(x@));
}

/// Viewing commutes with concatenation.
pub proof fn lemma_strings_view_add(a: Seq<String>, b: Seq<String>)
    ensures
        strings_view(a + b) == strings_view(a) + strings_view(b),
{
    assert(strings_view(a + b) =~= strings_view(a) + strings_view(b));
}

// ─── Trusted std calls ───────────────────────────────────────────────────────

/// Calls `char::is_whitespace`. Claims that the result is the Unicode
/// `White_Space` property of `c`, which its documentation names as what it
/// decides, with the code points of that property as Unicode lists them.
#[verifier::external_body]
pub(crate) fn is_whitespace(c: char) -> (b: bool)
    ensures
        b == char_is_whitespace(c),
{
    c.is_whitespace()
}

/// Calls `String::push`: the string grows by the one character.
#[verifier::external_body]
pub(crate) fn push_char(s: &mut String, c: char)
    ensures
        final(s)@ == old(s)@.push(c),
{
    s.push(c)
}

// ─── Conversions ─────────────────────────────────────────────────────────────

/// The characters of `s`.
pub fn to_chars(s: &str) -> (v: Vec<char>)
    ensures
        v@ == s@,
{
    let mut v: Vec<char> = Vec::new();
    for c in it: s.chars()
        invariant
            it.seq() == s@,
            v@ == it.seq().take(it.index() as int),
    {
        v.push(c);
        assert(it.seq().take(it.index() + 1) == v@);
    }
    assert(v@ == s@);
    v
}

/// The string made of the characters of `v`.
pub fn from_chars(v: &[char]) -> (s: String)
    ensures
        s@ == v@,
{
    let mut s = String::new();
    let n = v.len();
    let mut i: usize = 0;
    while i < n
        invariant
            n == v@.len(),
            i <= n,
            s@ == v@.take(i as int),
        decreases n - i,
    {
        push_char(&mut s, v[i]);
        assert(v@.take(i + 1) == v@.take(i as int).push(v@[i as int]));
        i = i + 1;
    }
    assert(v@.take(n as int) == v@);
    s
}

/// Whether `a` and `b` hold the same characters.
pub fn str_eq(a: &str, b: &str) -> (r: bool)
    ensures
        r == (a@ == b@),
{
    let x = to_chars(a);
    let y = to_chars(b);
    if x.len() != y.len() {
        return false;
    }
    let n = x.len();
    let mut i: usize = 0;
    while i < n
        invariant
            n == x@.len(),
            n == y@.len(),
            x@ == a@,
            y@ == b@,
            i <= n,
            forall|j: int| 0 <= j < i ==> x@[j] == y@[j],
        decreases n - i,
    {
        if x[i] != y[i] {
            assert(x@[i as int] != y@[i as int]);
            return false;
        }
        i = i + 1;
    }
    assert(x@ == y@);
    true
}

/// Appends the characters of `s` to `out`.
pub fn append_str(out: &mut Vec<char>, s: &str)
    ensures
        final(out)@ == old(out)@ + s@,
{
    let mut cs = to_chars(s);
    out.append(&mut cs);
}

/// The concatenation of `a` and `b`.
pub fn str_concat(a: &str, b: &str) -> (r: String)
    ensures
        r@ == a@ + b@,
{
    let mut v = to_chars(a);
    append_str(&mut v, b);
    from_chars(&v)
}

// ─── Prefixes ────────────────────────────────────────────────────────────────

/// Whether `s` starts with `prefix`.
pub fn starts_with(s: &[char], prefix: &[char]) -> (r: bool)
    ensures
        r == (prefix@.len() <= s@.len() && s@.take(prefix@.len() as int) == prefix@),
{
    if prefix.len() > s.len() {
        return false;
    }
    matches_at(s, 0, prefix)
}

/// Whether `pat` occurs in `s` at position `at`.
fn matches_at(s: &[char], at: usize, pat: &[char]) -> (r: bool)
    requires
        at + pat@.len() <= s@.len(),
    ensures
        r == (s@.subrange(at as int, at + pat@.len()) == pat@),
{
    let m = pat.len();
    let mut j: usize = 0;
    while j < m
        invariant
            m == pat@.len(),
            at + m <= s@.len(),
            s@.len() == s.len(),
            j <= m,
            forall|k: int| 0 <= k < j ==> s@[at + k] == pat@[k],
        decreases m - j,
    {
        if s[at + j] != pat[j] {
            assert(s@.subrange(at as int, at + m)[j as int] != pat@[j as int]);
            return false;
        }
        j = j + 1;
    }
    assert(s@.subrange(at as int, at + m) == pat@);
    true
}

/// `s` without a leading `prefix`, or `s` itself when it does not start with it
/// (what `str::strip_prefix(..).unwrap_or(s)` gives).
pub fn strip_prefix_or_self_exec(s: &str, prefix: &str) -> (r: String)
    ensures
        r@ == strip_prefix_or_self(s@, prefix@),
{
    let v = to_chars(s);
    let p = to_chars(prefix);
    if starts_with(&v, &p) {
        let mut out: Vec<char> = Vec::new();
        let n = v.len();
        let mut i = p.len();
        while i < n
            invariant
                n == v@.len(),
                p@.len() <= i <= n,
                out@ == v@.subrange(p@.len() as int, i as int),
            decreases n - i,
        {
            out.push(v[i]);
            i = i + 1;
        }
        assert(out@ == v@.skip(p@.len() as int));
        from_chars(&out)
    } else {
        from_chars(&v)
    }
}

// ─── Replacement ─────────────────────────────────────────────────────────────

/// `s` with every occurrence of `pat` replaced by `rep` (what `str::replace` gives).
pub fn replace_all(s: &str, pat: &str, rep: &str) -> (r: String)
    ensures
        r@ == replace_spec(s@, pat@, rep@),
{
    let v = to_chars(s);
    let p = to_chars(pat);
    let q = to_chars(rep);
    let n = v.len();
    let m = p.len();
    let mut out: Vec<char> = Vec::new();
    let mut i: usize = 0;
    assert(v@.skip(0) == v@);
    while i < n
        invariant
            n == v@.len(),
            m == p@.len(),
            i <= n,
            replace_spec(v@, p@, q@) == out@ + replace_spec(v@.skip(i as int), p@, q@),
        decreases n - i,
    {
        let ghost rest = v@.skip(i as int);
        assert(rest.skip(1) == v@.skip(i + 1));
        if m == 0 {
            let mut qq = q.clone();
            out.append(&mut qq);
            out.push(v[i]);
            i = i + 1;
        } else if m <= n - i && matches_at(&v, i, &p) {
            assert(rest.take(m as int) == v@.subrange(i as int, i + m));
            assert(rest.skip(m as int) == v@.skip(i + m));
            let mut qq = q.clone();
            out.append(&mut qq);
            i = i + m;
        } else {
            if m <= n - i {
                assert(rest.take(m as int) == v@.subrange(i as int, i + m));
            } else {
                assert(seq![rest[0]] + rest.skip(1) == rest);
            }
            out.push(v[i]);
            i = i + 1;
        }
    }
    assert(v@.skip(n as int).len() == 0);
    if m == 0 {
        let mut qq = q.clone();
        out.append(&mut qq);
    } else {
        assert(out@ + v@.skip(n as int) == out@);
    }
    from_chars(&out)
}

// ─── Words ───────────────────────────────────────────────────────────────────

/// The whitespace-separated words of `s` (what `str::split_whitespace` yields).
pub fn split_whitespace(s: &str) -> (r: Vec<String>)
    ensures
        r@.len() == words(s@).len(),
        forall|i: int| 0 <= i < r@.len() ==> #[trigger] r@[i]@ == words(s@)[i],
{
    let v = to_chars(s);
    let n = v.len();
    let mut out: Vec<String> = Vec::new();
    let ghost out_view: Seq<Seq<char>> = seq![];
    let mut cur: Vec<char> = Vec::new();
    let mut i: usize = 0;
    assert(v@.skip(0) == v@);
    while i < n
        invariant
            n == v@.len(),
            i <= n,
            out@.len() == out_view.len(),
            forall|k: int| 0 <= k < out@.len() ==> #[trigger] out@[k]@ == out_view[k],
            words(v@) == out_view + words_from(v@.skip(i as int), cur@),
        decreases n - i,
    {
        let ghost rest = v@.skip(i as int);
        assert(rest.skip(1) == v@.skip(i + 1));
        let c = v[i];
        if is_whitespace(c) {
            if cur.len() > 0 {
                let w = from_chars(&cur);
                proof {
                    out_view = out_view.push(cur@);
                }
                out.push(w);
            }
            cur = Vec::new();
        } else {
            cur.push(c);
        }
        i = i + 1;
    }
    if cur.len() > 0 {
        let w = from_chars(&cur);
        proof {
            out_view = out_view.push(cur@);
        }
        out.push(w);
    }
    assert(v@.skip(n as int).len() == 0);
    assert(words(v@) == out_view);
    out
}

// ─── Joining ─────────────────────────────────────────────────────────────────

/// The parts joined with `sep` between neighbours (what `[String]::join` gives).
pub fn join(parts: &[String], sep: &str) -> (r: String)
    ensures
        r@ == join_spec(strings_view(parts@), sep@),
{
    let ghost views = strings_view(parts@);
    let mut out: Vec<char> = Vec::new();
    let n = parts.len();
    let mut i: usize = 0;
    while i < n
        invariant
            n == parts@.len(),
            views == strings_view(parts@),
            i <= n,
            out@ == join_spec(views.take(i as int), sep@),
        decreases n - i,
    {
        assert(views.take(i + 1).drop_last() == views.take(i as int));
        if i > 0 {
            append_str(&mut out, sep);
        }
        append_str(&mut out, parts[i].as_str());
        i = i + 1;
    }
    assert(views.take(n as int) == views);
    from_chars(&out)
}

// ─── Numbers ─────────────────────────────────────────────────────────────────

/// The ASCII digit for `d < 10`.
fn digit(d: u32) -> (c: char)
    requires
        d < 10,
    ensures
        c == digit_char(d as nat),
{
    match d {
        0 => '0',
        1 => '1',
        2 => '2',
        3 => '3',
        4 => '4',
        5 => '5',
        6 => '6',
        7 => '7',
        8 => '8',
        _ => '9',
    }
}

/// Appends the decimal digits of `n` to `out`.
fn push_decimal(out: &mut Vec<char>, n: u32)
    ensures
        final(out)@ == old(out)@ + decimal(n as nat),
    decreases n,
{
    if n >= 10 {
        push_decimal(out, n / 10);
    }
    out.push(digit(n % 10));
}

/// The decimal rendering of `n` (what `n.to_string()` gives).
pub fn u32_to_decimal(n: u32) -> (s: String)
    ensures
        s@ == decimal(n as nat),
{
    let mut v: Vec<char> = Vec::new();
    push_decimal(&mut v, n);
    assert(v@ == decimal(n as nat));
    from_chars(&v)
}

} // verus!
