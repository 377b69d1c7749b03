//! Text helpers of the time-series chart and its export.

use vstd::prelude::*;

use crate::types::{Interval, Profile};

verus! {

/// Largest gap, in seconds, between consecutive buckets that a chart line
/// bridges: two bucket lengths (a month counted as 28 days, a year as 365).
pub open spec fn gap_limit(interval: Interval) -> nat {
    match interval {
        Interval::Hour => 2 * 3600,
        Interval::Day => 2 * 86400,
        Interval::Week => 2 * 7 * 86400,
        Interval::Month => 2 * 28 * 86400,
        Interval::Year => 2 * 365 * 86400,
    }
}

/// Max gap (seconds) between consecutive buckets before the line breaks.
pub fn gap_threshold_secs(interval: Interval) -> (r: i64)
    ensures
        r == gap_limit(interval),
{
    match interval {
        Interval::Hour => 2 * 3600,
        Interval::Day => 2 * 86_400,
        Interval::Week => 2 * 7 * 86_400,
        Interval::Month => 2 * 28 * 86_400,
        Interval::Year => 2 * 365 * 86_400,
    }
}

/// The widest step, in seconds, a chart line bridges: a profile is a dense
/// fold and is never broken, an ordinary series breaks after
/// [`gap_threshold_secs`].
pub fn line_gap_threshold(profile: Option<Profile>, interval: Interval) -> (r: i64)
    ensures
        r == (if profile is Some { i64::MAX as int } else { gap_limit(interval) as int }),
{
    if profile.is_some() {
        i64::MAX
    } else {
        gap_threshold_secs(interval)
    }
}

/// Whether the point at `i` starts a line segment: the first point does, and
/// so does each point more than `threshold` seconds after the one before.
pub open spec fn starts_segment(ts: Seq<i64>, i: int, threshold: int) -> bool {
    i == 0 || ts[i] - ts[i - 1] > threshold
}

/// For each point of a series (its bucket times, in order), whether the line
/// starts a new segment there rather than continuing from the point before.
pub fn segment_starts(ts: &[i64], threshold: i64) -> (r: Vec<bool>)
    ensures
        r@.len() == ts@.len(),
        forall|i: int| 0 <= i < ts@.len() ==> r@[i] == starts_segment(ts@, i, threshold as int),
{
    let mut out: Vec<bool> = Vec::new();
    let mut i: usize = 0;
    while i < ts.len()
        invariant
            i <= ts@.len(),
            out@.len() == i,
            forall|j: int| 0 <= j < i ==> out@[j] == starts_segment(ts@, j, threshold as int),
        decreases ts@.len() - i,
    {
        let start = i == 0 || (ts[i] as i128) - (ts[i - 1] as i128) > threshold as i128;
        out.push(start);
        i += 1;
    }
    out
}

/// Calls `String::push`. Trusted: the character is added at the end.
#[verifier::external_body]
pub(crate) fn push_char(s: &mut String, c: char)
    ensures
        final(s)@ == old(s)@.push(c),
{
    s.push(c);
}

/// What one character becomes in XML text.
pub open spec fn text_escape(c: char) -> Seq<char> {
    if c == '&' {
        "&amp;"@
    } else if c == '<' {
        "&lt;"@
    } else if c == '>' {
        "&gt;"@
    } else {
        seq![c]
    }
}

/// What one character becomes in an XML attribute value.
pub open spec fn attr_escape(c: char) -> Seq<char> {
    if c == '"' {
        "&quot;"@
    } else {
        text_escape(c)
    }
}

/// A string with every character escaped for XML text.
pub open spec fn escaped_text(s: Seq<char>) -> Seq<char>
    decreases s.len(),
{
    if s.len() == 0 {
        Seq::empty()
    } else {
        escaped_text(s.drop_last()) + text_escape(s.last())
    }
}

/// A string with every character escaped for an XML attribute value.
pub open spec fn escaped_attr(s: Seq<char>) -> Seq<char>
    decreases s.len(),
{
    if s.len() == 0 {
        Seq::empty()
    } else {
        escaped_attr(s.drop_last()) + attr_escape(s.last())
    }
}

/// Escapes `&`, `<` and `>` (and `"` when `attr` holds) character by character.
fn escape(s: &str, attr: bool) -> (r: String)
    ensures
        r@ == (if attr { escaped_attr(s@) } else { escaped_text(s@) }),
{
    let n = s.unicode_len();
    let mut out = String::new();
    let mut i: usize = 0;
    while i < n
        invariant
            n == s@.len(),
            i <= n,
            out@ == (if attr { escaped_attr(s@.take(i as int)) } else { escaped_text(s@.take(i as int)) }),
        decreases n - i,
    {
        let c = s.get_char(i);
        proof {
            let t = s@.take(i + 1);
            assert(t.drop_last() =~= s@.take(i as int));
            assert(t.last() == c);
        }
        if c == '&' {
            out.append("&amp;");
        } else if c == '<' {
            out.append("&lt;");
        } else if c == '>' {
            out.append("&gt;");
        } else if attr && c == '"' {
            out.append("&quot;");
        } else {
            push_char(&mut out, c);
        }
        i += 1;
    }
    proof {
        assert(s@.take(n as int) =~= s@);
    }
    out
}

/// Escapes `&`, `<` and `>` for use as XML text.
pub fn escape_xml_text(s: &str) -> (r: String)
    ensures
        r@ == escaped_text(s@),
{
    escape(s, false)
}

/// Escapes `&`, `<`, `>` and `"` for use in an XML attribute value.
pub fn escape_xml_attr(s: &str) -> (r: String)
    ensures
        r@ == escaped_attr(s@),
{
    escape(s, true)
}

/// Escaped text holds no `<` or `>`, and escaped attribute values no `"`
/// either, so neither can open a tag or close the attribute.
pub proof fn lemma_escaped_is_inert(s: Seq<char>)
    ensures
        forall|i: int|
            0 <= i < escaped_text(s).len() ==> (#[trigger] escaped_text(s)[i]) != '<'
                && escaped_text(s)[i] != '>',
        forall|i: int|
            0 <= i < escaped_attr(s).len() ==> (#[trigger] escaped_attr(s)[i]) != '<'
                && escaped_attr(s)[i] != '>' && escaped_attr(s)[i] != '"',
    decreases s.len(),
{
    reveal_strlit("&amp;");
    reveal_strlit("&lt;");
    reveal_strlit("&gt;");
    reveal_strlit("&quot;");
    if s.len() > 0 {
        lemma_escaped_is_inert(s.drop_last());
        let a = escaped_text(s.drop_last());
        let b = text_escape(s.last());
        assert forall|i: int| 0 <= i < b.len() implies b[i] != '<' && b[i] != '>' by {}
        assert forall|i: int| 0 <= i < escaped_text(s).len() implies (#[trigger] escaped_text(s)[i]) != '<'
            && escaped_text(s)[i] != '>' by {
            if i < a.len() {
                assert(escaped_text(s)[i] == a[i]);
            } else {
                assert(escaped_text(s)[i] == b[i - a.len()]);
            }
        }
        let c = escaped_attr(s.drop_last());
        let d = attr_escape(s.last());
        assert forall|i: int| 0 <= i < d.len() implies d[i] != '<' && d[i] != '>' && d[i] != '"' by {}
        assert forall|i: int| 0 <= i < escaped_attr(s).len() implies (#[trigger] escaped_attr(s)[i]) != '<'
            && escaped_attr(s)[i] != '>' && escaped_attr(s)[i] != '"' by {
            if i < c.len() {
                assert(escaped_attr(s)[i] == c[i]);
            } else {
                assert(escaped_attr(s)[i] == d[i - c.len()]);
            }
        }
    }
}

/// The character of a decimal digit.
pub open spec fn digit_char(d: int) -> char {
    if d == 0 { '0' }
    else if d == 1 { '1' }
    else if d == 2 { '2' }
    else if d == 3 { '3' }
    else if d == 4 { '4' }
    else if d == 5 { '5' }
    else if d == 6 { '6' }
    else if d == 7 { '7' }
    else if d == 8 { '8' }
    else { '9' }
}

/// The decimal digits of a natural number, most significant first.
pub open spec fn decimal(n: nat) -> Seq<char>
    decreases n,
{
    if n < 10 {
        seq![digit_char(n as int)]
    } else {
        decimal(n / 10).push(digit_char((n % 10) as int))
    }
}

/// Digits with a comma before each group of three, counted from the right.
pub open spec fn with_commas(d: Seq<char>) -> Seq<char>
    decreases d.len(),
{
    if d.len() <= 3 {
        d
    } else {
        with_commas(d.subrange(0, d.len() - 3)) + seq![','] + d.subrange(d.len() - 3, d.len() as int)
    }
}

/// An integer written in decimal with thousands separators, e.g. `-12,345`.
pub open spec fn grouped(n: int) -> Seq<char> {
    if n < 0 {
        seq!['-'] + with_commas(decimal((-n) as nat))
    } else {
        with_commas(decimal(n as nat))
    }
}

fn digit(d: u64) -> (c: char)
    requires
        d < 10,
    ensures
        c == digit_char(d as int),
{
    match d {
        0 => '0',
        1 => '1',
        2 => '2',
        3 => '3',
        4 => '4',
        5 => '5',
        6 => '6',
        7 => '7',
        8 => '8',
        _ => '9',
    }
}

/// The decimal digits of `n`.
pub(crate) fn decimal_digits(n: u64) -> (r: Vec<char>)
    ensures
        r@ == decimal(n as nat),
{
    let mut m = n;
    let mut digits: Vec<char> = Vec::new();
    loop
        invariant
            decimal(n as nat) == decimal(m as nat) + digits@,
        decreases m,
    {
        let c = digit(m % 10);
        let ghost before = digits@;
        digits.insert(0, c);
        proof {
            assert(digits@ =~= seq![c] + before);
        }
        if m < 10 {
            proof {
                assert(decimal(n as nat) =~= digits@);
            }
            return digits;
        }
        proof {
            assert(decimal(m as nat) == decimal((m / 10) as nat).push(c));
            assert(decimal((m / 10) as nat).push(c) + before =~= decimal((m / 10) as nat) + digits@);
        }
        m = m / 10;
    }
}

/// Appends the decimal digits of `n` to `out`.
pub(crate) fn push_decimal(out: &mut String, n: u64)
    ensures
        final(out)@ == old(out)@ + decimal(n as nat),
{
    let digits = decimal_digits(n);
    let mut i: usize = 0;
    while i < digits.len()
        invariant
            digits@ == decimal(n as nat),
            i <= digits@.len(),
            out@ == old(out)@ + digits@.take(i as int),
        decreases digits@.len() - i,
    {
        push_char(out, digits[i]);
        proof {
            assert(digits@.take(i + 1) =~= digits@.take(i as int).push(digits@[i as int]));
        }
        i += 1;
    }
    proof {
        assert(digits@.take(digits@.len() as int) =~= digits@);
    }
}

/// Appends `d[0..end]` with thousands separators to `out`.
fn push_grouped(out: &mut String, d: &Vec<char>, end: usize)
    requires
        end <= d@.len(),
    ensures
        final(out)@ == old(out)@ + with_commas(d@.take(end as int)),
    decreases end,
{
    if end <= 3 {
        let mut i: usize = 0;
        while i < end
            invariant
                i <= end <= d@.len(),
                out@ == old(out)@ + d@.take(i as int),
            decreases end - i,
        {
            push_char(out, d[i]);
            proof {
                assert(d@.take(i + 1) =~= d@.take(i as int).push(d@[i as int]));
            }
            i += 1;
        }
    } else {
        push_grouped(out, d, end - 3);
        push_char(out, ',');
        push_char(out, d[end - 3]);
        push_char(out, d[end - 2]);
        push_char(out, d[end - 1]);
        proof {
            let t = d@.take(end as int);
            assert(t.subrange(0, t.len() - 3) =~= d@.take(end - 3));
            assert(t.subrange(t.len() - 3, t.len() as int) =~= seq![d@[end - 3], d@[end - 2], d@[end - 1]]);
        }
    }
}

/// Writes an integer with thousands separators (`1234567` becomes
/// `1,234,567`), as the chart labels large counts such as ultrafine particles.
pub fn group_thousands(n: i64) -> (r: String)
    ensures
        r@ == grouped(n as int),
{
    let magnitude: u64 = if n >= 0 {
        n as u64
    } else if n == i64::MIN {
        9_223_372_036_854_775_808
    } else {
        (-n) as u64
    };
    let digits = decimal_digits(magnitude);
    let mut out = String::new();
    if n < 0 {
        push_char(&mut out, '-');
    }
    push_grouped(&mut out, &digits, digits.len());
    proof {
        assert(digits@.take(digits@.len() as int) =~= digits@);
        assert(out@ =~= grouped(n as int));
    }
    out
}

/// A string with every `"` replaced by `&quot;`.
pub open spec fn quotes_replaced(s: Seq<char>) -> Seq<char>
    decreases s.len(),
{
    if s.len() == 0 {
        Seq::empty()
    } else {
        quotes_replaced(s.drop_last()) + (if s.last() == '"' { "&quot;"@ } else { seq![s.last()] })
    }
}

proof fn lemma_quotes_replaced_concat(a: Seq<char>, b: Seq<char>)
    ensures
        quotes_replaced(a + b) == quotes_replaced(a) + quotes_replaced(b),
    decreases b.len(),
{
    if b.len() == 0 {
        assert(a + b =~= a);
        assert(quotes_replaced(a) + quotes_replaced(b) =~= quotes_replaced(a));
    } else {
        lemma_quotes_replaced_concat(a, b.drop_last());
        assert((a + b).drop_last() =~= a + b.drop_last());
        assert((a + b).last() == b.last());
        let tail = if b.last() == '"' { "&quot;"@ } else { seq![b.last()] };
        assert(quotes_replaced(a) + quotes_replaced(b.drop_last()) + tail =~= quotes_replaced(a) + (
        quotes_replaced(b.drop_last()) + tail));
    }
}

/// Escaping for an attribute is escaping for text and then replacing each `"`
/// by `&quot;`.
pub proof fn lemma_attr_is_text_then_quotes(s: Seq<char>)
    ensures
        escaped_attr(s) == quotes_replaced(escaped_text(s)),
    decreases s.len(),
{
    reveal_strlit("&amp;");
    reveal_strlit("&lt;");
    reveal_strlit("&gt;");
    reveal_strlit("&quot;");
    if s.len() > 0 {
        lemma_attr_is_text_then_quotes(s.drop_last());
        let c = s.last();
        lemma_quotes_replaced_concat(escaped_text(s.drop_last()), text_escape(c));
        let t = text_escape(c);
        if c == '&' || c == '<' || c == '>' {
            assert forall|i: int| 0 <= i < t.len() implies t[i] != '"' by {}
            lemma_quotes_untouched(t);
        } else if c == '"' {
            assert(t =~= seq![c]);
            let e = t.drop_last();
            assert(e.len() == 0);
            assert(quotes_replaced(e) == Seq::<char>::empty());
            assert(t.last() == '"');
            assert(quotes_replaced(t) == quotes_replaced(e) + "&quot;"@);
            assert(quotes_replaced(t) =~= "&quot;"@);
        } else {
            assert(t =~= seq![c]);
            let e = t.drop_last();
            assert(e.len() == 0);
            assert(quotes_replaced(e) == Seq::<char>::empty());
            assert(t.last() == c);
            assert(quotes_replaced(t) == quotes_replaced(e) + seq![c]);
            assert(quotes_replaced(t) =~= seq![c]);
        }
    }
}

proof fn lemma_quotes_untouched(t: Seq<char>)
    requires
        forall|i: int| 0 <= i < t.len() ==> t[i] != '"',
    ensures
        quotes_replaced(t) == t,
    decreases t.len(),
{
    if t.len() > 0 {
        lemma_quotes_untouched(t.drop_last());
        assert(t.drop_last().push(t.last()) =~= t);
    }
}

/// `s` with each occurrence of a non-empty `pat`, found scanning left to right
/// without overlap, replaced by `rep`, as `str::replace` does.
pub open spec fn replaced(s: Seq<char>, pat: Seq<char>, rep: Seq<char>) -> Seq<char>
    decreases s.len(),
{
    if s.len() == 0 || pat.len() == 0 {
        s
    } else if pat.len() <= s.len() && s.subrange(0, pat.len() as int) == pat {
        rep + replaced(s.skip(pat.len() as int), pat, rep)
    } else {
        seq![s[0]] + replaced(s.drop_first(), pat, rep)
    }
}

/// The characters of the four entities and of what they stand for.
proof fn reveal_entities()
    ensures
        "&amp;"@ =~= seq!['&', 'a', 'm', 'p', ';'],
        "&lt;"@ =~= seq!['&', 'l', 't', ';'],
        "&gt;"@ =~= seq!['&', 'g', 't', ';'],
        "&quot;"@ =~= seq!['&', 'q', 'u', 'o', 't', ';'],
        "&"@ =~= seq!['&'],
        "<"@ =~= seq!['<'],
        ">"@ =~= seq!['>'],
        "\""@ =~= seq!['"'],
{
    reveal_strlit("&amp;");
    reveal_strlit("&lt;");
    reveal_strlit("&gt;");
    reveal_strlit("&quot;");
    reveal_strlit("&");
    reveal_strlit("<");
    reveal_strlit(">");
    reveal_strlit("\"");
}

/// The entity undone at step `k` of unescaping: `&quot;`, `&gt;`, `&lt;`,
/// then `&amp;`.
spec fn entity(k: int) -> Seq<char> {
    if k == 0 {
        "&quot;"@
    } else if k == 1 {
        "&gt;"@
    } else if k == 2 {
        "&lt;"@
    } else {
        "&amp;"@
    }
}

/// The character entity `k` stands for.
spec fn entity_char(k: int) -> char {
    if k == 0 {
        '"'
    } else if k == 1 {
        '>'
    } else if k == 2 {
        '<'
    } else {
        '&'
    }
}

/// What one character of an escaped attribute value is after the first `k`
/// unescaping steps.
spec fn partly_escaped(k: int, c: char) -> Seq<char> {
    if k >= 4 || (k >= 3 && c == '<') || (k >= 2 && c == '>') || (k >= 1 && c == '"') {
        seq![c]
    } else {
        attr_escape(c)
    }
}

/// A whole string after the first `k` unescaping steps.
spec fn staged(k: int, s: Seq<char>) -> Seq<char>
    decreases s.len(),
{
    if s.len() == 0 {
        Seq::empty()
    } else {
        partly_escaped(k, s[0]) + staged(k, s.drop_first())
    }
}

proof fn lemma_staged_concat(k: int, a: Seq<char>, b: Seq<char>)
    ensures
        staged(k, a + b) == staged(k, a) + staged(k, b),
    decreases a.len(),
{
    if a.len() == 0 {
        assert(a + b =~= b);
    } else {
        assert((a + b).drop_first() =~= a.drop_first() + b);
        assert((a + b)[0] == a[0]);
        lemma_staged_concat(k, a.drop_first(), b);
    }
}

/// Before any step the string is the escaped attribute value; after the
/// first (undoing `&quot;`) it is the escaped text; after all four it is the
/// original.
proof fn lemma_staged_ends(s: Seq<char>)
    ensures
        staged(0, s) == escaped_attr(s),
        staged(1, s) == escaped_text(s),
        staged(4, s) == s,
    decreases s.len(),
{
    reveal_entities();
    if s.len() > 0 {
        lemma_staged_ends(s.drop_last());
        lemma_staged_concat(0, s.drop_last(), seq![s.last()]);
        lemma_staged_concat(1, s.drop_last(), seq![s.last()]);
        lemma_staged_concat(4, s.drop_last(), seq![s.last()]);
        assert(s.drop_last() + seq![s.last()] =~= s);
        let one = seq![s.last()];
        assert(one.drop_first() =~= Seq::<char>::empty());
        assert(one[0] == s.last());
        assert(staged(0, one.drop_first()) == Seq::<char>::empty());
        assert(staged(0, one) == partly_escaped(0, s.last()) + staged(0, one.drop_first()));
        assert(staged(1, one) == partly_escaped(1, s.last()) + staged(1, one.drop_first()));
        assert(staged(4, one) == partly_escaped(4, s.last()) + staged(4, one.drop_first()));
        assert(staged(0, one) =~= attr_escape(s.last()));
        assert(staged(1, one) =~= text_escape(s.last()));
        assert(staged(4, one) =~= one);
    }
}

/// Text holding no `&` passes through a replacement of an entity unchanged.
proof fn lemma_replaced_plain(t: Seq<char>, r: Seq<char>, pat: Seq<char>, rep: Seq<char>)
    requires
        pat.len() > 0,
        pat[0] == '&',
        forall|i: int| 0 <= i < t.len() ==> t[i] != '&',
    ensures
        replaced(t + r, pat, rep) == t + replaced(r, pat, rep),
    decreases t.len(),
{
    if t.len() > 0 {
        let s = t + r;
        assert(s[0] == t[0]);
        if pat.len() <= s.len() {
            assert(s.subrange(0, pat.len() as int)[0] != pat[0]);
        }
        assert(s.drop_first() =~= t.drop_first() + r);
        lemma_replaced_plain(t.drop_first(), r, pat, rep);
        assert(seq![t[0]] + (t.drop_first() + replaced(r, pat, rep)) =~= t + replaced(r, pat, rep));
    } else {
        assert(t + r =~= r);
    }
}

/// An entity other than the one replaced passes through unchanged.
proof fn lemma_replaced_other(tok: Seq<char>, r: Seq<char>, pat: Seq<char>, rep: Seq<char>)
    requires
        pat.len() >= 2,
        tok.len() >= 2,
        pat[0] == '&',
        tok[0] == '&',
        tok[1] != pat[1],
        forall|i: int| 1 <= i < tok.len() ==> tok[i] != '&',
    ensures
        replaced(tok + r, pat, rep) == tok + replaced(r, pat, rep),
{
    let s = tok + r;
    if pat.len() <= s.len() {
        assert(s.subrange(0, pat.len() as int)[1] != pat[1]);
    }
    assert(s.drop_first() =~= tok.drop_first() + r);
    lemma_replaced_plain(tok.drop_first(), r, pat, rep);
    assert(seq![tok[0]] + (tok.drop_first() + replaced(r, pat, rep)) =~= tok + replaced(r, pat, rep));
}

/// The entity replaced becomes its character.
proof fn lemma_replaced_hit(r: Seq<char>, pat: Seq<char>, rep: Seq<char>)
    requires
        pat.len() > 0,
    ensures
        replaced(pat + r, pat, rep) == rep + replaced(r, pat, rep),
{
    let s = pat + r;
    assert(s.subrange(0, pat.len() as int) =~= pat);
    assert(s.skip(pat.len() as int) =~= r);
}

/// Step `k` of unescaping turns the string after `k` steps into the string
/// after `k + 1`.
proof fn lemma_unescape_step(k: int, s: Seq<char>)
    requires
        0 <= k < 4,
    ensures
        replaced(staged(k, s), entity(k), seq![entity_char(k)]) == staged(k + 1, s),
    decreases s.len(),
{
    reveal_entities();
    let pat = entity(k);
    let rep = seq![entity_char(k)];
    if s.len() == 0 {
    } else {
        let c = s[0];
        let tail = staged(k, s.drop_first());
        lemma_unescape_step(k, s.drop_first());
        let tok = partly_escaped(k, c);
        if tok.len() == 1 {
            assert(tok =~= seq![c]);
            if c == '&' {
                assert(k >= 4);
            }
            lemma_replaced_plain(tok, tail, pat, rep);
            assert(partly_escaped(k + 1, c) =~= tok);
        } else if tok == pat {
            lemma_replaced_hit(tail, pat, rep);
            assert(partly_escaped(k + 1, c) =~= rep);
        } else {
            assert(tok[1] != pat[1]);
            lemma_replaced_other(tok, tail, pat, rep);
            assert(partly_escaped(k + 1, c) =~= tok);
        }
    }
}

/// Undoing the entities of an escaped attribute value (`&quot;`, `&gt;`,
/// `&lt;`, then `&amp;`, each with `str::replace`) gives the original text
/// back, and so does undoing those of escaped text (without the first step):
/// escaping loses nothing.
pub proof fn lemma_escaping_round_trip(s: Seq<char>)
    ensures
        replaced(
            replaced(replaced(replaced(escaped_attr(s), "&quot;"@, "\""@), "&gt;"@, ">"@), "&lt;"@, "<"@),
            "&amp;"@,
            "&"@,
        ) == s,
        replaced(replaced(replaced(escaped_text(s), "&gt;"@, ">"@), "&lt;"@, "<"@), "&amp;"@, "&"@) == s,
{
    reveal_entities();
    lemma_staged_ends(s);
    lemma_unescape_step(0, s);
    lemma_unescape_step(1, s);
    lemma_unescape_step(2, s);
    lemma_unescape_step(3, s);
    assert(entity(0) == "&quot;"@ && seq![entity_char(0)] == "\""@);
    assert(entity(1) == "&gt;"@ && seq![entity_char(1)] == ">"@);
    assert(entity(2) == "&lt;"@ && seq![entity_char(2)] == "<"@);
    assert(entity(3) == "&amp;"@ && seq![entity_char(3)] == "&"@);
}

} // verus!
