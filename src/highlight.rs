use vstd::prelude::*;

use crate::text::{chars_of, is_space, is_space_char, string_of_range};

verus! {

/// How a piece of JSON text is shown.
#[derive(Clone, Copy, Debug, PartialEq, Eq, Structural)]
pub enum Style {
    Key,
    Str,
    Number,
    Keyword,
    Punctuation,
    Plain,
}

/// A piece of text and how it is shown.
#[derive(Clone, Debug, PartialEq, Eq)]
pub struct Span {
    pub text: String,
    pub style: Style,
}

pub open spec fn span_view(sp: Span) -> (Seq<char>, Style) {
    (sp.text@, sp.style)
}

pub open spec fn spans_view(v: Seq<Span>) -> Seq<(Seq<char>, Style)> {
    v.map_values(|sp: Span| span_view(sp))
}

/// The text of the spans, one after another.
pub open spec fn joined(sp: Seq<(Seq<char>, Style)>) -> Seq<char>
    decreases sp.len(),
{
    if sp.len() == 0 {
        Seq::empty()
    } else {
        sp[0].0 + joined(sp.drop_first())
    }
}

pub open spec fn is_digit(c: char) -> bool {
    '0' <= c && c <= '9'
}

pub open spec fn is_number_char(c: char) -> bool {
    is_digit(c) || c == '.' || c == 'e' || c == 'E' || c == '+' || c == '-'
}

pub open spec fn is_punctuation(c: char) -> bool {
    c == '{' || c == '}' || c == '[' || c == ']' || c == ':' || c == ','
}

/// How many characters from `j` on a string literal still takes, its closing quote
/// included: a backslash takes the character after it along, whatever it is.
pub open spec fn quoted_tail(s: Seq<char>, j: int) -> nat
    decreases s.len() - j,
{
    if j < 0 || j >= s.len() {
        0
    } else if s[j] == '"' {
        1
    } else if s[j] == '\\' {
        if j + 1 < s.len() {
            2 + quoted_tail(s, j + 2)
        } else {
            1
        }
    } else {
        1 + quoted_tail(s, j + 1)
    }
}

/// How many white space characters follow from `j` on.
pub open spec fn space_tail(s: Seq<char>, j: int) -> nat
    decreases s.len() - j,
{
    if j < 0 || j >= s.len() || !is_space(s[j]) {
        0
    } else {
        1 + space_tail(s, j + 1)
    }
}

/// How many number characters follow from `j` on.
pub open spec fn number_tail(s: Seq<char>, j: int) -> nat
    decreases s.len() - j,
{
    if j < 0 || j >= s.len() || !is_number_char(s[j]) {
        0
    } else {
        1 + number_tail(s, j + 1)
    }
}

/// How many characters of `w`, from its `k`-th on, `s` spells from `j + k` on.
pub open spec fn word_match(s: Seq<char>, j: int, w: Seq<char>, k: int) -> nat
    decreases w.len() - k,
{
    if 0 <= k < w.len() && 0 <= j + k < s.len() && s[j + k] == w[k] {
        1 + word_match(s, j, w, k + 1)
    } else {
        0
    }
}

/// What follows the first letter of `true`, `false` and `null`.
pub open spec fn keyword_rest(c: char) -> Seq<char> {
    if c == 't' {
        seq!['r', 'u', 'e']
    } else if c == 'f' {
        seq!['a', 'l', 's', 'e']
    } else {
        seq!['u', 'l', 'l']
    }
}

/// The token at `i`: how many characters it takes after its first, and its style; no
/// style means plain text.
pub open spec fn lex(s: Seq<char>, i: int) -> (nat, Option<Style>) {
    let c = s[i];
    if c == '"' {
        let n = quoted_tail(s, i + 1);
        let k = i + 1 + n + space_tail(s, i + 1 + n);
        (n, Some(if k < s.len() && s[k] == ':' { Style::Key } else { Style::Str }))
    } else if is_digit(c) || c == '-' {
        (number_tail(s, i + 1), Some(Style::Number))
    } else if c == 't' || c == 'f' || c == 'n' {
        let m = word_match(s, i + 1, keyword_rest(c), 0);
        (m, if m == keyword_rest(c).len() { Some(Style::Keyword) } else { None })
    } else if is_punctuation(c) {
        (0, Some(Style::Punctuation))
    } else {
        (0, None)
    }
}

/// Pending plain text as a span, if there is any.
pub open spec fn flush_plain(pending: Seq<char>) -> Seq<(Seq<char>, Style)> {
    if pending.len() > 0 {
        seq![(pending, Style::Plain)]
    } else {
        Seq::empty()
    }
}

/// The spans of `s` from `i` on, `pending` being plain text read before `i` and not yet
/// emitted.
pub open spec fn spans_from(s: Seq<char>, i: int, pending: Seq<char>) -> Seq<(Seq<char>, Style)>
    decreases s.len() - i,
{
    if i < 0 || i >= s.len() {
        flush_plain(pending)
    } else {
        let (n, st) = lex(s, i);
        let e = if i + 1 + n <= s.len() { i + 1 + n } else { s.len() as int };
        match st {
            None => spans_from(s, e, pending + s.subrange(i, e)),
            Some(k) => flush_plain(pending) + seq![(s.subrange(i, e), k)] + spans_from(
                s,
                e,
                Seq::empty(),
            ),
        }
    }
}

/// The spans of a whole text.
pub open spec fn token_spans(s: Seq<char>) -> Seq<(Seq<char>, Style)> {
    spans_from(s, 0, Seq::empty())
}

proof fn lemma_quoted_bound(s: Seq<char>, j: int)
    requires
        0 <= j <= s.len(),
    ensures
        j + quoted_tail(s, j) <= s.len(),
    decreases s.len() - j,
{
    if j < s.len() && s[j] != '"' {
        if s[j] == '\\' {
            if j + 1 < s.len() {
                lemma_quoted_bound(s, j + 2);
            }
        } else {
            lemma_quoted_bound(s, j + 1);
        }
    }
}

proof fn lemma_space_bound(s: Seq<char>, j: int)
    requires
        0 <= j <= s.len(),
    ensures
        j + space_tail(s, j) <= s.len(),
    decreases s.len() - j,
{
    if j < s.len() && is_space(s[j]) {
        lemma_space_bound(s, j + 1);
    }
}

proof fn lemma_number_bound(s: Seq<char>, j: int)
    requires
        0 <= j <= s.len(),
    ensures
        j + number_tail(s, j) <= s.len(),
    decreases s.len() - j,
{
    if j < s.len() && is_number_char(s[j]) {
        lemma_number_bound(s, j + 1);
    }
}

proof fn lemma_word_bound(s: Seq<char>, j: int, w: Seq<char>, k: int)
    requires
        0 <= j,
        0 <= k,
        j + k <= s.len(),
    ensures
        j + k + word_match(s, j, w, k) <= s.len(),
        k + word_match(s, j, w, k) <= w.len() || word_match(s, j, w, k) == 0,
    decreases w.len() - k,
{
    if 0 <= k < w.len() && 0 <= j + k < s.len() && s[j + k] == w[k] {
        lemma_word_bound(s, j, w, k + 1);
    }
}

/// A token never runs past the end of the text.
proof fn lemma_lex_bound(s: Seq<char>, i: int)
    requires
        0 <= i < s.len(),
    ensures
        i + 1 + lex(s, i).0 <= s.len(),
{
    lemma_quoted_bound(s, i + 1);
    lemma_number_bound(s, i + 1);
    lemma_word_bound(s, i + 1, keyword_rest(s[i]), 0);
}

proof fn lemma_joined_append(a: Seq<(Seq<char>, Style)>, b: Seq<(Seq<char>, Style)>)
    ensures
        joined(a + b) == joined(a) + joined(b),
    decreases a.len(),
{
    if a.len() == 0 {
        assert(a + b =~= b);
        assert(joined(a) + joined(b) =~= joined(b));
    } else {
        assert((a + b).drop_first() =~= a.drop_first() + b);
        lemma_joined_append(a.drop_first(), b);
        assert(joined(a + b) =~= joined(a) + joined(b));
    }
}

proof fn lemma_joined_one(t: Seq<char>, k: Style)
    ensures
        joined(seq![(t, k)]) == t,
{
    let e = Seq::<(Seq<char>, Style)>::empty();
    assert(seq![(t, k)].drop_first() =~= e);
    assert(joined(e) == Seq::<char>::empty());
    assert(t + Seq::<char>::empty() =~= t);
}

proof fn lemma_flush_joined(p: Seq<char>)
    ensures
        joined(flush_plain(p)) == p,
{
    if p.len() > 0 {
        lemma_joined_one(p, Style::Plain);
    } else {
        assert(p =~= Seq::<char>::empty());
    }
}

proof fn lemma_spans_from_joined(s: Seq<char>, i: int, p: Seq<char>)
    requires
        0 <= i <= s.len(),
    ensures
        joined(spans_from(s, i, p)) == p + s.skip(i),
    decreases s.len() - i,
{
    if i >= s.len() {
        lemma_flush_joined(p);
        assert(p + s.skip(i) =~= p);
    } else {
        lemma_lex_bound(s, i);
        let (n, st) = lex(s, i);
        let e = i + 1 + n;
        lemma_spans_from_joined(s, e, if st is None { p + s.subrange(i, e) } else { Seq::empty() });
        match st {
            None => {
                assert(p + s.subrange(i, e) + s.skip(e) =~= p + s.skip(i));
            },
            Some(k) => {
                let head = flush_plain(p) + seq![(s.subrange(i, e), k)];
                lemma_joined_append(head, spans_from(s, e, Seq::empty()));
                lemma_joined_append(flush_plain(p), seq![(s.subrange(i, e), k)]);
                lemma_flush_joined(p);
                lemma_joined_one(s.subrange(i, e), k);
                assert(p + s.subrange(i, e) + (Seq::<char>::empty() + s.skip(e)) =~= p + s.skip(i));
            },
        }
    }
}

/// The spans of any text, put back together, give that text again: nothing is dropped,
/// repeated or moved.
pub proof fn lemma_spans_rejoin(s: Seq<char>)
    ensures
        joined(token_spans(s)) == s,
{
    lemma_spans_from_joined(s, 0, Seq::empty());
    assert(Seq::<char>::empty() + s.skip(0) =~= s);
}

fn quoted_len(s: &[char], j: usize) -> (r: usize)
    requires
        j <= s@.len(),
    ensures
        r == quoted_tail(s@, j as int),
{
    let mut p: usize = j;
    loop
        invariant
            j <= p <= s@.len(),
            (p - j) + quoted_tail(s@, p as int) == quoted_tail(s@, j as int),
        decreases s@.len() - p,
    {
        if p >= s.len() {
            return p - j;
        }
        if s[p] == '"' {
            return p + 1 - j;
        }
        if s[p] == '\\' {
            if p + 1 < s.len() {
                p += 2;
            } else {
                return p + 1 - j;
            }
        } else {
            p += 1;
        }
    }
}

fn space_len(s: &[char], j: usize) -> (r: usize)
    requires
        j <= s@.len(),
    ensures
        r == space_tail(s@, j as int),
        j + r <= s@.len(),
{
    proof {
        lemma_space_bound(s@, j as int);
    }
    let mut p: usize = j;
    while p < s.len() && is_space_char(s[p])
        invariant
            j <= p <= s@.len(),
            (p - j) + space_tail(s@, p as int) == space_tail(s@, j as int),
        decreases s@.len() - p,
    {
        p += 1;
    }
    p - j
}

fn number_len(s: &[char], j: usize) -> (r: usize)
    requires
        j <= s@.len(),
    ensures
        r == number_tail(s@, j as int),
{
    let mut p: usize = j;
    while p < s.len() && (('0' <= s[p] && s[p] <= '9') || s[p] == '.' || s[p] == 'e' || s[p]
        == 'E' || s[p] == '+' || s[p] == '-')
        invariant
            j <= p <= s@.len(),
            (p - j) + number_tail(s@, p as int) == number_tail(s@, j as int),
        decreases s@.len() - p,
    {
        p += 1;
    }
    p - j
}

fn word_len(s: &[char], j: usize, w: &[char]) -> (r: usize)
    requires
        j <= s@.len(),
    ensures
        r == word_match(s@, j as int, w@, 0),
{
    let len = s.len();
    let mut k: usize = 0;
    while k < w.len() && j + k < len && s[j + k] == w[k]
        invariant
            len == s@.len(),
            j <= len,
            k <= w@.len(),
            j + k <= len,
            k + word_match(s@, j as int, w@, k as int) == word_match(s@, j as int, w@, 0),
        decreases w@.len() - k,
    {
        k += 1;
    }
    k
}

/// The token at `i`: how many characters it takes after its first, and its style.
fn lex_at(s: &[char], i: usize) -> (r: (usize, Option<Style>))
    requires
        i < s@.len(),
    ensures
        r.0 == lex(s@, i as int).0,
        r.1 == lex(s@, i as int).1,
        i + 1 + r.0 <= s@.len(),
{
    proof {
        lemma_lex_bound(s@, i as int);
    }
    let len = s.len();
    let c = s[i];
    if c == '"' {
        let n = quoted_len(s, i + 1);
        assert(i + 1 + n <= len);
        let k = i + 1 + n + space_len(s, i + 1 + n);
        let is_key = k < len && s[k] == ':';
        (n, Some(if is_key { Style::Key } else { Style::Str }))
    } else if ('0' <= c && c <= '9') || c == '-' {
        (number_len(s, i + 1), Some(Style::Number))
    } else if c == 't' || c == 'f' || c == 'n' {
        let w: Vec<char> = if c == 't' {
            vec!['r', 'u', 'e']
        } else if c == 'f' {
            vec!['a', 'l', 's', 'e']
        } else {
            vec!['u', 'l', 'l']
        };
        assert(w@ =~= keyword_rest(c));
        let m = word_len(s, i + 1, &w);
        (m, if m == w.len() { Some(Style::Keyword) } else { None })
    } else if c == '{' || c == '}' || c == '[' || c == ']' || c == ':' || c == ',' {
        (0, Some(Style::Punctuation))
    } else {
        (0, None)
    }
}

/// Splits JSON text into styled spans in one forward pass: string literals (keys when a
/// `:` follows), numbers, `true` / `false` / `null`, punctuation, and plain text between them.
pub fn tokenize(text: &str) -> (r: Vec<Span>)
    ensures
        spans_view(r@) == token_spans(text@),
        joined(spans_view(r@)) == text@,
{
    proof {
        lemma_spans_rejoin(text@);
    }
    let s = chars_of(text);
    let mut out: Vec<Span> = Vec::new();
    let mut pending: Vec<char> = Vec::new();
    let mut i: usize = 0;
    assert(spans_view(out@) =~= Seq::empty());
    while i < s.len()
        invariant
            i <= s@.len(),
            s@ == text@,
            spans_view(out@) + spans_from(s@, i as int, pending@) == token_spans(s@),
        decreases s@.len() - i,
    {
        let (n, st) = lex_at(&s, i);
        let e = i + 1 + n;
        let ghost before = spans_view(out@);
        match st {
            None => {
                let mut j: usize = i;
                let ghost p0 = pending@;
                while j < e
                    invariant
                        i <= j <= e <= s@.len(),
                        pending@ == p0 + s@.subrange(i as int, j as int),
                    decreases e - j,
                {
                    pending.push(s[j]);
                    j += 1;
                    assert(pending@ =~= p0 + s@.subrange(i as int, j as int));
                }
            },
            Some(k) => {
                if pending.len() > 0 {
                    let t = string_of_range(&pending, 0, pending.len());
                    assert(pending@.subrange(0, pending@.len() as int) =~= pending@);
                    out.push(Span { text: t, style: Style::Plain });
                }
                let ghost flushed = spans_view(out@);
                assert(flushed =~= before + flush_plain(pending@));
                out.push(Span { text: string_of_range(&s, i, e), style: k });
                assert(spans_view(out@) =~= before + flush_plain(pending@) + seq![
                    (s@.subrange(i as int, e as int), k),
                ]);
                pending = Vec::new();
            },
        }
        i = e;
    }
    if pending.len() > 0 {
        let ghost before = spans_view(out@);
        let t = string_of_range(&pending, 0, pending.len());
        assert(pending@.subrange(0, pending@.len() as int) =~= pending@);
        out.push(Span { text: t, style: Style::Plain });
        assert(spans_view(out@) =~= before + flush_plain(pending@));
    } else {
        assert(spans_view(out@) =~= spans_view(out@) + flush_plain(pending@));
    }
    out
}

} // verus!
