use vstd::prelude::*;

use crate::highlight::{joined, lemma_spans_rejoin, spans_view, token_spans, tokenize, Span, Style};

verus! {

/// The text is one JSON value under strict parsing.
pub uninterp spec fn is_json(s: Seq<char>) -> bool;

/// The indented, multi-line rendering of a JSON text, keys in the order they came in.
pub uninterp spec fn pretty_of(s: Seq<char>) -> Seq<char>;

/// Relies on `serde_json::from_str` into a `serde_json::Value`, then
/// `serde_json::to_string_pretty`: parsing succeeds or fails on the text alone, the rendering
/// depends on the text alone, and a parsed `Value` always renders (its map keys are strings).
#[verifier::external_body]
fn pretty_text(s: &str) -> (r: Option<String>)
    ensures
        r is Some <==> is_json(s@),
        r matches Some(t) ==> t@ == pretty_of(s@),
{
    serde_json::from_str::<serde_json::Value>(s)
        .ok()
        .and_then(|v| serde_json::to_string_pretty(&v).ok())
}

/// What a response text is shown as: its pretty rendering where it is JSON, else itself.
pub open spec fn formatted_text(s: Seq<char>) -> Seq<char> {
    if is_json(s) {
        pretty_of(s)
    } else {
        s
    }
}

/// Formats JSON text with indentation, keys in the order they came in. Text that is not
/// JSON comes back unchanged.
pub fn format_json(s: &str) -> (r: String)
    ensures
        is_json(s@) ==> r@ == pretty_of(s@),
        !is_json(s@) ==> r@ == s@,
{
    match pretty_text(s) {
        Some(t) => t,
        None => s.to_owned(),
    }
}

/// The spans shown for a response: those of the formatted text, or, where it yields none,
/// the unformatted text as one plain span.
pub open spec fn shown_spans(raw: Seq<char>, formatted: Seq<char>) -> Seq<(Seq<char>, Style)> {
    if token_spans(formatted).len() == 0 {
        seq![(raw, Style::Plain)]
    } else {
        token_spans(formatted)
    }
}

/// The spans shown for a response, given its text before and after formatting.
pub fn highlight(raw: &str, formatted: &str) -> (r: Vec<Span>)
    ensures
        spans_view(r@) == shown_spans(raw@, formatted@),
        joined(spans_view(r@)) == if formatted@.len() == 0 {
            raw@
        } else {
            formatted@
        },
{
    let spans = tokenize(formatted);
    if spans.len() == 0 {
        let r = vec![Span { text: raw.to_owned(), style: Style::Plain }];
        assert(spans_view(r@) =~= seq![(raw@, Style::Plain)]);
        let ghost rest = spans_view(r@).drop_first();
        assert(rest =~= Seq::empty());
        assert(joined(rest) == Seq::<char>::empty());
        assert(raw@ + Seq::<char>::empty() =~= raw@);
        r
    } else {
        spans
    }
}

/// Formats a response text and splits it into styled spans.
pub fn json_to_spans(s: &str) -> (r: Vec<Span>)
    ensures
        spans_view(r@) == shown_spans(s@, formatted_text(s@)),
        is_json(s@) ==> spans_view(r@) == shown_spans(s@, pretty_of(s@)),
        !is_json(s@) ==> spans_view(r@) == shown_spans(s@, s@),
        joined(spans_view(r@)) == if formatted_text(s@).len() == 0 {
            s@
        } else {
            formatted_text(s@)
        },
        !is_json(s@) ==> joined(spans_view(r@)) == s@,
{
    let formatted = format_json(s);
    highlight(s, formatted.as_str())
}

} // verus!
