use badgateway::{format_json, highlight, json_to_spans, tokenize, Span, Style};

fn rejoin(spans: &[Span]) -> String {
    spans.iter().map(|s| s.text.as_str()).collect()
}

fn span(text: &str, style: Style) -> Span {
    Span { text: text.to_string(), style }
}

#[test]
fn tokenize_rejoins_to_input() {
    let inputs = [
        "",
        "{}[]:,",
        "{\"a\": {\"b\": [1, [2, [3, {\"c\": null}]]]}}",
        "plain text with no json",
        "\"unterminated \\\" string",
        "tru fals nul -1e+5 é ☃",
    ];
    for input in inputs {
        assert_eq!(rejoin(&tokenize(input)), input);
    }
}

#[test]
fn tokenize_empty_gives_no_spans() {
    assert!(tokenize("").is_empty());
}

#[test]
fn tokenize_classifies_each_token() {
    let spans = tokenize("{\"k\" : \"v\", \"n\": -1.5e3, \"t\": true, \"z\": nul}");
    assert_eq!(
        spans,
        vec![
            span("{", Style::Punctuation),
            span("\"k\"", Style::Key),
            span(" ", Style::Plain),
            span(":", Style::Punctuation),
            span(" ", Style::Plain),
            span("\"v\"", Style::Str),
            span(",", Style::Punctuation),
            span(" ", Style::Plain),
            span("\"n\"", Style::Key),
            span(":", Style::Punctuation),
            span(" ", Style::Plain),
            span("-1.5e3", Style::Number),
            span(",", Style::Punctuation),
            span(" ", Style::Plain),
            span("\"t\"", Style::Key),
            span(":", Style::Punctuation),
            span(" ", Style::Plain),
            span("true", Style::Keyword),
            span(",", Style::Punctuation),
            span(" ", Style::Plain),
            span("\"z\"", Style::Key),
            span(":", Style::Punctuation),
            span(" nul", Style::Plain),
            span("}", Style::Punctuation),
        ]
    );
}

#[test]
fn tokenize_escape_takes_next_character() {
    let spans = tokenize("\"a\\\"b\"x");
    assert_eq!(spans, vec![span("\"a\\\"b\"", Style::Str), span("x", Style::Plain)]);
}

#[test]
fn tokenize_number_run_is_permissive() {
    assert_eq!(tokenize("1-2+e"), vec![span("1-2+e", Style::Number)]);
}

#[test]
fn format_json_leaves_invalid_text_unchanged() {
    for text in ["{not json", "", "[1,]", "hello"] {
        assert_eq!(format_json(text), text);
    }
}

#[test]
fn format_json_indents_and_keeps_key_order() {
    assert_eq!(
        format_json("{\"b\":1,\"a\":[true,null]}"),
        "{\n  \"b\": 1,\n  \"a\": [\n    true,\n    null\n  ]\n}"
    );
}

#[test]
fn format_json_is_idempotent() {
    for text in ["{\"b\":1,\"a\":[true,null,{\"x\":\"y\"}]}", "[1.5, -2, 3e2]", "\"s\"", "42"] {
        let once = format_json(text);
        assert_eq!(format_json(&once), once);
    }
}

#[test]
fn json_to_spans_formats_first() {
    let spans = json_to_spans("{\"a\":1}");
    assert_eq!(rejoin(&spans), "{\n  \"a\": 1\n}");
    assert_eq!(spans[1], span("\n  ", Style::Plain));
}

#[test]
fn json_to_spans_of_empty_text_is_one_plain_span() {
    assert_eq!(json_to_spans(""), vec![span("", Style::Plain)]);
}

#[test]
fn highlight_falls_back_to_raw_text() {
    assert_eq!(highlight("orig", ""), vec![span("orig", Style::Plain)]);
    assert_eq!(highlight("orig", "1"), vec![span("1", Style::Number)]);
}

#[test]
fn json_to_spans_rejoins_to_formatted_text() {
    for text in ["{\"b\":1,\"a\":[true,null,\"x\\\"y\"]}", "not json {", "  [1, 2]  ", "-0.5e-3"] {
        assert_eq!(rejoin(&json_to_spans(text)), format_json(text));
    }
}

#[test]
fn json_to_spans_of_deep_nesting() {
    for depth in [1usize, 3, 100, 200, 1000] {
        let text = "[".repeat(depth) + &"]".repeat(depth);
        let spans = json_to_spans(&text);
        assert_eq!(rejoin(&spans), format_json(&text));
        let punctuation = spans.iter().filter(|s| s.style == Style::Punctuation).count();
        assert_eq!(punctuation, 2 * depth);
        for s in spans.iter().filter(|s| s.style != Style::Punctuation) {
            assert_eq!(s.style, Style::Plain);
            assert!(s.text.chars().all(char::is_whitespace));
        }
    }
}
