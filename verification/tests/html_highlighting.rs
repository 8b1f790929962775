use collab::html_syntax::{html_syntax_spans, HtmlSyntaxKind, HtmlSyntaxSpan};

fn utf16_fragment(source: &str, span: HtmlSyntaxSpan) -> String {
    String::from_utf16(
        &source
            .encode_utf16()
            .skip(span.location)
            .take(span.length)
            .collect::<Vec<_>>(),
    )
    .unwrap()
}

#[test]
fn html_syntax_scanner_emits_ordered_non_overlapping_utf16_spans() {
    let source = "<!doctype html><!-- note --><h1 class=\"title\" data-label='台灣'>Hello</h1>";
    let spans = html_syntax_spans(source);
    let actual = spans
        .iter()
        .map(|span| (span.kind, utf16_fragment(source, *span)))
        .collect::<Vec<_>>();

    assert_eq!(
        actual,
        vec![
            (HtmlSyntaxKind::Doctype, "<!doctype html>".into()),
            (HtmlSyntaxKind::Comment, "<!-- note -->".into()),
            (HtmlSyntaxKind::TagDelimiter, "<".into()),
            (HtmlSyntaxKind::TagName, "h1".into()),
            (HtmlSyntaxKind::AttributeName, "class".into()),
            (HtmlSyntaxKind::AttributeValue, "\"title\"".into()),
            (HtmlSyntaxKind::AttributeName, "data-label".into()),
            (HtmlSyntaxKind::AttributeValue, "'台灣'".into()),
            (HtmlSyntaxKind::TagDelimiter, ">".into()),
            (HtmlSyntaxKind::TagDelimiter, "</".into()),
            (HtmlSyntaxKind::TagName, "h1".into()),
            (HtmlSyntaxKind::TagDelimiter, ">".into()),
        ]
    );
    assert!(spans
        .windows(2)
        .all(|pair| { pair[0].location + pair[0].length <= pair[1].location }));
    assert!(spans
        .iter()
        .all(|span| span.location + span.length <= source.encode_utf16().count()));
}

#[test]
fn html_syntax_scanner_preserves_unicode_boundaries() {
    let source = "<p title=\"台灣\">界面</p>";
    let spans = html_syntax_spans(source);

    assert!(spans.iter().any(|span| {
        span.kind == HtmlSyntaxKind::AttributeValue
            && utf16_fragment(source, *span) == "\"台灣\""
    }));
    assert!(!spans
        .iter()
        .any(|span| utf16_fragment(source, *span).contains("界面")));
}

#[test]
fn html_syntax_scanner_keeps_incomplete_markup_in_bounds() {
    for source in ["<div class=\"open", "<!-- note", "<span data-label='台灣"] {
        let spans = html_syntax_spans(source);
        let source_length = source.encode_utf16().count();

        assert!(spans
            .iter()
            .all(|span| span.location + span.length <= source_length));
        assert!(spans
            .windows(2)
            .all(|pair| { pair[0].location + pair[0].length <= pair[1].location }));
    }
}

#[test]
fn html_syntax_scanner_leaves_incomplete_raw_text_content_unstyled() {
    let source = "<style>.note::before { content: \"<b>\"; }";
    let spans = html_syntax_spans(source);

    assert!(spans
        .iter()
        .all(|span| span.location + span.length <= "<style>".encode_utf16().count()));
}

#[test]
fn html_syntax_scanner_ignores_invalid_raw_text_closing_prefixes() {
    for (opening, invalid_closing, valid_closing) in [
        ("<script>", "</script-not-a-tag>", "</script>"),
        ("<script>", "</scriptx>", "</script>"),
        ("<style>", "</style-note>", "</style>"),
        ("<style>", "</stylex>", "</style>"),
    ] {
        let source =
            format!("{opening}raw{invalid_closing}<b>inside</b>{valid_closing}<p>after</p>");
        let spans = html_syntax_spans(&source);
        let raw_text_start = opening.encode_utf16().count();
        let valid_closing_start = source
            .find(valid_closing)
            .expect("source contains a valid closing tag");
        let valid_closing_start = source[..valid_closing_start].encode_utf16().count();

        assert!(
            spans
                .iter()
                .filter(|span| span.location >= raw_text_start)
                .all(|span| span.location >= valid_closing_start),
            "invalid closing prefix must remain unstyled: {invalid_closing}"
        );
        assert!(spans.iter().any(|span| {
            span.kind == HtmlSyntaxKind::TagName && utf16_fragment(&source, *span) == "p"
        }));
    }
}

#[test]
fn html_syntax_scanner_accepts_raw_text_closing_tag_boundaries() {
    for (opening, closing) in [
        ("<script>", "</ScRiPt>"),
        ("<script>", "</ScRiPt\t>"),
        ("<script>", "</ScRiPt/>"),
        ("<style>", "</StYlE >"),
    ] {
        let source = format!("{opening}<b>raw</b>{closing}<p>after</p>");
        let spans = html_syntax_spans(&source);
        let tag_names = spans
            .iter()
            .filter(|span| span.kind == HtmlSyntaxKind::TagName)
            .map(|span| utf16_fragment(&source, *span))
            .collect::<Vec<_>>();

        assert!(!tag_names.iter().any(|tag| tag == "b"));
        assert!(
            tag_names.iter().any(|tag| tag == "p"),
            "highlighting must resume after {closing}"
        );
    }
}

#[test]
fn spans_count_two_units_for_a_character_outside_the_basic_plane() {
    let spans = html_syntax_spans("😀<b>");
    let places: Vec<(usize, usize)> =
        spans.iter().map(|span| (span.location, span.length)).collect();
    assert_eq!(places, vec![(2, 1), (3, 1), (4, 1)]);
}

#[test]
fn plain_text_has_no_spans() {
    assert!(html_syntax_spans("a > b and nothing else").is_empty());
    assert!(html_syntax_spans("").is_empty());
}
