use rupub::book::{join_paragraphs, parse_chapter_content};

#[test]
fn chapter_keeps_paragraph_text_one_per_line() {
    let html = "<html><body><h1>Title</h1><p>First line.</p><div>skip</div><p>Second <b>bold</b> line.</p></body></html>";
    assert_eq!(
        parse_chapter_content(html.to_string()),
        "First line.\nSecond bold line.\n"
    );
}

#[test]
fn chapter_without_paragraphs_is_empty() {
    assert_eq!(parse_chapter_content("<html><body><div>x</div></body></html>".to_string()), "");
    assert_eq!(parse_chapter_content(String::new()), "");
}

#[test]
fn chapter_text_is_not_the_raw_html() {
    let html = "<p>a</p>".to_string();
    let text = parse_chapter_content(html.clone());
    assert_ne!(text, html);
    assert_eq!(text, "a\n");
}

#[test]
fn chapter_includes_nested_and_empty_paragraphs() {
    let html = "<p></p><section><p>in &amp; out</p></section>";
    assert_eq!(parse_chapter_content(html.to_string()), "\nin & out\n");
}

#[test]
fn join_puts_a_line_break_after_each_paragraph() {
    let paragraphs = vec!["one".to_string(), "two".to_string(), String::new()];
    assert_eq!(join_paragraphs(&paragraphs), "one\ntwo\n\n");
    assert_eq!(join_paragraphs(&Vec::new()), "");
}
