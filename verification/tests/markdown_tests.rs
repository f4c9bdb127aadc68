use openagent_tui::markdown::{parse_heading, parse_list_item, parse_markdown, split_lines, MarkdownElement};

#[test]
fn test_parse_plain_text() {
    let elements = parse_markdown("Hello world");
    assert_eq!(elements.len(), 2); // Text + Newline
    assert!(matches!(&elements[0], MarkdownElement::Text(t) if t == "Hello world"));
}

#[test]
fn test_parse_heading() {
    let elements = parse_markdown("# Heading 1");
    assert!(
        matches!(&elements[0], MarkdownElement::Heading { level: 1, text } if text == "Heading 1")
    );

    let elements = parse_markdown("### Heading 3");
    assert!(
        matches!(&elements[0], MarkdownElement::Heading { level: 3, text } if text == "Heading 3")
    );
}

#[test]
fn test_parse_bold() {
    let elements = parse_markdown("This is **bold** text");
    assert!(elements.iter().any(|e| matches!(e, MarkdownElement::Bold(t) if t == "bold")));
}

#[test]
fn test_parse_italic() {
    let elements = parse_markdown("This is *italic* text");
    assert!(elements.iter().any(|e| matches!(e, MarkdownElement::Italic(t) if t == "italic")));
}

#[test]
fn test_parse_inline_code() {
    let elements = parse_markdown("Use `code` here");
    assert!(elements.iter().any(|e| matches!(e, MarkdownElement::Code(t) if t == "code")));
}

#[test]
fn test_parse_code_block() {
    let md = "```rust\nfn main() {}\n```";
    let elements = parse_markdown(md);
    assert!(elements.iter().any(|e| matches!(
        e,
        MarkdownElement::CodeBlock { language: Some(lang), code }
        if lang == "rust" && code.contains("fn main()")
    )));
}

#[test]
fn test_parse_code_block_no_language() {
    let md = "```\nsome code\n```";
    let elements = parse_markdown(md);
    assert!(elements.iter().any(|e| matches!(
        e,
        MarkdownElement::CodeBlock { language: None, code }
        if code == "some code"
    )));
}

#[test]
fn test_parse_link() {
    let elements = parse_markdown("Check [this link](https://example.com)");
    assert!(elements.iter().any(|e| matches!(
        e,
        MarkdownElement::Link { text, url }
        if text == "this link" && url == "https://example.com"
    )));
}

#[test]
fn test_parse_unordered_list() {
    let elements = parse_markdown("- Item 1\n- Item 2");
    let list_items: Vec<_> = elements
        .iter()
        .filter(|e| matches!(e, MarkdownElement::ListItem { .. }))
        .collect();
    assert_eq!(list_items.len(), 2);
}

#[test]
fn test_parse_ordered_list() {
    let elements = parse_markdown("1. First\n2. Second");
    let list_items: Vec<_> = elements
        .iter()
        .filter(|e| matches!(e, MarkdownElement::ListItem { .. }))
        .collect();
    assert_eq!(list_items.len(), 2);
}

#[test]
fn test_parse_blockquote() {
    let elements = parse_markdown("> This is a quote");
    assert!(elements.iter().any(|e| matches!(
        e,
        MarkdownElement::BlockQuote(t) if t == "This is a quote"
    )));
}

#[test]
fn test_parse_horizontal_rule() {
    for rule in &["---", "***", "___"] {
        let elements = parse_markdown(rule);
        assert!(elements.iter().any(|e| matches!(e, MarkdownElement::HorizontalRule)));
    }
}

#[test]
fn test_consecutive_decorators() {
    // Test that consecutive decorators are parsed correctly
    let elements = parse_markdown("**bold** *italic*");
    let bold_count = elements.iter().filter(|e| matches!(e, MarkdownElement::Bold(_))).count();
    let italic_count = elements.iter().filter(|e| matches!(e, MarkdownElement::Italic(_))).count();
    assert_eq!(bold_count, 1, "Should have one bold element");
    assert_eq!(italic_count, 1, "Should have one italic element");
}

#[test]
fn test_adjacent_decorators_no_space() {
    // Test decorators directly adjacent
    let elements = parse_markdown("**bold***italic*");
    let bold_count = elements.iter().filter(|e| matches!(e, MarkdownElement::Bold(_))).count();
    let italic_count = elements.iter().filter(|e| matches!(e, MarkdownElement::Italic(_))).count();
    assert_eq!(bold_count, 1, "Should have one bold element");
    assert_eq!(italic_count, 1, "Should have one italic element");
}

#[test]
fn test_underscore_decorators() {
    // Test underscore-style decorators
    let elements = parse_markdown("__bold__ _italic_");
    let bold_count = elements.iter().filter(|e| matches!(e, MarkdownElement::Bold(_))).count();
    let italic_count = elements.iter().filter(|e| matches!(e, MarkdownElement::Italic(_))).count();
    assert_eq!(bold_count, 1, "Should have one bold element");
    assert_eq!(italic_count, 1, "Should have one italic element");
}

#[test]
fn test_mixed_asterisk_underscore() {
    // Test mixing asterisk and underscore
    let elements = parse_markdown("**bold** _italic_");
    let bold_count = elements.iter().filter(|e| matches!(e, MarkdownElement::Bold(_))).count();
    let italic_count = elements.iter().filter(|e| matches!(e, MarkdownElement::Italic(_))).count();
    assert_eq!(bold_count, 1, "Should have one bold element");
    assert_eq!(italic_count, 1, "Should have one italic element");
}

#[test]
fn test_multiple_bolds() {
    let elements = parse_markdown("**first** and **second**");
    let bold_count = elements.iter().filter(|e| matches!(e, MarkdownElement::Bold(_))).count();
    assert_eq!(bold_count, 2, "Should have two bold elements");
}

#[test]
fn test_inline_code_followed_by_bold() {
    let elements = parse_markdown("`code` **bold**");
    let code_count = elements.iter().filter(|e| matches!(e, MarkdownElement::Code(_))).count();
    let bold_count = elements.iter().filter(|e| matches!(e, MarkdownElement::Bold(_))).count();
    assert_eq!(code_count, 1, "Should have one code element");
    assert_eq!(bold_count, 1, "Should have one bold element");
}

#[test]
fn test_underscore_in_word() {
    // Underscores in the middle of words should NOT be treated as decorators
    // This is standard Markdown behavior (e.g., snake_case_variable)
    let elements = parse_markdown("snake_case_variable");
    assert_eq!(
        elements.iter().filter(|e| matches!(e, MarkdownElement::Italic(_))).count(),
        0,
        "Underscores inside words should not create italics"
    );
    assert!(elements
        .iter()
        .any(|e| matches!(e, MarkdownElement::Text(t) if t == "snake_case_variable")));
}

#[test]
fn test_underscore_word_boundary_still_works() {
    // Underscores at word boundaries should still work for italic
    let elements = parse_markdown("this is _italic_ text");
    assert_eq!(
        elements.iter().filter(|e| matches!(e, MarkdownElement::Italic(_))).count(),
        1,
        "Underscores at word boundaries should create italics"
    );
}

#[test]
fn test_complex_markdown() {
    let md = r#"# Title

This is **bold** and *italic* text.

```python
def hello():
    print("world")
```

- Item 1
- Item 2

> A quote

Check [link](https://example.com).
"#;
    let elements = parse_markdown(md);

    // Should have various element types
    assert!(elements.iter().any(|e| matches!(e, MarkdownElement::Heading { .. })));
    assert!(elements.iter().any(|e| matches!(e, MarkdownElement::Bold(_))));
    assert!(elements.iter().any(|e| matches!(e, MarkdownElement::Italic(_))));
    assert!(elements.iter().any(|e| matches!(e, MarkdownElement::CodeBlock { .. })));
    assert!(elements.iter().any(|e| matches!(e, MarkdownElement::ListItem { .. })));
    assert!(elements.iter().any(|e| matches!(e, MarkdownElement::BlockQuote(_))));
    assert!(elements.iter().any(|e| matches!(e, MarkdownElement::Link { .. })));
}

#[test]
fn test_parse_heading_edges() {
    // Indented headings are recognized past leading whitespace.
    match parse_heading("   ## Indented") {
        Some(MarkdownElement::Heading { level, text }) => {
            assert_eq!(level, 2);
            assert_eq!(text, "Indented");
        }
        other => panic!("expected a heading, got {:?}", other),
    }
    // More than six hashes is not a heading.
    assert!(parse_heading("####### Seven").is_none());
    assert!(parse_heading("plain").is_none());
}

#[test]
fn test_parse_list_item_edges() {
    match parse_list_item("  * starred") {
        Some(MarkdownElement::ListItem { indent, text }) => {
            assert_eq!(indent, 2);
            assert_eq!(text, "starred");
        }
        other => panic!("expected a list item, got {:?}", other),
    }
    match parse_list_item("10. tenth") {
        Some(MarkdownElement::ListItem { indent: 0, text }) => assert_eq!(text, "tenth"),
        other => panic!("expected an ordered item, got {:?}", other),
    }
    // A non-digit before the dot disqualifies the ordered form.
    assert!(parse_list_item("a. letter").is_none());
    assert!(parse_list_item("plain text").is_none());
    // The indent counts bytes: a no-break space is two bytes of UTF-8.
    match parse_list_item("\u{a0}- wide") {
        Some(MarkdownElement::ListItem { indent, text }) => {
            assert_eq!(indent, 2);
            assert_eq!(text, "wide");
        }
        other => panic!("expected a list item, got {:?}", other),
    }
}

#[test]
fn test_split_lines_endings() {
    assert_eq!(split_lines("a\r\nb"), vec!["a", "b"]);
    assert_eq!(split_lines("a\nb\n"), vec!["a", "b"]);
    assert_eq!(split_lines("\n"), vec![""]);
    assert!(split_lines("").is_empty());
}

#[test]
fn test_unclosed_decorators_stay_text() {
    let elements = parse_markdown("**unclosed bold");
    assert_eq!(
        elements.iter().filter(|e| matches!(e, MarkdownElement::Bold(_))).count(),
        0
    );
    assert!(elements
        .iter()
        .any(|e| matches!(e, MarkdownElement::Text(t) if t == "**unclosed bold")));
}

#[test]
fn test_unclosed_code_block_kept() {
    let elements = parse_markdown("```rust\nlet x = 1;");
    assert!(elements.iter().any(|e| matches!(
        e,
        MarkdownElement::CodeBlock { language: Some(lang), code }
        if lang == "rust" && code == "let x = 1;"
    )));
}
