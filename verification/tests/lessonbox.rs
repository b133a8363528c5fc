use workshop::lessonbox::LessonBoxState;
use workshop::markdown::{
    blocks_from_events, parse_markdown, CodeBlock, Content, Heading, ListItem, MdEvent, ParagraphBlock,
};
use workshop::render::{render_content, SpanStyle, StyledLine};
use workshop::scrolltext::Scroll;

fn line_text(line: &StyledLine) -> String {
    line.spans
        .iter()
        .map(|span| span.text.as_str())
        .collect::<Vec<&str>>()
        .join("")
}

fn has_color(style: &SpanStyle) -> bool {
    !matches!(style, SpanStyle::Plain)
}

#[test]
fn test_heading_render() {
    let heading = Heading {
        level: 1,
        text: "Test Heading".to_string(),
    };
    let lines = heading.render(80);
    assert_eq!(lines.len(), 1);
    assert_eq!(lines[0].spans[0].text, "Test Heading");
}

#[test]
fn test_paragraph_render() {
    let paragraph = ParagraphBlock {
        text: "This is a test paragraph with some content.".to_string(),
    };
    let lines = paragraph.render(80);
    assert_eq!(lines.len(), 1);
    assert_eq!(
        lines[0].spans[0].text,
        "This is a test paragraph with some content."
    );
}

#[test]
fn test_list_item_render() {
    let list_item = ListItem {
        text: "Test list item".to_string(),
        indent_level: 0,
    };
    let lines = list_item.render(80);
    assert_eq!(lines.len(), 1);
    assert!(lines[0].spans[0].text.contains("• Test list item"));
}

#[test]
fn test_list_item_wrapping() {
    let list_item = ListItem {
        text: "This is a very long list item that should wrap to multiple lines when the width is constrained".to_string(),
        indent_level: 0,
    };
    let lines = list_item.render(30);
    assert!(lines.len() > 1);

    // First line should have bullet
    assert!(lines[0].spans[0].text.starts_with("• "));

    // Subsequent lines should be indented to align with text after bullet
    if lines.len() > 1 {
        assert!(lines[1].spans[0].text.starts_with("  "));
    }
}

#[test]
fn test_code_block_render() {
    let code_block = CodeBlock {
        language: Some("rust".to_string()),
        code: "fn main() {\n    println!(\"Hello, world!\");\n}".to_string(),
    };
    let lines = code_block.render(80);
    assert_eq!(lines.len(), 5); // top border + 3 code lines + bottom border

    assert_eq!(line_text(&lines[0]), "┌─");

    let first_code_line_text = line_text(&lines[1]);
    assert!(first_code_line_text.starts_with("│ "));
    assert!(first_code_line_text.contains("fn main() {"));

    assert_eq!(line_text(&lines[4]), "└─");
}

#[test]
fn test_content_enum_dispatch() {
    let content = Content::Heading(Heading {
        level: 1,
        text: "Test".to_string(),
    });
    let lines = render_content(&content, 80);
    assert_eq!(lines.len(), 1);
    assert_eq!(lines[0].spans[0].text, "Test");
}

#[test]
fn test_parse_simple_markdown() {
    let markdown = r#"# Main Heading

This is a paragraph.

## Hint - Getting Started

This is hint content.

```rust
fn main() {
    println!("Hello!");
}
```
"#;
    let content = parse_markdown(markdown);
    assert_eq!(content.len(), 3);

    if let Content::Heading(h) = &content[0] {
        assert_eq!(h.text, "Main Heading");
        assert_eq!(h.level, 1);
    } else {
        panic!("Expected heading");
    }

    if let Content::Paragraph(p) = &content[1] {
        assert_eq!(p.text, "This is a paragraph.");
    } else {
        panic!("Expected paragraph");
    }

    if let Content::Hint(hint) = &content[2] {
        assert_eq!(hint.title, "Getting Started");
        assert_eq!(hint.content.len(), 2); // paragraph + code block
        assert!(!hint.expanded);
    } else {
        panic!("Expected hint");
    }
}

#[test]
fn test_parse_list_items() {
    let markdown = r#"- First item
- Second item
- Third item"#;

    let content = parse_markdown(markdown);
    assert_eq!(content.len(), 3);

    for (i, item) in content.iter().enumerate() {
        if let Content::ListItem(list_item) = item {
            match i {
                0 => assert_eq!(list_item.text, "First item"),
                1 => assert_eq!(list_item.text, "Second item"),
                2 => assert_eq!(list_item.text, "Third item"),
                _ => panic!("Unexpected item"),
            }
        } else {
            panic!("Expected list item");
        }
    }
}

#[test]
fn test_syntax_highlighting() {
    let code_block = CodeBlock {
        language: Some("rust".to_string()),
        code: "fn main() {\n    println!(\"Hello, world!\");\n}".to_string(),
    };
    let lines = code_block.render(80);
    assert_eq!(lines.len(), 5);

    assert!(lines[1].spans.len() > 2);

    let has_colored_spans = lines[1..4]
        .iter()
        .any(|line| line.spans.iter().any(|span| has_color(&span.style)));
    assert!(has_colored_spans);
}

#[test]
fn test_plain_code_block() {
    let code_block = CodeBlock {
        language: None,
        code: "some code without language".to_string(),
    };
    let lines = code_block.render(80);
    assert_eq!(lines.len(), 3);

    assert_eq!(line_text(&lines[0]), "┌─");

    let code_line_text = line_text(&lines[1]);
    assert!(code_line_text.starts_with("│ "));
    assert!(code_line_text.contains("some code without language"));
}

#[test]
fn test_python_syntax_highlighting() {
    let code_block = CodeBlock {
        language: Some("python".to_string()),
        code: "def hello():\n    print(\"Hello, world!\")".to_string(),
    };
    let lines = code_block.render(80);
    assert_eq!(lines.len(), 4);

    assert_eq!(line_text(&lines[0]), "┌─");

    let has_colored_spans = lines[1..3]
        .iter()
        .any(|line| line.spans.iter().any(|span| has_color(&span.style)));
    assert!(has_colored_spans);
}

#[test]
fn test_code_block_borders() {
    let code_block = CodeBlock {
        language: Some("javascript".to_string()),
        code: "console.log('Hello');".to_string(),
    };
    let lines = code_block.render(40);
    assert_eq!(lines.len(), 3);

    assert_eq!(line_text(&lines[0]), "┌─");
    assert!(line_text(&lines[1]).starts_with("│ "));
    assert_eq!(line_text(&lines[2]), "└─");
}

#[test]
fn test_lesson_box_state() {
    let markdown = r#"# Test Lesson

This is a paragraph.

## Hint - Test Hint

This is hint content.
"#;
    let state = LessonBoxState::from_markdown(markdown);

    assert_eq!(state.content().len(), 3); // heading, paragraph, hint
    assert!(state.cached_lines().len() > 0);

    let hint_count = state
        .cached_lines()
        .iter()
        .filter(|line| line.hint_index.is_some())
        .count();
    assert!(hint_count > 0);

    let hint_title_count = state
        .cached_lines()
        .iter()
        .filter(|line| line.is_hint_title)
        .count();
    assert_eq!(hint_title_count, 1);
}

#[test]
fn test_lesson_box_hint_toggle() {
    let markdown = r#"## Hint - Test Hint

This is hint content.
"#;
    let mut state = LessonBoxState::from_markdown(markdown);
    let initial_lines = state.cached_lines().len();

    state.toggle_hint(0, 80);
    let expanded_lines = state.cached_lines().len();
    assert!(expanded_lines > initial_lines);

    state.toggle_hint(0, 80);
    let collapsed_lines = state.cached_lines().len();
    assert_eq!(collapsed_lines, initial_lines);
}

#[test]
fn test_lesson_box_scrolling() {
    let mut state = LessonBoxState::from_markdown("# Test\n\nContent");

    state.scroll_down();
    assert!(matches!(state.get_scroll(), Scroll::MaybeBottom(_)));

    state.scroll_up();
    state.scroll_top();
    assert!(matches!(state.get_scroll(), Scroll::Top));
}

#[test]
fn test_lesson_box_highlighting() {
    let markdown = r#"# Test Lesson

## Hint - Test Hint

Hint content.
"#;
    let mut state = LessonBoxState::from_markdown(markdown);

    assert_eq!(state.get_highlighted_line(), 0);

    state.highlight_down();
    assert_eq!(state.get_highlighted_line(), 1);

    state.highlight_up();
    assert_eq!(state.get_highlighted_line(), 0);

    state.highlight_up();
    assert_eq!(state.get_highlighted_line(), 0);
}

#[test]
fn test_lesson_box_hint_selection() {
    let markdown = r#"## Hint - Test Hint

Hint content.
"#;
    let mut state = LessonBoxState::from_markdown(markdown);

    assert!(state.is_highlighted_hint().is_some());

    state.highlight_down();
    let _is_hint_after_move = state.is_highlighted_hint().is_some();

    state.highlight_up();
    assert!(state.is_highlighted_hint().is_some());

    let initial_lines = state.cached_lines().len();
    let toggle_success = state.toggle_highlighted_hint(80);
    assert!(toggle_success);
    let after_lines = state.cached_lines().len();
    assert_ne!(initial_lines, after_lines);
}

#[test]
fn test_list_item_spacing() {
    let markdown = r#"# Test

- First item
- Second item
- Third item

Next paragraph.
"#;
    let state = LessonBoxState::from_markdown(markdown);

    assert!(state.cached_lines().len() > 5);

    let line_contents: Vec<String> = state
        .cached_lines()
        .iter()
        .map(|line| line_text(&line.line))
        .collect();

    let has_consecutive_list_items = line_contents.windows(2).any(|window| {
        window[0].contains("• First item") && window[1].contains("• Second item")
    });

    let has_spacing_after_list = line_contents
        .windows(2)
        .any(|window| window[0].contains("• Third item") && window[1].is_empty());

    assert!(has_consecutive_list_items || has_spacing_after_list);
}

#[test]
fn test_hint_content_spacing() {
    let markdown = r#"## Hint - Test

First paragraph in hint.

Second paragraph in hint.
"#;
    let mut state = LessonBoxState::from_markdown(markdown);

    if let Some(hint_idx) = state.is_highlighted_hint() {
        state.toggle_hint(hint_idx, 80);
    }

    let line_contents: Vec<String> = state
        .cached_lines()
        .iter()
        .map(|line| line_text(&line.line))
        .collect();

    let has_blank_after_title = line_contents
        .windows(2)
        .any(|window| window[0].contains("▼ Test") && window[1].is_empty());

    let has_blank_between_hint_content = line_contents.windows(3).any(|window| {
        window[0].contains("First paragraph")
            && window[1].is_empty()
            && window[2].contains("Second paragraph")
    });

    assert!(has_blank_after_title || has_blank_between_hint_content);
}

#[test]
fn test_hint_stops_at_next_heading() {
    let markdown = r#"# Main Heading

This is some content.

## Hint - Test Hint

This is hint content that should be in the hint.

More hint content here.

## Next Regular Heading

This content should NOT be in the hint above.

It should be in the main document.
"#;
    let content = parse_markdown(markdown);

    assert_eq!(content.len(), 6);

    if let Content::Hint(hint) = &content[2] {
        assert_eq!(hint.title, "Test Hint");
        assert_eq!(hint.content.len(), 2);

        for hint_content in &hint.content {
            match hint_content {
                Content::Paragraph(p) => {
                    assert!(!p.text.contains("should NOT be in the hint"));
                    assert!(!p.text.contains("main document"));
                }
                Content::Heading(h) => {
                    assert_ne!(h.text, "Next Regular Heading");
                }
                _ => {}
            }
        }
    } else {
        panic!("Expected hint at index 2");
    }

    if let Content::Heading(h) = &content[3] {
        assert_eq!(h.text, "Next Regular Heading");
    } else {
        panic!("Expected heading at index 3");
    }

    if let Content::Paragraph(p) = &content[4] {
        assert!(p.text.contains("should NOT be in the hint"));
    } else {
        panic!("Expected paragraph at index 4");
    }
}

#[test]
fn block_texts_are_trimmed() {
    let events = vec![
        MdEvent::StartHeading(2),
        MdEvent::Text("  Hint - Look  ".to_string()),
        MdEvent::EndHeading,
        MdEvent::StartParagraph,
        MdEvent::Text("  padded words \t".to_string()),
        MdEvent::EndParagraph,
        MdEvent::StartHeading(1),
        MdEvent::Text(" Next ".to_string()),
        MdEvent::EndHeading,
        MdEvent::StartItem,
        MdEvent::Text(" item ".to_string()),
        MdEvent::EndItem,
    ];
    let blocks = blocks_from_events(&events);
    assert_eq!(blocks.len(), 3);
    match &blocks[0] {
        Content::Hint(h) => {
            assert_eq!(h.title, "Look");
            assert_eq!(h.content.len(), 1);
            match &h.content[0] {
                Content::Paragraph(p) => assert_eq!(p.text, "padded words"),
                _ => panic!("expected a paragraph in the hint"),
            }
        }
        _ => panic!("expected a hint"),
    }
    match &blocks[1] {
        Content::Heading(h) => assert_eq!(h.text, "Next"),
        _ => panic!("expected a heading"),
    }
    match &blocks[2] {
        Content::ListItem(l) => assert_eq!(l.text, "item"),
        _ => panic!("expected a list item"),
    }
}

#[test]
fn fresh_lesson_box_window_fits() {
    let state = LessonBoxState::new();
    assert!(state.window_end_fits_now());
}
