//! The shared Markdown formatting utilities.

use docmd::render::{generate_filename, render_code_block, render_documentation, render_header,
    render_inline_code, render_next_actions_section};

#[test]
fn filename_simple_path() {
    let result = generate_filename("std::vec::Vec");
    assert_eq!(result, "std-vec-Vec.md");
}

#[test]
fn filename_with_generics() {
    let result = generate_filename("std::collections::HashMap<K, V>");
    assert_eq!(result, "std-collections-HashMap.md");
}

#[test]
fn filename_deeply_nested() {
    let result = generate_filename("serde::de::Deserialize");
    assert_eq!(result, "serde-de-Deserialize.md");
}

#[test]
fn filename_method() {
    let result = generate_filename("serde::Serialize::serialize");
    assert_eq!(result, "serde-Serialize-serialize.md");
}

#[test]
fn filename_single_segment() {
    let result = generate_filename("MyStruct");
    assert_eq!(result, "MyStruct.md");
}

#[test]
fn filename_complex_generics() {
    let result = generate_filename("std::result::Result<T, E>");
    assert_eq!(result, "std-result-Result.md");
}

#[test]
fn render_header_level_one() {
    let result = render_header(1, "Title");
    assert_eq!(result, "# Title");
}

#[test]
fn render_header_level_two() {
    let result = render_header(2, "Section");
    assert_eq!(result, "## Section");
}

#[test]
fn render_header_level_three() {
    let result = render_header(3, "Subsection");
    assert_eq!(result, "### Subsection");
}

#[test]
fn render_code_block_with_language() {
    let result = render_code_block("let x = 42;", Some("rust"));
    assert_eq!(result, "```rust\nlet x = 42;\n```");
}

#[test]
fn render_code_block_without_language() {
    let result = render_code_block("some text", None);
    assert_eq!(result, "```\nsome text\n```");
}

#[test]
fn render_code_block_multiline() {
    let result = render_code_block("line1\nline2\nline3", Some("rust"));
    assert_eq!(result, "```rust\nline1\nline2\nline3\n```");
}

#[test]
fn render_inline_code_wraps_text() {
    let result = render_inline_code("Vec<T>");
    assert_eq!(result, "`Vec<T>`");
}

#[test]
fn render_documentation_with_triple_slash() {
    let docs = Some("/// This is documentation.\n/// Second line.".to_string());
    let result = render_documentation(&docs);
    assert_eq!(result, "This is documentation.\nSecond line.");
}

#[test]
fn render_documentation_with_double_slash() {
    let docs = Some("// Single slash comment\n// Another line".to_string());
    let result = render_documentation(&docs);
    assert_eq!(result, "Single slash comment\nAnother line");
}

#[test]
fn render_documentation_none() {
    let docs: Option<String> = None;
    let result = render_documentation(&docs);
    assert!(result.is_empty());
}

#[test]
fn render_documentation_empty_string() {
    let docs = Some(String::new());
    let result = render_documentation(&docs);
    assert!(result.is_empty());
}

#[test]
fn render_documentation_no_markers() {
    let docs = Some("Plain documentation text".to_string());
    let result = render_documentation(&docs);
    assert_eq!(result, "Plain documentation text");
}

#[test]
fn render_next_actions_single() {
    let actions = vec!["Action one".to_string()];
    let result = render_next_actions_section(&actions);
    assert_eq!(result, "## Next Actions\n\n- Action one\n");
}

#[test]
fn render_next_actions_multiple() {
    let actions = vec![
        "First action".to_string(),
        "Second action".to_string(),
        "Third action".to_string(),
    ];
    let result = render_next_actions_section(&actions);
    assert_eq!(
        result,
        "## Next Actions\n\n- First action\n- Second action\n- Third action\n"
    );
}

#[test]
fn render_next_actions_empty() {
    let actions: Vec<String> = vec![];
    let result = render_next_actions_section(&actions);
    assert!(result.is_empty());
}
