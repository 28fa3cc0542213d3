//! The HTML-to-Markdown converter on whole documents.

use docmd::html2md::convert;

#[test]
fn convert_heading() {
    let html = "<main><h1>Test Heading</h1></main>";
    let result = convert(html).unwrap();
    assert_eq!(result, "# Test Heading\n\n");
}

#[test]
fn convert_paragraph() {
    let html = "<main><p>Test paragraph</p></main>";
    let result = convert(html).unwrap();
    assert_eq!(result, "Test paragraph\n\n");
}

#[test]
fn convert_inline_code() {
    let html = "<main><p>Test <code>code</code></p></main>";
    let result = convert(html).unwrap();
    assert_eq!(result, "Test `code`\n\n");
}

#[test]
fn convert_link() {
    let html = "<main><p>Test <a href=\"http://example.com\">link</a></p></main>";
    let result = convert(html).unwrap();
    assert_eq!(result, "Test link\n\n");
}

#[test]
fn convert_bold() {
    let html = "<main><p>Test <strong>bold</strong></p></main>";
    let result = convert(html).unwrap();
    assert_eq!(result, "Test **bold**\n\n");
}

#[test]
fn convert_italic() {
    let html = "<main><p>Test <em>italic</em></p></main>";
    let result = convert(html).unwrap();
    assert_eq!(result, "Test _italic_\n\n");
}

#[test]
fn convert_blockquote() {
    let html = "<main><blockquote>Quote text</blockquote></main>";
    let result = convert(html).unwrap();
    assert_eq!(result, "> Quote text\n\n");
}

#[test]
fn convert_unordered_list() {
    let html = "<main><ul><li>Item 1</li><li>Item 2</li></ul></main>";
    let result = convert(html).unwrap();
    assert_eq!(result, "- Item 1\n- Item 2\n\n");
}

#[test]
fn convert_ordered_list() {
    let html = "<main><ol><li>First</li><li>Second</li></ol></main>";
    let result = convert(html).unwrap();
    assert_eq!(result, "1. First\n2. Second\n\n");
}

#[test]
fn convert_code_block() {
    let html = "<main><pre><code>fn test() {}</code></pre></main>";
    let result = convert(html).unwrap();
    assert_eq!(result, "```\nfn test() {}\n```\n\n");
}

#[test]
fn convert_missing_main_element() {
    let html = "<div><h1>No main</h1></div>";
    let result = convert(html);
    assert!(result.is_err());
    let error_msg = result.unwrap_err().message();
    assert!(error_msg.contains("does not contain a <main> element"));
}

#[test]
fn convert_nested_elements() {
    let html = "<main><p><strong>Bold</strong> and <em>italic</em></p></main>";
    let result = convert(html).unwrap();
    assert_eq!(result, "**Bold** and _italic_\n\n");
}

#[test]
fn convert_h1_with_copy_path_button() {
    let html = r#"<main>
            <h1>
                Crate <span>rustdoc_<wbr />types</span> <button id="copy-path">
                    Copy item path
                </button>
            </h1>
        </main>"#;
    let result = convert(html).unwrap();
    assert_eq!(result, "# Crate rustdoc_types\n\n");
}

#[test]
fn convert_docblock_with_toolbar() {
    let html = r#"<main>
            <rustdoc-toolbar></rustdoc-toolbar>
            <span class="sub-heading">
                <a class="src" href="../src/rustdoc_types/lib.rs.html#1-1465">Source</a>
            </span>
            <summary class="hideme">
                <span>Expand description</span>
            </summary>
            <p>Rustdoc's JSON output interface</p>
        </main>"#;
    let result = convert(html).unwrap();
    assert_eq!(result, "Rustdoc's JSON output interface\n\n");
}

#[test]
fn convert_inline_code_spacing_and_links() {
    let html = "<main><p>Through the <code>--output-format json</code> flag. The <a href=\"struct.Crate.html\"><code>Crate</code></a> struct.</p></main>";
    let result = convert(html).unwrap();
    assert_eq!(
        result,
        "Through the `--output-format json` flag. The `Crate` struct.\n\n"
    );
}

#[test]
fn convert_h2_with_anchor() {
    let html = "<main><h2 id=\"structs\" class=\"section-header\">Structs<a href=\"#structs\" class=\"anchor\">§</a></h2></main>";
    let result = convert(html).unwrap();
    assert_eq!(result, "## Structs\n\n");
}

#[test]
fn convert_definition_list_simple() {
    let html = "<main><dl class=\"item-table\"><dt><a href=\"struct.Crate.html\">Crate</a></dt><dd>The root.</dd><dt><a href=\"struct.Enum.html\">Enum</a></dt><dd>An enum.</dd></dl></main>";
    let result = convert(html).unwrap();
    assert_eq!(result, "- **Crate**: The root.\n- **Enum**: An enum.\n\n");
}

#[test]
fn convert_definition_list_with_wbr() {
    let html = "<main><dl class=\"item-table\"><dt><a class=\"struct\" href=\"struct.AssocItemConstraint.html\">Assoc<wbr />Item<wbr />Constraint</a></dt><dd>Describes a bound applied to an associated type/constant.</dd></dl></main>";
    let result = convert(html).unwrap();
    assert_eq!(
        result,
        "- **AssocItemConstraint**: Describes a bound applied to an associated type/constant.\n\n"
    );
}

#[test]
fn convert_non_breaking_space_handling() {
    let html = "<main><p>Test&nbsp;text</p></main>";
    let result = convert(html).unwrap();
    assert_eq!(result, "Test text\n\n");
}

#[test]
fn convert_markdown_reference_links() {
    let html = r#"<main><ul><li>Derive [tutorial][_derive::_tutorial] and [reference][_derive]</li></ul></main>"#;
    let result = convert(html).unwrap();
    assert_eq!(result, "- Derive tutorial and reference\n\n");
}

#[test]
fn convert_paragraph_whitespace_normalization() {
    let html = r#"<main><p>
	These types are the public API exposed through
	the <code>--output-format json</code> flag. The
	<a
		href="struct.Crate.html"
		title="struct rustdoc_types::Crate"
		><code>Crate</code></a
	>
	struct is the root of the JSON blob and all
	other items are contained within.
</p></main>"#;
    let result = convert(html).unwrap();
    assert_eq!(
        result,
        "These types are the public API exposed through the `--output-format json` flag. The `Crate` struct is the root of the JSON blob and all other items are contained within.\n\n"
    );
}

#[test]
fn convert_definition_list_whitespace_normalization() {
    let html = r#"<main><dl>
	<dt>
		<a
			class="struct"
			href="struct.AssocItemConstraint.html"
			title="struct rustdoc_types::AssocItemConstraint"
			>Assoc<wbr />Item<wbr />Constraint</a
		>
	</dt>
	<dd>
		Describes a bound applied to an associated
		type/constant.
	</dd>
</dl></main>"#;
    let result = convert(html).unwrap();
    assert_eq!(
        result,
        "- **AssocItemConstraint**: Describes a bound applied to an associated type/constant.\n\n"
    );
}

#[test]
fn convert_code_block_with_newline() {
    let html = r#"<main><div class="example-wrap"><pre class="language-console"><code>$ cargo add clap --features derive</code></pre></div></main>"#;
    let result = convert(html).unwrap();
    assert_eq!(result, "```\n$ cargo add clap --features derive\n```\n\n");
}

#[test]
fn convert_script_tag_skipped() {
    let html = r#"<main>
            <p>Some content</p>
            <script type="text/json" id="notable-traits-data">
                {
                    "&<Vec<T, A> as Index<I>>::Output": "<h3>Notable traits</h3>"
                }
            </script>
            <p>More content</p>
        </main>"#;
    let result = convert(html).unwrap();
    assert_eq!(result, "Some content\n\nMore content\n\n");
}

#[test]
fn convert_link_renders_inner_content_only() {
    let html = "<main><p><a href=\"struct.Crate.html\"><code>Crate</code></a> and <a href=\"struct.Enum.html\">Something</a></p></main>";
    let result = convert(html).unwrap();
    assert_eq!(result, "`Crate` and Something\n\n");
}

#[test]
fn convert_rustdoc_breadcrumbs_skipped() {
    let html = r#"<main>
            <div class="main-heading">
                <div class="rustdoc-breadcrumbs">
                    <a href="index.html">serde</a>
                </div>
                <h1>
                    Trait
                    <span class="trait">Deserializer</span>
                </h1>
            </div>
        </main>"#;
    let result = convert(html).unwrap();
    assert_eq!(result, "# Trait Deserializer\n\n");
}

#[test]
fn convert_tooltip_skipped() {
    let html = r##"<main>
            <p>This example runs with edition 2021 <a href="#" class="tooltip" title="This example runs with edition 2021">ⓘ</a></p>
        </main>"##;
    let result = convert(html).unwrap();
    assert_eq!(result, "This example runs with edition 2021\n\n");
}

#[test]
fn convert_implementors_section_skipped() {
    let html = r##"<main>
            <p>Some content</p>
            <h2 id="implementors" class="section-header">
                Implementors<a href="#implementors" class="anchor">§</a>
            </h2>
            <p>More content</p>
        </main>"##;
    let result = convert(html).unwrap();
    assert_eq!(result, "Some content\n\nMore content\n\n");
}

#[test]
fn convert_implementors_list_skipped() {
    let html = r#"<main>
            <p>Some content</p>
            <div id="implementors-list">
                <p>This should not appear</p>
            </div>
            <p>More content</p>
        </main>"#;
    let result = convert(html).unwrap();
    assert_eq!(result, "Some content\n\nMore content\n\n");
}

#[test]
fn convert_combined_rustdoc_elements_skipped() {
    let html = r##"<main>
            <div class="main-heading">
                <div class="rustdoc-breadcrumbs">
                    <a href="index.html">serde</a>
                </div>
                <h1>
                    Trait
                    <span class="trait">Serializer</span>
                </h1>
            </div>
            <p>Description text</p>
            <h2 id="implementors" class="section-header">
                Implementors<a href="#implementors" class="anchor">§</a>
            </h2>
            <div id="implementors-list">
                <p>Implementor details</p>
            </div>
            <a href="#" class="tooltip" title="Tooltip">ⓘ</a>
            <p>End content</p>
        </main>"##;
    let result = convert(html).unwrap();
    assert_eq!(
        result,
        "# Trait Serializer\n\nDescription text\n\nEnd content\n\n"
    );
}

#[test]
fn convert_same_document_twice_is_byte_identical() {
    let html = "<main><h1>Heading</h1><p>Some   spaced\n\ttext with <code>code</code>.</p><ul><li>One</li><li>Two</li></ul></main>";
    let first = convert(html).unwrap();
    let second = convert(html).unwrap();
    assert_eq!(first, second);
}

#[test]
fn convert_collapses_interior_whitespace() {
    let html = "<main><p>  several \n\t  runs   of\n  space  </p></main>";
    let result = convert(html).unwrap();
    assert_eq!(result, "several runs of space\n\n");
    let line = &result[..result.len() - 2];
    assert!(!line.starts_with(' '));
    assert!(!line.ends_with(' '));
    assert!(!line.contains("  "));
}

#[test]
fn process_text_links_keeps_label_and_drops_reference() {
    assert_eq!(docmd::text::process_text_links("[foo][bar]"), "foo");
}

#[test]
fn process_text_links_keeps_lone_group() {
    assert_eq!(docmd::text::process_text_links("[foo]"), "[foo]");
}

#[test]
fn process_text_links_keeps_nested_label_text() {
    assert_eq!(docmd::text::process_text_links("see [a [b] c][ref] end"), "see a [b] c end");
}

#[test]
fn convert_whitespace_only_text_vanishes() {
    let html = "<main><p>   \n\t </p></main>";
    let result = convert(html).unwrap();
    assert_eq!(result, "\n\n");
}

#[test]
fn convert_definition_term_without_description_leaves_no_blank_line() {
    let html = "<main><dl><dt>Term</dt></dl></main>";
    let result = convert(html).unwrap();
    assert_eq!(result, "- **Term**\n");
}
