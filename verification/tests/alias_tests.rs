//! The type-alias page parser and its Markdown output.

use docmd::alias_html::{TypeAlias, Variant};

#[test]
fn markdown_generates_heading_from_type_alias() {
    let type_alias = TypeAlias {
        name: "Result".to_string(),
        declaration: "pub type Result<T> = Result<T, Error>;".to_string(),
        doc: "Documentation text.".to_string(),
        aliased_type: String::new(),
        variants: Vec::new(),
        implementations: Vec::new(),
        trait_implementations: Vec::new(),
    };

    let markdown = type_alias.markdown();
    assert!(markdown.contains("# Type Alias `Result`"));
}

#[test]
fn markdown_generates_declaration_section_from_type_alias() {
    let type_alias = TypeAlias {
        name: "Result".to_string(),
        declaration: "pub type Result<T> = Result<T, Error>;".to_string(),
        doc: "Documentation text.".to_string(),
        aliased_type: String::new(),
        variants: Vec::new(),
        implementations: Vec::new(),
        trait_implementations: Vec::new(),
    };

    let markdown = type_alias.markdown();
    assert!(markdown.contains("```rust"));
    assert!(markdown.contains("pub type Result<T> = Result<T, Error>;"));
}

#[test]
fn markdown_generates_variants_section_from_type_alias() {
    let type_alias = TypeAlias {
        name: "Result".to_string(),
        declaration: "pub type Result<T> = Result<T, Error>;".to_string(),
        doc: "Documentation text.".to_string(),
        aliased_type: String::new(),
        variants: vec![Variant {
            signature: "Ok(T)".to_string(),
            doc: "Success value".to_string(),
        }],
        implementations: Vec::new(),
        trait_implementations: Vec::new(),
    };

    let markdown = type_alias.markdown();
    assert!(markdown.contains("## Variants"));
    assert!(markdown.contains("`Ok(T)`"));
    assert!(markdown.contains("Success value"));
}

#[test]
fn error_from_str_returns_error_when_name_element_missing() {
    let html = "<html><body></body></html>";
    let result = TypeAlias::from_str(html);
    assert!(result.is_err());
}

#[test]
fn error_from_str_returns_error_when_declaration_element_missing() {
    let html =
        "<html><body><h1>Type Alias <span class=\"type\">Result</span></h1></body></html>";
    let result = TypeAlias::from_str(html);
    assert!(result.is_err());
}

#[test]
fn from_str_reads_a_whole_alias_page() {
    let html = "<html><body>\
<h1>Type Alias <span class=\"type\">Result</span></h1>\
<pre class=\"rust item-decl\"><code>pub type Result&lt;T&gt; = Result&lt;T, Error&gt;;</code></pre>\
<div class=\"docblock\">Alias for a Result with the error type serde_json::Error.</div>\
<h2 id=\"aliased-type\">Aliased Type</h2>\
<pre class=\"rust item-decl\"><code>pub enum Result&lt;T&gt; {\n    Ok(T),\n    Err(Error),\n}</code></pre>\
<div class=\"variants\">\
<section class=\"variant\"><h3 class=\"code-header\">Ok(T)</h3></section>\
<div class=\"docblock\">Contains the success value</div>\
<section class=\"variant\"><h3 class=\"code-header\">Err(Error)</h3></section>\
<div class=\"docblock\">Contains the error value</div>\
</div>\
</body></html>";
    let alias = TypeAlias::from_str(html).unwrap();
    assert_eq!(alias.name, "Result");
    assert_eq!(alias.declaration, "pub type Result<T> = Result<T, Error>;");
    assert_eq!(
        alias.doc,
        "Alias for a Result with the error type serde_json::Error."
    );
    assert_eq!(
        alias.aliased_type,
        "pub enum Result<T> {\n    Ok(T),\n    Err(Error),\n}"
    );
    assert_eq!(alias.variants.len(), 2);
    assert_eq!(alias.variants[0].signature, "Ok(T)");
    assert_eq!(alias.variants[0].doc, "Contains the success value");
    assert_eq!(alias.variants[1].signature, "Err(Error)");
    assert_eq!(alias.variants[1].doc, "Contains the error value");
}
