//! The error types and the exact text each one surfaces.

use docmd::error::{BuildError, Error, MarkdownError, OpenError};
use docmd::model::ItemEnum;

#[test]
fn selector_parse_failure_names_the_selector() {
    let e = Error::HtmlSelectorParseFailed {
        selector: "main".to_string(),
        error: "unexpected token".to_string(),
    };
    assert_eq!(e.message(), "Failed to parse selector 'main': unexpected token");
}

#[test]
fn element_not_found_names_the_selector() {
    let e = Error::HtmlElementNotFound { selector: "div.docblock".to_string(), detail: String::new() };
    assert_eq!(e.message(), "Element not found with selector 'div.docblock'");
}

#[test]
fn element_not_found_prefers_its_detail() {
    let e = Error::HtmlElementNotFound {
        selector: "main".to_string(),
        detail: "the page held nothing usable".to_string(),
    };
    assert_eq!(e.message(), "the page held nothing usable");
}

#[test]
fn build_error_messages_carry_their_inputs() {
    let e = BuildError::CargoDocExecFailed {
        crate_name: "serde".to_string(),
        output: "boom".to_string(),
    };
    assert_eq!(
        Error::from(e).message(),
        "Failed to execute cargo doc for crate 'serde':\nboom"
    );

    let e = BuildError::CargoMetadataExecFailed { output: "no cargo".to_string() };
    assert_eq!(e.message(), "Failed to execute cargo metadata command:\nno cargo");

    let e = BuildError::CargoDocOutputParseFailed { output_preview: "weird".to_string() };
    assert!(e.message().contains("could not find 'Generated' line"));
    assert!(e.message().contains("weird"));

    let e = BuildError::FileReadFailed { path: "a/b".to_string(), source: "gone".to_string() };
    assert_eq!(e.message(), "Failed to read file 'a/b': gone");

    let e = BuildError::MarkdownWriteFailed { path: "x.md".to_string(), source: "full".to_string() };
    assert_eq!(e.message(), "Failed to write markdown file 'x.md': full");

    let e = BuildError::OutputDirCreationFailed { path: "d".to_string(), source: "denied".to_string() };
    assert_eq!(e.message(), "Failed to create output directory 'd': denied");

    let e = BuildError::DocIndexNotFound { path: "all.html".to_string(), source: "missing".to_string() };
    assert_eq!(e.message(), "Documentation index file 'all.html' not found: missing");
}

#[test]
fn invalid_crate_name_lists_available_crates() {
    let e = BuildError::InvalidCrateName {
        requested: "nope".to_string(),
        available: vec!["serde".to_string(), "clap".to_string()],
    };
    let msg = e.message();
    assert!(msg.starts_with("Crate 'nope' is not an installed dependency."));
    assert!(msg.contains("Available crates: serde, clap"));
    assert!(msg.ends_with("Add the crate to Cargo.toml as a dependency first."));
}

#[test]
fn open_error_messages_carry_their_inputs() {
    let e = OpenError::InvalidItemPath { item_path: "::x".to_string() };
    assert_eq!(
        e.message(),
        "invalid item path '::x'. Expected format: <crate> or <crate>::<item> (e.g., 'serde' or 'serde::Error')."
    );

    let e = OpenError::MarkdownNotFound { path: "y.md".to_string(), source: "gone".to_string() };
    assert_eq!(e.message(), "Markdown file 'y.md' not found: gone");

    let e = OpenError::ItemPathResolutionFailed {
        item_path: "serde::Nope".to_string(),
        crate_name: "serde".to_string(),
    };
    assert_eq!(
        Error::from(e).message(),
        "could not resolve item path 'serde::Nope'. Please ensure the item exists in the crate and try: `cargo txt build serde`"
    );

    let e = OpenError::EmptyCrateName;
    assert_eq!(e.message(), "crate name cannot be empty");
}

#[test]
fn markdown_error_message_is_its_text() {
    let e = MarkdownError::ItemNotFound("Expected enum item, found something else".to_string());
    assert_eq!(Error::Markdown(e).message(), "Expected enum item, found something else");
}

#[test]
fn renderers_reject_items_of_the_wrong_kind() {
    let wrong = ItemEnum::Function;
    match docmd::render_struct::extract_struct_data(&wrong) {
        Err(e) => assert_eq!(e.message(), "Expected struct item, found Function"),
        Ok(_) => panic!("a function is not a struct"),
    }
    match docmd::render_enum::extract_enum_data(&wrong) {
        Err(e) => assert_eq!(e.message(), "Expected enum item, found Function"),
        Ok(_) => panic!("a function is not an enum"),
    }
    match docmd::render_union::extract_union_data(&wrong) {
        Err(e) => assert_eq!(e.message(), "Expected union item, found Function"),
        Ok(_) => panic!("a function is not a union"),
    }
}
