//! Item-path parsing, caller-input validation, and resolution.

use docmd::listing::ItemMap;
use docmd::paths::{ParsedItemPath, md_file_name, parse_item_path, resolve_all_md_path,
    resolve_markdown_path, validate_item_path};

fn validate_crate_name(crate_name: &str) -> Result<(), docmd::error::Error> {
    docmd::paths::validate_crate_name(crate_name)
}

#[test]
fn validate_simple_crate_name() {
    let result = validate_crate_name("serde");
    assert!(result.is_ok());
}

#[test]
fn validate_crate_name_with_dashes() {
    let result = validate_crate_name("serde-json");
    assert!(result.is_ok());
}

#[test]
fn validate_crate_name_with_underscores() {
    let result = validate_crate_name("serde_json");
    assert!(result.is_ok());
}

#[test]
fn validate_rejects_path_with_separator() {
    let result = validate_crate_name("serde::Error");
    assert!(result.is_err());
    let error_msg = result.unwrap_err().message();
    assert!(error_msg.contains("only accepts crate names"));
    assert!(error_msg.contains("cargo txt show serde::Error"));
}

#[test]
fn validate_rejects_nested_path() {
    let result = validate_crate_name("serde::ser::StdError");
    assert!(result.is_err());
    let error_msg = result.unwrap_err().message();
    assert!(error_msg.contains("only accepts crate names"));
}

#[test]
fn validate_rejects_empty_string() {
    let result = validate_crate_name("");
    assert!(result.is_err());
    let error_msg = result.unwrap_err().message();
    assert!(error_msg.contains("cannot be empty"));
}

#[test]
fn validate_rejects_leading_separator() {
    let result = validate_crate_name("::serde");
    assert!(result.is_err());
    let error_msg = result.unwrap_err().message();
    assert!(error_msg.contains("only accepts crate names"));
}

#[test]
fn validate_rejects_trailing_separator() {
    let result = validate_crate_name("serde::");
    assert!(result.is_err());
    let error_msg = result.unwrap_err().message();
    assert!(error_msg.contains("only accepts crate names"));
}

#[test]
fn validate_rejects_only_separators() {
    let result = validate_crate_name("::");
    assert!(result.is_err());
    let error_msg = result.unwrap_err().message();
    assert!(error_msg.contains("only accepts crate names"));
}

#[test]
fn validate_rejects_multiple_separators() {
    let result = validate_crate_name("serde::::Error");
    assert!(result.is_err());
    let error_msg = result.unwrap_err().message();
    assert!(error_msg.contains("only accepts crate names"));
}

#[test]
fn parse_simple_crate_name() {
    let result = parse_item_path("serde").unwrap();
    assert_eq!(result.crate_name, "serde");
    assert_eq!(result.item, None);
}

#[test]
fn parse_item_path_single_item() {
    let result = parse_item_path("serde::Error").unwrap();
    assert_eq!(result.crate_name, "serde");
    assert_eq!(result.item, Some("Error".to_string()));
}

#[test]
fn parse_item_path_nested() {
    let result = parse_item_path("serde::ser::StdError").unwrap();
    assert_eq!(result.crate_name, "serde");
    assert_eq!(result.item, Some("ser::StdError".to_string()));
}

#[test]
fn parse_item_path_deeply_nested() {
    let result = parse_item_path("serde::de::value::Error").unwrap();
    assert_eq!(result.crate_name, "serde");
    assert_eq!(result.item, Some("de::value::Error".to_string()));
}

#[test]
fn parse_item_path_invalid_leading_separator() {
    let result = parse_item_path("::invalid");
    assert!(result.is_err());
    let error_msg = result.unwrap_err().message();
    assert!(error_msg.contains("invalid item path '::invalid'"));
}

#[test]
fn parse_item_path_empty_string() {
    let result = parse_item_path("");
    assert!(result.is_err());
    let error_msg = result.unwrap_err().message();
    assert!(error_msg.contains("invalid item path ''"));
}

#[test]
fn parse_item_path_only_separators() {
    let result = parse_item_path("::");
    assert!(result.is_err());
    let error_msg = result.unwrap_err().message();
    assert!(error_msg.contains("invalid item path '::'"));
}

#[test]
fn parse_item_path_trailing_separator() {
    let result = parse_item_path("serde::Error::").unwrap();
    assert_eq!(result.crate_name, "serde");
    assert_eq!(result.item, Some("Error::".to_string()));
}

#[test]
fn error_message_preserves_user_input_format() {
    let parsed = ParsedItemPath {
        crate_name: "rustdoc-types".to_string(),
        item: Some("Abi".to_string()),
    };

    assert_eq!(parsed.crate_name, "rustdoc-types");

    let user_item_path = format!("{}::{}", parsed.crate_name, parsed.item.as_ref().unwrap());
    assert_eq!(user_item_path, "rustdoc-types::Abi");

    let parsed_underscores = ParsedItemPath {
        crate_name: "rustdoc_types".to_string(),
        item: Some("Abi".to_string()),
    };
    assert_eq!(parsed_underscores.crate_name, "rustdoc_types");
    let user_item_path_underscores = format!(
        "{}::{}",
        parsed_underscores.crate_name,
        parsed_underscores.item.as_ref().unwrap()
    );
    assert_eq!(user_item_path_underscores, "rustdoc_types::Abi");
}

#[test]
fn validation_rejects_empty_path() {
    assert!(validate_item_path("").is_err());
}

#[test]
fn validation_rejects_only_separators() {
    assert!(validate_item_path("::").is_err());
    assert!(validate_item_path("::::").is_err());
}

#[test]
fn validation_rejects_leading_separator() {
    assert!(validate_item_path("::serde").is_err());
}

#[test]
fn validation_rejects_trailing_separator() {
    assert!(validate_item_path("serde::").is_err());
    assert!(validate_item_path("serde::Error::").is_err());
}

#[test]
fn validation_rejects_doubled_separator() {
    assert!(validate_item_path("serde::::Error").is_err());
}

#[test]
fn validation_accepts_well_formed_paths() {
    assert!(validate_item_path("serde").is_ok());
    assert!(validate_item_path("serde::Error").is_ok());
    assert!(validate_item_path("serde::de::value::Error").is_ok());
}

#[test]
fn resolve_crate_overview_without_item() {
    let parsed = ParsedItemPath { crate_name: "serde".to_string(), item: None };
    let map = ItemMap::new();
    let path = resolve_markdown_path("/target", &parsed, &map).unwrap();
    assert_eq!(path, "/target/docmd/serde/index.md");
}

#[test]
fn resolve_item_through_mappings() {
    let parsed = ParsedItemPath {
        crate_name: "serde".to_string(),
        item: Some("Error".to_string()),
    };
    let mut map = ItemMap::new();
    map.insert("serde::Error".to_string(), "struct.Error.html".to_string());
    let path = resolve_markdown_path("/target", &parsed, &map).unwrap();
    assert_eq!(path, "/target/docmd/serde/struct.Error.md");
}

#[test]
fn resolve_unmapped_item_fails_with_remediation() {
    let parsed = ParsedItemPath {
        crate_name: "serde".to_string(),
        item: Some("Missing".to_string()),
    };
    let map = ItemMap::new();
    let result = resolve_markdown_path("/target", &parsed, &map);
    assert!(result.is_err());
    let msg = result.unwrap_err().message();
    assert!(msg.contains("could not resolve item path 'serde::Missing'"));
    assert!(msg.contains("`cargo txt build serde`"));
}

#[test]
fn resolve_all_md_path_joins_target_and_crate() {
    let path = resolve_all_md_path("/home/user/project/target", "serde");
    assert_eq!(path, "/home/user/project/target/docmd/serde/all.md");
}

#[test]
fn md_file_name_swaps_extension() {
    assert_eq!(md_file_name("struct.Error.html"), "struct.Error.md");
    assert_eq!(md_file_name("de/struct.IgnoredAny.html"), "de/struct.IgnoredAny.md");
    assert_eq!(md_file_name("plain"), "plain.md");
}
