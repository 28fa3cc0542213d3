//! The item-index builder and the formatting of the listing page.

use docmd::listing::{extract_item_mappings, format_all_md};

#[test]
fn format_all_md_adds_crate_name_heading() {
    let content = "# List of all items\n\nContent here";
    let result = format_all_md("serde", content);
    assert!(result.starts_with("# serde\n"));
}

#[test]
fn format_all_md_converts_h1_to_paragraph() {
    let content = "# List of all items\n\nMore content";
    let result = format_all_md("serde", content);
    assert!(result.contains("\nList of all items\n"));
    assert!(!result.contains("# List of all items"));
}

#[test]
fn format_all_md_prefixes_simple_items() {
    let content = "# List of all items\n\n### Structs\n\n- Error\n- Config";
    let result = format_all_md("serde", content);
    assert!(result.contains("- serde::Error"));
    assert!(result.contains("- serde::Config"));
}

#[test]
fn format_all_md_prefixes_nested_items() {
    let content = "# List of all items\n\n### Structs\n\n- de::IgnoredAny\n- ser::StdError";
    let result = format_all_md("serde", content);
    assert!(result.contains("- serde::de::IgnoredAny"));
    assert!(result.contains("- serde::ser::StdError"));
}

#[test]
fn format_all_md_multiple_sections() {
    let content = "# List of all items\n\n### Structs\n\n- Error\n\n### Traits\n\n- Serialize\n- Deserialize\n\n### Enums\n\n- Value";
    let result = format_all_md("serde", content);
    assert!(result.contains("- serde::Error"));
    assert!(result.contains("- serde::Serialize"));
    assert!(result.contains("- serde::Deserialize"));
    assert!(result.contains("- serde::Value"));
}

#[test]
fn format_all_md_appends_usage_instructions() {
    let content = "# List of all items\n\n### Structs\n\n- Error";
    let result = format_all_md("serde", content);
    assert!(result.contains("## Usage"));
    assert!(result.contains("cargo txt show <ITEM_PATH>"));
    assert!(result.contains("cargo txt show serde::Error"));
}

#[test]
fn format_all_md_preserves_non_list_lines() {
    let content = "# List of all items\n\n### Structs\n\nSome text\n\n- Error";
    let result = format_all_md("serde", content);
    assert!(result.contains("### Structs"));
    assert!(result.contains("Some text"));
    assert!(result.contains("- serde::Error"));
}

#[test]
fn format_all_md_uses_crate_name_as_is() {
    let content = "# List of all items\n\n### Structs\n\n- Error\n- Config";
    let result = format_all_md("rustdoc_types", content);
    assert!(result.contains("- rustdoc_types::Error"));
    assert!(result.contains("- rustdoc_types::Config"));
    assert!(result.starts_with("# rustdoc_types"));
}

#[test]
fn format_all_md_usage_instructions_use_first_items() {
    let content = "# List of all items\n\n### Structs\n\n- Error\n- Config";
    let result = format_all_md("serde", content);
    assert!(result.contains("cargo txt show serde::Error"));
    assert!(!result.contains("cargo txt show serde::SomeStruct"));
    assert!(!result.contains("cargo txt show serde::SomeTrait"));
    assert!(!result.contains("cargo txt show serde::SomeEnum"));
}

#[test]
fn format_all_md_usage_instructions_with_crate_name() {
    let content = "# List of all items\n\n### Structs\n\n- Error";
    let result = format_all_md("my_crate", content);
    assert!(result.contains("cargo txt show my_crate::Error"));
    assert!(!result.contains("cargo txt show my_crate::SomeStruct"));
    assert!(!result.contains("cargo txt show my_crate::SomeTrait"));
    assert!(!result.contains("cargo txt show my_crate::SomeEnum"));
    assert!(result.starts_with("# my_crate"));
    assert!(result.contains("- my_crate::Error"));
}

#[test]
fn format_all_md_usage_instructions_multiple_sections() {
    let content = "# List of all items\n\n### Structs\n\n- Error\n- Config\n\n### Traits\n\n- Serialize\n- Deserialize\n\n### Enums\n\n- Value\n\n### Constants\n\n- VERSION";
    let result = format_all_md("serde", content);
    assert!(result.contains("cargo txt show serde::Error"));
    assert!(result.contains("cargo txt show serde::Serialize"));
    assert!(result.contains("cargo txt show serde::Value"));
    assert!(!result.contains("cargo txt show serde::VERSION"));
    assert!(result.contains("- serde::Error"));
    assert!(result.contains("- serde::Config"));
    assert!(result.contains("- serde::Serialize"));
    assert!(result.contains("- serde::Deserialize"));
    assert!(result.contains("- serde::Value"));
    assert!(result.contains("- serde::VERSION"));
}

#[test]
fn format_all_md_usage_instructions_fallback_no_sections() {
    let content = "# List of all items\n\nNo items here";
    let result = format_all_md("my_crate", content);
    assert!(result.contains("cargo txt show my_crate::SomeItem"));
    assert!(!result.contains("cargo txt show my_crate::Error"));
    assert!(!result.contains("cargo txt show my_crate::Struct"));
}

#[test]
fn extract_item_mappings_simple() {
    let html = r#"
        <html>
            <body>
                <h3 id="structs">Structs</h3>
                <ul class="all-items">
                    <li><a href="struct.Error.html">Error</a></li>
                    <li><a href="struct.Config.html">Config</a></li>
                </ul>
            </body>
        </html>
    "#;

    let mappings = extract_item_mappings("serde", html).unwrap();
    assert_eq!(mappings.len(), 2);
    assert_eq!(
        mappings.get("serde::Error"),
        Some(&"struct.Error.html".to_string())
    );
    assert_eq!(
        mappings.get("serde::Config"),
        Some(&"struct.Config.html".to_string())
    );
}

#[test]
fn extract_item_mappings_nested_paths() {
    let html = r#"
        <html>
            <body>
                <h3 id="structs">Structs</h3>
                <ul class="all-items">
                    <li><a href="de/struct.IgnoredAny.html">de::IgnoredAny</a></li>
                    <li><a href="ser/trait.StdError.html">ser::StdError</a></li>
                    <li><a href="de/value/struct.Error.html">de::value::Error</a></li>
                </ul>
            </body>
        </html>
    "#;

    let mappings = extract_item_mappings("serde", html).unwrap();
    assert_eq!(mappings.len(), 3);
    assert_eq!(
        mappings.get("serde::de::IgnoredAny"),
        Some(&"de/struct.IgnoredAny.html".to_string())
    );
    assert_eq!(
        mappings.get("serde::ser::StdError"),
        Some(&"ser/trait.StdError.html".to_string())
    );
    assert_eq!(
        mappings.get("serde::de::value::Error"),
        Some(&"de/value/struct.Error.html".to_string())
    );
}

#[test]
fn extract_item_mappings_multiple_sections() {
    let html = r#"
        <html>
            <body>
                <h3 id="structs">Structs</h3>
                <ul class="all-items">
                    <li><a href="struct.Error.html">Error</a></li>
                </ul>
                <h3 id="traits">Traits</h3>
                <ul class="all-items">
                    <li><a href="trait.Serialize.html">Serialize</a></li>
                    <li><a href="trait.Deserialize.html">Deserialize</a></li>
                </ul>
                <h3 id="enums">Enums</h3>
                <ul class="all-items">
                    <li><a href="enum.Value.html">Value</a></li>
                </ul>
            </body>
        </html>
    "#;

    let mappings = extract_item_mappings("serde", html).unwrap();
    assert_eq!(mappings.len(), 4);
    assert_eq!(
        mappings.get("serde::Error"),
        Some(&"struct.Error.html".to_string())
    );
    assert_eq!(
        mappings.get("serde::Serialize"),
        Some(&"trait.Serialize.html".to_string())
    );
    assert_eq!(
        mappings.get("serde::Deserialize"),
        Some(&"trait.Deserialize.html".to_string())
    );
    assert_eq!(
        mappings.get("serde::Value"),
        Some(&"enum.Value.html".to_string())
    );
}

#[test]
fn extract_item_mappings_empty_html() {
    let html = r#"
        <html>
            <body>
                <p>No items here</p>
            </body>
        </html>
    "#;

    let result = extract_item_mappings("serde", html);
    assert!(result.is_err());
    let error_msg = result.unwrap_err().message();
    assert!(error_msg.contains("failed to find item mappings"));
}

#[test]
fn extract_item_mappings_no_links() {
    let html = r#"
        <html>
            <body>
                <h3 id="structs">Structs</h3>
                <ul class="all-items">
                    <li>No links here</li>
                </ul>
            </body>
        </html>
    "#;

    let result = extract_item_mappings("serde", html);
    assert!(result.is_err());
    let error_msg = result.unwrap_err().message();
    assert!(error_msg.contains("failed to find item mappings"));
}

#[test]
fn extract_item_mappings_creates_full_paths() {
    let html = r#"
        <html>
            <body>
                <h3 id="traits">Traits</h3>
                <ul class="all-items">
                    <li><a href="trait.MyTrait.html">MyTrait</a></li>
                </ul>
            </body>
        </html>
    "#;

    let mappings = extract_item_mappings("mycrate", html).unwrap();
    assert!(mappings.get("mycrate::MyTrait").is_some());
    assert_eq!(
        mappings.get("mycrate::MyTrait"),
        Some(&"trait.MyTrait.html".to_string())
    );
}

#[test]
fn item_map_insert_replaces_existing_key() {
    let mut map = docmd::listing::ItemMap::new();
    map.insert("a::B".to_string(), "one.html".to_string());
    map.insert("a::C".to_string(), "two.html".to_string());
    map.insert("a::B".to_string(), "three.html".to_string());
    assert_eq!(map.len(), 2);
    assert_eq!(map.get("a::B"), Some(&"three.html".to_string()));
    assert_eq!(map.get("a::C"), Some(&"two.html".to_string()));
    assert_eq!(map.get("a::D"), None);
}

#[test]
fn index_maps_short_name_to_fragment_under_library_prefix() {
    let html = "<ul class=\"all-items\"><li><a href=\"struct.Error.html\">Error</a></li></ul>";
    let mappings = extract_item_mappings("lib", html).unwrap();
    assert_eq!(mappings.len(), 1);
    assert_eq!(mappings.get("lib::Error"), Some(&"struct.Error.html".to_string()));
}

#[test]
fn format_all_md_empty_content_keeps_only_the_heading() {
    let result = format_all_md("serde", "");
    assert_eq!(result, "# serde\n");
}
