//! The type-alias renderer: the declaration, the aliased enum's shape, and
//! the variants table with substituted arguments.

use docmd::model::{CrateIndex, EnumData, GenericArg, GenericArgs, GenericParamDef,
    GenericParamKind, Generics, Item, ItemEnum, ItemId, PathData, Type, TypeAliasData,
    VariantData, VariantKind, Visibility};
use docmd::render_alias::{categorize_method, generate_alias_content, generate_variants_table};

/// A crate index holding a two-parameter result-like enum with two variants,
/// and the alias target substituting a concrete error type for the second
/// parameter.
fn result_like_setup() -> (CrateIndex, Type) {
    let mut index = CrateIndex::new();
    index.push(Item {
        id: ItemId(100),
        name: Some("Result".to_string()),
        visibility: Visibility::Public,
        docs: None,
        inner: ItemEnum::Enum(EnumData {
            variants: vec![ItemId(101), ItemId(102)],
            generics: Generics {
                params: vec![
                    GenericParamDef { name: "T".to_string(), kind: GenericParamKind::Type },
                    GenericParamDef { name: "E".to_string(), kind: GenericParamKind::Type },
                ],
            },
            impls: vec![],
        }),
    });
    index.push(Item {
        id: ItemId(101),
        name: Some("Ok".to_string()),
        visibility: Visibility::Public,
        docs: Some("Contains the success value".to_string()),
        inner: ItemEnum::Variant(VariantData {
            kind: VariantKind::Tuple(vec![Some(ItemId(103))]),
            discriminant: None,
        }),
    });
    index.push(Item {
        id: ItemId(102),
        name: Some("Err".to_string()),
        visibility: Visibility::Public,
        docs: Some("Contains the error value".to_string()),
        inner: ItemEnum::Variant(VariantData {
            kind: VariantKind::Tuple(vec![Some(ItemId(104))]),
            discriminant: None,
        }),
    });
    let target = Type::ResolvedPath(PathData {
        path: "core::result::Result".to_string(),
        id: ItemId(100),
        args: Some(Box::new(GenericArgs::AngleBracketed(vec![
            GenericArg::Type(Type::Generic("T".to_string())),
            GenericArg::Type(Type::ResolvedPath(PathData {
                path: "Error".to_string(),
                id: ItemId(200),
                args: None,
            })),
        ]))),
    });
    (index, target)
}

#[test]
fn variants_table_has_one_row_per_variant_with_substituted_types() {
    let (index, target) = result_like_setup();
    let table = generate_variants_table(&target, &index);
    assert!(table.contains("| Variant | Type    | Description"));
    let rows: Vec<&str> = table.lines().filter(|l| l.starts_with("| `")).collect();
    assert_eq!(rows.len(), 2);
    assert!(rows[0].contains("`Ok`"));
    assert!(rows[0].contains("`T`"));
    assert!(rows[0].contains("Contains the success value"));
    assert!(rows[1].contains("`Err`"));
    assert!(rows[1].contains("`Error`"));
    assert!(rows[1].contains("Contains the error value"));
}

#[test]
fn alias_page_carries_definition_and_substituted_enum() {
    let (index, target) = result_like_setup();
    let alias_item = Item {
        id: ItemId(1),
        name: Some("Result".to_string()),
        visibility: Visibility::Public,
        docs: Some("Alias for a `Result` with a fixed error type.".to_string()),
        inner: ItemEnum::Module,
    };
    let alias_data = TypeAliasData {
        target,
        generics: Generics {
            params: vec![GenericParamDef { name: "T".to_string(), kind: GenericParamKind::Type }],
        },
    };
    let page = generate_alias_content(&alias_item, &alias_data, &index, Some("serde_json"));
    assert!(page.contains("# Type Alias `Result`"));
    assert!(page.contains("**Namespace:** `serde_json`"));
    assert!(page.contains("pub type Result<T> = Result<T, Error>;"));
    assert!(page.contains("pub enum Result<T> {\n    Ok(T),\n    Err(Error),\n}"));
    assert!(page.contains("### Description"));
    assert!(page.contains("## Variants"));
    assert!(page.contains("This type inherits all implementations from Result."));
    assert!(page.contains("No implementations found."));
    assert!(page.contains("Find related aliases: `cargo docmd browse --type type-alias`"));
}

#[test]
fn variants_table_is_empty_for_an_unresolved_alias() {
    let index = CrateIndex::new();
    let target = Type::ResolvedPath(PathData {
        path: "elsewhere::Thing".to_string(),
        id: ItemId(77),
        args: None,
    });
    assert_eq!(generate_variants_table(&target, &index), "");
}

#[test]
fn categorize_method_files_by_name() {
    assert_eq!(categorize_method("pub fn is_ok(...)"), "Inspectors");
    assert_eq!(categorize_method("pub fn as_ref(...)"), "Converters");
    assert_eq!(categorize_method("pub fn map_err(...)"), "Transformers");
    assert_eq!(categorize_method("pub fn unwrap_or_default(...)"), "Combinators");
    assert_eq!(categorize_method("pub fn expect(...)"), "Extractors (Unwrap)");
    assert_eq!(categorize_method("pub fn iter(...)"), "Iterators");
    assert_eq!(categorize_method("pub fn clone(...)"), "Other");
}
