//! The enum renderer over the type model.

use docmd::model::{CrateIndex, Discriminant, EnumData, GenericParamDef, GenericParamKind,
    Generics, Item, ItemEnum, ItemId, Type, VariantData, VariantKind, Visibility};
use docmd::render_enum::{generate_enum_content, render_tuple_variant_fields, render_variant_kind,
    render_variant_discriminant};

fn variant_item(id: u64, name: &str, kind: VariantKind) -> Item {
    Item {
        id: ItemId(id),
        name: Some(name.to_string()),
        visibility: Visibility::Public,
        docs: None,
        inner: ItemEnum::Variant(VariantData { kind, discriminant: None }),
    }
}

fn enum_item(name: &str, docs: Option<&str>) -> Item {
    Item {
        id: ItemId(0),
        name: Some(name.to_string()),
        visibility: Visibility::Public,
        docs: docs.map(String::from),
        inner: ItemEnum::Enum(EnumData {
            variants: vec![],
            generics: Generics { params: vec![] },
            impls: vec![],
        }),
    }
}

fn render_field_type(t: &Type) -> String {
    let mut out: Vec<char> = Vec::new();
    docmd::render_enum::push_field_type(t, &mut out);
    out.into_iter().collect()
}

#[test]
fn render_variant_kind_plain() {
    let kind = VariantKind::Plain;
    let index = CrateIndex::new();
    let result = render_variant_kind(&kind, &index);
    assert!(result.is_empty());
}

#[test]
fn render_variant_kind_tuple() {
    let mut index = CrateIndex::new();
    index.push(variant_item(1, "dummy", VariantKind::Plain));

    let kind = VariantKind::Tuple(vec![Some(ItemId(1))]);
    let result = render_variant_kind(&kind, &index);
    assert!(result.contains("("));
    assert!(result.contains(")"));
}

#[test]
fn render_variant_kind_struct() {
    let mut index = CrateIndex::new();
    index.push(Item {
        id: ItemId(1),
        name: Some("x".to_string()),
        visibility: Visibility::Public,
        docs: None,
        inner: ItemEnum::StructField(Type::Primitive("i32".to_string())),
    });

    let kind = VariantKind::Struct(vec![ItemId(1)]);
    let result = render_variant_kind(&kind, &index);
    assert!(result.contains("{"));
    assert!(result.contains("}"));
    assert!(result.contains("x:"));
}

#[test]
fn render_variant_discriminant_none() {
    let discriminant = None;
    let result = render_variant_discriminant(&discriminant);
    assert!(result.is_empty());
}

#[test]
fn render_variant_discriminant_with_value() {
    let discriminant = Some(Discriminant { expr: "42".to_string(), value: "42".to_string() });
    let result = render_variant_discriminant(&discriminant);
    assert!(result.contains("= 42"));
}

#[test]
fn render_field_type_primitive() {
    let result = render_field_type(&Type::Primitive("u32".to_string()));
    assert_eq!(result, "u32");
}

#[test]
fn render_field_type_generic() {
    let result = render_field_type(&Type::Generic("T".to_string()));
    assert_eq!(result, "T");
}

#[test]
fn render_field_type_reference() {
    let result = render_field_type(&Type::BorrowedRef {
        lifetime: Some("'a".to_string()),
        is_mutable: false,
        inner: Box::new(Type::Primitive("str".to_string())),
    });
    assert_eq!(result, "&'a str");
}

#[test]
fn render_tuple_variant_fields_skips_unresolved_entries() {
    let index = CrateIndex::new();
    let result = render_tuple_variant_fields(&vec![Some(ItemId(9)), None], &index);
    assert!(result.is_empty());
}

#[test]
fn enum_generate_generics_section_empty() {
    let generics = Generics { params: vec![] };
    let result = docmd::render_struct::generate_generics_section(&generics);
    assert!(result.is_empty());
}

#[test]
fn enum_generate_generics_section_with_type_param() {
    let generics = Generics {
        params: vec![GenericParamDef { name: "T".to_string(), kind: GenericParamKind::Type }],
    };
    let result = docmd::render_struct::generate_generics_section(&generics);
    assert!(result.contains("Generic Parameters"));
    assert!(result.contains("`T`"));
    assert!(result.contains("type"));
}

#[test]
fn enum_generate_next_actions_includes_view_source() {
    let item = enum_item("TestEnum", Some(""));
    let data = EnumData { variants: vec![], generics: Generics { params: vec![] }, impls: vec![] };
    let result = generate_enum_content(&item, &data, &CrateIndex::new());
    assert!(result.contains("View source:"));
    assert!(result.contains("cargo docmd browse --item"));
}

#[test]
fn enum_generate_next_actions_includes_related() {
    let item = enum_item("TestEnum", Some(""));
    let data = EnumData { variants: vec![], generics: Generics { params: vec![] }, impls: vec![] };
    let result = generate_enum_content(&item, &data, &CrateIndex::new());
    assert!(result.contains("Find related enums"));
}

#[test]
fn generate_enum_content_simple_enum() {
    let item = enum_item("SimpleEnum", Some("A simple enum"));
    let enum_data = EnumData {
        variants: vec![],
        generics: Generics { params: vec![] },
        impls: vec![],
    };
    let index = CrateIndex::new();

    let result = generate_enum_content(&item, &enum_data, &index);
    assert!(result.contains("# SimpleEnum"));
    assert!(result.contains("A simple enum"));
    assert!(!result.contains("Variants"));
}

#[test]
fn generate_enum_content_with_generics() {
    let item = enum_item("GenericEnum", None);
    let enum_data = EnumData {
        variants: vec![],
        generics: Generics {
            params: vec![GenericParamDef { name: "T".to_string(), kind: GenericParamKind::Type }],
        },
        impls: vec![],
    };
    let index = CrateIndex::new();

    let result = generate_enum_content(&item, &enum_data, &index);
    assert!(result.contains("Generic Parameters"));
    assert!(result.contains("`T`"));
}

#[test]
fn variant_lines_carry_name_data_and_docs() {
    let mut index = CrateIndex::new();
    index.push(Item {
        id: ItemId(2),
        name: Some("Leaf".to_string()),
        visibility: Visibility::Public,
        docs: Some("A leaf node".to_string()),
        inner: ItemEnum::Variant(VariantData {
            kind: VariantKind::Plain,
            discriminant: Some(Discriminant { expr: "7".to_string(), value: "7".to_string() }),
        }),
    });
    let result = docmd::render_enum::generate_variants_section(&vec![ItemId(2)], &index);
    assert!(result.contains("## Variants"));
    assert!(result.contains("- `Leaf` = 7 - A leaf node"));
}
