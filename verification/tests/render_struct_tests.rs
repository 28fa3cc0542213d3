//! The struct renderer over the type model.

use docmd::model::{CrateIndex, GenericParamDef, GenericParamKind, Generics, Item, ItemEnum,
    ItemId, PathData, StructData, StructKind, Type, Visibility};
use docmd::render_struct::{generate_generics_section, generate_struct_content,
    render_plain_fields, render_tuple_fields, render_visibility};

fn resolved(tyname: &str) -> Type {
    Type::ResolvedPath(PathData { path: tyname.to_string(), id: ItemId(0), args: None })
}

fn field_item(id: u64, name: Option<&str>, vis: Visibility, docs: Option<&str>, ty: Type) -> Item {
    Item {
        id: ItemId(id),
        name: name.map(String::from),
        visibility: vis,
        docs: docs.map(String::from),
        inner: ItemEnum::StructField(ty),
    }
}

fn render_type(t: &Type) -> String {
    let mut out: Vec<char> = Vec::new();
    docmd::render_struct::push_type(t, &mut out);
    out.into_iter().collect()
}

#[test]
fn render_fields_plain_struct_with_visibility() {
    let mut index = CrateIndex::new();
    index.push(field_item(1, Some("x"), Visibility::Public, None, resolved("i32")));

    let result = render_plain_fields(&vec![ItemId(1)], &index);
    assert!(result.contains("`i32`"));
    assert!(result.contains("x"));
    assert!(result.contains("(pub)"));
}

#[test]
fn render_fields_private_struct_field() {
    let mut index = CrateIndex::new();
    index.push(field_item(2, Some("private_field"), Visibility::Default, None, resolved("String")));

    let result = render_plain_fields(&vec![ItemId(2)], &index);
    assert!(result.contains("`String`"));
    assert!(result.contains("private_field"));
    assert!(!result.contains("(pub)"));
}

#[test]
fn render_fields_with_documentation() {
    let mut index = CrateIndex::new();
    index.push(field_item(
        3,
        Some("documented"),
        Visibility::Public,
        Some("This field is important"),
        resolved("bool"),
    ));

    let result = render_plain_fields(&vec![ItemId(3)], &index);
    assert!(result.contains("`bool`"));
    assert!(result.contains("documented"));
    assert!(result.contains("This field is important"));
}

#[test]
fn render_tuple_fields_positional() {
    let mut index = CrateIndex::new();
    index.push(field_item(4, None, Visibility::Public, None, resolved("f64")));

    let result = render_tuple_fields(&vec![Some(ItemId(4))], &index);
    assert!(result.contains("0:"));
    assert!(result.contains("`f64`"));
}

#[test]
fn render_tuple_fields_hidden() {
    let index = CrateIndex::new();
    let result = render_tuple_fields(&vec![None], &index);
    assert!(result.contains("0: Hidden field"));
}

#[test]
fn render_type_primitive() {
    let result = render_type(&Type::Primitive("u32".to_string()));
    assert_eq!(result, "u32");
}

#[test]
fn render_type_generic() {
    let result = render_type(&Type::Generic("T".to_string()));
    assert_eq!(result, "T");
}

#[test]
fn render_type_resolved_path() {
    let result = render_type(&resolved("std::vec::Vec"));
    assert_eq!(result, "std::vec::Vec");
}

#[test]
fn render_type_tuple() {
    let result = render_type(&Type::Tuple(vec![
        Type::Primitive("i32".to_string()),
        Type::Primitive("String".to_string()),
    ]));
    assert_eq!(result, "(i32, String)");
}

#[test]
fn render_type_array() {
    let result = render_type(&Type::Array {
        element: Box::new(Type::Primitive("u8".to_string())),
        len: "32".to_string(),
    });
    assert_eq!(result, "[u8; 32]");
}

#[test]
fn render_visibility_shows_only_public_markers() {
    assert_eq!(render_visibility(&Visibility::Public), "(pub)");
    assert_eq!(render_visibility(&Visibility::Default), "");
    assert_eq!(render_visibility(&Visibility::Crate), "(pub(crate))");
    assert_eq!(render_visibility(&Visibility::Restricted), "(pub restricted)");
}

#[test]
fn struct_generate_generics_section_empty() {
    let generics = Generics { params: vec![] };
    let result = generate_generics_section(&generics);
    assert!(result.is_empty());
}

#[test]
fn struct_generate_generics_section_with_type_param() {
    let generics = Generics {
        params: vec![GenericParamDef { name: "T".to_string(), kind: GenericParamKind::Type }],
    };
    let result = generate_generics_section(&generics);
    assert!(result.contains("Generic Parameters"));
    assert!(result.contains("`T`"));
    assert!(result.contains("type"));
}

#[test]
fn generate_generics_section_with_lifetime() {
    let generics = Generics {
        params: vec![GenericParamDef { name: "'a".to_string(), kind: GenericParamKind::Lifetime }],
    };
    let result = generate_generics_section(&generics);
    assert!(result.contains("`'a`"));
    assert!(result.contains("lifetime"));
}

fn test_struct_item(name: &str, docs: Option<&str>) -> Item {
    Item {
        id: ItemId(0),
        name: Some(name.to_string()),
        visibility: Visibility::Public,
        docs: docs.map(String::from),
        inner: ItemEnum::Struct(StructData {
            kind: StructKind::Plain(vec![]),
            generics: Generics { params: vec![] },
            impls: vec![],
        }),
    }
}

#[test]
fn struct_generate_next_actions_includes_view_source() {
    let item = test_struct_item("TestStruct", None);
    let data = StructData {
        kind: StructKind::Plain(vec![]),
        generics: Generics { params: vec![] },
        impls: vec![],
    };
    let result = generate_struct_content(&item, &data, &CrateIndex::new());
    assert!(result.contains("View source:"));
    assert!(result.contains("cargo docmd browse --item"));
}

#[test]
fn struct_generate_next_actions_includes_related() {
    let item = test_struct_item("TestStruct", None);
    let data = StructData {
        kind: StructKind::Plain(vec![]),
        generics: Generics { params: vec![] },
        impls: vec![],
    };
    let result = generate_struct_content(&item, &data, &CrateIndex::new());
    assert!(result.contains("Find related structs"));
}

#[test]
fn generate_struct_content_plain_struct() {
    let item = test_struct_item("PlainStruct", Some("A plain struct"));
    let struct_data = StructData {
        kind: StructKind::Plain(vec![]),
        generics: Generics { params: vec![] },
        impls: vec![],
    };
    let index = CrateIndex::new();

    let result = generate_struct_content(&item, &struct_data, &index);
    assert!(result.contains("# PlainStruct"));
    assert!(result.contains("A plain struct"));
    assert!(!result.contains("Fields"));
}

#[test]
fn generate_struct_content_with_generics() {
    let item = test_struct_item("GenericStruct", None);
    let struct_data = StructData {
        kind: StructKind::Unit,
        generics: Generics {
            params: vec![GenericParamDef { name: "T".to_string(), kind: GenericParamKind::Type }],
        },
        impls: vec![],
    };
    let index = CrateIndex::new();

    let result = generate_struct_content(&item, &struct_data, &index);
    assert!(result.contains("Generic Parameters"));
    assert!(result.contains("`T`"));
}
