//! The union renderer over the type model.

use docmd::model::{CrateIndex, GenericParamDef, GenericParamKind, Generics, Item, ItemEnum,
    ItemId, PathData, Type, UnionData, Visibility};
use docmd::render_union::{generate_fields_section, generate_safety_note, generate_union_content};

fn union_field(id: u64, name: &str, vis: Visibility, docs: Option<&str>, ty: Type) -> Item {
    Item {
        id: ItemId(id),
        name: Some(name.to_string()),
        visibility: vis,
        docs: docs.map(String::from),
        inner: ItemEnum::StructField(ty),
    }
}

fn union_item(name: &str, docs: Option<&str>) -> Item {
    Item {
        id: ItemId(0),
        name: Some(name.to_string()),
        visibility: Visibility::Public,
        docs: docs.map(String::from),
        inner: ItemEnum::Union(UnionData {
            fields: vec![],
            generics: Generics { params: vec![] },
            impls: vec![],
        }),
    }
}

fn resolved(tyname: &str) -> Type {
    Type::ResolvedPath(PathData { path: tyname.to_string(), id: ItemId(0), args: None })
}

fn render_type(t: &Type) -> String {
    let mut out: Vec<char> = Vec::new();
    docmd::render_struct::push_type(t, &mut out);
    out.into_iter().collect()
}

#[test]
fn generate_safety_note_includes_warning() {
    let note = generate_safety_note();
    assert!(note.contains("Safety"));
    assert!(note.contains("unsafe code"));
    assert!(note.contains("undefined behavior"));
}

#[test]
fn generate_fields_section_with_public_field() {
    let mut index = CrateIndex::new();
    index.push(union_field(1, "integer", Visibility::Public, None, resolved("i64")));

    let result = generate_fields_section(&vec![ItemId(1)], &index);
    assert!(result.contains("integer"));
    assert!(result.contains("`i64`"));
    assert!(result.contains("(pub)"));
}

#[test]
fn generate_fields_section_with_private_field() {
    let mut index = CrateIndex::new();
    index.push(union_field(
        2,
        "private_field",
        Visibility::Default,
        Some("A pointer to text data"),
        resolved("f64"),
    ));

    let result = generate_fields_section(&vec![ItemId(2)], &index);
    assert!(result.contains("private_field"));
    assert!(result.contains("`f64`"));
    assert!(!result.contains("(pub)"));
}

#[test]
fn generate_fields_section_with_documentation() {
    let mut index = CrateIndex::new();
    index.push(union_field(
        3,
        "documented",
        Visibility::Public,
        Some("A pointer to text data"),
        Type::RawPointer { is_mutable: false, inner: Box::new(resolved("u8")) },
    ));

    let result = generate_fields_section(&vec![ItemId(3)], &index);
    assert!(result.contains("documented"));
    assert!(result.contains("A pointer to text data"));
    assert!(result.contains("*const"));
}

#[test]
fn generate_fields_section_empty() {
    let index = CrateIndex::new();
    let result = generate_fields_section(&vec![], &index);
    assert!(result.is_empty());
}

#[test]
fn render_type_raw_pointer_const() {
    let result = render_type(&Type::RawPointer {
        is_mutable: false,
        inner: Box::new(Type::Primitive("u8".to_string())),
    });
    assert_eq!(result, "*const u8");
}

#[test]
fn render_type_raw_pointer_mut() {
    let result = render_type(&Type::RawPointer {
        is_mutable: true,
        inner: Box::new(Type::Primitive("i32".to_string())),
    });
    assert_eq!(result, "*mut i32");
}

#[test]
fn render_type_reference_mut() {
    let result = render_type(&Type::BorrowedRef {
        lifetime: None,
        is_mutable: true,
        inner: Box::new(Type::Primitive("str".to_string())),
    });
    assert_eq!(result, "&mut str");
}

#[test]
fn union_generate_generics_section_empty() {
    let generics = Generics { params: vec![] };
    let result = docmd::render_struct::generate_generics_section(&generics);
    assert!(result.is_empty());
}

#[test]
fn union_generate_generics_section_with_type_param() {
    let generics = Generics {
        params: vec![GenericParamDef { name: "T".to_string(), kind: GenericParamKind::Type }],
    };
    let result = docmd::render_struct::generate_generics_section(&generics);
    assert!(result.contains("Generic Parameters"));
    assert!(result.contains("`T`"));
    assert!(result.contains("type"));
}

#[test]
fn union_generate_next_actions_includes_view_source() {
    let item = union_item("TestUnion", None);
    let data = UnionData { fields: vec![], generics: Generics { params: vec![] }, impls: vec![] };
    let result = generate_union_content(&item, &data, &CrateIndex::new());
    assert!(result.contains("View source:"));
    assert!(result.contains("cargo docmd browse --item"));
}

#[test]
fn union_generate_next_actions_includes_related() {
    let item = union_item("TestUnion", None);
    let data = UnionData { fields: vec![], generics: Generics { params: vec![] }, impls: vec![] };
    let result = generate_union_content(&item, &data, &CrateIndex::new());
    assert!(result.contains("Find related unions"));
}

#[test]
fn generate_union_content_includes_safety_note() {
    let item = union_item("TestUnion", Some("A test union"));
    let union_data = UnionData {
        fields: vec![],
        generics: Generics { params: vec![] },
        impls: vec![],
    };
    let index = CrateIndex::new();

    let result = generate_union_content(&item, &union_data, &index);
    assert!(result.contains("# TestUnion"));
    assert!(result.contains("A test union"));
    assert!(result.contains("Safety"));
    assert!(result.contains("unsafe"));
}

#[test]
fn generate_union_content_with_generics() {
    let item = union_item("GenericUnion", None);
    let union_data = UnionData {
        fields: vec![],
        generics: Generics {
            params: vec![GenericParamDef { name: "T".to_string(), kind: GenericParamKind::Type }],
        },
        impls: vec![],
    };
    let index = CrateIndex::new();

    let result = generate_union_content(&item, &union_data, &index);
    assert!(result.contains("Generic Parameters"));
    assert!(result.contains("`T`"));
    assert!(result.contains("Safety"));
}
