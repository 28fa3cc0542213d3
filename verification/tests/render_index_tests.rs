//! Grouping and the crate overview page.

use docmd::model::{CrateData, CrateIndex, EnumData, Generics, Item, ItemEnum, ItemId, StructData,
    StructKind, Visibility};
use docmd::render_index::{group_items_by_type, render_index_content, render_item_counts,
    render_item_lists};

fn plain_struct(id: u64, name: &str, vis: Visibility, docs: Option<&str>) -> Item {
    Item {
        id: ItemId(id),
        name: Some(name.to_string()),
        visibility: vis,
        docs: docs.map(String::from),
        inner: ItemEnum::Struct(StructData {
            kind: StructKind::Plain(vec![]),
            generics: Generics { params: vec![] },
            impls: vec![],
        }),
    }
}

fn create_test_crate() -> CrateData {
    let mut index = CrateIndex::new();
    index.push(Item {
        id: ItemId(0),
        name: Some("test_crate".to_string()),
        visibility: Visibility::Public,
        docs: Some("Test crate documentation".to_string()),
        inner: ItemEnum::Module,
    });
    index.push(plain_struct(1, "MyStruct", Visibility::Public, Some("A test struct")));
    index.push(Item {
        id: ItemId(2),
        name: Some("my_function".to_string()),
        visibility: Visibility::Public,
        docs: None,
        inner: ItemEnum::Function,
    });
    index.push(plain_struct(3, "PrivateStruct", Visibility::Default, None));
    CrateData { root: ItemId(0), index }
}

#[test]
fn grouping_includes_public_only() {
    let krate = create_test_crate();
    let grouped = group_items_by_type(&krate);

    assert_eq!(grouped.len(), 2);
    assert!(grouped.iter().any(|g| g.kind == "Struct"));
    assert!(grouped.iter().any(|g| g.kind == "Function"));

    let structs = &grouped.iter().find(|g| g.kind == "Struct").unwrap().items;
    assert_eq!(structs.len(), 1);
    assert!(structs.contains(&"MyStruct".to_string()));

    let functions = &grouped.iter().find(|g| g.kind == "Function").unwrap().items;
    assert_eq!(functions.len(), 1);
    assert!(functions.contains(&"my_function".to_string()));
}

#[test]
fn grouping_sorts_items() {
    let mut krate = create_test_crate();
    krate.index.push(plain_struct(4, "ZStruct", Visibility::Public, None));
    krate.index.push(plain_struct(5, "AStruct", Visibility::Public, None));

    let grouped = group_items_by_type(&krate);
    let structs = &grouped.iter().find(|g| g.kind == "Struct").unwrap().items;

    assert_eq!(
        structs,
        &vec![
            "AStruct".to_string(),
            "MyStruct".to_string(),
            "ZStruct".to_string()
        ]
    );
}

#[test]
fn grouping_sorts_group_kinds() {
    let krate = create_test_crate();
    let grouped = group_items_by_type(&krate);
    assert_eq!(grouped[0].kind, "Function");
    assert_eq!(grouped[1].kind, "Struct");
}

#[test]
fn overview_includes_crate_name() {
    let krate = create_test_crate();
    let content = render_index_content(&krate).unwrap();
    assert!(content.contains("## test_crate"));
}

#[test]
fn overview_includes_documentation() {
    let krate = create_test_crate();
    let content = render_index_content(&krate).unwrap();
    assert!(content.contains("Test crate documentation"));
}

#[test]
fn overview_includes_item_counts() {
    let krate = create_test_crate();
    let content = render_index_content(&krate).unwrap();
    assert!(content.contains("## Item Counts"));
    assert!(content.contains("**Total**: 2 public items"));
    assert!(content.contains("- **Struct**: 1"));
    assert!(content.contains("- **Function**: 1"));
}

#[test]
fn overview_includes_item_links() {
    let krate = create_test_crate();
    let content = render_index_content(&krate).unwrap();
    assert!(content.contains("[MyStruct](MyStruct.md)"));
    assert!(content.contains("[my_function](my_function.md)"));
}

#[test]
fn overview_includes_next_actions() {
    let krate = create_test_crate();
    let content = render_index_content(&krate).unwrap();
    assert!(content.contains("## Next Actions"));
    assert!(content.contains("`cargo docmd browse --crate test_crate`"));
}

#[test]
fn overview_is_absent_without_a_root_module() {
    let mut index = CrateIndex::new();
    index.push(plain_struct(1, "Lone", Visibility::Public, None));
    let krate = CrateData { root: ItemId(99), index };
    assert!(render_index_content(&krate).is_none());
}

#[test]
fn counts_note_when_nothing_is_public() {
    let groups = Vec::new();
    let counts = render_item_counts(&groups);
    assert!(counts.contains("No public items found."));
    assert_eq!(render_item_lists(&groups), "");
}

#[test]
fn enum_groups_use_their_kind_name() {
    let mut index = CrateIndex::new();
    index.push(Item {
        id: ItemId(0),
        name: Some("c".to_string()),
        visibility: Visibility::Public,
        docs: None,
        inner: ItemEnum::Module,
    });
    index.push(Item {
        id: ItemId(1),
        name: Some("Value".to_string()),
        visibility: Visibility::Public,
        docs: None,
        inner: ItemEnum::Enum(EnumData {
            variants: vec![],
            generics: Generics { params: vec![] },
            impls: vec![],
        }),
    });
    let krate = CrateData { root: ItemId(0), index };
    let grouped = group_items_by_type(&krate);
    assert_eq!(grouped.len(), 1);
    assert_eq!(grouped[0].kind, "Enum");
    assert_eq!(grouped[0].items, vec!["Value".to_string()]);
}
