//! The type model the renderers consume: one crate's documented items, each
//! with its identifier, name, visibility, documentation and kind-specific
//! payload, and the index that maps identifiers to items.

use vstd::prelude::*;
use crate::text::str_eq;

verus! {

/// The identifier of a documented item, unique within one crate build.
#[derive(Clone, Copy, PartialEq, Eq, Structural)]
pub struct ItemId(pub u64);

/// The visibility of an item.
pub enum Visibility {
    Public,
    Default,
    Crate,
    Restricted,
}

/// What kind of generic parameter a declaration takes.
pub enum GenericParamKind {
    Lifetime,
    Type,
    Const,
}

/// One generic parameter of a declaration.
pub struct GenericParamDef {
    pub name: String,
    pub kind: GenericParamKind,
}

/// The generic parameters of a declaration.
pub struct Generics {
    pub params: Vec<GenericParamDef>,
}

/// One generic argument in a path.
pub enum GenericArg {
    Lifetime(String),
    Type(Type),
    Const,
    Infer,
}

/// The generic arguments of a path.
pub enum GenericArgs {
    AngleBracketed(Vec<GenericArg>),
    Parenthesized,
    ReturnTypeNotation,
}

/// A named path in a type, with the item it resolves to and its arguments.
pub struct PathData {
    pub path: String,
    pub id: ItemId,
    pub args: Option<Box<GenericArgs>>,
}

/// A type as the model writes it: the full composite surface.
pub enum Type {
    ResolvedPath(PathData),
    Primitive(String),
    Generic(String),
    Tuple(Vec<Type>),
    Slice(Box<Type>),
    Array { element: Box<Type>, len: String },
    RawPointer { is_mutable: bool, inner: Box<Type> },
    BorrowedRef { lifetime: Option<String>, is_mutable: bool, inner: Box<Type> },
    FunctionPointer,
    ImplTrait,
    DynTrait,
    Infer,
    QualifiedPath,
    Pat(Box<Type>),
}

/// How a struct holds its fields.
pub enum StructKind {
    Plain(Vec<ItemId>),
    Tuple(Vec<Option<ItemId>>),
    Unit,
}

pub struct StructData {
    pub kind: StructKind,
    pub generics: Generics,
    pub impls: Vec<ItemId>,
}

/// How an enum variant holds its data.
pub enum VariantKind {
    Plain,
    Tuple(Vec<Option<ItemId>>),
    Struct(Vec<ItemId>),
}

/// An explicit discriminant of a variant.
pub struct Discriminant {
    pub expr: String,
    pub value: String,
}

pub struct VariantData {
    pub kind: VariantKind,
    pub discriminant: Option<Discriminant>,
}

pub struct EnumData {
    pub variants: Vec<ItemId>,
    pub generics: Generics,
    pub impls: Vec<ItemId>,
}

pub struct UnionData {
    pub fields: Vec<ItemId>,
    pub generics: Generics,
    pub impls: Vec<ItemId>,
}

pub struct TypeAliasData {
    pub target: Type,
    pub generics: Generics,
}

/// One implementation block: the trait it implements, if any, and its items.
pub struct ImplData {
    pub trait_path: Option<String>,
    pub items: Vec<ItemId>,
}

/// The discriminated kind of an item, with its kind-specific payload.
pub enum ItemEnum {
    Module,
    ExternCrate,
    Use,
    Union(UnionData),
    Struct(StructData),
    StructField(Type),
    Enum(EnumData),
    Variant(VariantData),
    Function,
    Trait,
    TraitAlias,
    Impl(ImplData),
    TypeAlias(TypeAliasData),
    Constant,
    Static,
    ExternType,
    Macro,
    ProcMacro,
    Primitive,
    AssocConst,
    AssocType,
}

/// One documented unit.
pub struct Item {
    pub id: ItemId,
    pub name: Option<String>,
    pub visibility: Visibility,
    pub docs: Option<String>,
    pub inner: ItemEnum,
}

/// The item an identifier maps to: the first record carrying it.
pub open spec fn find_item(s: Seq<Item>, id: ItemId) -> Option<Item>
    decreases s.len(),
{
    if s.len() == 0 {
        None
    } else if s[0].id == id {
        Some(s[0])
    } else {
        find_item(s.drop_first(), id)
    }
}

/// The full identifier-to-item map for one crate; built once per build and
/// read-only thereafter.
pub struct CrateIndex {
    pub items: Vec<Item>,
}

impl CrateIndex {
    pub fn new() -> (r: CrateIndex)
        ensures
            r.items@ == Seq::<Item>::empty(),
    {
        CrateIndex { items: Vec::new() }
    }

    /// Records one item.
    pub fn push(&mut self, item: Item)
        ensures
            final(self).items@ == old(self).items@.push(item),
    {
        self.items.push(item);
    }

    /// The item an identifier maps to, if the index holds one.
    pub fn get(&self, id: ItemId) -> (r: Option<&Item>)
        ensures
            match r {
                Some(item) => find_item(self.items@, id) == Some(*item),
                None => find_item(self.items@, id) is None,
            },
    {
        let mut i: usize = 0;
        proof {
            assert(self.items@.skip(0) =~= self.items@);
        }
        while i < self.items.len()
            invariant
                i <= self.items@.len(),
                find_item(self.items@, id) == find_item(self.items@.skip(i as int), id),
            decreases self.items@.len() - i,
        {
            proof {
                assert(self.items@.skip(i as int)[0] == self.items@[i as int]);
                assert(self.items@.skip(i as int).drop_first() =~= self.items@.skip(i + 1));
            }
            if self.items[i].id.0 == id.0 {
                proof {
                    assert(self.items@[i as int].id == id);
                }
                return Some(&self.items[i]);
            }
            i = i + 1;
        }
        proof {
            assert(self.items@.skip(i as int) =~= Seq::<Item>::empty());
        }
        None
    }
}

/// A whole crate's documentation model: the item index and the root module.
pub struct CrateData {
    pub root: ItemId,
    pub index: CrateIndex,
}

/// The name of an item, or the placeholder for an anonymous one.
pub open spec fn name_or_anonymous(name: Option<String>) -> Seq<char> {
    match name {
        Some(n) => n@,
        None => "Anonymous"@,
    }
}

/// The item's name, or `Anonymous` where it has none.
pub fn item_display_name(item: &Item) -> (r: &str)
    ensures
        r@ == name_or_anonymous(item.name),
{
    match &item.name {
        Some(n) => n.as_str(),
        None => "Anonymous",
    }
}

} // verus!
