//! The Markdown renderer for enum items: each variant as `Name`, `Name(T1,
//! T2)` or `Name { f1: T1 }`, with its discriminant and documentation, then
//! the generic parameters and the closing actions.

use vstd::prelude::*;
use vstd::string::*;
use crate::error::spec_join_comma;
use crate::model::{CrateIndex, Discriminant, EnumData, Generics, Item, ItemEnum, ItemId, Type,
    VariantKind, find_item, name_or_anonymous, item_display_name};
use crate::render::{documentation_spec, header_spec, render_documentation, render_header};
use crate::render_struct::{generate_generics_section, generics_section_spec, next_actions_spec_for,
    push_next_actions};
use crate::text::{append_str, chars_string, strings_view};

verus! {

/// A field's type as the variant renderer writes it: paths keep their
/// qualification, a reference keeps its lifetime exactly as named.
pub open spec fn field_type_spec(t: Type) -> Seq<char>
    decreases t, 0int,
{
    match t {
        Type::ResolvedPath(p) => p.path@,
        Type::Primitive(name) => name@,
        Type::Generic(name) => name@,
        Type::Tuple(types) => seq!['('] + field_type_list_spec(types@) + seq![')'],
        Type::Slice(inner) => seq!['['] + field_type_spec(*inner) + seq![']'],
        Type::Array { element, len } => seq!['['] + field_type_spec(*element) + "; "@ + len@
            + seq![']'],
        Type::BorrowedRef { lifetime, is_mutable, inner } => {
            seq!['&'] + (match lifetime {
                Some(lt) => lt@ + seq![' '],
                None => Seq::<char>::empty(),
            }) + (if is_mutable {
                "mut "@
            } else {
                Seq::<char>::empty()
            }) + field_type_spec(*inner)
        },
        Type::RawPointer { is_mutable, inner } => {
            (if is_mutable {
                "*mut "@
            } else {
                "*const "@
            }) + field_type_spec(*inner)
        },
        Type::FunctionPointer => "fn(...)"@,
        Type::ImplTrait => "impl Trait"@,
        Type::DynTrait => "dyn Trait"@,
        Type::Infer => seq!['_'],
        Type::QualifiedPath => "QualifiedPath"@,
        Type::Pat(_) => "Pattern"@,
    }
}

pub open spec fn field_type_list_spec(types: Seq<Type>) -> Seq<char>
    decreases types, 1int,
{
    if types.len() == 0 {
        Seq::<char>::empty()
    } else if types.len() == 1 {
        field_type_spec(types[0])
    } else {
        field_type_spec(types[0]) + ", "@ + field_type_list_spec(types.drop_first())
    }
}

/// Appends a field's type as the variant renderer writes it.
pub fn push_field_type(t: &Type, out: &mut Vec<char>)
    ensures
        final(out)@ == old(out)@ + field_type_spec(*t),
    decreases *t, 0int,
{
    match t {
        Type::ResolvedPath(p) => {
            append_str(out, p.path.as_str());
        },
        Type::Primitive(name) => {
            append_str(out, name.as_str());
        },
        Type::Generic(name) => {
            append_str(out, name.as_str());
        },
        Type::Tuple(types) => {
            out.push('(');
            push_field_type_list(types, 0, out);
            out.push(')');
            proof {
                assert(types@.skip(0) =~= types@);
                assert(out@ =~= old(out)@ + field_type_spec(*t));
            }
        },
        Type::Slice(inner) => {
            out.push('[');
            push_field_type(inner, out);
            out.push(']');
            assert(out@ =~= old(out)@ + field_type_spec(*t));
        },
        Type::Array { element, len } => {
            out.push('[');
            push_field_type(element, out);
            append_str(out, "; ");
            append_str(out, len.as_str());
            out.push(']');
            assert(out@ =~= old(out)@ + field_type_spec(*t));
        },
        Type::BorrowedRef { lifetime, is_mutable, inner } => {
            out.push('&');
            match lifetime {
                Some(lt) => {
                    append_str(out, lt.as_str());
                    out.push(' ');
                },
                None => (),
            }
            if *is_mutable {
                append_str(out, "mut ");
            }
            push_field_type(inner, out);
            assert(out@ =~= old(out)@ + field_type_spec(*t));
        },
        Type::RawPointer { is_mutable, inner } => {
            if *is_mutable {
                append_str(out, "*mut ");
            } else {
                append_str(out, "*const ");
            }
            push_field_type(inner, out);
            assert(out@ =~= old(out)@ + field_type_spec(*t));
        },
        Type::FunctionPointer => {
            append_str(out, "fn(...)");
        },
        Type::ImplTrait => {
            append_str(out, "impl Trait");
        },
        Type::DynTrait => {
            append_str(out, "dyn Trait");
        },
        Type::Infer => {
            out.push('_');
            assert(out@ =~= old(out)@ + field_type_spec(*t));
        },
        Type::QualifiedPath => {
            append_str(out, "QualifiedPath");
        },
        Type::Pat(_) => {
            append_str(out, "Pattern");
        },
    }
}

pub fn push_field_type_list(types: &Vec<Type>, i: usize, out: &mut Vec<char>)
    requires
        i <= types@.len(),
    ensures
        final(out)@ == old(out)@ + field_type_list_spec(types@.skip(i as int)),
    decreases types@, types@.len() - i, 1int,
{
    let ghost t = types@.skip(i as int);
    if i == types.len() {
        assert(out@ =~= out@ + field_type_list_spec(t));
        return ;
    }
    proof {
        assert(t[0] == types@[i as int]);
        assert(t.drop_first() =~= types@.skip(i + 1));
    }
    push_field_type(&types[i], out);
    if i + 1 < types.len() {
        append_str(out, ", ");
        push_field_type_list(types, i + 1, out);
        assert(out@ =~= old(out)@ + field_type_list_spec(t));
    } else {
        assert(t.len() == 1);
        assert(out@ =~= old(out)@ + field_type_list_spec(t));
    }
}

/// The type shown for a variant's field entry: a nested variant shows its
/// name, a field shows its type, anything else shows a placeholder.
pub open spec fn variant_type_spec(item: Item) -> Seq<char> {
    match item.inner {
        ItemEnum::Variant(_) => match item.name {
            Some(n) => n@,
            None => "Unknown"@,
        },
        ItemEnum::StructField(t) => field_type_spec(t),
        _ => "Unknown"@,
    }
}

fn push_variant_type(item: &Item, out: &mut Vec<char>)
    ensures
        final(out)@ == old(out)@ + variant_type_spec(*item),
{
    match &item.inner {
        ItemEnum::Variant(_) => {
            match &item.name {
                Some(n) => append_str(out, n.as_str()),
                None => append_str(out, "Unknown"),
            }
        },
        ItemEnum::StructField(t) => {
            push_field_type(t, out);
        },
        _ => {
            append_str(out, "Unknown");
        },
    }
}

/// The rendered types of a tuple variant's fields, in order; hidden entries
/// and entries that resolve to nothing usable are passed over.
pub open spec fn tuple_variant_types(ids: Seq<Option<ItemId>>, items: Seq<Item>) -> Seq<Seq<char>>
    decreases ids.len(),
{
    if ids.len() == 0 {
        Seq::<Seq<char>>::empty()
    } else {
        (match ids[0] {
            Some(id) => match find_item(items, id) {
                Some(item) => match item.inner {
                    ItemEnum::Variant(_) => seq![variant_type_spec(item)],
                    ItemEnum::StructField(_) => seq![variant_type_spec(item)],
                    _ => Seq::<Seq<char>>::empty(),
                },
                None => Seq::<Seq<char>>::empty(),
            },
            None => Seq::<Seq<char>>::empty(),
        }) + tuple_variant_types(ids.drop_first(), items)
    }
}

/// A tuple variant's rendered field list: nothing when no field renders,
/// otherwise the types in parentheses.
pub open spec fn tuple_variant_fields_spec(ids: Seq<Option<ItemId>>, items: Seq<Item>) -> Seq<
    char,
> {
    let types = tuple_variant_types(ids, items);
    if types.len() == 0 {
        Seq::<char>::empty()
    } else {
        seq!['('] + spec_join_comma(types) + seq![')']
    }
}

fn collect_tuple_variant_types(
    ids: &Vec<Option<ItemId>>,
    i: usize,
    index: &CrateIndex,
    out: &mut Vec<String>,
)
    requires
        i <= ids@.len(),
    ensures
        strings_view(final(out)@) == strings_view(old(out)@) + tuple_variant_types(
            ids@.skip(i as int),
            index.items@,
        ),
    decreases ids@.len() - i,
{
    let ghost t = ids@.skip(i as int);
    if i == ids.len() {
        assert(strings_view(out@) =~~= strings_view(out@) + tuple_variant_types(t, index.items@));
        return ;
    }
    proof {
        assert(t[0] == ids@[i as int]);
        assert(t.drop_first() =~= ids@.skip(i + 1));
    }
    match &ids[i] {
        Some(id) => {
            match index.get(*id) {
                Some(item) => {
                    let keep = match &item.inner {
                        ItemEnum::Variant(_) => true,
                        ItemEnum::StructField(_) => true,
                        _ => false,
                    };
                    if keep {
                        let mut piece: Vec<char> = Vec::new();
                        push_variant_type(item, &mut piece);
                        out.push(chars_string(&piece));
                        proof {
                            assert(strings_view(out@) =~~= strings_view(old(out)@) + seq![
                                variant_type_spec(*item),
                            ]);
                        }
                    }
                },
                None => {},
            }
        },
        None => {},
    }
    collect_tuple_variant_types(ids, i + 1, index, out);
    assert(strings_view(out@) =~~= strings_view(old(out)@) + tuple_variant_types(
        t,
        index.items@,
    ));
}

/// Renders a tuple variant's field list.
pub fn render_tuple_variant_fields(field_ids: &Vec<Option<ItemId>>, index: &CrateIndex) -> (r:
    String)
    ensures
        r@ == tuple_variant_fields_spec(field_ids@, index.items@),
{
    let mut types: Vec<String> = Vec::new();
    collect_tuple_variant_types(field_ids, 0, index, &mut types);
    proof {
        assert(field_ids@.skip(0) =~= field_ids@);
        assert(strings_view(types@) =~~= tuple_variant_types(field_ids@, index.items@));
    }
    if types.len() == 0 {
        return String::new();
    }
    let joined = crate::error::join_comma(&types);
    let mut out: Vec<char> = Vec::new();
    out.push('(');
    append_str(&mut out, joined.as_str());
    out.push(')');
    proof {
        assert(out@ =~= tuple_variant_fields_spec(field_ids@, index.items@));
    }
    chars_string(&out)
}

/// The rendered `name: type` pairs of a struct variant's fields; entries the
/// index does not resolve, and nameless fields, are passed over.
pub open spec fn struct_variant_pairs(ids: Seq<ItemId>, items: Seq<Item>) -> Seq<Seq<char>>
    decreases ids.len(),
{
    if ids.len() == 0 {
        Seq::<Seq<char>>::empty()
    } else {
        (match find_item(items, ids[0]) {
            Some(item) => match item.name {
                Some(n) => seq![n@ + ": "@ + variant_type_spec(item)],
                None => Seq::<Seq<char>>::empty(),
            },
            None => Seq::<Seq<char>>::empty(),
        }) + struct_variant_pairs(ids.drop_first(), items)
    }
}

/// A struct variant's rendered field list: nothing when no field renders,
/// otherwise the pairs in braces.
pub open spec fn struct_variant_fields_spec(ids: Seq<ItemId>, items: Seq<Item>) -> Seq<char> {
    let pairs = struct_variant_pairs(ids, items);
    if pairs.len() == 0 {
        Seq::<char>::empty()
    } else {
        " { "@ + spec_join_comma(pairs) + " }"@
    }
}

fn collect_struct_variant_pairs(
    ids: &Vec<ItemId>,
    i: usize,
    index: &CrateIndex,
    out: &mut Vec<String>,
)
    requires
        i <= ids@.len(),
    ensures
        strings_view(final(out)@) == strings_view(old(out)@) + struct_variant_pairs(
            ids@.skip(i as int),
            index.items@,
        ),
    decreases ids@.len() - i,
{
    let ghost t = ids@.skip(i as int);
    if i == ids.len() {
        assert(strings_view(out@) =~~= strings_view(out@) + struct_variant_pairs(
            t,
            index.items@,
        ));
        return ;
    }
    proof {
        assert(t[0] == ids@[i as int]);
        assert(t.drop_first() =~= ids@.skip(i + 1));
    }
    match index.get(ids[i]) {
        Some(item) => {
            match &item.name {
                Some(n) => {
                    let mut piece: Vec<char> = Vec::new();
                    append_str(&mut piece, n.as_str());
                    append_str(&mut piece, ": ");
                    push_variant_type(item, &mut piece);
                    out.push(chars_string(&piece));
                    proof {
                        assert(piece@ =~= item.name->0@ + ": "@ + variant_type_spec(*item));
                        assert(strings_view(out@) =~~= strings_view(old(out)@) + seq![
                            item.name->0@ + ": "@ + variant_type_spec(*item),
                        ]);
                    }
                },
                None => {},
            }
        },
        None => {},
    }
    collect_struct_variant_pairs(ids, i + 1, index, out);
    assert(strings_view(out@) =~~= strings_view(old(out)@) + struct_variant_pairs(
        t,
        index.items@,
    ));
}

/// Renders a struct variant's field list.
pub fn render_struct_variant_fields(field_ids: &Vec<ItemId>, index: &CrateIndex) -> (r: String)
    ensures
        r@ == struct_variant_fields_spec(field_ids@, index.items@),
{
    let mut pairs: Vec<String> = Vec::new();
    collect_struct_variant_pairs(field_ids, 0, index, &mut pairs);
    proof {
        assert(field_ids@.skip(0) =~= field_ids@);
        assert(strings_view(pairs@) =~~= struct_variant_pairs(field_ids@, index.items@));
    }
    if pairs.len() == 0 {
        return String::new();
    }
    let joined = crate::error::join_comma(&pairs);
    let mut out: Vec<char> = Vec::new();
    append_str(&mut out, " { ");
    append_str(&mut out, joined.as_str());
    append_str(&mut out, " }");
    proof {
        assert(out@ =~= struct_variant_fields_spec(field_ids@, index.items@));
    }
    chars_string(&out)
}

/// The associated data shown after a variant's name: nothing for a plain
/// variant, the types for a tuple variant, the fields for a struct variant.
pub open spec fn variant_kind_spec(kind: VariantKind, items: Seq<Item>) -> Seq<char> {
    match kind {
        VariantKind::Plain => Seq::<char>::empty(),
        VariantKind::Tuple(ids) => tuple_variant_fields_spec(ids@, items),
        VariantKind::Struct(ids) => struct_variant_fields_spec(ids@, items),
    }
}

/// Renders the data shown after a variant's name.
pub fn render_variant_kind(kind: &VariantKind, index: &CrateIndex) -> (r: String)
    ensures
        r@ == variant_kind_spec(*kind, index.items@),
{
    match kind {
        VariantKind::Plain => String::new(),
        VariantKind::Tuple(ids) => render_tuple_variant_fields(ids, index),
        VariantKind::Struct(ids) => render_struct_variant_fields(ids, index),
    }
}

/// The explicit discriminant shown for a variant, if it has one.
pub open spec fn discriminant_spec(d: Option<Discriminant>) -> Seq<char> {
    match d {
        Some(disc) => "= "@ + disc.expr@,
        None => Seq::<char>::empty(),
    }
}

/// Renders a variant's explicit discriminant.
pub fn render_variant_discriminant(discriminant: &Option<Discriminant>) -> (r: String)
    ensures
        r@ == discriminant_spec(*discriminant),
{
    match discriminant {
        Some(disc) => {
            let mut out: Vec<char> = Vec::new();
            append_str(&mut out, "= ");
            append_str(&mut out, disc.expr.as_str());
            proof {
                assert(out@ =~= discriminant_spec(*discriminant));
            }
            chars_string(&out)
        },
        None => String::new(),
    }
}

/// One variant's line: its name and data in backticks, its discriminant, its
/// documentation.
pub open spec fn variant_line(variant: Item, data: crate::model::VariantData, items: Seq<Item>) -> Seq<
    char,
> {
    let disc = discriminant_spec(data.discriminant);
    let docs = documentation_spec(
        match variant.docs {
            Some(d) => Some(d@),
            None => None,
        },
    );
    "- `"@ + name_or_anonymous(variant.name) + variant_kind_spec(data.kind, items) + seq!['`'] + (
    if disc.len() > 0 {
        seq![' '] + disc
    } else {
        Seq::<char>::empty()
    }) + (if docs.len() > 0 {
        " - "@ + docs
    } else {
        Seq::<char>::empty()
    }) + seq!['\n']
}

/// The variant lines of an enum; identifiers that do not resolve to variants
/// are passed over.
pub open spec fn variant_lines_spec(ids: Seq<ItemId>, items: Seq<Item>) -> Seq<char>
    decreases ids.len(),
{
    if ids.len() == 0 {
        Seq::<char>::empty()
    } else {
        (match find_item(items, ids[0]) {
            Some(variant) => match variant.inner {
                ItemEnum::Variant(data) => variant_line(variant, data, items),
                _ => Seq::<char>::empty(),
            },
            None => Seq::<char>::empty(),
        }) + variant_lines_spec(ids.drop_first(), items)
    }
}

/// The variants section: nothing for a variant-less enum, otherwise the
/// header and one line per variant.
pub open spec fn variants_section_spec(ids: Seq<ItemId>, items: Seq<Item>) -> Seq<char> {
    if ids.len() == 0 {
        Seq::<char>::empty()
    } else {
        header_spec(2, "Variants"@) + seq!['\n'] + variant_lines_spec(ids, items)
    }
}

fn push_variant_line(
    variant: &Item,
    data: &crate::model::VariantData,
    index: &CrateIndex,
    out: &mut Vec<char>,
)
    ensures
        final(out)@ == old(out)@ + variant_line(*variant, *data, index.items@),
{
    append_str(out, "- `");
    append_str(out, item_display_name(variant));
    let info = render_variant_kind(&data.kind, index);
    append_str(out, info.as_str());
    out.push('`');
    let disc = render_variant_discriminant(&data.discriminant);
    if disc.as_str().unicode_len() > 0 {
        out.push(' ');
        append_str(out, disc.as_str());
    }
    let docs = render_documentation(&variant.docs);
    if docs.as_str().unicode_len() > 0 {
        append_str(out, " - ");
        append_str(out, docs.as_str());
    }
    out.push('\n');
    assert(out@ =~= old(out)@ + variant_line(*variant, *data, index.items@));
}

fn push_variant_lines(ids: &Vec<ItemId>, i: usize, index: &CrateIndex, out: &mut Vec<char>)
    requires
        i <= ids@.len(),
    ensures
        final(out)@ == old(out)@ + variant_lines_spec(ids@.skip(i as int), index.items@),
    decreases ids@.len() - i,
{
    let ghost t = ids@.skip(i as int);
    if i == ids.len() {
        assert(out@ =~= out@ + variant_lines_spec(t, index.items@));
        return ;
    }
    proof {
        assert(t[0] == ids@[i as int]);
        assert(t.drop_first() =~= ids@.skip(i + 1));
    }
    match index.get(ids[i]) {
        Some(variant) => {
            match &variant.inner {
                ItemEnum::Variant(data) => {
                    push_variant_line(variant, data, index, out);
                },
                _ => {},
            }
        },
        None => {},
    }
    push_variant_lines(ids, i + 1, index, out);
    assert(out@ =~= old(out)@ + variant_lines_spec(t, index.items@));
}

/// Renders the variants section of an enum.
pub fn generate_variants_section(variant_ids: &Vec<ItemId>, index: &CrateIndex) -> (r: String)
    ensures
        r@ == variants_section_spec(variant_ids@, index.items@),
{
    if variant_ids.len() == 0 {
        return String::new();
    }
    let mut out: Vec<char> = Vec::new();
    let header = render_header(2, "Variants");
    append_str(&mut out, header.as_str());
    out.push('\n');
    push_variant_lines(variant_ids, 0, index, &mut out);
    proof {
        assert(variant_ids@.skip(0) =~= variant_ids@);
        assert(out@ =~= variants_section_spec(variant_ids@, index.items@));
    }
    chars_string(&out)
}

/// The full Markdown page for an enum: the title, the description, the
/// variants, the generic parameters, and the closing actions.
pub open spec fn enum_content_spec(item: Item, data: EnumData, items: Seq<Item>) -> Seq<char> {
    let docs = documentation_spec(
        match item.docs {
            Some(d) => Some(d@),
            None => None,
        },
    );
    let variants = variants_section_spec(data.variants@, items);
    let generics = generics_section_spec(data.generics);
    header_spec(1, name_or_anonymous(item.name)) + seq!['\n'] + (if docs.len() > 0 {
        seq!['\n'] + docs + seq!['\n']
    } else {
        Seq::<char>::empty()
    }) + (if variants.len() > 0 {
        seq!['\n'] + variants
    } else {
        Seq::<char>::empty()
    }) + (if generics.len() > 0 {
        seq!['\n'] + generics
    } else {
        Seq::<char>::empty()
    }) + seq!['\n'] + next_actions_spec_for(
        item.id,
        "Find related enums: `cargo docmd browse --type enum`"@,
    )
}

/// Renders the full Markdown page for an enum.
pub fn generate_enum_content(item: &Item, enum_data: &EnumData, index: &CrateIndex) -> (r: String)
    ensures
        r@ == enum_content_spec(*item, *enum_data, index.items@),
{
    let mut out: Vec<char> = Vec::new();
    let header = render_header(1, item_display_name(item));
    append_str(&mut out, header.as_str());
    out.push('\n');
    let docs = render_documentation(&item.docs);
    if docs.as_str().unicode_len() > 0 {
        out.push('\n');
        append_str(&mut out, docs.as_str());
        out.push('\n');
    }
    let variants = generate_variants_section(&enum_data.variants, index);
    if variants.as_str().unicode_len() > 0 {
        out.push('\n');
        append_str(&mut out, variants.as_str());
    }
    let generics = generate_generics_section(&enum_data.generics);
    if generics.as_str().unicode_len() > 0 {
        out.push('\n');
        append_str(&mut out, generics.as_str());
    }
    out.push('\n');
    push_next_actions(item.id, "Find related enums: `cargo docmd browse --type enum`", &mut out);
    proof {
        assert(out@ =~= enum_content_spec(*item, *enum_data, index.items@));
    }
    chars_string(&out)
}

} // verus!

verus! {

/// Unwraps the enum payload of an item. Fails exactly when the item is of any
/// other kind: invoking this renderer elsewhere is a programming defect.
pub fn extract_enum_data(inner: &ItemEnum) -> (r: Result<&EnumData, crate::error::Error>)
    ensures
        match r {
            Ok(data) => inner is Enum && *data == inner->Enum_0,
            Err(e) => {
                &&& !(inner is Enum)
                &&& e is Markdown
                &&& e.spec_message() == "Expected enum item, found "@ + crate::render::item_type_name(*inner)
            },
        },
{
    match inner {
        ItemEnum::Enum(data) => Ok(data),
        _ => {
            let mut msg: Vec<char> = Vec::new();
            append_str(&mut msg, "Expected enum item, found ");
            append_str(&mut msg, crate::render::get_item_type_name(inner));
            Err(
                crate::error::Error::Markdown(
                    crate::error::MarkdownError::ItemNotFound(chars_string(&msg)),
                ),
            )
        },
    }
}

} // verus!
