//! The Markdown renderer for struct items: fields (named, positional, or none
//! for unit structs) with their types, visibility and documentation, the
//! generic parameters, and the closing actions.

use vstd::prelude::*;
use crate::model::{CrateIndex, GenericParamDef, GenericParamKind, Generics, Item, ItemEnum, ItemId,
    StructData, StructKind, Type, Visibility, find_item, name_or_anonymous, item_display_name};
use crate::html2md::{dec_str, push_dec};
use crate::render::{documentation_spec, header_spec, render_documentation, render_header};
use crate::text::{append_str, chars_string};

verus! {

/// A type written in full: paths keep their qualification, composites recurse
/// over every nesting level.
pub open spec fn type_spec(t: Type) -> Seq<char>
    decreases t, 0int,
{
    match t {
        Type::ResolvedPath(p) => p.path@,
        Type::Primitive(name) => name@,
        Type::Generic(name) => name@,
        Type::Tuple(types) => seq!['('] + type_list_spec(types@) + seq![')'],
        Type::Slice(inner) => seq!['['] + type_spec(*inner) + seq![']'],
        Type::Array { element, len } => seq!['['] + type_spec(*element) + "; "@ + len@ + seq![']'],
        Type::RawPointer { is_mutable, inner } => {
            (if is_mutable {
                "*mut "@
            } else {
                "*const "@
            }) + type_spec(*inner)
        },
        Type::BorrowedRef { lifetime, is_mutable, inner } => {
            seq!['&'] + (match lifetime {
                Some(lt) => seq!['\''] + lt@ + seq![' '],
                None => Seq::<char>::empty(),
            }) + (if is_mutable {
                "mut "@
            } else {
                Seq::<char>::empty()
            }) + type_spec(*inner)
        },
        Type::FunctionPointer => "fn(...)"@,
        Type::ImplTrait => "impl Trait"@,
        Type::DynTrait => "dyn Trait"@,
        Type::Infer => seq!['_'],
        Type::QualifiedPath => "QualifiedPath"@,
        Type::Pat(_) => "Pattern"@,
    }
}

/// Types joined with a comma and a space.
pub open spec fn type_list_spec(types: Seq<Type>) -> Seq<char>
    decreases types, 1int,
{
    if types.len() == 0 {
        Seq::<char>::empty()
    } else if types.len() == 1 {
        type_spec(types[0])
    } else {
        type_spec(types[0]) + ", "@ + type_list_spec(types.drop_first())
    }
}

/// Appends the written form of a type.
pub fn push_type(t: &Type, out: &mut Vec<char>)
    ensures
        final(out)@ == old(out)@ + type_spec(*t),
    decreases *t, 0int,
{
    match t {
        Type::ResolvedPath(p) => {
            append_str(out, p.path.as_str());
        },
        Type::Primitive(name) => {
            append_str(out, name.as_str());
        },
        Type::Generic(name) => {
            append_str(out, name.as_str());
        },
        Type::Tuple(types) => {
            out.push('(');
            push_type_list(types, 0, out);
            out.push(')');
            proof {
                assert(types@.skip(0) =~= types@);
                assert(out@ =~= old(out)@ + type_spec(*t));
            }
        },
        Type::Slice(inner) => {
            out.push('[');
            push_type(inner, out);
            out.push(']');
            assert(out@ =~= old(out)@ + type_spec(*t));
        },
        Type::Array { element, len } => {
            out.push('[');
            push_type(element, out);
            append_str(out, "; ");
            append_str(out, len.as_str());
            out.push(']');
            assert(out@ =~= old(out)@ + type_spec(*t));
        },
        Type::RawPointer { is_mutable, inner } => {
            if *is_mutable {
                append_str(out, "*mut ");
            } else {
                append_str(out, "*const ");
            }
            push_type(inner, out);
            assert(out@ =~= old(out)@ + type_spec(*t));
        },
        Type::BorrowedRef { lifetime, is_mutable, inner } => {
            out.push('&');
            match lifetime {
                Some(lt) => {
                    out.push('\'');
                    append_str(out, lt.as_str());
                    out.push(' ');
                },
                None => (),
            }
            if *is_mutable {
                append_str(out, "mut ");
            }
            push_type(inner, out);
            assert(out@ =~= old(out)@ + type_spec(*t));
        },
        Type::FunctionPointer => {
            append_str(out, "fn(...)");
        },
        Type::ImplTrait => {
            append_str(out, "impl Trait");
        },
        Type::DynTrait => {
            append_str(out, "dyn Trait");
        },
        Type::Infer => {
            out.push('_');
            assert(out@ =~= old(out)@ + type_spec(*t));
        },
        Type::QualifiedPath => {
            append_str(out, "QualifiedPath");
        },
        Type::Pat(_) => {
            append_str(out, "Pattern");
        },
    }
}

/// Appends the types from position `i` on, comma-separated.
pub fn push_type_list(types: &Vec<Type>, i: usize, out: &mut Vec<char>)
    requires
        i <= types@.len(),
    ensures
        final(out)@ == old(out)@ + type_list_spec(types@.skip(i as int)),
    decreases types@, types@.len() - i, 1int,
{
    let ghost t = types@.skip(i as int);
    if i == types.len() {
        assert(out@ =~= out@ + type_list_spec(t));
        return ;
    }
    proof {
        assert(t[0] == types@[i as int]);
        assert(t.drop_first() =~= types@.skip(i + 1));
    }
    push_type(&types[i], out);
    if i + 1 < types.len() {
        append_str(out, ", ");
        push_type_list(types, i + 1, out);
        assert(out@ =~= old(out)@ + type_list_spec(t));
    } else {
        assert(t.len() == 1);
        assert(out@ =~= old(out)@ + type_list_spec(t));
    }
}

/// The visibility annotation of a field; default visibility shows nothing.
pub open spec fn visibility_spec(v: Visibility) -> Seq<char> {
    match v {
        Visibility::Public => "(pub)"@,
        Visibility::Default => Seq::<char>::empty(),
        Visibility::Crate => "(pub(crate))"@,
        Visibility::Restricted => "(pub restricted)"@,
    }
}

/// The visibility annotation of a field.
pub fn render_visibility(v: &Visibility) -> (r: &'static str)
    ensures
        r@ == visibility_spec(*v),
{
    match v {
        Visibility::Public => "(pub)",
        Visibility::Default => {
            proof {
                reveal_strlit("");
                assert(""@ =~= Seq::<char>::empty());
            }
            ""
        },
        Visibility::Crate => "(pub(crate))",
        Visibility::Restricted => "(pub restricted)",
    }
}

/// One named field's line: its type in backticks, its name, its visibility if
/// it shows, and its documentation if it has any.
pub open spec fn plain_field_line(field: Item, t: Type) -> Seq<char> {
    let vis = visibility_spec(field.visibility);
    let docs = documentation_spec(
        match field.docs {
            Some(d) => Some(d@),
            None => None,
        },
    );
    "- `"@ + type_spec(t) + "` "@ + (match field.name {
        Some(n) => n@,
        None => "Unnamed"@,
    }) + (if vis.len() > 0 {
        seq![' '] + vis
    } else {
        Seq::<char>::empty()
    }) + (if docs.len() > 0 {
        " - "@ + docs
    } else {
        Seq::<char>::empty()
    }) + seq!['\n']
}

/// The named fields of a struct, one bullet line each; identifiers the index
/// does not resolve to a field are passed over.
pub open spec fn plain_fields_spec(ids: Seq<ItemId>, items: Seq<Item>) -> Seq<char>
    decreases ids.len(),
{
    if ids.len() == 0 {
        Seq::<char>::empty()
    } else {
        (match find_item(items, ids[0]) {
            Some(field) => match field.inner {
                ItemEnum::StructField(t) => plain_field_line(field, t),
                _ => Seq::<char>::empty(),
            },
            None => Seq::<char>::empty(),
        }) + plain_fields_spec(ids.drop_first(), items)
    }
}

/// Renders the named fields of a struct.
pub fn render_plain_fields(field_ids: &Vec<ItemId>, index: &CrateIndex) -> (r: String)
    ensures
        r@ == plain_fields_spec(field_ids@, index.items@),
{
    let mut out: Vec<char> = Vec::new();
    push_plain_fields(field_ids, 0, index, &mut out);
    proof {
        assert(field_ids@.skip(0) =~= field_ids@);
    }
    chars_string(&out)
}

fn push_plain_field_line(field: &Item, ty: &Type, out: &mut Vec<char>)
    ensures
        final(out)@ == old(out)@ + plain_field_line(*field, *ty),
{
    append_str(out, "- `");
    push_type(ty, out);
    append_str(out, "` ");
    match &field.name {
        Some(n) => append_str(out, n.as_str()),
        None => append_str(out, "Unnamed"),
    }
    let vis = render_visibility(&field.visibility);
    if vis.unicode_len() > 0 {
        out.push(' ');
        append_str(out, vis);
    }
    let docs = render_documentation(&field.docs);
    if docs.as_str().unicode_len() > 0 {
        append_str(out, " - ");
        append_str(out, docs.as_str());
    }
    out.push('\n');
    assert(out@ =~= old(out)@ + plain_field_line(*field, *ty));
}

fn push_plain_fields(field_ids: &Vec<ItemId>, i: usize, index: &CrateIndex, out: &mut Vec<char>)
    requires
        i <= field_ids@.len(),
    ensures
        final(out)@ == old(out)@ + plain_fields_spec(field_ids@.skip(i as int), index.items@),
    decreases field_ids@.len() - i,
{
    let ghost t = field_ids@.skip(i as int);
    if i == field_ids.len() {
        assert(out@ =~= out@ + plain_fields_spec(t, index.items@));
        return ;
    }
    proof {
        assert(t[0] == field_ids@[i as int]);
        assert(t.drop_first() =~= field_ids@.skip(i + 1));
    }
    match index.get(field_ids[i]) {
        Some(field) => {
            match &field.inner {
                ItemEnum::StructField(ty) => {
                    push_plain_field_line(field, ty, out);
                },
                _ => {},
            }
        },
        None => {},
    }
    push_plain_fields(field_ids, i + 1, index, out);
    assert(out@ =~= old(out)@ + plain_fields_spec(t, index.items@));
}

/// One positional field's line, or the note standing in for a hidden field.
pub open spec fn tuple_field_line(pos: int, entry: Option<ItemId>, items: Seq<Item>) -> Seq<char> {
    match entry {
        None => "- "@ + dec_str(pos) + ": Hidden field\n"@,
        Some(id) => match find_item(items, id) {
            Some(field) => match field.inner {
                ItemEnum::StructField(t) => {
                    let docs = documentation_spec(
                        match field.docs {
                            Some(d) => Some(d@),
                            None => None,
                        },
                    );
                    "- "@ + dec_str(pos) + ": `"@ + type_spec(t) + seq!['`'] + (if docs.len()
                        > 0 {
                        " - "@ + docs
                    } else {
                        Seq::<char>::empty()
                    }) + seq!['\n']
                },
                _ => Seq::<char>::empty(),
            },
            None => Seq::<char>::empty(),
        },
    }
}

/// The positional fields of a tuple struct from position `i` on.
pub open spec fn tuple_fields_spec(ids: Seq<Option<ItemId>>, items: Seq<Item>, i: int) -> Seq<char>
    decreases ids.len() - i,
{
    if !(0 <= i < ids.len()) {
        Seq::<char>::empty()
    } else {
        tuple_field_line(i, ids[i], items) + tuple_fields_spec(ids, items, i + 1)
    }
}

/// Renders the positional fields of a tuple struct.
pub fn render_tuple_fields(field_ids: &Vec<Option<ItemId>>, index: &CrateIndex) -> (r: String)
    ensures
        r@ == tuple_fields_spec(field_ids@, index.items@, 0),
{
    let mut out: Vec<char> = Vec::new();
    push_tuple_fields(field_ids, 0, index, &mut out);
    chars_string(&out)
}

fn push_tuple_field_known(pos: usize, field: &Item, ty: &Type, out: &mut Vec<char>)
    ensures
        final(out)@ == old(out)@ + ("- "@ + dec_str(pos as int) + ": `"@ + type_spec(*ty)
            + seq!['`'] + ({
            let docs = documentation_spec(
                match field.docs {
                    Some(d) => Some(d@),
                    None => None,
                },
            );
            if docs.len() > 0 {
                " - "@ + docs
            } else {
                Seq::<char>::empty()
            }
        }) + seq!['\n']),
{
    append_str(out, "- ");
    push_dec(pos as u128, out);
    append_str(out, ": `");
    push_type(ty, out);
    out.push('`');
    let docs = render_documentation(&field.docs);
    if docs.as_str().unicode_len() > 0 {
        append_str(out, " - ");
        append_str(out, docs.as_str());
    }
    out.push('\n');
    assert(out@ =~= old(out)@ + ("- "@ + dec_str(pos as int) + ": `"@ + type_spec(*ty)
        + seq!['`'] + ({
        let docs = documentation_spec(
            match field.docs {
                Some(d) => Some(d@),
                None => None,
            },
        );
        if docs.len() > 0 {
            " - "@ + docs
        } else {
            Seq::<char>::empty()
        }
    }) + seq!['\n']));
}

fn push_tuple_fields(
    field_ids: &Vec<Option<ItemId>>,
    i: usize,
    index: &CrateIndex,
    out: &mut Vec<char>,
)
    requires
        i <= field_ids@.len(),
    ensures
        final(out)@ == old(out)@ + tuple_fields_spec(field_ids@, index.items@, i as int),
    decreases field_ids@.len() - i,
{
    if i == field_ids.len() {
        assert(out@ =~= out@ + tuple_fields_spec(field_ids@, index.items@, i as int));
        return ;
    }
    match &field_ids[i] {
        None => {
            append_str(out, "- ");
            push_dec(i as u128, out);
            append_str(out, ": Hidden field\n");
            proof {
                assert(out@ =~= old(out)@ + tuple_field_line(
                    i as int,
                    field_ids@[i as int],
                    index.items@,
                ));
            }
        },
        Some(id) => {
            match index.get(*id) {
                Some(field) => {
                    match &field.inner {
                        ItemEnum::StructField(ty) => {
                            push_tuple_field_known(i, field, ty, out);
                            proof {
                                assert(out@ =~= old(out)@ + tuple_field_line(
                                    i as int,
                                    field_ids@[i as int],
                                    index.items@,
                                ));
                            }
                        },
                        _ => {},
                    }
                },
                None => {},
            }
        },
    }
    push_tuple_fields(field_ids, i + 1, index, out);
    assert(out@ =~= old(out)@ + tuple_fields_spec(field_ids@, index.items@, i as int));
}

/// The fields section of a struct: nothing for a unit struct or when no field
/// renders; otherwise the section header and the field lines.
pub open spec fn fields_section_spec(kind: StructKind, items: Seq<Item>) -> Seq<char> {
    let fields = match kind {
        StructKind::Plain(ids) => plain_fields_spec(ids@, items),
        StructKind::Tuple(ids) => tuple_fields_spec(ids@, items, 0),
        StructKind::Unit => Seq::<char>::empty(),
    };
    if fields.len() == 0 {
        Seq::<char>::empty()
    } else {
        header_spec(2, "Fields"@) + seq!['\n'] + fields
    }
}

/// Renders the fields section of a struct.
pub fn generate_fields_section(kind: &StructKind, index: &CrateIndex) -> (r: String)
    ensures
        r@ == fields_section_spec(*kind, index.items@),
{
    let fields = match kind {
        StructKind::Plain(ids) => render_plain_fields(ids, index),
        StructKind::Tuple(ids) => render_tuple_fields(ids, index),
        StructKind::Unit => String::new(),
    };
    if fields.as_str().unicode_len() == 0 {
        return String::new();
    }
    let mut out: Vec<char> = Vec::new();
    let header = render_header(2, "Fields");
    append_str(&mut out, header.as_str());
    out.push('\n');
    append_str(&mut out, fields.as_str());
    proof {
        assert(out@ =~= fields_section_spec(*kind, index.items@));
    }
    chars_string(&out)
}

/// One generic parameter's line: its name in backticks and its kind.
pub open spec fn generic_param_line(p: GenericParamDef) -> Seq<char> {
    "- `"@ + p.name@ + "`: "@ + (match p.kind {
        GenericParamKind::Lifetime => "lifetime"@,
        GenericParamKind::Type => "type"@,
        GenericParamKind::Const => "const"@,
    }) + seq!['\n']
}

pub open spec fn generic_params_spec(params: Seq<GenericParamDef>) -> Seq<char>
    decreases params.len(),
{
    if params.len() == 0 {
        Seq::<char>::empty()
    } else {
        generic_param_line(params[0]) + generic_params_spec(params.drop_first())
    }
}

/// The generic-parameters section: nothing when the declaration takes none.
pub open spec fn generics_section_spec(g: Generics) -> Seq<char> {
    if g.params@.len() == 0 {
        Seq::<char>::empty()
    } else {
        header_spec(2, "Generic Parameters"@) + seq!['\n'] + generic_params_spec(g.params@)
    }
}

/// Renders the generic-parameters section of a declaration.
pub fn generate_generics_section(generics: &Generics) -> (r: String)
    ensures
        r@ == generics_section_spec(*generics),
{
    if generics.params.len() == 0 {
        return String::new();
    }
    let mut out: Vec<char> = Vec::new();
    let header = render_header(2, "Generic Parameters");
    append_str(&mut out, header.as_str());
    out.push('\n');
    push_generic_params(&generics.params, 0, &mut out);
    proof {
        assert(generics.params@.skip(0) =~= generics.params@);
        assert(out@ =~= generics_section_spec(*generics));
    }
    chars_string(&out)
}

fn push_generic_params(params: &Vec<GenericParamDef>, i: usize, out: &mut Vec<char>)
    requires
        i <= params@.len(),
    ensures
        final(out)@ == old(out)@ + generic_params_spec(params@.skip(i as int)),
    decreases params@.len() - i,
{
    let ghost t = params@.skip(i as int);
    if i == params.len() {
        assert(out@ =~= out@ + generic_params_spec(t));
        return ;
    }
    proof {
        assert(t[0] == params@[i as int]);
        assert(t.drop_first() =~= params@.skip(i + 1));
    }
    append_str(out, "- `");
    append_str(out, params[i].name.as_str());
    append_str(out, "`: ");
    match &params[i].kind {
        GenericParamKind::Lifetime => append_str(out, "lifetime"),
        GenericParamKind::Type => append_str(out, "type"),
        GenericParamKind::Const => append_str(out, "const"),
    }
    out.push('\n');
    push_generic_params(params, i + 1, out);
    assert(out@ =~= old(out)@ + generic_params_spec(t));
}

/// The closing actions of a rendered item: a way to view the source and a way
/// to find related items of the same kind.
pub open spec fn next_actions_spec_for(id: ItemId, related: Seq<char>) -> Seq<char> {
    "## Next Actions\n\n- View source: `cargo docmd browse --item "@ + dec_str(id.0 as int)
        + "`\n- "@ + related + seq!['\n']
}

/// Renders the closing actions of an item.
pub fn push_next_actions(id: ItemId, related: &str, out: &mut Vec<char>)
    ensures
        final(out)@ == old(out)@ + next_actions_spec_for(id, related@),
{
    append_str(out, "## Next Actions\n\n- View source: `cargo docmd browse --item ");
    push_dec(id.0 as u128, out);
    append_str(out, "`\n- ");
    append_str(out, related);
    out.push('\n');
    assert(out@ =~= old(out)@ + next_actions_spec_for(id, related@));
}

/// The full Markdown page for a struct: the title, the description, the
/// fields, the generic parameters, and the closing actions, each section
/// opening with one blank line when it shows.
pub open spec fn struct_content_spec(item: Item, data: StructData, items: Seq<Item>) -> Seq<char> {
    let docs = documentation_spec(
        match item.docs {
            Some(d) => Some(d@),
            None => None,
        },
    );
    let fields = fields_section_spec(data.kind, items);
    let generics = generics_section_spec(data.generics);
    header_spec(1, name_or_anonymous(item.name)) + seq!['\n'] + (if docs.len() > 0 {
        seq!['\n'] + docs + seq!['\n']
    } else {
        Seq::<char>::empty()
    }) + (if fields.len() > 0 {
        seq!['\n'] + fields
    } else {
        Seq::<char>::empty()
    }) + (if generics.len() > 0 {
        seq!['\n'] + generics
    } else {
        Seq::<char>::empty()
    }) + seq!['\n'] + next_actions_spec_for(
        item.id,
        "Find related structs: `cargo docmd browse --type struct`"@,
    )
}

/// Renders the full Markdown page for a struct.
pub fn generate_struct_content(item: &Item, struct_data: &StructData, index: &CrateIndex) -> (r:
    String)
    ensures
        r@ == struct_content_spec(*item, *struct_data, index.items@),
{
    let mut out: Vec<char> = Vec::new();
    let header = render_header(1, item_display_name(item));
    append_str(&mut out, header.as_str());
    out.push('\n');
    let docs = render_documentation(&item.docs);
    if docs.as_str().unicode_len() > 0 {
        out.push('\n');
        append_str(&mut out, docs.as_str());
        out.push('\n');
    }
    let fields = generate_fields_section(&struct_data.kind, index);
    if fields.as_str().unicode_len() > 0 {
        out.push('\n');
        append_str(&mut out, fields.as_str());
    }
    let generics = generate_generics_section(&struct_data.generics);
    if generics.as_str().unicode_len() > 0 {
        out.push('\n');
        append_str(&mut out, generics.as_str());
    }
    out.push('\n');
    push_next_actions(item.id, "Find related structs: `cargo docmd browse --type struct`", &mut out);
    proof {
        assert(out@ =~= struct_content_spec(*item, *struct_data, index.items@));
    }
    chars_string(&out)
}

} // verus!

verus! {

/// Unwraps the struct payload of an item. Fails exactly when the item is of
/// any other kind: invoking this renderer elsewhere is a programming defect.
pub fn extract_struct_data(inner: &ItemEnum) -> (r: Result<&StructData, crate::error::Error>)
    ensures
        match r {
            Ok(data) => inner is Struct && *data == inner->Struct_0,
            Err(e) => {
                &&& !(inner is Struct)
                &&& e is Markdown
                &&& e.spec_message() == "Expected struct item, found "@ + crate::render::item_type_name(*inner)
            },
        },
{
    match inner {
        ItemEnum::Struct(data) => Ok(data),
        _ => {
            let mut msg: Vec<char> = Vec::new();
            append_str(&mut msg, "Expected struct item, found ");
            append_str(&mut msg, crate::render::get_item_type_name(inner));
            Err(
                crate::error::Error::Markdown(
                    crate::error::MarkdownError::ItemNotFound(chars_string(&msg)),
                ),
            )
        },
    }
}

} // verus!
