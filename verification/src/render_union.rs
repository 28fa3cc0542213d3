//! The Markdown renderer for union items: the fields render as a struct's do,
//! and a safety note stands right after the description, since reading any
//! field but the one most recently written is undefined behavior.

use vstd::prelude::*;
use vstd::string::*;
use crate::model::{CrateIndex, Item, ItemEnum, ItemId, UnionData, find_item, name_or_anonymous,
    item_display_name};
use crate::render::{documentation_spec, header_spec, render_documentation, render_header};
use crate::render_struct::{generate_generics_section, generics_section_spec, next_actions_spec_for,
    plain_fields_spec, push_next_actions, render_plain_fields};
use crate::text::{append_str, chars_string};

verus! {

/// The safety note of every union page.
pub open spec fn safety_note_spec() -> Seq<char> {
    header_spec(2, "Safety"@) + seq!['\n']
        + "**Important**: Accessing union fields requires unsafe code. Only access the field that was most recently written to. Reading from a different field results in undefined behavior."@
        + seq!['\n']
}

/// Renders the safety note that warns about unsafe field access.
pub fn generate_safety_note() -> (r: String)
    ensures
        r@ == safety_note_spec(),
{
    let mut out: Vec<char> = Vec::new();
    let header = render_header(2, "Safety");
    append_str(&mut out, header.as_str());
    out.push('\n');
    append_str(
        &mut out,
        "**Important**: Accessing union fields requires unsafe code. Only access the field that was most recently written to. Reading from a different field results in undefined behavior.",
    );
    out.push('\n');
    proof {
        assert(out@ =~= safety_note_spec());
    }
    chars_string(&out)
}

/// The fields section of a union: nothing for a field-less union, otherwise
/// the header and the field lines.
pub open spec fn union_fields_section_spec(ids: Seq<ItemId>, items: Seq<Item>) -> Seq<char> {
    if ids.len() == 0 {
        Seq::<char>::empty()
    } else {
        header_spec(2, "Fields"@) + seq!['\n'] + plain_fields_spec(ids, items)
    }
}

/// Renders the fields section of a union.
pub fn generate_fields_section(field_ids: &Vec<ItemId>, index: &CrateIndex) -> (r: String)
    ensures
        r@ == union_fields_section_spec(field_ids@, index.items@),
{
    if field_ids.len() == 0 {
        return String::new();
    }
    let mut out: Vec<char> = Vec::new();
    let header = render_header(2, "Fields");
    append_str(&mut out, header.as_str());
    out.push('\n');
    let fields = render_plain_fields(field_ids, index);
    append_str(&mut out, fields.as_str());
    proof {
        assert(out@ =~= union_fields_section_spec(field_ids@, index.items@));
    }
    chars_string(&out)
}

/// The full Markdown page for a union: the title, the description, the
/// mandatory safety note, the fields, the generic parameters, and the closing
/// actions.
pub open spec fn union_content_spec(item: Item, data: UnionData, items: Seq<Item>) -> Seq<char> {
    let docs = documentation_spec(
        match item.docs {
            Some(d) => Some(d@),
            None => None,
        },
    );
    let fields = union_fields_section_spec(data.fields@, items);
    let generics = generics_section_spec(data.generics);
    header_spec(1, name_or_anonymous(item.name)) + seq!['\n'] + (if docs.len() > 0 {
        seq!['\n'] + docs + seq!['\n']
    } else {
        Seq::<char>::empty()
    }) + seq!['\n'] + safety_note_spec() + (if fields.len() > 0 {
        seq!['\n'] + fields
    } else {
        Seq::<char>::empty()
    }) + (if generics.len() > 0 {
        seq!['\n'] + generics
    } else {
        Seq::<char>::empty()
    }) + seq!['\n'] + next_actions_spec_for(
        item.id,
        "Find related unions: `cargo docmd browse --type union`"@,
    )
}

/// Renders the full Markdown page for a union.
pub fn generate_union_content(item: &Item, union_data: &UnionData, index: &CrateIndex) -> (r:
    String)
    ensures
        r@ == union_content_spec(*item, *union_data, index.items@),
{
    let mut out: Vec<char> = Vec::new();
    let header = render_header(1, item_display_name(item));
    append_str(&mut out, header.as_str());
    out.push('\n');
    let docs = render_documentation(&item.docs);
    if docs.as_str().unicode_len() > 0 {
        out.push('\n');
        append_str(&mut out, docs.as_str());
        out.push('\n');
    }
    out.push('\n');
    let note = generate_safety_note();
    append_str(&mut out, note.as_str());
    let fields = generate_fields_section(&union_data.fields, index);
    if fields.as_str().unicode_len() > 0 {
        out.push('\n');
        append_str(&mut out, fields.as_str());
    }
    let generics = generate_generics_section(&union_data.generics);
    if generics.as_str().unicode_len() > 0 {
        out.push('\n');
        append_str(&mut out, generics.as_str());
    }
    out.push('\n');
    push_next_actions(item.id, "Find related unions: `cargo docmd browse --type union`", &mut out);
    proof {
        assert(out@ =~= union_content_spec(*item, *union_data, index.items@));
    }
    chars_string(&out)
}

} // verus!

verus! {

/// Unwraps the union payload of an item. Fails exactly when the item is of
/// any other kind: invoking this renderer elsewhere is a programming defect.
pub fn extract_union_data(inner: &ItemEnum) -> (r: Result<&UnionData, crate::error::Error>)
    ensures
        match r {
            Ok(data) => inner is Union && *data == inner->Union_0,
            Err(e) => {
                &&& !(inner is Union)
                &&& e is Markdown
                &&& e.spec_message() == "Expected union item, found "@ + crate::render::item_type_name(*inner)
            },
        },
{
    match inner {
        ItemEnum::Union(data) => Ok(data),
        _ => {
            let mut msg: Vec<char> = Vec::new();
            append_str(&mut msg, "Expected union item, found ");
            append_str(&mut msg, crate::render::get_item_type_name(inner));
            Err(
                crate::error::Error::Markdown(
                    crate::error::MarkdownError::ItemNotFound(chars_string(&msg)),
                ),
            )
        },
    }
}

} // verus!
