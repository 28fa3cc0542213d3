//! The Markdown renderer for type-alias items: the declaration, the aliased
//! type's concrete shape when the index knows it, the variants table for an
//! aliased enum with substituted arguments, and the inherited implementations.

use vstd::prelude::*;
use vstd::string::*;
use crate::error::{join_comma, spec_join_comma};
use crate::model::{CrateIndex, EnumData, GenericArg, GenericArgs, Item, ItemEnum, ItemId,
    TypeAliasData, Type, VariantKind, find_item, name_or_anonymous, item_display_name};
use crate::render::{code_block_spec, documentation_spec, header_spec, render_code_block,
    render_documentation, render_header};
use crate::render_struct::{generate_generics_section, generics_section_spec, next_actions_spec_for,
    push_next_actions};
use crate::text::{append_str, chars_string, contains_seq, contains_str, lines_spec,
    split_lines_vec, str_chars, strings_view};

verus! {

/// The last segment of a qualified path name.
pub open spec fn last_segment(s: Seq<char>) -> Seq<char> {
    crate::paths::path_segments(s).last()
}

/// The last segment of a qualified path name.
pub fn path_base_name(s: &str) -> (r: String)
    ensures
        r@ == last_segment(s@),
{
    let parts = crate::paths::split_path(s);
    proof {
        assert(strings_view(parts@)[parts@.len() - 1] == parts@[parts@.len() - 1]@);
    }
    let last = parts.len() - 1;
    parts[last].clone()
}

/// A type written compactly: paths show their last segment with their
/// arguments written out.
pub open spec fn plain_type_spec(t: Type) -> Seq<char>
    decreases t, 0int,
{
    match t {
        Type::ResolvedPath(p) => last_segment(p.path@) + (match p.args {
            Some(args) => plain_args_spec(*args),
            None => Seq::<char>::empty(),
        }),
        Type::Generic(name) => name@,
        Type::Primitive(name) => name@,
        Type::FunctionPointer => "fn(...)"@,
        Type::Tuple(types) => seq!['('] + plain_type_list_spec(types@) + seq![')'],
        Type::Slice(inner) => seq!['['] + plain_type_spec(*inner) + seq![']'],
        Type::Array { element, len } => seq!['['] + plain_type_spec(*element) + "; "@ + len@
            + seq![']'],
        Type::Pat(inner) => plain_type_spec(*inner),
        Type::RawPointer { is_mutable, inner } => {
            (if is_mutable {
                "*mut "@
            } else {
                "*const "@
            }) + plain_type_spec(*inner)
        },
        Type::BorrowedRef { lifetime, is_mutable, inner } => {
            seq!['&'] + (match lifetime {
                Some(lt) => lt@ + seq![' '],
                None => Seq::<char>::empty(),
            }) + (if is_mutable {
                "mut "@
            } else {
                Seq::<char>::empty()
            }) + plain_type_spec(*inner)
        },
        Type::ImplTrait => "impl Trait"@,
        Type::Infer => seq!['_'],
        Type::DynTrait => "dyn Trait"@,
        Type::QualifiedPath => "<qualified path>"@,
    }
}

pub open spec fn plain_type_list_spec(types: Seq<Type>) -> Seq<char>
    decreases types, 1int,
{
    if types.len() == 0 {
        Seq::<char>::empty()
    } else if types.len() == 1 {
        plain_type_spec(types[0])
    } else {
        plain_type_spec(types[0]) + ", "@ + plain_type_list_spec(types.drop_first())
    }
}

/// One generic argument written compactly.
pub open spec fn plain_arg_spec(a: GenericArg) -> Seq<char>
    decreases a, 2int,
{
    match a {
        GenericArg::Type(t) => plain_type_spec(t),
        GenericArg::Lifetime(l) => l@,
        GenericArg::Const => "const"@,
        GenericArg::Infer => seq!['?'],
    }
}

pub open spec fn plain_arg_list_spec(args: Seq<GenericArg>) -> Seq<char>
    decreases args, 3int,
{
    if args.len() == 0 {
        Seq::<char>::empty()
    } else if args.len() == 1 {
        plain_arg_spec(args[0])
    } else {
        plain_arg_spec(args[0]) + ", "@ + plain_arg_list_spec(args.drop_first())
    }
}

/// Generic arguments written out in angle brackets, or nothing when there are
/// none.
pub open spec fn plain_args_spec(args: GenericArgs) -> Seq<char>
    decreases args, 4int,
{
    match args {
        GenericArgs::AngleBracketed(list) => {
            if list@.len() == 0 {
                Seq::<char>::empty()
            } else {
                seq!['<'] + plain_arg_list_spec(list@) + seq!['>']
            }
        },
        GenericArgs::Parenthesized => "(...)"@,
        GenericArgs::ReturnTypeNotation => "(..) -> _"@,
    }
}

/// Appends a type written compactly.
pub fn push_plain_type(t: &Type, out: &mut Vec<char>)
    ensures
        final(out)@ == old(out)@ + plain_type_spec(*t),
    decreases *t, 0int,
{
    match t {
        Type::ResolvedPath(p) => {
            let base = path_base_name(p.path.as_str());
            append_str(out, base.as_str());
            match &p.args {
                Some(args) => {
                    push_plain_args(args, out);
                },
                None => (),
            }
            assert(out@ =~= old(out)@ + plain_type_spec(*t));
        },
        Type::Generic(name) => {
            append_str(out, name.as_str());
        },
        Type::Primitive(name) => {
            append_str(out, name.as_str());
        },
        Type::FunctionPointer => {
            append_str(out, "fn(...)");
        },
        Type::Tuple(types) => {
            out.push('(');
            push_plain_type_list(types, 0, out);
            out.push(')');
            proof {
                assert(types@.skip(0) =~= types@);
                assert(out@ =~= old(out)@ + plain_type_spec(*t));
            }
        },
        Type::Slice(inner) => {
            out.push('[');
            push_plain_type(inner, out);
            out.push(']');
            assert(out@ =~= old(out)@ + plain_type_spec(*t));
        },
        Type::Array { element, len } => {
            out.push('[');
            push_plain_type(element, out);
            append_str(out, "; ");
            append_str(out, len.as_str());
            out.push(']');
            assert(out@ =~= old(out)@ + plain_type_spec(*t));
        },
        Type::Pat(inner) => {
            push_plain_type(inner, out);
        },
        Type::RawPointer { is_mutable, inner } => {
            if *is_mutable {
                append_str(out, "*mut ");
            } else {
                append_str(out, "*const ");
            }
            push_plain_type(inner, out);
            assert(out@ =~= old(out)@ + plain_type_spec(*t));
        },
        Type::BorrowedRef { lifetime, is_mutable, inner } => {
            out.push('&');
            match lifetime {
                Some(lt) => {
                    append_str(out, lt.as_str());
                    out.push(' ');
                },
                None => (),
            }
            if *is_mutable {
                append_str(out, "mut ");
            }
            push_plain_type(inner, out);
            assert(out@ =~= old(out)@ + plain_type_spec(*t));
        },
        Type::ImplTrait => {
            append_str(out, "impl Trait");
        },
        Type::Infer => {
            out.push('_');
            assert(out@ =~= old(out)@ + plain_type_spec(*t));
        },
        Type::DynTrait => {
            append_str(out, "dyn Trait");
        },
        Type::QualifiedPath => {
            append_str(out, "<qualified path>");
        },
    }
}

pub fn push_plain_type_list(types: &Vec<Type>, i: usize, out: &mut Vec<char>)
    requires
        i <= types@.len(),
    ensures
        final(out)@ == old(out)@ + plain_type_list_spec(types@.skip(i as int)),
    decreases types@, types@.len() - i, 1int,
{
    let ghost t = types@.skip(i as int);
    if i == types.len() {
        assert(out@ =~= out@ + plain_type_list_spec(t));
        return ;
    }
    proof {
        assert(t[0] == types@[i as int]);
        assert(t.drop_first() =~= types@.skip(i + 1));
    }
    push_plain_type(&types[i], out);
    if i + 1 < types.len() {
        append_str(out, ", ");
        push_plain_type_list(types, i + 1, out);
        assert(out@ =~= old(out)@ + plain_type_list_spec(t));
    } else {
        assert(t.len() == 1);
        assert(out@ =~= old(out)@ + plain_type_list_spec(t));
    }
}

pub fn push_plain_arg(a: &GenericArg, out: &mut Vec<char>)
    ensures
        final(out)@ == old(out)@ + plain_arg_spec(*a),
    decreases *a, 2int,
{
    match a {
        GenericArg::Type(t) => {
            push_plain_type(t, out);
        },
        GenericArg::Lifetime(l) => {
            append_str(out, l.as_str());
        },
        GenericArg::Const => {
            append_str(out, "const");
        },
        GenericArg::Infer => {
            out.push('?');
            assert(out@ =~= old(out)@ + plain_arg_spec(*a));
        },
    }
}

pub fn push_plain_arg_list(args: &Vec<GenericArg>, i: usize, out: &mut Vec<char>)
    requires
        i <= args@.len(),
    ensures
        final(out)@ == old(out)@ + plain_arg_list_spec(args@.skip(i as int)),
    decreases args@, args@.len() - i, 3int,
{
    let ghost t = args@.skip(i as int);
    if i == args.len() {
        assert(out@ =~= out@ + plain_arg_list_spec(t));
        return ;
    }
    proof {
        assert(t[0] == args@[i as int]);
        assert(t.drop_first() =~= args@.skip(i + 1));
    }
    push_plain_arg(&args[i], out);
    if i + 1 < args.len() {
        append_str(out, ", ");
        push_plain_arg_list(args, i + 1, out);
        assert(out@ =~= old(out)@ + plain_arg_list_spec(t));
    } else {
        assert(t.len() == 1);
        assert(out@ =~= old(out)@ + plain_arg_list_spec(t));
    }
}

pub fn push_plain_args(args: &GenericArgs, out: &mut Vec<char>)
    ensures
        final(out)@ == old(out)@ + plain_args_spec(*args),
    decreases *args, 4int,
{
    match args {
        GenericArgs::AngleBracketed(list) => {
            if list.len() == 0 {
                return ;
            }
            out.push('<');
            push_plain_arg_list(list, 0, out);
            out.push('>');
            proof {
                assert(list@.skip(0) =~= list@);
                assert(out@ =~= old(out)@ + plain_args_spec(*args));
            }
        },
        GenericArgs::Parenthesized => {
            append_str(out, "(...)");
        },
        GenericArgs::ReturnTypeNotation => {
            append_str(out, "(..) -> _");
        },
    }
}

/// The generic type parameters among a path's arguments (names like `T`),
/// concrete arguments filtered out; in angle brackets when any remain.
pub open spec fn generic_param_names(args: Seq<GenericArg>) -> Seq<Seq<char>>
    decreases args.len(),
{
    if args.len() == 0 {
        Seq::<Seq<char>>::empty()
    } else {
        (match args[0] {
            GenericArg::Type(Type::Generic(name)) => seq![name@],
            _ => Seq::<Seq<char>>::empty(),
        }) + generic_param_names(args.drop_first())
    }
}

pub open spec fn generic_type_params_spec(args: GenericArgs) -> Seq<char> {
    match args {
        GenericArgs::AngleBracketed(list) => {
            let names = generic_param_names(list@);
            if names.len() == 0 {
                Seq::<char>::empty()
            } else {
                seq!['<'] + spec_join_comma(names) + seq!['>']
            }
        },
        GenericArgs::Parenthesized => Seq::<char>::empty(),
        GenericArgs::ReturnTypeNotation => Seq::<char>::empty(),
    }
}

fn collect_generic_param_names(args: &Vec<GenericArg>, i: usize, out: &mut Vec<String>)
    requires
        i <= args@.len(),
    ensures
        strings_view(final(out)@) == strings_view(old(out)@) + generic_param_names(
            args@.skip(i as int),
        ),
    decreases args@.len() - i,
{
    let ghost t = args@.skip(i as int);
    if i == args.len() {
        assert(strings_view(out@) =~~= strings_view(out@) + generic_param_names(t));
        return ;
    }
    proof {
        assert(t[0] == args@[i as int]);
        assert(t.drop_first() =~= args@.skip(i + 1));
    }
    match &args[i] {
        GenericArg::Type(Type::Generic(name)) => {
            out.push(name.clone());
            proof {
                assert(strings_view(out@) =~~= strings_view(old(out)@) + seq![name@]);
            }
        },
        _ => {},
    }
    collect_generic_param_names(args, i + 1, out);
    assert(strings_view(out@) =~~= strings_view(old(out)@) + generic_param_names(t));
}

/// Renders only the generic type parameters of a path's arguments.
pub fn render_generic_type_params(args: &GenericArgs) -> (r: String)
    ensures
        r@ == generic_type_params_spec(*args),
{
    match args {
        GenericArgs::AngleBracketed(list) => {
            let mut names: Vec<String> = Vec::new();
            collect_generic_param_names(list, 0, &mut names);
            proof {
                assert(list@.skip(0) =~= list@);
            }
            if names.len() == 0 {
                return String::new();
            }
            let joined = join_comma(&names);
            let mut out: Vec<char> = Vec::new();
            out.push('<');
            append_str(&mut out, joined.as_str());
            out.push('>');
            proof {
                assert(out@ =~= generic_type_params_spec(*args));
            }
            chars_string(&out)
        },
        GenericArgs::Parenthesized => String::new(),
        GenericArgs::ReturnTypeNotation => String::new(),
    }
}

/// The substituted type of one variant of an aliased result-like enum: the
/// first argument for the success variant, the second for the error variant.
pub open spec fn variant_type_from_alias(alias_type: Type, variant_name: Seq<char>) -> Seq<char> {
    match alias_type {
        Type::ResolvedPath(p) => match p.args {
            Some(boxed) => match *boxed {
                GenericArgs::AngleBracketed(list) => {
                    if variant_name == "Ok"@ && list@.len() >= 1 {
                        match list@[0] {
                            GenericArg::Type(t) => plain_type_spec(t),
                            _ => Seq::<char>::empty(),
                        }
                    } else if variant_name == "Err"@ && list@.len() >= 2 {
                        match list@[1] {
                            GenericArg::Type(t) => plain_type_spec(t),
                            _ => Seq::<char>::empty(),
                        }
                    } else {
                        Seq::<char>::empty()
                    }
                },
                _ => Seq::<char>::empty(),
            },
            None => Seq::<char>::empty(),
        },
        _ => Seq::<char>::empty(),
    }
}

/// The substituted type of one variant, read off the alias's arguments.
pub fn get_variant_type_from_alias(alias_type: &Type, variant_name: &str) -> (r: String)
    ensures
        r@ == variant_type_from_alias(*alias_type, variant_name@),
{
    proof {
        reveal_strlit("Ok");
        reveal_strlit("Err");
    }
    match alias_type {
        Type::ResolvedPath(p) => {
            match &p.args {
                Some(boxed) => {
                    match &**boxed {
                        GenericArgs::AngleBracketed(list) => {
                            if crate::text::str_eq(variant_name, "Ok") && list.len() >= 1 {
                                match &list[0] {
                                    GenericArg::Type(t) => {
                                        let mut out: Vec<char> = Vec::new();
                                        push_plain_type(t, &mut out);
                                        return chars_string(&out);
                                    },
                                    _ => {
                                        return String::new();
                                    },
                                }
                            }
                            if crate::text::str_eq(variant_name, "Err") && list.len() >= 2 {
                                match &list[1] {
                                    GenericArg::Type(t) => {
                                        let mut out: Vec<char> = Vec::new();
                                        push_plain_type(t, &mut out);
                                        return chars_string(&out);
                                    },
                                    _ => {
                                        return String::new();
                                    },
                                }
                            }
                            String::new()
                        },
                        _ => String::new(),
                    }
                },
                None => String::new(),
            }
        },
        _ => String::new(),
    }
}

} // verus!

verus! {

/// The declaration code written for an aliased enum: the enum's name, the
/// alias's generic type parameters, and one line per variant carrying its
/// substituted type.
pub open spec fn enum_variant_lines(
    ids: Seq<ItemId>,
    items: Seq<Item>,
    alias_type: Type,
) -> Seq<char>
    decreases ids.len(),
{
    if ids.len() == 0 {
        Seq::<char>::empty()
    } else {
        (match find_item(items, ids[0]) {
            Some(v) => match v.name {
                Some(n) => {
                    let vt = variant_type_from_alias(alias_type, n@);
                    if vt.len() == 0 {
                        "    "@ + n@ + ",\n"@
                    } else {
                        "    "@ + n@ + seq!['('] + vt + "),\n"@
                    }
                },
                None => Seq::<char>::empty(),
            },
            None => Seq::<char>::empty(),
        }) + enum_variant_lines(ids.drop_first(), items, alias_type)
    }
}

pub open spec fn enum_definition_spec(
    item: Item,
    data: EnumData,
    alias_type: Type,
    items: Seq<Item>,
) -> Seq<char> {
    let name = match item.name {
        Some(n) => n@,
        None => "Enum"@,
    };
    let generics = match alias_type {
        Type::ResolvedPath(p) => match p.args {
            Some(boxed) => generic_type_params_spec(*boxed),
            None => Seq::<char>::empty(),
        },
        _ => Seq::<char>::empty(),
    };
    "pub enum "@ + name + generics + " {\n"@ + enum_variant_lines(data.variants@, items, alias_type)
        + seq!['}']
}

fn push_enum_variant_lines(
    ids: &Vec<ItemId>,
    i: usize,
    index: &CrateIndex,
    alias_type: &Type,
    out: &mut Vec<char>,
)
    requires
        i <= ids@.len(),
    ensures
        final(out)@ == old(out)@ + enum_variant_lines(
            ids@.skip(i as int),
            index.items@,
            *alias_type,
        ),
    decreases ids@.len() - i,
{
    let ghost t = ids@.skip(i as int);
    if i == ids.len() {
        assert(out@ =~= out@ + enum_variant_lines(t, index.items@, *alias_type));
        return ;
    }
    proof {
        assert(t[0] == ids@[i as int]);
        assert(t.drop_first() =~= ids@.skip(i + 1));
    }
    match index.get(ids[i]) {
        Some(v) => {
            match &v.name {
                Some(n) => {
                    let vt = get_variant_type_from_alias(alias_type, n.as_str());
                    append_str(out, "    ");
                    append_str(out, n.as_str());
                    if vt.as_str().unicode_len() == 0 {
                        append_str(out, ",\n");
                    } else {
                        out.push('(');
                        append_str(out, vt.as_str());
                        append_str(out, "),\n");
                    }
                    proof {
                        assert(out@ =~= old(out)@ + ({
                            let vt0 = variant_type_from_alias(*alias_type, v.name->0@);
                            if vt0.len() == 0 {
                                "    "@ + v.name->0@ + ",\n"@
                            } else {
                                "    "@ + v.name->0@ + seq!['('] + vt0 + "),\n"@
                            }
                        }));
                    }
                },
                None => {},
            }
        },
        None => {},
    }
    push_enum_variant_lines(ids, i + 1, index, alias_type, out);
    assert(out@ =~= old(out)@ + enum_variant_lines(t, index.items@, *alias_type));
}

/// Renders the declaration code of an aliased enum, with the alias's own
/// generic type parameters and the substituted variant types.
pub fn generate_enum_definition_code(
    item: &Item,
    enum_data: &EnumData,
    alias_type: &Type,
    index: &CrateIndex,
) -> (r: String)
    ensures
        r@ == enum_definition_spec(*item, *enum_data, *alias_type, index.items@),
{
    let mut out: Vec<char> = Vec::new();
    append_str(&mut out, "pub enum ");
    match &item.name {
        Some(n) => append_str(&mut out, n.as_str()),
        None => append_str(&mut out, "Enum"),
    }
    match alias_type {
        Type::ResolvedPath(p) => {
            match &p.args {
                Some(boxed) => {
                    let generics = render_generic_type_params(boxed);
                    append_str(&mut out, generics.as_str());
                },
                None => (),
            }
        },
        _ => (),
    }
    append_str(&mut out, " {\n");
    push_enum_variant_lines(&enum_data.variants, 0, index, alias_type, &mut out);
    out.push('}');
    proof {
        assert(enum_data.variants@.skip(0) =~= enum_data.variants@);
        assert(out@ =~= enum_definition_spec(*item, *enum_data, *alias_type, index.items@));
    }
    chars_string(&out)
}

/// The placeholder declaration written for an aliased struct.
pub open spec fn struct_definition_spec() -> Seq<char> {
    "pub struct { ... }"@
}

/// Renders the placeholder declaration of an aliased struct.
pub fn generate_struct_definition_code() -> (r: String)
    ensures
        r@ == struct_definition_spec(),
{
    let mut out: Vec<char> = Vec::new();
    append_str(&mut out, "pub struct { ... }");
    chars_string(&out)
}

/// The full alias-target type written with its qualification and arguments.
pub open spec fn full_type_spec(t: Type) -> Seq<char>
    decreases t, 0int,
{
    match t {
        Type::ResolvedPath(p) => {
            let args = match p.args {
                Some(boxed) => full_args_list(*boxed),
                None => Seq::<Seq<char>>::empty(),
            };
            if args.len() == 0 {
                p.path@
            } else {
                p.path@ + seq!['<'] + spec_join_comma(args) + seq!['>']
            }
        },
        Type::Generic(name) => name@,
        Type::Primitive(name) => name@,
        Type::FunctionPointer => "fn(...)"@,
        Type::Tuple(types) => seq!['('] + full_type_list_spec(types@) + seq![')'],
        Type::Slice(inner) => seq!['['] + full_type_spec(*inner) + seq![']'],
        Type::Array { element, len } => seq!['['] + full_type_spec(*element) + "; "@ + len@
            + seq![']'],
        Type::Pat(inner) => full_type_spec(*inner),
        Type::RawPointer { is_mutable, inner } => {
            (if is_mutable {
                "*mut "@
            } else {
                "*const "@
            }) + full_type_spec(*inner)
        },
        Type::ImplTrait => "impl Trait"@,
        Type::Infer => seq!['_'],
        Type::BorrowedRef { lifetime, is_mutable, inner } => {
            seq!['&'] + (match lifetime {
                Some(lt) => lt@ + seq![' '],
                None => Seq::<char>::empty(),
            }) + (if is_mutable {
                "mut "@
            } else {
                Seq::<char>::empty()
            }) + full_type_spec(*inner)
        },
        Type::DynTrait => "dyn Trait"@,
        Type::QualifiedPath => "<qualified path>"@,
    }
}

pub open spec fn full_type_list_spec(types: Seq<Type>) -> Seq<char>
    decreases types, 1int,
{
    if types.len() == 0 {
        Seq::<char>::empty()
    } else if types.len() == 1 {
        full_type_spec(types[0])
    } else {
        full_type_spec(types[0]) + ", "@ + full_type_list_spec(types.drop_first())
    }
}

/// The rendered arguments of a qualified path; an inferred argument renders
/// nothing.
pub open spec fn full_args_of(list: Seq<GenericArg>) -> Seq<Seq<char>>
    decreases list, 2int,
{
    if list.len() == 0 {
        Seq::<Seq<char>>::empty()
    } else {
        (match list[0] {
            GenericArg::Type(t) => seq![full_type_spec(t)],
            GenericArg::Lifetime(l) => seq![l@],
            GenericArg::Const => seq!["const"@],
            GenericArg::Infer => Seq::<Seq<char>>::empty(),
        }) + full_args_of(list.drop_first())
    }
}

pub open spec fn full_args_list(args: GenericArgs) -> Seq<Seq<char>>
    decreases args, 3int,
{
    match args {
        GenericArgs::AngleBracketed(list) => full_args_of(list@),
        GenericArgs::Parenthesized => seq!["(...)"@],
        GenericArgs::ReturnTypeNotation => seq!["(...) -> _"@],
    }
}

/// Appends the full written form of a type.
pub fn push_full_type(t: &Type, out: &mut Vec<char>)
    ensures
        final(out)@ == old(out)@ + full_type_spec(*t),
    decreases *t, 0int,
{
    match t {
        Type::ResolvedPath(p) => {
            let mut args: Vec<String> = Vec::new();
            match &p.args {
                Some(boxed) => {
                    collect_full_args(boxed, &mut args);
                },
                None => {
                    proof {
                        assert(strings_view(args@) =~~= Seq::<Seq<char>>::empty());
                    }
                },
            }
            append_str(out, p.path.as_str());
            if args.len() > 0 {
                let joined = join_comma(&args);
                out.push('<');
                append_str(out, joined.as_str());
                out.push('>');
            }
            assert(out@ =~= old(out)@ + full_type_spec(*t));
        },
        Type::Generic(name) => {
            append_str(out, name.as_str());
        },
        Type::Primitive(name) => {
            append_str(out, name.as_str());
        },
        Type::FunctionPointer => {
            append_str(out, "fn(...)");
        },
        Type::Tuple(types) => {
            out.push('(');
            push_full_type_list(types, 0, out);
            out.push(')');
            proof {
                assert(types@.skip(0) =~= types@);
                assert(out@ =~= old(out)@ + full_type_spec(*t));
            }
        },
        Type::Slice(inner) => {
            out.push('[');
            push_full_type(inner, out);
            out.push(']');
            assert(out@ =~= old(out)@ + full_type_spec(*t));
        },
        Type::Array { element, len } => {
            out.push('[');
            push_full_type(element, out);
            append_str(out, "; ");
            append_str(out, len.as_str());
            out.push(']');
            assert(out@ =~= old(out)@ + full_type_spec(*t));
        },
        Type::Pat(inner) => {
            push_full_type(inner, out);
        },
        Type::RawPointer { is_mutable, inner } => {
            if *is_mutable {
                append_str(out, "*mut ");
            } else {
                append_str(out, "*const ");
            }
            push_full_type(inner, out);
            assert(out@ =~= old(out)@ + full_type_spec(*t));
        },
        Type::ImplTrait => {
            append_str(out, "impl Trait");
        },
        Type::Infer => {
            out.push('_');
            assert(out@ =~= old(out)@ + full_type_spec(*t));
        },
        Type::BorrowedRef { lifetime, is_mutable, inner } => {
            out.push('&');
            match lifetime {
                Some(lt) => {
                    append_str(out, lt.as_str());
                    out.push(' ');
                },
                None => (),
            }
            if *is_mutable {
                append_str(out, "mut ");
            }
            push_full_type(inner, out);
            assert(out@ =~= old(out)@ + full_type_spec(*t));
        },
        Type::DynTrait => {
            append_str(out, "dyn Trait");
        },
        Type::QualifiedPath => {
            append_str(out, "<qualified path>");
        },
    }
}

pub fn push_full_type_list(types: &Vec<Type>, i: usize, out: &mut Vec<char>)
    requires
        i <= types@.len(),
    ensures
        final(out)@ == old(out)@ + full_type_list_spec(types@.skip(i as int)),
    decreases types@, types@.len() - i, 1int,
{
    let ghost t = types@.skip(i as int);
    if i == types.len() {
        assert(out@ =~= out@ + full_type_list_spec(t));
        return ;
    }
    proof {
        assert(t[0] == types@[i as int]);
        assert(t.drop_first() =~= types@.skip(i + 1));
    }
    push_full_type(&types[i], out);
    if i + 1 < types.len() {
        append_str(out, ", ");
        push_full_type_list(types, i + 1, out);
        assert(out@ =~= old(out)@ + full_type_list_spec(t));
    } else {
        assert(t.len() == 1);
        assert(out@ =~= old(out)@ + full_type_list_spec(t));
    }
}

fn collect_full_args_of(list: &Vec<GenericArg>, i: usize, out: &mut Vec<String>)
    requires
        i <= list@.len(),
    ensures
        strings_view(final(out)@) == strings_view(old(out)@) + full_args_of(list@.skip(i as int)),
    decreases list@, list@.len() - i, 2int,
{
    let ghost t = list@.skip(i as int);
    if i == list.len() {
        assert(strings_view(out@) =~~= strings_view(out@) + full_args_of(t));
        return ;
    }
    proof {
        assert(t[0] == list@[i as int]);
        assert(t.drop_first() =~= list@.skip(i + 1));
    }
    match &list[i] {
        GenericArg::Type(ty) => {
            let mut piece: Vec<char> = Vec::new();
            push_full_type(ty, &mut piece);
            out.push(chars_string(&piece));
            proof {
                assert(strings_view(out@) =~~= strings_view(old(out)@) + seq![
                    full_type_spec(list@[i as int]->Type_0),
                ]);
            }
        },
        GenericArg::Lifetime(l) => {
            out.push(l.clone());
            proof {
                assert(strings_view(out@) =~~= strings_view(old(out)@) + seq![l@]);
            }
        },
        GenericArg::Const => {
            out.push(String::from_str("const"));
            proof {
                assert(strings_view(out@) =~~= strings_view(old(out)@) + seq!["const"@]);
            }
        },
        GenericArg::Infer => {},
    }
    collect_full_args_of(list, i + 1, out);
    assert(strings_view(out@) =~~= strings_view(old(out)@) + full_args_of(t));
}

fn collect_full_args(args: &GenericArgs, out: &mut Vec<String>)
    ensures
        strings_view(final(out)@) == strings_view(old(out)@) + full_args_list(*args),
    decreases *args, 3int,
{
    match args {
        GenericArgs::AngleBracketed(list) => {
            collect_full_args_of(list, 0, out);
            proof {
                assert(list@.skip(0) =~= list@);
            }
        },
        GenericArgs::Parenthesized => {
            out.push(String::from_str("(...)"));
            proof {
                assert(strings_view(out@) =~~= strings_view(old(out)@) + seq!["(...)"@]);
            }
        },
        GenericArgs::ReturnTypeNotation => {
            out.push(String::from_str("(...) -> _"));
            proof {
                assert(strings_view(out@) =~~= strings_view(old(out)@) + seq!["(...) -> _"@]);
            }
        },
    }
}

} // verus!

verus! {

/// The run of backticks at the front of `s`.
pub open spec fn tick_run(s: Seq<char>) -> int
    decreases s.len(),
{
    if s.len() > 0 && s[0] == '`' {
        1 + tick_run(s.drop_first())
    } else {
        0
    }
}

/// The run of backticks at the back of `s`.
pub open spec fn tick_run_back(s: Seq<char>) -> int
    decreases s.len(),
{
    if s.len() > 0 && s.last() == '`' {
        1 + tick_run_back(s.drop_last())
    } else {
        0
    }
}

proof fn lemma_tick_run(s: Seq<char>)
    ensures
        0 <= tick_run(s) <= s.len(),
        forall|i: int| 0 <= i < tick_run(s) ==> #[trigger] s[i] == '`',
        tick_run(s) < s.len() ==> s[tick_run(s)] != '`',
    decreases s.len(),
{
    if s.len() > 0 && s[0] == '`' {
        lemma_tick_run(s.drop_first());
        assert forall|i: int| 0 <= i < tick_run(s) implies #[trigger] s[i] == '`' by {
            if i > 0 {
                assert(s.drop_first()[i - 1] == s[i]);
            }
        }
        if tick_run(s) < s.len() {
            assert(s.drop_first()[tick_run(s) - 1] == s[tick_run(s)]);
        }
    }
}

proof fn lemma_tick_run_back(s: Seq<char>)
    ensures
        0 <= tick_run_back(s) <= s.len(),
        forall|i: int| s.len() - tick_run_back(s) <= i < s.len() ==> #[trigger] s[i] == '`',
        tick_run_back(s) < s.len() ==> s[s.len() - tick_run_back(s) - 1] != '`',
    decreases s.len(),
{
    if s.len() > 0 && s.last() == '`' {
        lemma_tick_run_back(s.drop_last());
        assert forall|i: int| s.len() - tick_run_back(s) <= i < s.len() implies #[trigger] s[i]
            == '`' by {
            if i < s.len() - 1 {
                assert(s.drop_last()[i] == s[i]);
            }
        }
        if tick_run_back(s) < s.len() {
            assert(s.drop_last()[s.len() - tick_run_back(s) - 1] == s[s.len() - tick_run_back(s)
                - 1]);
        }
    }
}

/// `s` without the backticks at either end.
pub open spec fn trim_ticks(s: Seq<char>) -> Seq<char> {
    if tick_run(s) == s.len() {
        Seq::<char>::empty()
    } else {
        s.subrange(tick_run(s), s.len() - tick_run_back(s))
    }
}

/// Strips leading and trailing backticks.
fn trim_ticks_str(s: &str) -> (r: String)
    ensures
        r@ == trim_ticks(s@),
{
    let v = str_chars(s);
    let n = v.len();
    proof {
        lemma_tick_run(v@);
        lemma_tick_run_back(v@);
    }
    let mut a: usize = 0;
    while a < n && v[a] == '`'
        invariant
            a <= n,
            n == v@.len(),
            v@ == s@,
            a <= tick_run(v@),
            forall|k: int| 0 <= k < a ==> #[trigger] v@[k] == '`',
        decreases n - a,
    {
        proof {
            lemma_tick_run(v@);
            if a + 1 > tick_run(v@) {
                assert(v@[tick_run(v@)] != '`');
            }
        }
        a = a + 1;
    }
    if a == n {
        proof {
            lemma_tick_run(v@);
            assert(tick_run(v@) == n);
        }
        let empty: Vec<char> = Vec::new();
        return chars_string(&empty);
    }
    proof {
        lemma_tick_run(v@);
        assert(a == tick_run(v@));
    }
    let mut b: usize = n;
    while b > a && v[b - 1] == '`'
        invariant
            a <= b <= n,
            n == v@.len(),
            v@ == s@,
            a == tick_run(v@),
            a < n,
            v@[a as int] != '`',
            n - b <= tick_run_back(v@),
            forall|k: int| b <= k < n ==> #[trigger] v@[k] == '`',
        decreases b,
    {
        proof {
            lemma_tick_run_back(v@);
            if n - b + 1 > tick_run_back(v@) {
                assert(v@[n - tick_run_back(v@) - 1] != '`');
            }
        }
        b = b - 1;
    }
    proof {
        lemma_tick_run_back(v@);
        assert(b > a);
        assert(n - b == tick_run_back(v@)) by {
            if n - b < tick_run_back(v@) {
                assert(v@[b - 1] == '`');
            }
        }
    }
    let mut out: Vec<char> = Vec::new();
    let mut i = a;
    while i < b
        invariant
            a <= i <= b <= n,
            n == v@.len(),
            v@ == s@,
            out@ == v@.subrange(a as int, i as int),
        decreases b - i,
    {
        out.push(v[i]);
        assert(out@ =~= v@.subrange(a as int, i + 1));
        i = i + 1;
    }
    chars_string(&out)
}

/// The first line of an item's documentation, or nothing.
pub open spec fn first_doc_line(docs: Option<String>) -> Seq<char> {
    match docs {
        None => Seq::<char>::empty(),
        Some(d) => {
            if lines_spec(d@).len() == 0 {
                Seq::<char>::empty()
            } else {
                lines_spec(d@)[0]
            }
        },
    }
}

fn render_first_doc_line(docs: &Option<String>) -> (r: String)
    ensures
        r@ == first_doc_line(*docs),
{
    match docs {
        None => String::new(),
        Some(d) => {
            let chars = str_chars(d.as_str());
            let lines = split_lines_vec(&chars);
            if lines.len() == 0 {
                return String::new();
            }
            proof {
                assert(lines_spec(d@)[0] == lines@[0]@);
            }
            lines[0].clone()
        },
    }
}

/// The type column of one variant row: the substituted argument for a tuple
/// variant (a placeholder when none substitutes), the field names for a
/// struct variant, a mark for a plain variant.
pub open spec fn table_variant_type(kind: VariantKind, alias_type: Type, name: Seq<char>, items: Seq<Item>) -> Seq<char> {
    match kind {
        VariantKind::Plain => "N/A"@,
        VariantKind::Tuple(_) => {
            let vt = variant_type_from_alias(alias_type, name);
            if vt.len() == 0 {
                seq!['T']
            } else {
                vt
            }
        },
        VariantKind::Struct(fields) => spec_join_comma(struct_field_names(fields@, items)),
    }
}

/// The names of the resolved fields of a struct variant.
pub open spec fn struct_field_names(ids: Seq<ItemId>, items: Seq<Item>) -> Seq<Seq<char>>
    decreases ids.len(),
{
    if ids.len() == 0 {
        Seq::<Seq<char>>::empty()
    } else {
        (match find_item(items, ids[0]) {
            Some(f) => match f.name {
                Some(n) => seq![n@],
                None => Seq::<Seq<char>>::empty(),
            },
            None => Seq::<Seq<char>>::empty(),
        }) + struct_field_names(ids.drop_first(), items)
    }
}

fn collect_struct_field_names(ids: &Vec<ItemId>, i: usize, index: &CrateIndex, out: &mut Vec<String>)
    requires
        i <= ids@.len(),
    ensures
        strings_view(final(out)@) == strings_view(old(out)@) + struct_field_names(
            ids@.skip(i as int),
            index.items@,
        ),
    decreases ids@.len() - i,
{
    let ghost t = ids@.skip(i as int);
    if i == ids.len() {
        assert(strings_view(out@) =~~= strings_view(out@) + struct_field_names(t, index.items@));
        return ;
    }
    proof {
        assert(t[0] == ids@[i as int]);
        assert(t.drop_first() =~= ids@.skip(i + 1));
    }
    match index.get(ids[i]) {
        Some(f) => {
            match &f.name {
                Some(n) => {
                    out.push(n.clone());
                    proof {
                        assert(strings_view(out@) =~~= strings_view(old(out)@) + seq![n@]);
                    }
                },
                None => {},
            }
        },
        None => {},
    }
    collect_struct_field_names(ids, i + 1, index, out);
    assert(strings_view(out@) =~~= strings_view(old(out)@) + struct_field_names(t, index.items@));
}

/// One row of the variants table.
pub open spec fn variant_row(variant: Item, data: crate::model::VariantData, alias_type: Type, items: Seq<Item>) -> Seq<char> {
    let name = match variant.name {
        Some(n) => n@,
        None => "?"@,
    };
    "| `"@ + name + "`    | `"@ + trim_ticks(table_variant_type(data.kind, alias_type, name, items))
        + "`     | "@ + first_doc_line(variant.docs) + " |\n"@
}

/// The rows of the variants table, one per resolved variant.
pub open spec fn variant_rows(ids: Seq<ItemId>, alias_type: Type, items: Seq<Item>) -> Seq<char>
    decreases ids.len(),
{
    if ids.len() == 0 {
        Seq::<char>::empty()
    } else {
        (match find_item(items, ids[0]) {
            Some(v) => match v.inner {
                ItemEnum::Variant(data) => variant_row(v, data, alias_type, items),
                _ => Seq::<char>::empty(),
            },
            None => Seq::<char>::empty(),
        }) + variant_rows(ids.drop_first(), alias_type, items)
    }
}

/// The variants table of an aliased enum: nothing unless the alias resolves
/// to an enum in the index; otherwise the table header and one row per
/// variant, each showing its substituted type.
pub open spec fn variants_table_spec(t: Type, items: Seq<Item>) -> Seq<char> {
    match t {
        Type::ResolvedPath(p) => match find_item(items, p.id) {
            Some(aliased) => match aliased.inner {
                ItemEnum::Enum(e) => {
                    "## Variants\n\n| Variant | Type    | Description                |\n| ------- | ------- | -------------------------- |\n"@
                        + variant_rows(e.variants@, t, items) + seq!['\n']
                },
                _ => Seq::<char>::empty(),
            },
            None => Seq::<char>::empty(),
        },
        _ => Seq::<char>::empty(),
    }
}

fn push_variant_row(
    variant: &Item,
    data: &crate::model::VariantData,
    alias_type: &Type,
    index: &CrateIndex,
    out: &mut Vec<char>,
)
    ensures
        final(out)@ == old(out)@ + variant_row(*variant, *data, *alias_type, index.items@),
{
    append_str(out, "| `");
    let name = match &variant.name {
        Some(n) => n.as_str(),
        None => "?",
    };
    append_str(out, name);
    append_str(out, "`    | `");
    let vtype = match &data.kind {
        VariantKind::Plain => String::from_str("N/A"),
        VariantKind::Tuple(_) => {
            let vt = get_variant_type_from_alias(alias_type, name);
            if vt.as_str().unicode_len() == 0 {
                let mut tv: Vec<char> = Vec::new();
                tv.push('T');
                proof {
                    assert(tv@ =~= seq!['T']);
                }
                chars_string(&tv)
            } else {
                vt
            }
        },
        VariantKind::Struct(fields) => {
            let mut names: Vec<String> = Vec::new();
            collect_struct_field_names(fields, 0, index, &mut names);
            proof {
                assert(fields@.skip(0) =~= fields@);
            }
            join_comma(&names)
        },
    };
    proof {
        reveal_strlit("?");
        assert(vtype@ == table_variant_type(data.kind, *alias_type, name@, index.items@));
    }
    let trimmed = trim_ticks_str(vtype.as_str());
    append_str(out, trimmed.as_str());
    append_str(out, "`     | ");
    let desc = render_first_doc_line(&variant.docs);
    append_str(out, desc.as_str());
    append_str(out, " |\n");
    assert(out@ =~= old(out)@ + variant_row(*variant, *data, *alias_type, index.items@));
}

fn push_variant_rows(
    ids: &Vec<ItemId>,
    i: usize,
    alias_type: &Type,
    index: &CrateIndex,
    out: &mut Vec<char>,
)
    requires
        i <= ids@.len(),
    ensures
        final(out)@ == old(out)@ + variant_rows(ids@.skip(i as int), *alias_type, index.items@),
    decreases ids@.len() - i,
{
    let ghost t = ids@.skip(i as int);
    if i == ids.len() {
        assert(out@ =~= out@ + variant_rows(t, *alias_type, index.items@));
        return ;
    }
    proof {
        assert(t[0] == ids@[i as int]);
        assert(t.drop_first() =~= ids@.skip(i + 1));
    }
    match index.get(ids[i]) {
        Some(v) => {
            match &v.inner {
                ItemEnum::Variant(data) => {
                    push_variant_row(v, data, alias_type, index, out);
                },
                _ => {},
            }
        },
        None => {},
    }
    push_variant_rows(ids, i + 1, alias_type, index, out);
    assert(out@ =~= old(out)@ + variant_rows(t, *alias_type, index.items@));
}

/// Renders the variants table of an aliased enum.
pub fn generate_variants_table(t: &Type, index: &CrateIndex) -> (r: String)
    ensures
        r@ == variants_table_spec(*t, index.items@),
{
    match t {
        Type::ResolvedPath(p) => {
            match index.get(p.id) {
                Some(aliased) => {
                    match &aliased.inner {
                        ItemEnum::Enum(e) => {
                            let mut out: Vec<char> = Vec::new();
                            append_str(
                                &mut out,
                                "## Variants\n\n| Variant | Type    | Description                |\n| ------- | ------- | -------------------------- |\n",
                            );
                            push_variant_rows(&e.variants, 0, t, index, &mut out);
                            out.push('\n');
                            proof {
                                assert(e.variants@.skip(0) =~= e.variants@);
                                assert(out@ =~= variants_table_spec(*t, index.items@));
                            }
                            chars_string(&out)
                        },
                        _ => String::new(),
                    }
                },
                None => String::new(),
            }
        },
        _ => String::new(),
    }
}

} // verus!

verus! {

/// The aliased-type section: its header, then the aliased item's concrete
/// shape as a code block when the index resolves it (an enum's declaration
/// with substituted variants, a struct's placeholder declaration, or the
/// written type for anything else).
pub open spec fn aliased_type_section_spec(t: Type, items: Seq<Item>) -> Seq<char> {
    "**Aliased Type:**\n\n"@ + (match t {
        Type::ResolvedPath(p) => match find_item(items, p.id) {
            Some(aliased) => match aliased.inner {
                ItemEnum::Enum(e) => code_block_spec(
                    enum_definition_spec(aliased, e, t, items),
                    Some("rust"@),
                ) + seq!['\n'],
                ItemEnum::Struct(_) => code_block_spec(struct_definition_spec(), Some("rust"@))
                    + seq!['\n'],
                _ => code_block_spec(full_type_spec(t), Some("rust"@)) + seq!['\n'],
            },
            None => Seq::<char>::empty(),
        },
        _ => Seq::<char>::empty(),
    })
}

/// Renders the aliased-type section.
pub fn generate_aliased_type_section(t: &Type, index: &CrateIndex) -> (r: String)
    ensures
        r@ == aliased_type_section_spec(*t, index.items@),
{
    let mut out: Vec<char> = Vec::new();
    append_str(&mut out, "**Aliased Type:**\n\n");
    match t {
        Type::ResolvedPath(p) => {
            match index.get(p.id) {
                Some(aliased) => {
                    match &aliased.inner {
                        ItemEnum::Enum(e) => {
                            let code = generate_enum_definition_code(aliased, e, t, index);
                            let block = render_code_block(code.as_str(), Some("rust"));
                            append_str(&mut out, block.as_str());
                            out.push('\n');
                        },
                        ItemEnum::Struct(_) => {
                            let code = generate_struct_definition_code();
                            let block = render_code_block(code.as_str(), Some("rust"));
                            append_str(&mut out, block.as_str());
                            out.push('\n');
                        },
                        _ => {
                            let mut tv: Vec<char> = Vec::new();
                            push_full_type(t, &mut tv);
                            let block = render_code_block(chars_string(&tv).as_str(), Some("rust"));
                            append_str(&mut out, block.as_str());
                            out.push('\n');
                        },
                    }
                },
                None => {},
            }
        },
        _ => {},
    }
    proof {
        assert(out@ =~= aliased_type_section_spec(*t, index.items@));
    }
    chars_string(&out)
}

/// The category a method label files under, by the names it contains.
pub open spec fn categorize_spec(m: Seq<char>) -> Seq<char> {
    if contains_seq(m, "is_ok"@) || contains_seq(m, "is_err"@) {
        "Inspectors"@
    } else if contains_seq(m, "ok()"@) || contains_seq(m, "err()"@) || contains_seq(m, "as_ref"@) {
        "Converters"@
    } else if contains_seq(m, "map"@) || contains_seq(m, "inspect"@) {
        "Transformers"@
    } else if contains_seq(m, "and"@) || contains_seq(m, "or"@) {
        "Combinators"@
    } else if contains_seq(m, "unwrap"@) || contains_seq(m, "expect"@) {
        "Extractors (Unwrap)"@
    } else if contains_seq(m, "unsafe"@) {
        "Unsafe"@
    } else if contains_seq(m, "iter"@) {
        "Iterators"@
    } else {
        "Other"@
    }
}

/// Files a method under a category by the names its label contains.
pub fn categorize_method(method: &str) -> (r: &'static str)
    ensures
        r@ == categorize_spec(method@),
{
    if contains_str(method, "is_ok") || contains_str(method, "is_err") {
        "Inspectors"
    } else if contains_str(method, "ok()") || contains_str(method, "err()") || contains_str(
        method,
        "as_ref",
    ) {
        "Converters"
    } else if contains_str(method, "map") || contains_str(method, "inspect") {
        "Transformers"
    } else if contains_str(method, "and") || contains_str(method, "or") {
        "Combinators"
    } else if contains_str(method, "unwrap") || contains_str(method, "expect") {
        "Extractors (Unwrap)"
    } else if contains_str(method, "unsafe") {
        "Unsafe"
    } else if contains_str(method, "iter") {
        "Iterators"
    } else {
        "Other"
    }
}

/// The labels of the resolved, named items of one implementation block.
pub open spec fn method_labels(ids: Seq<ItemId>, items: Seq<Item>) -> Seq<Seq<char>>
    decreases ids.len(),
{
    if ids.len() == 0 {
        Seq::<Seq<char>>::empty()
    } else {
        (match find_item(items, ids[0]) {
            Some(m) => match m.name {
                Some(n) => seq!["pub fn "@ + n@ + "(...)"@],
                None => Seq::<Seq<char>>::empty(),
            },
            None => Seq::<Seq<char>>::empty(),
        }) + method_labels(ids.drop_first(), items)
    }
}

fn collect_method_labels(ids: &Vec<ItemId>, i: usize, index: &CrateIndex, out: &mut Vec<String>)
    requires
        i <= ids@.len(),
    ensures
        strings_view(final(out)@) == strings_view(old(out)@) + method_labels(
            ids@.skip(i as int),
            index.items@,
        ),
    decreases ids@.len() - i,
{
    let ghost t = ids@.skip(i as int);
    if i == ids.len() {
        assert(strings_view(out@) =~~= strings_view(out@) + method_labels(t, index.items@));
        return ;
    }
    proof {
        assert(t[0] == ids@[i as int]);
        assert(t.drop_first() =~= ids@.skip(i + 1));
    }
    match index.get(ids[i]) {
        Some(m) => {
            match &m.name {
                Some(n) => {
                    let mut piece: Vec<char> = Vec::new();
                    append_str(&mut piece, "pub fn ");
                    append_str(&mut piece, n.as_str());
                    append_str(&mut piece, "(...)");
                    out.push(chars_string(&piece));
                    proof {
                        assert(piece@ =~= "pub fn "@ + n@ + "(...)"@);
                        assert(strings_view(out@) =~~= strings_view(old(out)@) + seq![
                            "pub fn "@ + n@ + "(...)"@,
                        ]);
                    }
                },
                None => {},
            }
        },
        None => {},
    }
    collect_method_labels(ids, i + 1, index, out);
    assert(strings_view(out@) =~~= strings_view(old(out)@) + method_labels(t, index.items@));
}

/// The labels of every method of the inherent implementation blocks, in
/// block order.
pub open spec fn inherent_methods(impls: Seq<ItemId>, items: Seq<Item>) -> Seq<Seq<char>>
    decreases impls.len(),
{
    if impls.len() == 0 {
        Seq::<Seq<char>>::empty()
    } else {
        (match find_item(items, impls[0]) {
            Some(it) => match it.inner {
                ItemEnum::Impl(imp) => {
                    if imp.trait_path is None {
                        method_labels(imp.items@, items)
                    } else {
                        Seq::<Seq<char>>::empty()
                    }
                },
                _ => Seq::<Seq<char>>::empty(),
            },
            None => Seq::<Seq<char>>::empty(),
        }) + inherent_methods(impls.drop_first(), items)
    }
}

fn collect_inherent_methods(
    impls: &Vec<ItemId>,
    i: usize,
    index: &CrateIndex,
    out: &mut Vec<String>,
)
    requires
        i <= impls@.len(),
    ensures
        strings_view(final(out)@) == strings_view(old(out)@) + inherent_methods(
            impls@.skip(i as int),
            index.items@,
        ),
    decreases impls@.len() - i,
{
    let ghost t = impls@.skip(i as int);
    if i == impls.len() {
        assert(strings_view(out@) =~~= strings_view(out@) + inherent_methods(t, index.items@));
        return ;
    }
    proof {
        assert(t[0] == impls@[i as int]);
        assert(t.drop_first() =~= impls@.skip(i + 1));
    }
    match index.get(impls[i]) {
        Some(it) => {
            match &it.inner {
                ItemEnum::Impl(imp) => {
                    match &imp.trait_path {
                        None => {
                            collect_method_labels(&imp.items, 0, index, out);
                            proof {
                                assert(imp.items@.skip(0) =~= imp.items@);
                            }
                        },
                        Some(_) => {},
                    }
                },
                _ => {},
            }
        },
        None => {},
    }
    collect_inherent_methods(impls, i + 1, index, out);
    assert(strings_view(out@) =~~= strings_view(old(out)@) + inherent_methods(t, index.items@));
}

/// The methods of the list that file under one category.
pub open spec fn methods_in_category(ms: Seq<Seq<char>>, cat: Seq<char>) -> Seq<Seq<char>>
    decreases ms.len(),
{
    if ms.len() == 0 {
        Seq::<Seq<char>>::empty()
    } else {
        (if categorize_spec(ms[0]) == cat {
            seq![ms[0]]
        } else {
            Seq::<Seq<char>>::empty()
        }) + methods_in_category(ms.drop_first(), cat)
    }
}

/// One category's block: its header and its methods, one per line, then a
/// blank line; nothing when the category is empty.
pub open spec fn category_block_spec(ms: Seq<Seq<char>>, cat: Seq<char>) -> Seq<char> {
    let picked = methods_in_category(ms, cat);
    if picked.len() == 0 {
        Seq::<char>::empty()
    } else {
        "### "@ + cat + "\n\n"@ + method_lines(picked) + seq!['\n']
    }
}

pub open spec fn method_lines(ms: Seq<Seq<char>>) -> Seq<char>
    decreases ms.len(),
{
    if ms.len() == 0 {
        Seq::<char>::empty()
    } else {
        ms[0] + seq!['\n'] + method_lines(ms.drop_first())
    }
}

fn push_category_block(ms: &Vec<String>, cat: &str, out: &mut Vec<char>)
    ensures
        final(out)@ == old(out)@ + category_block_spec(strings_view(ms@), cat@),
{
    let mut picked: Vec<String> = Vec::new();
    collect_category(ms, 0, cat, &mut picked);
    proof {
        assert(strings_view(ms@).skip(0) =~= strings_view(ms@));
    }
    if picked.len() == 0 {
        assert(out@ =~= out@ + category_block_spec(strings_view(ms@), cat@));
        return ;
    }
    append_str(out, "### ");
    append_str(out, cat);
    append_str(out, "\n\n");
    push_method_lines(&picked, 0, out);
    out.push('\n');
    proof {
        assert(strings_view(picked@).skip(0) =~= strings_view(picked@));
        assert(out@ =~= old(out)@ + category_block_spec(strings_view(ms@), cat@));
    }
}

fn collect_category(ms: &Vec<String>, i: usize, cat: &str, out: &mut Vec<String>)
    requires
        i <= ms@.len(),
    ensures
        strings_view(final(out)@) == strings_view(old(out)@) + methods_in_category(
            strings_view(ms@).skip(i as int),
            cat@,
        ),
    decreases ms@.len() - i,
{
    let ghost t = strings_view(ms@).skip(i as int);
    if i == ms.len() {
        assert(strings_view(out@) =~~= strings_view(out@) + methods_in_category(t, cat@));
        return ;
    }
    proof {
        assert(t[0] == ms@[i as int]@);
        assert(t.drop_first() =~= strings_view(ms@).skip(i + 1));
    }
    let mcat = categorize_method(ms[i].as_str());
    if crate::text::str_eq(mcat, cat) {
        out.push(ms[i].clone());
        proof {
            assert(strings_view(out@) =~~= strings_view(old(out)@) + seq![t[0]]);
        }
    }
    collect_category(ms, i + 1, cat, out);
    assert(strings_view(out@) =~~= strings_view(old(out)@) + methods_in_category(t, cat@));
}

fn push_method_lines(ms: &Vec<String>, i: usize, out: &mut Vec<char>)
    requires
        i <= ms@.len(),
    ensures
        final(out)@ == old(out)@ + method_lines(strings_view(ms@).skip(i as int)),
    decreases ms@.len() - i,
{
    let ghost t = strings_view(ms@).skip(i as int);
    if i == ms.len() {
        assert(out@ =~= out@ + method_lines(t));
        return ;
    }
    proof {
        assert(t[0] == ms@[i as int]@);
        assert(t.drop_first() =~= strings_view(ms@).skip(i + 1));
    }
    append_str(out, ms[i].as_str());
    out.push('\n');
    push_method_lines(ms, i + 1, out);
    assert(out@ =~= old(out)@ + method_lines(t));
}

/// The display order of the inherent method categories.
pub open spec fn category_blocks_spec(ms: Seq<Seq<char>>) -> Seq<char> {
    category_block_spec(ms, "Inspectors"@) + category_block_spec(ms, "Converters"@)
        + category_block_spec(ms, "Transformers"@) + category_block_spec(ms, "Combinators"@)
        + category_block_spec(ms, "Extractors (Unwrap)"@) + category_block_spec(ms, "Unsafe"@)
        + category_block_spec(ms, "Iterators"@)
}

#[verifier::rlimit(50)]
fn push_category_blocks(ms: &Vec<String>, out: &mut Vec<char>)
    ensures
        final(out)@ == old(out)@ + category_blocks_spec(strings_view(ms@)),
{
    push_category_block(ms, "Inspectors", out);
    push_category_block(ms, "Converters", out);
    push_category_block(ms, "Transformers", out);
    push_category_block(ms, "Combinators", out);
    push_category_block(ms, "Extractors (Unwrap)", out);
    push_category_block(ms, "Unsafe", out);
    push_category_block(ms, "Iterators", out);
    assert(out@ =~= old(out)@ + category_blocks_spec(strings_view(ms@)));
}

} // verus!

verus! {

/// One trait implementation shown for the aliased type: the trait's path and
/// its method labels.
pub struct TraitEntry {
    pub trait_path: String,
    pub methods: Vec<String>,
}

pub open spec fn trait_entries_view(s: Seq<TraitEntry>) -> Seq<(Seq<char>, Seq<Seq<char>>)> {
    Seq::new(s.len(), |i: int| (s[i].trait_path@, strings_view(s[i].methods@)))
}

/// The trait implementations of the aliased type, in block order: each block
/// implementing a trait, with at least one resolved named method.
pub open spec fn trait_entries_spec(impls: Seq<ItemId>, items: Seq<Item>) -> Seq<
    (Seq<char>, Seq<Seq<char>>),
>
    decreases impls.len(),
{
    if impls.len() == 0 {
        Seq::<(Seq<char>, Seq<Seq<char>>)>::empty()
    } else {
        (match find_item(items, impls[0]) {
            Some(it) => match it.inner {
                ItemEnum::Impl(imp) => match imp.trait_path {
                    Some(tr) => {
                        let ms = method_labels(imp.items@, items);
                        if ms.len() > 0 {
                            seq![(tr@, ms)]
                        } else {
                            Seq::<(Seq<char>, Seq<Seq<char>>)>::empty()
                        }
                    },
                    None => Seq::<(Seq<char>, Seq<Seq<char>>)>::empty(),
                },
                _ => Seq::<(Seq<char>, Seq<Seq<char>>)>::empty(),
            },
            None => Seq::<(Seq<char>, Seq<Seq<char>>)>::empty(),
        }) + trait_entries_spec(impls.drop_first(), items)
    }
}

fn collect_trait_entries(
    impls: &Vec<ItemId>,
    i: usize,
    index: &CrateIndex,
    out: &mut Vec<TraitEntry>,
)
    requires
        i <= impls@.len(),
    ensures
        trait_entries_view(final(out)@) == trait_entries_view(old(out)@) + trait_entries_spec(
            impls@.skip(i as int),
            index.items@,
        ),
    decreases impls@.len() - i,
{
    let ghost t = impls@.skip(i as int);
    if i == impls.len() {
        assert(trait_entries_view(out@) =~~= trait_entries_view(out@) + trait_entries_spec(
            t,
            index.items@,
        ));
        return ;
    }
    proof {
        assert(t[0] == impls@[i as int]);
        assert(t.drop_first() =~= impls@.skip(i + 1));
    }
    match index.get(impls[i]) {
        Some(it) => {
            match &it.inner {
                ItemEnum::Impl(imp) => {
                    match &imp.trait_path {
                        Some(tr) => {
                            let mut ms: Vec<String> = Vec::new();
                            collect_method_labels(&imp.items, 0, index, &mut ms);
                            proof {
                                assert(imp.items@.skip(0) =~= imp.items@);
                            }
                            if ms.len() > 0 {
                                out.push(TraitEntry { trait_path: tr.clone(), methods: ms });
                                proof {
                                    assert(trait_entries_view(out@) =~~= trait_entries_view(
                                        old(out)@,
                                    ) + seq![(tr@, method_labels(imp.items@, index.items@))]);
                                }
                            }
                        },
                        None => {},
                    }
                },
                _ => {},
            }
        },
        None => {},
    }
    collect_trait_entries(impls, i + 1, index, out);
    assert(trait_entries_view(out@) =~~= trait_entries_view(old(out)@) + trait_entries_spec(
        t,
        index.items@,
    ));
}

/// Method labels in backticks, a comma and a space after each one.
pub open spec fn ticked_methods(ms: Seq<Seq<char>>) -> Seq<char>
    decreases ms.len(),
{
    if ms.len() == 0 {
        Seq::<char>::empty()
    } else {
        seq!['`'] + ms[0] + "`, "@ + ticked_methods(ms.drop_first())
    }
}

fn push_ticked_methods(ms: &Vec<String>, i: usize, out: &mut Vec<char>)
    requires
        i <= ms@.len(),
    ensures
        final(out)@ == old(out)@ + ticked_methods(strings_view(ms@).skip(i as int)),
    decreases ms@.len() - i,
{
    let ghost t = strings_view(ms@).skip(i as int);
    if i == ms.len() {
        assert(out@ =~= out@ + ticked_methods(t));
        return ;
    }
    proof {
        assert(t[0] == ms@[i as int]@);
        assert(t.drop_first() =~= strings_view(ms@).skip(i + 1));
    }
    out.push('`');
    append_str(out, ms[i].as_str());
    append_str(out, "`, ");
    push_ticked_methods(ms, i + 1, out);
    assert(out@ =~= old(out)@ + ticked_methods(t));
}

/// One trait's line in the trait-implementations list.
pub open spec fn trait_lines_spec(es: Seq<(Seq<char>, Seq<Seq<char>>)>) -> Seq<char>
    decreases es.len(),
{
    if es.len() == 0 {
        Seq::<char>::empty()
    } else {
        "- **`"@ + es[0].0 + "`**: "@ + ticked_methods(es[0].1) + seq!['\n'] + trait_lines_spec(
            es.drop_first(),
        )
    }
}

/// The trait-implementations section, or nothing when no block qualifies.
pub open spec fn trait_section_spec(es: Seq<(Seq<char>, Seq<Seq<char>>)>) -> Seq<char> {
    if es.len() == 0 {
        Seq::<char>::empty()
    } else {
        "## Trait Implementations\n\n"@ + trait_lines_spec(es) + seq!['\n']
    }
}

fn push_trait_lines(es: &Vec<TraitEntry>, i: usize, out: &mut Vec<char>)
    requires
        i <= es@.len(),
    ensures
        final(out)@ == old(out)@ + trait_lines_spec(trait_entries_view(es@).skip(i as int)),
    decreases es@.len() - i,
{
    let ghost t = trait_entries_view(es@).skip(i as int);
    if i == es.len() {
        assert(out@ =~= out@ + trait_lines_spec(t));
        return ;
    }
    proof {
        assert(t[0] == (es@[i as int].trait_path@, strings_view(es@[i as int].methods@)));
        assert(t.drop_first() =~= trait_entries_view(es@).skip(i + 1));
    }
    append_str(out, "- **`");
    append_str(out, es[i].trait_path.as_str());
    append_str(out, "`**: ");
    push_ticked_methods(&es[i].methods, 0, out);
    proof {
        assert(strings_view(es@[i as int].methods@).skip(0) =~= strings_view(
            es@[i as int].methods@,
        ));
    }
    out.push('\n');
    push_trait_lines(es, i + 1, out);
    assert(out@ =~= old(out)@ + trait_lines_spec(t));
}

/// How many of the identifiers the index resolves.
pub open spec fn resolved_count(ids: Seq<ItemId>, items: Seq<Item>) -> int
    decreases ids.len(),
{
    if ids.len() == 0 {
        0int
    } else {
        (if find_item(items, ids[0]) is Some {
            1int
        } else {
            0int
        }) + resolved_count(ids.drop_first(), items)
    }
}

fn any_resolved(ids: &Vec<ItemId>, index: &CrateIndex) -> (r: bool)
    ensures
        r == (resolved_count(ids@, index.items@) > 0),
{
    proof {
        lemma_resolved_count_bounds(ids@, index.items@);
        assert(ids@.skip(0) =~= ids@);
    }
    let mut i: usize = 0;
    while i < ids.len()
        invariant
            i <= ids@.len(),
            resolved_count(ids@, index.items@) == resolved_count(
                ids@.skip(i as int),
                index.items@,
            ),
            resolved_count(ids@.skip(i as int), index.items@) >= 0,
        decreases ids@.len() - i,
    {
        proof {
            assert(ids@.skip(i as int)[0] == ids@[i as int]);
            assert(ids@.skip(i as int).drop_first() =~= ids@.skip(i + 1));
            lemma_resolved_count_bounds(ids@.skip(i + 1), index.items@);
        }
        match index.get(ids[i]) {
            Some(_) => {
                return true;
            },
            None => {},
        }
        i = i + 1;
    }
    proof {
        assert(ids@.skip(i as int) =~= Seq::<ItemId>::empty());
    }
    false
}

proof fn lemma_resolved_count_bounds(ids: Seq<ItemId>, items: Seq<Item>)
    ensures
        resolved_count(ids, items) >= 0,
    decreases ids.len(),
{
    if ids.len() > 0 {
        lemma_resolved_count_bounds(ids.drop_first(), items);
    }
}

/// The generic note written when the alias's target is not in the index.
pub open spec fn inherits_generic() -> Seq<char> {
    "---\n\n## Implementations\n\nThis type inherits all implementations from the aliased type.\n\n"@
}

/// The implementations section of an alias page. An alias of anything but an
/// indexed enum carries the generic inheritance note (or, for a non-enum
/// indexed item, nothing); an aliased enum names what it inherits from, then
/// lists the inherent methods grouped by category and the trait
/// implementations.
pub open spec fn implementations_section_spec(t: Type, items: Seq<Item>) -> Seq<char> {
    match t {
        Type::ResolvedPath(p) => match find_item(items, p.id) {
            Some(aliased) => match aliased.inner {
                ItemEnum::Enum(e) => {
                    let nm = match aliased.name {
                        Some(n) => n@,
                        None => "the aliased type"@,
                    };
                    let base = "---\n\n## Implementations\n\nThis type inherits all implementations from "@
                        + nm + ".\n\n"@;
                    if resolved_count(e.impls@, items) == 0 {
                        base + "No implementations found.\n"@
                    } else {
                        base + nm + ".\n\n"@ + category_blocks_spec(
                            inherent_methods(e.impls@, items),
                        ) + trait_section_spec(trait_entries_spec(e.impls@, items))
                    }
                },
                _ => Seq::<char>::empty(),
            },
            None => inherits_generic(),
        },
        _ => inherits_generic(),
    }
}

/// Renders the implementations section of an alias page.
pub fn generate_implementations_section(t: &Type, index: &CrateIndex) -> (r: String)
    ensures
        r@ == implementations_section_spec(*t, index.items@),
{
    let generic_note =
        "---\n\n## Implementations\n\nThis type inherits all implementations from the aliased type.\n\n";
    match t {
        Type::ResolvedPath(p) => {
            match index.get(p.id) {
                Some(aliased) => {
                    match &aliased.inner {
                        ItemEnum::Enum(e) => {
                            let mut out: Vec<char> = Vec::new();
                            append_str(
                                &mut out,
                                "---\n\n## Implementations\n\nThis type inherits all implementations from ",
                            );
                            let nm = match &aliased.name {
                                Some(n) => n.as_str(),
                                None => "the aliased type",
                            };
                            append_str(&mut out, nm);
                            append_str(&mut out, ".\n\n");
                            if !any_resolved(&e.impls, index) {
                                append_str(&mut out, "No implementations found.\n");
                                proof {
                                    lemma_resolved_count_bounds(e.impls@, index.items@);
                                    assert(out@ =~= implementations_section_spec(
                                        *t,
                                        index.items@,
                                    ));
                                }
                                return chars_string(&out);
                            }
                            append_str(&mut out, nm);
                            append_str(&mut out, ".\n\n");
                            let mut ms: Vec<String> = Vec::new();
                            collect_inherent_methods(&e.impls, 0, index, &mut ms);
                            proof {
                                assert(e.impls@.skip(0) =~= e.impls@);
                                assert(strings_view(ms@) =~~= inherent_methods(
                                    e.impls@,
                                    index.items@,
                                ));
                            }
                            push_category_blocks(&ms, &mut out);
                            let mut entries: Vec<TraitEntry> = Vec::new();
                            collect_trait_entries(&e.impls, 0, index, &mut entries);
                            proof {
                                assert(trait_entries_view(entries@) =~~= trait_entries_spec(
                                    e.impls@,
                                    index.items@,
                                ));
                            }
                            if entries.len() > 0 {
                                append_str(&mut out, "## Trait Implementations\n\n");
                                push_trait_lines(&entries, 0, &mut out);
                                proof {
                                    assert(trait_entries_view(entries@).skip(0)
                                        =~= trait_entries_view(entries@));
                                }
                                out.push('\n');
                            }
                            proof {
                                assert(out@ =~= implementations_section_spec(*t, index.items@));
                            }
                            chars_string(&out)
                        },
                        _ => String::new(),
                    }
                },
                None => {
                    let mut out: Vec<char> = Vec::new();
                    append_str(&mut out, generic_note);
                    chars_string(&out)
                },
            }
        },
        _ => {
            let mut out: Vec<char> = Vec::new();
            append_str(&mut out, generic_note);
            chars_string(&out)
        },
    }
}

/// The names of a declaration's generic parameters.
pub open spec fn param_names(params: Seq<crate::model::GenericParamDef>) -> Seq<Seq<char>> {
    Seq::new(params.len(), |i: int| params[i].name@)
}

/// The full declaration line written for the alias.
pub open spec fn alias_definition_spec(item: Item, data: TypeAliasData) -> Seq<char> {
    let name = name_or_anonymous(item.name);
    let generics_str = if data.generics.params@.len() == 0 {
        Seq::<char>::empty()
    } else {
        seq!['<'] + spec_join_comma(param_names(data.generics.params@)) + seq!['>']
    };
    let short = match data.target {
        Type::ResolvedPath(p) => last_segment(p.path@) + (match p.args {
            Some(b) => plain_args_spec(*b),
            None => Seq::<char>::empty(),
        }),
        _ => full_type_spec(data.target),
    };
    "pub type "@ + name + generics_str + " = "@ + short + seq![';']
}

/// The full declaration line of the alias.
fn render_alias_definition(item: &Item, alias_data: &TypeAliasData) -> (r: String)
    ensures
        r@ == alias_definition_spec(*item, *alias_data),
{
    let mut definition: Vec<char> = Vec::new();
    append_str(&mut definition, "pub type ");
    append_str(&mut definition, item_display_name(item));
    if alias_data.generics.params.len() > 0 {
        let mut names: Vec<String> = Vec::new();
        let mut i: usize = 0;
        while i < alias_data.generics.params.len()
            invariant
                i <= alias_data.generics.params@.len(),
                names@.len() == i,
                strings_view(names@) == param_names(alias_data.generics.params@).take(i as int),
            decreases alias_data.generics.params@.len() - i,
        {
            names.push(alias_data.generics.params[i].name.clone());
            proof {
                assert(strings_view(names@) =~~= param_names(
                    alias_data.generics.params@,
                ).take(i + 1));
            }
            i = i + 1;
        }
        proof {
            assert(param_names(alias_data.generics.params@).take(i as int) =~~= param_names(
                alias_data.generics.params@,
            ));
        }
        let joined = join_comma(&names);
        definition.push('<');
        append_str(&mut definition, joined.as_str());
        definition.push('>');
    }
    append_str(&mut definition, " = ");
    match &alias_data.target {
        Type::ResolvedPath(p) => {
            let base = path_base_name(p.path.as_str());
            append_str(&mut definition, base.as_str());
            match &p.args {
                Some(b) => {
                    push_plain_args(b, &mut definition);
                },
                None => (),
            }
        },
        _ => {
            push_full_type(&alias_data.target, &mut definition);
        },
    }
    definition.push(';');
    proof {
        assert(definition@ =~= alias_definition_spec(*item, *alias_data));
    }
    chars_string(&definition)
}

/// The full Markdown page for a type alias, its sections in fixed order:
/// title, namespace, definition, aliased-type expansion, description,
/// variants table, implementations, closing actions.
pub open spec fn alias_content_spec(
    item: Item,
    data: TypeAliasData,
    items: Seq<Item>,
    namespace: Option<Seq<char>>,
) -> Seq<char> {
    let name = name_or_anonymous(item.name);
    let definition = alias_definition_spec(item, data);
    let docs = documentation_spec(
        match item.docs {
            Some(d) => Some(d@),
            None => None,
        },
    );
    let table = variants_table_spec(data.target, items);
    header_spec(1, "Type Alias `"@ + name + seq!['`']) + "\n\n"@ + (match namespace {
        Some(ns) => "**Namespace:** `"@ + ns + "`\n\n"@,
        None => Seq::<char>::empty(),
    }) + "**Definition:**\n\n"@ + code_block_spec(definition, Some("rust"@)) + seq!['\n']
        + aliased_type_section_spec(data.target, items) + (if docs.len() > 0 {
        "### Description\n\n"@ + docs + seq!['\n']
    } else {
        Seq::<char>::empty()
    }) + (if table.len() > 0 {
        "\n---\n\n"@ + table
    } else {
        Seq::<char>::empty()
    }) + implementations_section_spec(data.target, items) + seq!['\n'] + next_actions_spec_for(
        item.id,
        "Find related aliases: `cargo docmd browse --type type-alias`"@,
    )
}

/// Renders the full Markdown page for a type alias.
#[verifier::rlimit(100)]
pub fn generate_alias_content(
    item: &Item,
    alias_data: &TypeAliasData,
    index: &CrateIndex,
    namespace: Option<&str>,
) -> (r: String)
    ensures
        r@ == alias_content_spec(
            *item,
            *alias_data,
            index.items@,
            match namespace {
                Some(ns) => Some(ns@),
                None => None,
            },
        ),
{
    let mut out: Vec<char> = Vec::new();
    let mut title: Vec<char> = Vec::new();
    append_str(&mut title, "Type Alias `");
    append_str(&mut title, item_display_name(item));
    title.push('`');
    let header = render_header(1, chars_string(&title).as_str());
    append_str(&mut out, header.as_str());
    append_str(&mut out, "\n\n");
    match namespace {
        Some(ns) => {
            append_str(&mut out, "**Namespace:** `");
            append_str(&mut out, ns);
            append_str(&mut out, "`\n\n");
        },
        None => (),
    }
    let definition = render_alias_definition(item, alias_data);
    append_str(&mut out, "**Definition:**\n\n");
    let block = render_code_block(definition.as_str(), Some("rust"));
    append_str(&mut out, block.as_str());
    out.push('\n');
    let aliased = generate_aliased_type_section(&alias_data.target, index);
    append_str(&mut out, aliased.as_str());
    let docs = render_documentation(&item.docs);
    if docs.as_str().unicode_len() > 0 {
        append_str(&mut out, "### Description\n\n");
        append_str(&mut out, docs.as_str());
        out.push('\n');
    }
    let table = generate_variants_table(&alias_data.target, index);
    if table.as_str().unicode_len() > 0 {
        append_str(&mut out, "\n---\n\n");
        append_str(&mut out, table.as_str());
    }
    let impls = generate_implementations_section(&alias_data.target, index);
    append_str(&mut out, impls.as_str());
    out.push('\n');
    push_next_actions(
        item.id,
        "Find related aliases: `cargo docmd browse --type type-alias`",
        &mut out,
    );
    proof {
        assert(out@ =~= alias_content_spec(
            *item,
            *alias_data,
            index.items@,
            match namespace {
                Some(ns) => Some(ns@),
                None => None,
            },
        ));
    }
    chars_string(&out)
}

} // verus!
