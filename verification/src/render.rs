//! Shared formatting for the Markdown renderers: headers, code fences, inline
//! code, documentation text, file names, and the closing actions section.

use vstd::prelude::*;
use vstd::string::*;
use crate::model::ItemEnum;
use crate::text::{append_str, chars_string, join_nl, lines_spec, split_lines_vec, starts_with_spec,
    starts_with_str, str_chars, strings_view, trim_spec, trim_str, ws_run, is_ws_char,
    lemma_ws_run_front};

verus! {

/// The display name of an item kind.
pub open spec fn item_type_name(inner: ItemEnum) -> Seq<char> {
    match inner {
        ItemEnum::Module => "Module"@,
        ItemEnum::ExternCrate => "Extern Crate"@,
        ItemEnum::Use => "Use Statement"@,
        ItemEnum::Union(_) => "Union"@,
        ItemEnum::Struct(_) => "Struct"@,
        ItemEnum::StructField(_) => "Struct Field"@,
        ItemEnum::Enum(_) => "Enum"@,
        ItemEnum::Variant(_) => "Variant"@,
        ItemEnum::Function => "Function"@,
        ItemEnum::Trait => "Trait"@,
        ItemEnum::TraitAlias => "Trait Alias"@,
        ItemEnum::Impl(_) => "Impl Block"@,
        ItemEnum::TypeAlias(_) => "Type Alias"@,
        ItemEnum::Constant => "Constant"@,
        ItemEnum::Static => "Static"@,
        ItemEnum::ExternType => "Extern Type"@,
        ItemEnum::Macro => "Macro"@,
        ItemEnum::ProcMacro => "Proc Macro"@,
        ItemEnum::Primitive => "Primitive"@,
        ItemEnum::AssocConst => "Associated Constant"@,
        ItemEnum::AssocType => "Associated Type"@,
    }
}

/// The human-readable name of an item's kind.
pub fn get_item_type_name(inner: &ItemEnum) -> (r: &'static str)
    ensures
        r@ == item_type_name(*inner),
{
    match inner {
        ItemEnum::Module => "Module",
        ItemEnum::ExternCrate => "Extern Crate",
        ItemEnum::Use => "Use Statement",
        ItemEnum::Union(_) => "Union",
        ItemEnum::Struct(_) => "Struct",
        ItemEnum::StructField(_) => "Struct Field",
        ItemEnum::Enum(_) => "Enum",
        ItemEnum::Variant(_) => "Variant",
        ItemEnum::Function => "Function",
        ItemEnum::Trait => "Trait",
        ItemEnum::TraitAlias => "Trait Alias",
        ItemEnum::Impl(_) => "Impl Block",
        ItemEnum::TypeAlias(_) => "Type Alias",
        ItemEnum::Constant => "Constant",
        ItemEnum::Static => "Static",
        ItemEnum::ExternType => "Extern Type",
        ItemEnum::Macro => "Macro",
        ItemEnum::ProcMacro => "Proc Macro",
        ItemEnum::Primitive => "Primitive",
        ItemEnum::AssocConst => "Associated Constant",
        ItemEnum::AssocType => "Associated Type",
    }
}

/// The position of the first occurrence of `c` at or after `i`, or the end.
pub open spec fn find_char(s: Seq<char>, i: int, c: char) -> int
    decreases s.len() - i,
{
    if !(0 <= i) || i >= s.len() {
        s.len() as int
    } else if s[i] == c {
        i
    } else {
        find_char(s, i + 1, c)
    }
}

pub proof fn lemma_find_char_bounds(s: Seq<char>, i: int, c: char)
    requires
        0 <= i <= s.len(),
    ensures
        i <= find_char(s, i, c) <= s.len(),
    decreases s.len() - i,
{
    if i < s.len() && s[i] != c {
        lemma_find_char_bounds(s, i + 1, c);
    }
}

/// Path separators turned into dashes, scanning left to right.
pub open spec fn dashed(s: Seq<char>) -> Seq<char>
    decreases s.len(),
{
    if s.len() == 0 {
        Seq::<char>::empty()
    } else if s.len() >= 2 && s[0] == ':' && s[1] == ':' {
        seq!['-'] + dashed(s.skip(2))
    } else {
        seq![s[0]] + dashed(s.drop_first())
    }
}

/// The file name generated for an item path: generic parameters stripped,
/// path separators turned into dashes, the Markdown extension appended.
pub open spec fn filename_spec(s: Seq<char>) -> Seq<char> {
    dashed(s.take(find_char(s, 0, '<'))) + ".md"@
}

fn dashed_from(v: &Vec<char>, i: usize, end: usize, out: &mut Vec<char>)
    requires
        i <= end <= v@.len(),
    ensures
        final(out)@ == old(out)@ + dashed(v@.subrange(i as int, end as int)),
    decreases end - i,
{
    let ghost t = v@.subrange(i as int, end as int);
    if i == end {
        assert(out@ =~= out@ + dashed(t));
        return ;
    }
    proof {
        assert(t[0] == v@[i as int]);
        if t.len() >= 2 {
            assert(t[1] == v@[i + 1]);
        }
        assert(t.drop_first() =~= v@.subrange(i + 1, end as int));
        if t.len() >= 2 {
            assert(t.skip(2) =~= v@.subrange(i + 2, end as int));
        }
    }
    if end - i >= 2 && v[i] == ':' && v[i + 1] == ':' {
        out.push('-');
        dashed_from(v, i + 2, end, out);
        assert(out@ =~= old(out)@ + dashed(t));
    } else {
        out.push(v[i]);
        dashed_from(v, i + 1, end, out);
        assert(out@ =~= old(out)@ + dashed(t));
    }
}

/// The deterministic, filesystem-safe file name for an item path: generic
/// parameters stripped, `::` replaced by `-`, the Markdown extension added.
pub fn generate_filename(item_id: &str) -> (r: String)
    ensures
        r@ == filename_spec(item_id@),
{
    let v = str_chars(item_id);
    proof {
        lemma_find_char_bounds(v@, 0, '<');
    }
    let mut end: usize = 0;
    while end < v.len() && v[end] != '<'
        invariant
            end <= v@.len(),
            find_char(v@, 0, '<') == find_char(v@, end as int, '<'),
        decreases v@.len() - end,
    {
        end = end + 1;
    }
    proof {
        assert(find_char(v@, 0, '<') == end as int);
        assert(v@.take(end as int) =~= v@.subrange(0, end as int));
    }
    let mut out: Vec<char> = Vec::new();
    dashed_from(&v, 0, end, &mut out);
    append_str(&mut out, ".md");
    chars_string(&out)
}

/// A hash for each level of a header.
pub open spec fn hashes(n: int) -> Seq<char>
    decreases n,
{
    if n <= 0 {
        Seq::<char>::empty()
    } else {
        hashes(n - 1).push('#')
    }
}

/// The markdown of a header at the given level.
pub open spec fn header_spec(level: int, text: Seq<char>) -> Seq<char> {
    hashes(level) + " "@ + text
}

/// A Markdown header at the given level.
pub fn render_header(level: usize, text: &str) -> (r: String)
    ensures
        r@ == header_spec(level as int, text@),
{
    let mut out: Vec<char> = Vec::new();
    let mut i: usize = 0;
    while i < level
        invariant
            i <= level,
            out@ == hashes(i as int),
        decreases level - i,
    {
        out.push('#');
        i = i + 1;
    }
    append_str(&mut out, " ");
    append_str(&mut out, text);
    proof {
        assert(out@ =~= hashes(level as int) + " "@ + text@);
    }
    chars_string(&out)
}

/// The markdown of a fenced code block with an optional language tag.
pub open spec fn code_block_spec(content: Seq<char>, language: Option<Seq<char>>) -> Seq<char> {
    let lang = match language {
        Some(l) => l,
        None => Seq::<char>::empty(),
    };
    "```"@ + lang + seq!['\n'] + content + "\n```"@
}

/// A fenced code block, optionally tagged with a language.
pub fn render_code_block(content: &str, language: Option<&str>) -> (r: String)
    ensures
        r@ == code_block_spec(
            content@,
            match language {
                Some(l) => Some(l@),
                None => None,
            },
        ),
{
    let mut out: Vec<char> = Vec::new();
    append_str(&mut out, "```");
    match language {
        Some(l) => append_str(&mut out, l),
        None => (),
    }
    append_str(&mut out, "\n");
    append_str(&mut out, content);
    append_str(&mut out, "\n```");
    proof {
        reveal_strlit("\n");
        assert(out@ =~= code_block_spec(
            content@,
            match language {
                Some(l) => Some(l@),
                None => None,
            },
        ));
    }
    chars_string(&out)
}

/// The markdown of a span of inline code.
pub open spec fn inline_code_spec(text: Seq<char>) -> Seq<char> {
    seq!['`'] + text + seq!['`']
}

/// Text wrapped in backticks as inline code.
pub fn render_inline_code(text: &str) -> (r: String)
    ensures
        r@ == inline_code_spec(text@),
{
    let mut out: Vec<char> = Vec::new();
    out.push('`');
    append_str(&mut out, text);
    out.push('`');
    proof {
        assert(out@ =~= inline_code_spec(text@));
    }
    chars_string(&out)
}

/// Text without its leading whitespace.
pub open spec fn trim_start_spec(s: Seq<char>) -> Seq<char> {
    s.skip(ws_run(s))
}

fn trim_start_chars(v: &Vec<char>, from: usize, out: &mut Vec<char>)
    requires
        from <= v@.len(),
    ensures
        final(out)@ == old(out)@ + trim_start_spec(v@.skip(from as int)),
{
    let ghost t = v@.skip(from as int);
    proof {
        lemma_ws_run_front(t);
    }
    let mut a = from;
    while a < v.len() && is_ws_char(v[a])
        invariant
            from <= a <= v@.len(),
            t == v@.skip(from as int),
            a - from <= ws_run(t),
            forall|k: int| 0 <= k < a - from ==> crate::text::is_ws(#[trigger] t[k]),
        decreases v@.len() - a,
    {
        proof {
            lemma_ws_run_front(t);
            assert(t[a - from] == v@[a as int]);
            if a - from + 1 > ws_run(t) {
                assert(!crate::text::is_ws(t[ws_run(t)]));
            }
        }
        a = a + 1;
    }
    proof {
        lemma_ws_run_front(t);
        assert(a - from == ws_run(t)) by {
            if a - from < ws_run(t) {
                assert(crate::text::is_ws(t[a - from]));
                assert(t[a - from] == v@[a as int]);
            }
        }
    }
    let mut q = a;
    while q < v.len()
        invariant
            a <= q <= v@.len(),
            t == v@.skip(from as int),
            a - from == ws_run(t),
            out@ == old(out)@ + v@.subrange(a as int, q as int),
        decreases v@.len() - q,
    {
        out.push(v[q]);
        assert(out@ =~= old(out)@ + v@.subrange(a as int, q + 1));
        q = q + 1;
    }
    proof {
        assert(v@.subrange(a as int, v@.len() as int) =~= t.skip(ws_run(t)));
        assert(out@ =~= old(out)@ + trim_start_spec(t));
    }
}

/// One line of documentation with its comment marker stripped: a trimmed line
/// loses a leading `///` or `//` and the whitespace after it.
pub open spec fn doc_line(l: Seq<char>) -> Seq<char> {
    let t = trim_spec(l);
    if starts_with_spec(t, "///"@) {
        trim_start_spec(t.skip(3))
    } else if starts_with_spec(t, "//"@) {
        trim_start_spec(t.skip(2))
    } else {
        t
    }
}

/// Documentation text readied for Markdown: absent or empty documentation
/// becomes nothing; otherwise each line is trimmed and loses its comment
/// marker, and the lines are joined back.
pub open spec fn documentation_spec(docs: Option<Seq<char>>) -> Seq<char> {
    match docs {
        None => Seq::<char>::empty(),
        Some(d) => {
            if d.len() == 0 {
                Seq::<char>::empty()
            } else {
                join_nl(Seq::new(lines_spec(d).len(), |i: int| doc_line(lines_spec(d)[i])))
            }
        },
    }
}

/// Renders rustdoc documentation text: comment markers stripped per line.
pub fn render_documentation(docs: &Option<String>) -> (r: String)
    ensures
        r@ == documentation_spec(
            match docs {
                Some(d) => Some(d@),
                None => None,
            },
        ),
{
    let d = match docs {
        Some(d) => d,
        None => {
            return String::new();
        },
    };
    if d.as_str().unicode_len() == 0 {
        return String::new();
    }
    let chars = str_chars(d.as_str());
    let lines = split_lines_vec(&chars);
    let ghost lv = lines_spec(d@);
    let ghost target = Seq::new(lv.len(), |i: int| doc_line(lv[i]));
    let mut out: Vec<String> = Vec::new();
    let mut i: usize = 0;
    while i < lines.len()
        invariant
            i <= lines@.len(),
            lv == strings_view(lines@),
            lv == lines_spec(d@),
            target == Seq::new(lv.len(), |q: int| doc_line(lv[q])),
            out@.len() == i,
            strings_view(out@) == target.take(i as int),
        decreases lines@.len() - i,
    {
        proof {
            assert(lv[i as int] == lines@[i as int]@);
        }
        let t = trim_str(lines[i].as_str());
        let tv = str_chars(t.as_str());
        let mut piece: Vec<char> = Vec::new();
        if starts_with_str(t.as_str(), "///") {
            proof {
                reveal_strlit("///");
                assert(tv@.skip(3) =~= t@.skip(3));
            }
            trim_start_chars(&tv, 3, &mut piece);
        } else if starts_with_str(t.as_str(), "//") {
            proof {
                reveal_strlit("//");
                assert(tv@.skip(2) =~= t@.skip(2));
            }
            trim_start_chars(&tv, 2, &mut piece);
        } else {
            proof {
                assert(tv@.skip(0) =~= tv@);
                crate::text::lemma_ws_run_front(t@);
            }
            let mut q: usize = 0;
            while q < tv.len()
                invariant
                    q <= tv@.len(),
                    piece@ == tv@.subrange(0, q as int),
                decreases tv@.len() - q,
            {
                piece.push(tv[q]);
                assert(piece@ =~= tv@.subrange(0, q + 1));
                q = q + 1;
            }
            proof {
                assert(piece@ =~= tv@);
            }
        }
        proof {
            assert(piece@ == doc_line(lv[i as int]));
        }
        out.push(chars_string(&piece));
        proof {
            assert(strings_view(out@) =~~= target.take(i + 1));
        }
        i = i + 1;
    }
    proof {
        assert(target.take(i as int) =~~= target);
    }
    crate::text::join_nl_vec(&out)
}

/// The markdown of the closing actions section: a header and one bullet per
/// action, or nothing when there are no actions.
pub open spec fn next_actions_spec(actions: Seq<Seq<char>>) -> Seq<char>
    decreases actions.len(),
{
    if actions.len() == 0 {
        Seq::<char>::empty()
    } else {
        "## Next Actions\n\n"@ + actions_lines(actions)
    }
}

pub open spec fn actions_lines(actions: Seq<Seq<char>>) -> Seq<char>
    decreases actions.len(),
{
    if actions.len() == 0 {
        Seq::<char>::empty()
    } else {
        "- "@ + actions[0] + seq!['\n'] + actions_lines(actions.drop_first())
    }
}

/// The standardized closing section: a header and a bulleted list of actions.
pub fn render_next_actions_section(actions: &Vec<String>) -> (r: String)
    ensures
        r@ == next_actions_spec(strings_view(actions@)),
{
    if actions.len() == 0 {
        return String::new();
    }
    let mut out: Vec<char> = Vec::new();
    append_str(&mut out, "## Next Actions\n\n");
    actions_lines_from(actions, 0, &mut out);
    proof {
        assert(strings_view(actions@).skip(0) =~= strings_view(actions@));
        assert(out@ =~= next_actions_spec(strings_view(actions@)));
    }
    chars_string(&out)
}

fn actions_lines_from(actions: &Vec<String>, i: usize, out: &mut Vec<char>)
    requires
        i <= actions@.len(),
    ensures
        final(out)@ == old(out)@ + actions_lines(strings_view(actions@).skip(i as int)),
    decreases actions@.len() - i,
{
    let ghost t = strings_view(actions@).skip(i as int);
    if i == actions.len() {
        assert(out@ =~= out@ + actions_lines(t));
        return ;
    }
    proof {
        assert(t[0] == actions@[i as int]@);
        assert(t.drop_first() =~= strings_view(actions@).skip(i + 1));
    }
    append_str(out, "- ");
    append_str(out, actions[i].as_str());
    out.push('\n');
    actions_lines_from(actions, i + 1, out);
    assert(out@ =~= old(out)@ + actions_lines(t));
}

} // verus!
