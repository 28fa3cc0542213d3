//! The HTML-to-Markdown converter: a recursive depth-first walk over the
//! document tree that renders one documentation page's content root as
//! Markdown, skipping presentation and navigation artifacts.

use vstd::prelude::*;
use vstd::string::*;
use crate::dom::{AttrView, ElementNode, HtmlNode, NodeView, attrs_view, node_view, nodes_view,
    parse_forest, spec_forest};
use crate::error::Error;
use crate::scrape::{parse_events, parsed_events};
use crate::text::{all_ws, append_chars, append_str, chars_string, contains_seq, contains_str,
    is_ws_char, links_rewritten, normalize_vec, normalize_ws, replace_char, replace_char_vec,
    replace_nbsp_entity, replace_nbsp_vec, str_chars, str_eq};

verus! {

/// The value of the first attribute named `name`, searched from position `i`.
pub open spec fn attr_from(attrs: Seq<AttrView>, name: Seq<char>, i: int) -> Option<Seq<char>>
    decreases attrs.len() - i,
{
    if !(0 <= i < attrs.len()) {
        None
    } else if attrs[i].name == name {
        Some(attrs[i].value)
    } else {
        attr_from(attrs, name, i + 1)
    }
}

/// The value of the attribute named `name`, if the element has one.
pub open spec fn attr_of(attrs: Seq<AttrView>, name: Seq<char>) -> Option<Seq<char>> {
    attr_from(attrs, name, 0)
}

/// Looks an attribute up by name.
pub fn get_attr(e: &ElementNode, name: &str) -> (r: Option<String>)
    ensures
        match r {
            Some(v) => attr_of(attrs_view(e.attrs@), name@) == Some(v@),
            None => attr_of(attrs_view(e.attrs@), name@) is None,
        },
{
    let ghost av = attrs_view(e.attrs@);
    let mut i: usize = 0;
    while i < e.attrs.len()
        invariant
            i <= e.attrs@.len(),
            av == attrs_view(e.attrs@),
            attr_from(av, name@, 0) == attr_from(av, name@, i as int),
        decreases e.attrs@.len() - i,
    {
        proof {
            assert(av[i as int] == e.attrs@[i as int]@);
        }
        if str_eq(e.attrs[i].name.as_str(), name) {
            return Some(e.attrs[i].value.clone());
        }
        i = i + 1;
    }
    None
}

/// Whether an attribute equals the given value.
pub(crate) fn attr_is(e: &ElementNode, name: &str, value: &str) -> (r: bool)
    ensures
        r == (attr_of(attrs_view(e.attrs@), name@) == Some(value@)),
{
    match get_attr(e, name) {
        Some(v) => str_eq(v.as_str(), value),
        None => false,
    }
}

/// The elements dropped outright: scripts and the line-break hint, the
/// toolbar, the copy-path control, the implementors block and its list, and
/// everything whose class marks it as a source link, a collapsed block, an
/// anchor, a breadcrumb, or a tooltip.
pub open spec fn should_skip(name: Seq<char>, attrs: Seq<AttrView>) -> bool {
    ||| name == "wbr"@
    ||| name == "rustdoc-toolbar"@
    ||| name == "script"@
    ||| attr_of(attrs, "id"@) == Some("copy-path"@)
    ||| attr_of(attrs, "id"@) == Some("implementors"@)
    ||| attr_of(attrs, "id"@) == Some("implementors-list"@)
    ||| match attr_of(attrs, "class"@) {
        Some(c) => contains_seq(c, "src"@) || contains_seq(c, "hideme"@) || contains_seq(
            c,
            "anchor"@,
        ) || contains_seq(c, "rustdoc-breadcrumbs"@) || contains_seq(c, "tooltip"@),
        None => false,
    }
}

fn should_skip_elem(e: &ElementNode) -> (r: bool)
    ensures
        r == should_skip(e.name@, attrs_view(e.attrs@)),
{
    if str_eq(e.name.as_str(), "wbr") || str_eq(e.name.as_str(), "rustdoc-toolbar") || str_eq(
        e.name.as_str(),
        "script",
    ) {
        return true;
    }
    if attr_is(e, "id", "copy-path") || attr_is(e, "id", "implementors") || attr_is(
        e,
        "id",
        "implementors-list",
    ) {
        return true;
    }
    match get_attr(e, "class") {
        Some(c) => contains_str(c.as_str(), "src") || contains_str(c.as_str(), "hideme")
            || contains_str(c.as_str(), "anchor") || contains_str(
            c.as_str(),
            "rustdoc-breadcrumbs",
        ) || contains_str(c.as_str(), "tooltip"),
        None => false,
    }
}

/// What one run of document text contributes: non-breaking spaces (and their
/// literal entity form) become plain spaces, whitespace-only runs vanish, and
/// reference-style link markers are rewritten.
pub open spec fn md_text(t: Seq<char>) -> Seq<char> {
    let u = replace_nbsp_entity(replace_char(t, '\u{a0}', ' '));
    if all_ws(u) {
        Seq::<char>::empty()
    } else {
        links_rewritten(u)
    }
}

fn emit_text(t: &String, out: &mut Vec<char>)
    ensures
        final(out)@ == old(out)@ + md_text(t@),
{
    let v = str_chars(t.as_str());
    let v = replace_char_vec(&v, '\u{a0}', ' ');
    let v = replace_nbsp_vec(&v);
    let mut all: bool = true;
    let mut i: usize = 0;
    while i < v.len()
        invariant
            i <= v@.len(),
            all == (forall|q: int| 0 <= q < i ==> crate::text::is_ws(#[trigger] v@[q])),
        decreases v@.len() - i,
    {
        if !is_ws_char(v[i]) {
            all = false;
            i = v.len();
        } else {
            i = i + 1;
        }
    }
    if all {
        assert(out@ =~= out@ + md_text(t@));
        return ;
    }
    let r = crate::text::process_text_links(chars_string(&v).as_str());
    append_str(out, r.as_str());
    assert(out@ =~= old(out)@ + md_text(t@));
}

/// The decimal digits of `n`.
pub open spec fn dec_str(n: int) -> Seq<char>
    decreases n,
{
    if n < 0 {
        Seq::<char>::empty()
    } else if n < 10 {
        seq![digit_char(n)]
    } else {
        dec_str(n / 10) + seq![digit_char(n % 10)]
    }
}

pub open spec fn digit_char(d: int) -> char {
    if d == 0 {
        '0'
    } else if d == 1 {
        '1'
    } else if d == 2 {
        '2'
    } else if d == 3 {
        '3'
    } else if d == 4 {
        '4'
    } else if d == 5 {
        '5'
    } else if d == 6 {
        '6'
    } else if d == 7 {
        '7'
    } else if d == 8 {
        '8'
    } else {
        '9'
    }
}

fn push_digit(d: u128, out: &mut Vec<char>)
    requires
        d < 10,
    ensures
        final(out)@ == old(out)@.push(digit_char(d as int)),
{
    if d == 0 {
        out.push('0');
    } else if d == 1 {
        out.push('1');
    } else if d == 2 {
        out.push('2');
    } else if d == 3 {
        out.push('3');
    } else if d == 4 {
        out.push('4');
    } else if d == 5 {
        out.push('5');
    } else if d == 6 {
        out.push('6');
    } else if d == 7 {
        out.push('7');
    } else if d == 8 {
        out.push('8');
    } else {
        out.push('9');
    }
}

/// Appends the decimal form of `n`.
pub fn push_dec(n: u128, out: &mut Vec<char>)
    ensures
        final(out)@ == old(out)@ + dec_str(n as int),
    decreases n,
{
    if n < 10 {
        push_digit(n, out);
        assert(out@ =~= old(out)@ + dec_str(n as int));
    } else {
        push_dec(n / 10, out);
        push_digit(n % 10, out);
        assert(out@ =~= old(out)@ + dec_str(n as int));
    }
}

/// The Markdown for one node. `pre` says whether the node's parent is a
/// preformatted block, which turns an inline code element into verbatim text.
pub open spec fn md_node(n: NodeView, pre: bool) -> Seq<char>
    decreases n, 0int,
{
    match n {
        NodeView::Text(t) => md_text(t),
        NodeView::Element { name, attrs, children } => {
            if should_skip(name, attrs) {
                Seq::<char>::empty()
            } else if name == "h1"@ {
                "# "@ + normalize_ws(md_children(children, false)) + "\n\n"@
            } else if name == "h2"@ {
                "## "@ + normalize_ws(md_children(children, false)) + "\n\n"@
            } else if name == "h3"@ {
                "### "@ + normalize_ws(md_children(children, false)) + "\n\n"@
            } else if name == "h4"@ {
                "#### "@ + normalize_ws(md_children(children, false)) + "\n\n"@
            } else if name == "h5"@ {
                "##### "@ + normalize_ws(md_children(children, false)) + "\n\n"@
            } else if name == "h6"@ {
                "###### "@ + normalize_ws(md_children(children, false)) + "\n\n"@
            } else if name == "p"@ {
                normalize_ws(md_children(children, false)) + "\n\n"@
            } else if name == "code"@ {
                if pre {
                    md_children(children, false)
                } else {
                    "`"@ + md_children(children, false) + "`"@
                }
            } else if name == "pre"@ {
                "```\n"@ + md_children(children, true) + "\n```\n\n"@
            } else if name == "ul"@ {
                md_list(children, false, 1) + "\n"@
            } else if name == "ol"@ {
                md_list(children, true, 1) + "\n"@
            } else if name == "li"@ {
                normalize_ws(md_children(children, false))
            } else if name == "dl"@ {
                md_dl(children, false, false) + "\n"@
            } else if name == "dt"@ {
                "- **"@ + md_children(children, false) + "**"@
            } else if name == "dd"@ {
                ": "@ + md_children(children, false) + "\n"@
            } else if name == "strong"@ || name == "b"@ {
                "**"@ + md_children(children, false) + "**"@
            } else if name == "em"@ || name == "i"@ {
                "_"@ + md_children(children, false) + "_"@
            } else if name == "blockquote"@ {
                "> "@ + md_children(children, false) + "\n\n"@
            } else if name == "br"@ {
                "\n\n"@
            } else {
                md_children(children, name == "pre"@)
            }
        },
    }
}

/// The Markdown the children of an element contribute, concatenated.
pub open spec fn md_children(s: Seq<NodeView>, pre: bool) -> Seq<char>
    decreases s, 1int,
{
    if s.len() == 0 {
        Seq::<char>::empty()
    } else {
        md_node(s[0], pre) + md_children(s.drop_first(), pre)
    }
}

/// The Markdown of a list: one `- ` or `N. ` line per list-item child, each
/// item's content whitespace-normalized; other children are dropped.
pub open spec fn md_list(s: Seq<NodeView>, ordered: bool, idx: int) -> Seq<char>
    decreases s, 1int,
{
    if s.len() == 0 {
        Seq::<char>::empty()
    } else {
        match s[0] {
            NodeView::Element { name, attrs, children } => {
                if name == "li"@ {
                    (if ordered {
                        dec_str(idx) + ". "@
                    } else {
                        "- "@
                    }) + normalize_ws(md_children(children, false)) + "\n"@ + md_list(
                        s.drop_first(),
                        ordered,
                        if ordered {
                            idx + 1
                        } else {
                            idx
                        },
                    )
                } else {
                    md_list(s.drop_first(), ordered, idx)
                }
            },
            _ => md_list(s.drop_first(), ordered, idx),
        }
    }
}

/// The Markdown of a definition list: `- **Term**: Description` per pair, a
/// term with no following description leaving no stray blank line.
pub open spec fn md_dl(s: Seq<NodeView>, seen_term: bool, has_desc: bool) -> Seq<char>
    decreases s, 1int,
{
    if s.len() == 0 {
        if seen_term && has_desc {
            "\n"@
        } else {
            Seq::<char>::empty()
        }
    } else {
        match s[0] {
            NodeView::Element { name, attrs, children } => {
                if name == "dt"@ {
                    (if seen_term && has_desc {
                        "\n"@
                    } else {
                        Seq::<char>::empty()
                    }) + "- **"@ + normalize_ws(md_children(children, false)) + "**"@ + md_dl(
                        s.drop_first(),
                        true,
                        false,
                    )
                } else if name == "dd"@ {
                    if seen_term {
                        ": "@ + normalize_ws(md_children(children, false)) + md_dl(
                            s.drop_first(),
                            true,
                            true,
                        )
                    } else {
                        md_dl(s.drop_first(), seen_term, has_desc)
                    }
                } else {
                    md_dl(s.drop_first(), seen_term, has_desc)
                }
            },
            _ => md_dl(s.drop_first(), seen_term, has_desc),
        }
    }
}

/// A skipped element contributes nothing to the output, in any context.
pub proof fn lemma_skipped_element_dropped(
    name: Seq<char>,
    attrs: Seq<AttrView>,
    children: Seq<NodeView>,
    pre: bool,
)
    requires
        should_skip(name, attrs),
    ensures
        md_node(NodeView::Element { name, attrs, children }, pre) == Seq::<char>::empty(),
{
}

/// Renders one node.
pub fn convert_node(n: &HtmlNode, pre: bool, out: &mut Vec<char>)
    ensures
        final(out)@ == old(out)@ + md_node(n@, pre),
    decreases *n, 0int, 0int,
{
    match n {
        HtmlNode::Text(t) => {
            emit_text(t, out);
        },
        HtmlNode::Element(e) => {
            proof {
                assert(n@ == NodeView::Element {
                    name: e.name@,
                    attrs: attrs_view(e.attrs@),
                    children: nodes_view(e.children@),
                });
                assert(nodes_view(e.children@).skip(0) =~= nodes_view(e.children@));
            }
            if should_skip_elem(e) {
                assert(out@ =~= out@ + md_node(n@, pre));
                return ;
            }
            let name = e.name.as_str();
            if str_eq(name, "h1") {
                append_str(out, "# ");
                convert_children_normalized(&e.children, out);
                append_str(out, "\n\n");
            } else if str_eq(name, "h2") {
                append_str(out, "## ");
                convert_children_normalized(&e.children, out);
                append_str(out, "\n\n");
            } else if str_eq(name, "h3") {
                append_str(out, "### ");
                convert_children_normalized(&e.children, out);
                append_str(out, "\n\n");
            } else if str_eq(name, "h4") {
                append_str(out, "#### ");
                convert_children_normalized(&e.children, out);
                append_str(out, "\n\n");
            } else if str_eq(name, "h5") {
                append_str(out, "##### ");
                convert_children_normalized(&e.children, out);
                append_str(out, "\n\n");
            } else if str_eq(name, "h6") {
                append_str(out, "###### ");
                convert_children_normalized(&e.children, out);
                append_str(out, "\n\n");
            } else if str_eq(name, "p") {
                convert_children_normalized(&e.children, out);
                append_str(out, "\n\n");
            } else if str_eq(name, "code") {
                if pre {
                    convert_children(&e.children, 0, false, out);
                } else {
                    append_str(out, "`");
                    convert_children(&e.children, 0, false, out);
                    append_str(out, "`");
                }
            } else if str_eq(name, "pre") {
                append_str(out, "```\n");
                convert_children(&e.children, 0, true, out);
                append_str(out, "\n```\n\n");
            } else if str_eq(name, "ul") {
                convert_list(&e.children, 0, false, 1, out);
                append_str(out, "\n");
            } else if str_eq(name, "ol") {
                convert_list(&e.children, 0, true, 1, out);
                append_str(out, "\n");
            } else if str_eq(name, "li") {
                convert_children_normalized(&e.children, out);
            } else if str_eq(name, "dl") {
                convert_dl(&e.children, 0, false, false, out);
                append_str(out, "\n");
            } else if str_eq(name, "dt") {
                append_str(out, "- **");
                convert_children(&e.children, 0, false, out);
                append_str(out, "**");
            } else if str_eq(name, "dd") {
                append_str(out, ": ");
                convert_children(&e.children, 0, false, out);
                append_str(out, "\n");
            } else if str_eq(name, "strong") || str_eq(name, "b") {
                append_str(out, "**");
                convert_children(&e.children, 0, false, out);
                append_str(out, "**");
            } else if str_eq(name, "em") || str_eq(name, "i") {
                append_str(out, "_");
                convert_children(&e.children, 0, false, out);
                append_str(out, "_");
            } else if str_eq(name, "blockquote") {
                append_str(out, "> ");
                convert_children(&e.children, 0, false, out);
                append_str(out, "\n\n");
            } else if str_eq(name, "br") {
                append_str(out, "\n\n");
            } else {
                convert_children(&e.children, 0, str_eq(name, "pre"), out);
            }
            assert(out@ =~= old(out)@ + md_node(n@, pre));
        },
    }
}

/// Renders an element's children from position `i` on.
pub fn convert_children(v: &Vec<HtmlNode>, i: usize, pre: bool, out: &mut Vec<char>)
    requires
        i <= v@.len(),
    ensures
        final(out)@ == old(out)@ + md_children(nodes_view(v@).skip(i as int), pre),
    decreases v@, v@.len() - i, 0int,
{
    proof {
        crate::dom::lemma_nodes_view_len(v@);
    }
    let ghost t = nodes_view(v@).skip(i as int);
    if i == v.len() {
        assert(out@ =~= out@ + md_children(t, pre));
        return ;
    }
    proof {
        crate::dom::lemma_nodes_view_index(v@, i as int);
        assert(t[0] == node_view(v@[i as int]));
        assert(t.drop_first() =~= nodes_view(v@).skip(i + 1));
    }
    convert_node(&v[i], pre, out);
    convert_children(v, i + 1, pre, out);
    assert(out@ =~= old(out)@ + md_children(t, pre));
}

/// Renders an element's children with interior whitespace collapsed.
pub fn convert_children_normalized(v: &Vec<HtmlNode>, out: &mut Vec<char>)
    ensures
        final(out)@ == old(out)@ + normalize_ws(md_children(nodes_view(v@), false)),
    decreases v@, v@.len() + 1, 0int,
{
    let mut buf: Vec<char> = Vec::new();
    convert_children(v, 0, false, &mut buf);
    proof {
        assert(nodes_view(v@).skip(0) =~= nodes_view(v@));
    }
    let norm = normalize_vec(&buf);
    append_chars(out, &norm);
}

/// Renders list items from position `i` on.
pub fn convert_list(v: &Vec<HtmlNode>, i: usize, ordered: bool, idx: u128, out: &mut Vec<char>)
    requires
        i <= v@.len(),
        idx <= 1 + i,
    ensures
        final(out)@ == old(out)@ + md_list(nodes_view(v@).skip(i as int), ordered, idx as int),
    decreases v@, v@.len() - i, 0int,
{
    proof {
        crate::dom::lemma_nodes_view_len(v@);
    }
    let ghost t = nodes_view(v@).skip(i as int);
    if i == v.len() {
        assert(out@ =~= out@ + md_list(t, ordered, idx as int));
        return ;
    }
    proof {
        crate::dom::lemma_nodes_view_index(v@, i as int);
        assert(t[0] == node_view(v@[i as int]));
        assert(t.drop_first() =~= nodes_view(v@).skip(i + 1));
    }
    match &v[i] {
        HtmlNode::Element(e) => {
            if str_eq(e.name.as_str(), "li") {
                if ordered {
                    push_dec(idx, out);
                    append_str(out, ". ");
                } else {
                    append_str(out, "- ");
                }
                convert_children_normalized(&e.children, out);
                append_str(out, "\n");
                let next_idx = if ordered {
                    idx + 1
                } else {
                    idx
                };
                convert_list(v, i + 1, ordered, next_idx, out);
                assert(out@ =~= old(out)@ + md_list(t, ordered, idx as int));
            } else {
                convert_list(v, i + 1, ordered, idx, out);
                assert(out@ =~= old(out)@ + md_list(t, ordered, idx as int));
            }
        },
        HtmlNode::Text(_) => {
            convert_list(v, i + 1, ordered, idx, out);
            assert(out@ =~= old(out)@ + md_list(t, ordered, idx as int));
        },
    }
}

/// Renders definition-list pairs from position `i` on.
pub fn convert_dl(
    v: &Vec<HtmlNode>,
    i: usize,
    seen_term: bool,
    has_desc: bool,
    out: &mut Vec<char>,
)
    requires
        i <= v@.len(),
    ensures
        final(out)@ == old(out)@ + md_dl(nodes_view(v@).skip(i as int), seen_term, has_desc),
    decreases v@, v@.len() - i, 0int,
{
    proof {
        crate::dom::lemma_nodes_view_len(v@);
    }
    let ghost t = nodes_view(v@).skip(i as int);
    if i == v.len() {
        if seen_term && has_desc {
            append_str(out, "\n");
        }
        assert(out@ =~= old(out)@ + md_dl(t, seen_term, has_desc));
        return ;
    }
    proof {
        crate::dom::lemma_nodes_view_index(v@, i as int);
        assert(t[0] == node_view(v@[i as int]));
        assert(t.drop_first() =~= nodes_view(v@).skip(i + 1));
    }
    match &v[i] {
        HtmlNode::Element(e) => {
            if str_eq(e.name.as_str(), "dt") {
                if seen_term && has_desc {
                    append_str(out, "\n");
                }
                append_str(out, "- **");
                convert_children_normalized(&e.children, out);
                append_str(out, "**");
                convert_dl(v, i + 1, true, false, out);
                assert(out@ =~= old(out)@ + md_dl(t, seen_term, has_desc));
            } else if str_eq(e.name.as_str(), "dd") {
                if seen_term {
                    append_str(out, ": ");
                    convert_children_normalized(&e.children, out);
                    convert_dl(v, i + 1, true, true, out);
                    assert(out@ =~= old(out)@ + md_dl(t, seen_term, has_desc));
                } else {
                    convert_dl(v, i + 1, seen_term, has_desc, out);
                    assert(out@ =~= old(out)@ + md_dl(t, seen_term, has_desc));
                }
            } else {
                convert_dl(v, i + 1, seen_term, has_desc, out);
                assert(out@ =~= old(out)@ + md_dl(t, seen_term, has_desc));
            }
        },
        HtmlNode::Text(_) => {
            convert_dl(v, i + 1, seen_term, has_desc, out);
            assert(out@ =~= old(out)@ + md_dl(t, seen_term, has_desc));
        },
    }
}

/// The first element named `name`, in depth-first order, among these nodes.
pub open spec fn find_in_nodes(s: Seq<NodeView>, name: Seq<char>) -> Option<NodeView>
    decreases s, 1int,
{
    if s.len() == 0 {
        None
    } else {
        match find_in_node(s[0], name) {
            Some(m) => Some(m),
            None => find_in_nodes(s.drop_first(), name),
        }
    }
}

/// The first element named `name`, in depth-first order, in this subtree.
pub open spec fn find_in_node(n: NodeView, name: Seq<char>) -> Option<NodeView>
    decreases n, 0int,
{
    match n {
        NodeView::Text(_) => None,
        NodeView::Element { name: nm, attrs, children } => {
            if nm == name {
                Some(n)
            } else {
                find_in_nodes(children, name)
            }
        },
    }
}

/// Finds the first element named `name` among the nodes from `i` on.
pub fn find_elem_in_nodes<'a>(v: &'a Vec<HtmlNode>, i: usize, name: &str) -> (r: Option<
    &'a HtmlNode,
>)
    requires
        i <= v@.len(),
    ensures
        match r {
            Some(m) => find_in_nodes(nodes_view(v@).skip(i as int), name@) == Some(m@),
            None => find_in_nodes(nodes_view(v@).skip(i as int), name@) is None,
        },
    decreases v@, v@.len() - i,
{
    proof {
        crate::dom::lemma_nodes_view_len(v@);
    }
    let ghost t = nodes_view(v@).skip(i as int);
    if i == v.len() {
        return None;
    }
    proof {
        crate::dom::lemma_nodes_view_index(v@, i as int);
        assert(t[0] == node_view(v@[i as int]));
        assert(t.drop_first() =~= nodes_view(v@).skip(i + 1));
    }
    match find_elem_in_node(&v[i], name) {
        Some(m) => Some(m),
        None => find_elem_in_nodes(v, i + 1, name),
    }
}

/// Finds the first element named `name` in this subtree.
pub fn find_elem_in_node<'a>(n: &'a HtmlNode, name: &str) -> (r: Option<&'a HtmlNode>)
    ensures
        match r {
            Some(m) => find_in_node(n@, name@) == Some(m@),
            None => find_in_node(n@, name@) is None,
        },
    decreases *n, 0int,
{
    match n {
        HtmlNode::Text(_) => None,
        HtmlNode::Element(e) => {
            if str_eq(e.name.as_str(), name) {
                Some(n)
            } else {
                proof {
                    assert(n@ == NodeView::Element {
                        name: e.name@,
                        attrs: attrs_view(e.attrs@),
                        children: nodes_view(e.children@),
                    });
                    assert(nodes_view(e.children@).skip(0) =~= nodes_view(e.children@));
                }
                find_elem_in_nodes(&e.children, 0, name)
            }
        },
    }
}

/// What converting a whole document yields: the Markdown of its content root,
/// or nothing when the document has no content root.
pub open spec fn convert_spec(html: Seq<char>) -> Option<Seq<char>> {
    let forest = spec_forest(parsed_events(html), 0).0;
    match find_in_nodes(forest, "main"@) {
        Some(m) => Some(md_node(m, false)),
        None => None,
    }
}

/// Converts one documentation page to Markdown: the content of its single
/// content-root (`<main>`) element, rendered by the depth-first walk above.
/// Fails exactly when the document has no content root.
pub fn convert(html: &str) -> (r: Result<String, Error>)
    ensures
        match r {
            Ok(s) => convert_spec(html@) == Some(s@),
            Err(e) => {
                &&& convert_spec(html@) is None
                &&& e is HtmlElementNotFound
                &&& e.spec_message() == main_missing_detail()
            },
        },
        r is Ok <==> convert_spec(html@) is Some,
{
    let events = parse_events(html);
    let (forest, _end) = parse_forest(&events, 0);
    proof {
        assert(nodes_view(forest@).skip(0) =~= nodes_view(forest@));
    }
    match find_elem_in_nodes(&forest, 0, "main") {
        Some(main_node) => {
            let mut out: Vec<char> = Vec::new();
            convert_node(main_node, false, &mut out);
            proof {
                let f = spec_forest(parsed_events(html@), 0).0;
                assert(nodes_view(forest@) == f);
                assert(find_in_nodes(f, "main"@) == Some(main_node@));
                assert(convert_spec(html@) == Some(md_node(main_node@, false)));
                assert(out@ =~= md_node(main_node@, false));
            }
            Ok(chars_string(&out))
        },
        None => {
            proof {
                reveal_strlit(
                    "HTML document does not contain a <main> element. This may indicate invalid rustdoc HTML output.",
                );
            }
            Err(
                Error::HtmlElementNotFound {
                    selector: String::from_str("main"),
                    detail: String::from_str(main_not_found_message()),
                },
            )
        },
    }
}

/// The explanation surfaced when a page has no content root.
pub fn main_not_found_message() -> (r: &'static str)
    ensures
        r@ == main_missing_detail(),
{
    "HTML document does not contain a <main> element. This may indicate invalid rustdoc HTML output."
}

pub open spec fn main_missing_detail() -> Seq<char> {
    "HTML document does not contain a <main> element. This may indicate invalid rustdoc HTML output."@
}

/// Converting is a function of the document text alone: two conversions of
/// equal documents yield byte-identical Markdown.
pub proof fn lemma_convert_deterministic(h1: Seq<char>, h2: Seq<char>)
    requires
        h1 == h2,
    ensures
        convert_spec(h1) == convert_spec(h2),
{
}

} // verus!
