//! Parses one type-alias documentation page into a structured record — the
//! name, declaration, documentation, aliased type and variants, each read
//! from its place in the page — and renders that record as Markdown.

use vstd::prelude::*;
use vstd::string::*;
use crate::dom::{AttrView, ElementNode, HtmlNode, NodeView, attrs_view, node_view, nodes_view,
    parse_forest, push_text_of_node, spec_forest, text_of_node};
use crate::error::Error;
use crate::html2md::{attr_of, find_in_node, find_in_nodes, find_elem_in_nodes, get_attr};
use crate::listing::{class_has, has_class};
use crate::scrape::{parse_events, parsed_events};
use crate::text::{append_str, chars_string, str_chars, str_eq, strings_view, trim_spec, trim_str};

verus! {

/// Whether an element carries the given name and class.
pub open spec fn tag_class(n: NodeView, tag: Seq<char>, class: Seq<char>) -> bool {
    match n {
        NodeView::Element { name, attrs, children } => name == tag && has_class(attrs, class),
        NodeView::Text(_) => false,
    }
}

fn is_tag_class(e: &ElementNode, tag: &str, class: &str) -> (r: bool)
    ensures
        r == tag_class(node_view(HtmlNode::Element(*e)), tag@, class@),
{
    str_eq(e.name.as_str(), tag) && crate::listing::elem_has_class(e, class)
}

/// The first element of the given name and class, in depth-first order.
pub open spec fn find_tc_in_nodes(s: Seq<NodeView>, tag: Seq<char>, class: Seq<char>) -> Option<
    NodeView,
>
    decreases s, 1int,
{
    if s.len() == 0 {
        None
    } else {
        match find_tc_in_node(s[0], tag, class) {
            Some(m) => Some(m),
            None => find_tc_in_nodes(s.drop_first(), tag, class),
        }
    }
}

pub open spec fn find_tc_in_node(n: NodeView, tag: Seq<char>, class: Seq<char>) -> Option<
    NodeView,
>
    decreases n, 0int,
{
    match n {
        NodeView::Text(_) => None,
        NodeView::Element { name, attrs, children } => {
            if tag_class(n, tag, class) {
                Some(n)
            } else {
                find_tc_in_nodes(children, tag, class)
            }
        },
    }
}

fn find_tc_nodes<'a>(v: &'a Vec<HtmlNode>, i: usize, tag: &str, class: &str) -> (r: Option<
    &'a HtmlNode,
>)
    requires
        i <= v@.len(),
    ensures
        match r {
            Some(m) => find_tc_in_nodes(nodes_view(v@).skip(i as int), tag@, class@) == Some(m@),
            None => find_tc_in_nodes(nodes_view(v@).skip(i as int), tag@, class@) is None,
        },
    decreases v@, v@.len() - i,
{
    proof {
        crate::dom::lemma_nodes_view_len(v@);
    }
    let ghost t = nodes_view(v@).skip(i as int);
    if i == v.len() {
        return None;
    }
    proof {
        crate::dom::lemma_nodes_view_index(v@, i as int);
        assert(t[0] == node_view(v@[i as int]));
        assert(t.drop_first() =~= nodes_view(v@).skip(i + 1));
    }
    match find_tc_node(&v[i], tag, class) {
        Some(m) => Some(m),
        None => find_tc_nodes(v, i + 1, tag, class),
    }
}

fn find_tc_node<'a>(n: &'a HtmlNode, tag: &str, class: &str) -> (r: Option<&'a HtmlNode>)
    ensures
        match r {
            Some(m) => find_tc_in_node(n@, tag@, class@) == Some(m@),
            None => find_tc_in_node(n@, tag@, class@) is None,
        },
    decreases *n, 0int,
{
    match n {
        HtmlNode::Text(_) => None,
        HtmlNode::Element(e) => {
            proof {
                assert(n@ == NodeView::Element {
                    name: e.name@,
                    attrs: attrs_view(e.attrs@),
                    children: nodes_view(e.children@),
                });
                assert(nodes_view(e.children@).skip(0) =~= nodes_view(e.children@));
            }
            if is_tag_class(e, tag, class) {
                Some(n)
            } else {
                find_tc_nodes(&e.children, 0, tag, class)
            }
        },
    }
}

/// The first element with the given class below (strictly inside) a heading
/// element, in depth-first order.
pub open spec fn find_h1_type_nodes(s: Seq<NodeView>, in_h1: bool) -> Option<NodeView>
    decreases s, 1int,
{
    if s.len() == 0 {
        None
    } else {
        match find_h1_type_node(s[0], in_h1) {
            Some(m) => Some(m),
            None => find_h1_type_nodes(s.drop_first(), in_h1),
        }
    }
}

pub open spec fn find_h1_type_node(n: NodeView, in_h1: bool) -> Option<NodeView>
    decreases n, 0int,
{
    match n {
        NodeView::Text(_) => None,
        NodeView::Element { name, attrs, children } => {
            if in_h1 && has_class(attrs, "type"@) {
                Some(n)
            } else {
                find_h1_type_nodes(children, in_h1 || name == "h1"@)
            }
        },
    }
}

fn find_h1_type_exec_nodes<'a>(v: &'a Vec<HtmlNode>, i: usize, in_h1: bool) -> (r: Option<
    &'a HtmlNode,
>)
    requires
        i <= v@.len(),
    ensures
        match r {
            Some(m) => find_h1_type_nodes(nodes_view(v@).skip(i as int), in_h1) == Some(m@),
            None => find_h1_type_nodes(nodes_view(v@).skip(i as int), in_h1) is None,
        },
    decreases v@, v@.len() - i,
{
    proof {
        crate::dom::lemma_nodes_view_len(v@);
    }
    let ghost t = nodes_view(v@).skip(i as int);
    if i == v.len() {
        return None;
    }
    proof {
        crate::dom::lemma_nodes_view_index(v@, i as int);
        assert(t[0] == node_view(v@[i as int]));
        assert(t.drop_first() =~= nodes_view(v@).skip(i + 1));
    }
    match find_h1_type_exec_node(&v[i], in_h1) {
        Some(m) => Some(m),
        None => find_h1_type_exec_nodes(v, i + 1, in_h1),
    }
}

fn find_h1_type_exec_node<'a>(n: &'a HtmlNode, in_h1: bool) -> (r: Option<&'a HtmlNode>)
    ensures
        match r {
            Some(m) => find_h1_type_node(n@, in_h1) == Some(m@),
            None => find_h1_type_node(n@, in_h1) is None,
        },
    decreases *n, 0int,
{
    match n {
        HtmlNode::Text(_) => None,
        HtmlNode::Element(e) => {
            proof {
                assert(n@ == NodeView::Element {
                    name: e.name@,
                    attrs: attrs_view(e.attrs@),
                    children: nodes_view(e.children@),
                });
                assert(nodes_view(e.children@).skip(0) =~= nodes_view(e.children@));
            }
            if in_h1 && crate::listing::elem_has_class(e, "type") {
                Some(n)
            } else {
                let inside = in_h1 || str_eq(e.name.as_str(), "h1");
                find_h1_type_exec_nodes(&e.children, 0, inside)
            }
        },
    }
}

/// Whether an element matches the aliased-type declaration block.
pub open spec fn is_decl_pre(n: NodeView) -> bool {
    match n {
        NodeView::Element { name, attrs, children } => name == "pre"@ && has_class(attrs, "rust"@)
            && has_class(attrs, "item-decl"@),
        NodeView::Text(_) => false,
    }
}

/// The first declaration block, in depth-first order.
pub open spec fn find_decl_in_nodes(s: Seq<NodeView>) -> Option<NodeView>
    decreases s, 1int,
{
    if s.len() == 0 {
        None
    } else {
        match find_decl_in_node(s[0]) {
            Some(m) => Some(m),
            None => find_decl_in_nodes(s.drop_first()),
        }
    }
}

pub open spec fn find_decl_in_node(n: NodeView) -> Option<NodeView>
    decreases n, 0int,
{
    match n {
        NodeView::Text(_) => None,
        NodeView::Element { name, attrs, children } => {
            if is_decl_pre(n) {
                Some(n)
            } else {
                find_decl_in_nodes(children)
            }
        },
    }
}

fn is_decl_pre_exec(e: &ElementNode) -> (r: bool)
    ensures
        r == is_decl_pre(node_view(HtmlNode::Element(*e))),
{
    str_eq(e.name.as_str(), "pre") && crate::listing::elem_has_class(e, "rust")
        && crate::listing::elem_has_class(e, "item-decl")
}

fn find_decl_nodes<'a>(v: &'a Vec<HtmlNode>, i: usize) -> (r: Option<&'a HtmlNode>)
    requires
        i <= v@.len(),
    ensures
        match r {
            Some(m) => find_decl_in_nodes(nodes_view(v@).skip(i as int)) == Some(m@),
            None => find_decl_in_nodes(nodes_view(v@).skip(i as int)) is None,
        },
    decreases v@, v@.len() - i,
{
    proof {
        crate::dom::lemma_nodes_view_len(v@);
    }
    let ghost t = nodes_view(v@).skip(i as int);
    if i == v.len() {
        return None;
    }
    proof {
        crate::dom::lemma_nodes_view_index(v@, i as int);
        assert(t[0] == node_view(v@[i as int]));
        assert(t.drop_first() =~= nodes_view(v@).skip(i + 1));
    }
    match find_decl_node(&v[i]) {
        Some(m) => Some(m),
        None => find_decl_nodes(v, i + 1),
    }
}

fn find_decl_node<'a>(n: &'a HtmlNode) -> (r: Option<&'a HtmlNode>)
    ensures
        match r {
            Some(m) => find_decl_in_node(n@) == Some(m@),
            None => find_decl_in_node(n@) is None,
        },
    decreases *n, 0int,
{
    match n {
        HtmlNode::Text(_) => None,
        HtmlNode::Element(e) => {
            proof {
                assert(n@ == NodeView::Element {
                    name: e.name@,
                    attrs: attrs_view(e.attrs@),
                    children: nodes_view(e.children@),
                });
                assert(nodes_view(e.children@).skip(0) =~= nodes_view(e.children@));
            }
            if is_decl_pre_exec(e) {
                Some(n)
            } else {
                find_decl_nodes(&e.children, 0)
            }
        },
    }
}

/// The first declaration block standing right after the aliased-type anchor:
/// the element sibling directly before it (text between them does not count)
/// carries the anchor's identifier.
pub open spec fn find_adjacent_in_nodes(s: Seq<NodeView>, prev_is_anchor: bool) -> Option<
    NodeView,
>
    decreases s, 1int,
{
    if s.len() == 0 {
        None
    } else {
        match s[0] {
            NodeView::Text(_) => find_adjacent_in_nodes(s.drop_first(), prev_is_anchor),
            NodeView::Element { name, attrs, children } => {
                if prev_is_anchor && is_decl_pre(s[0]) {
                    Some(s[0])
                } else {
                    match find_adjacent_in_nodes(children, false) {
                        Some(m) => Some(m),
                        None => find_adjacent_in_nodes(
                            s.drop_first(),
                            attr_of(attrs, "id"@) == Some("aliased-type"@),
                        ),
                    }
                }
            },
        }
    }
}

fn find_adjacent_nodes<'a>(v: &'a Vec<HtmlNode>, i: usize, prev_is_anchor: bool) -> (r: Option<
    &'a HtmlNode,
>)
    requires
        i <= v@.len(),
    ensures
        match r {
            Some(m) => find_adjacent_in_nodes(nodes_view(v@).skip(i as int), prev_is_anchor)
                == Some(m@),
            None => find_adjacent_in_nodes(nodes_view(v@).skip(i as int), prev_is_anchor) is None,
        },
    decreases v@, v@.len() - i,
{
    proof {
        crate::dom::lemma_nodes_view_len(v@);
    }
    let ghost t = nodes_view(v@).skip(i as int);
    if i == v.len() {
        return None;
    }
    proof {
        crate::dom::lemma_nodes_view_index(v@, i as int);
        assert(t[0] == node_view(v@[i as int]));
        assert(t.drop_first() =~= nodes_view(v@).skip(i + 1));
    }
    match &v[i] {
        HtmlNode::Text(_) => find_adjacent_nodes(v, i + 1, prev_is_anchor),
        HtmlNode::Element(e) => {
            proof {
                assert(v@[i as int]@ == NodeView::Element {
                    name: e.name@,
                    attrs: attrs_view(e.attrs@),
                    children: nodes_view(e.children@),
                });
                assert(nodes_view(e.children@).skip(0) =~= nodes_view(e.children@));
            }
            if prev_is_anchor && is_decl_pre_exec(e) {
                Some(&v[i])
            } else {
                match find_adjacent_nodes(&e.children, 0, false) {
                    Some(m) => Some(m),
                    None => {
                        let anchor = crate::html2md::attr_is(e, "id", "aliased-type");
                        find_adjacent_nodes(v, i + 1, anchor)
                    },
                }
            }
        },
    }
}

} // verus!

verus! {

/// All elements of the given name and class, in depth-first order, nested
/// matches included.
pub open spec fn collect_tc_in_nodes(s: Seq<NodeView>, tag: Seq<char>, class: Seq<char>) -> Seq<
    NodeView,
>
    decreases s, 1int,
{
    if s.len() == 0 {
        Seq::<NodeView>::empty()
    } else {
        collect_tc_in_node(s[0], tag, class) + collect_tc_in_nodes(s.drop_first(), tag, class)
    }
}

pub open spec fn collect_tc_in_node(n: NodeView, tag: Seq<char>, class: Seq<char>) -> Seq<
    NodeView,
>
    decreases n, 0int,
{
    match n {
        NodeView::Text(_) => Seq::<NodeView>::empty(),
        NodeView::Element { name, attrs, children } => {
            (if tag_class(n, tag, class) {
                seq![n]
            } else {
                Seq::<NodeView>::empty()
            }) + collect_tc_in_nodes(children, tag, class)
        },
    }
}

pub open spec fn refs_view(s: Seq<HtmlNode>) -> Seq<NodeView> {
    Seq::new(s.len(), |i: int| node_view(s[i]))
}

fn collect_tc_nodes(v: &Vec<HtmlNode>, i: usize, tag: &str, class: &str, out: &mut Vec<HtmlNode>)
    requires
        i <= v@.len(),
    ensures
        refs_view(final(out)@) == refs_view(old(out)@) + collect_tc_in_nodes(
            nodes_view(v@).skip(i as int),
            tag@,
            class@,
        ),
    decreases v@, v@.len() - i, 1int,
{
    proof {
        crate::dom::lemma_nodes_view_len(v@);
    }
    let ghost t = nodes_view(v@).skip(i as int);
    if i == v.len() {
        assert(refs_view(out@) =~~= refs_view(out@) + collect_tc_in_nodes(t, tag@, class@));
        return ;
    }
    proof {
        crate::dom::lemma_nodes_view_index(v@, i as int);
        assert(t[0] == node_view(v@[i as int]));
        assert(t.drop_first() =~= nodes_view(v@).skip(i + 1));
    }
    collect_tc_node(&v[i], tag, class, out);
    collect_tc_nodes(v, i + 1, tag, class, out);
    assert(refs_view(out@) =~~= refs_view(old(out)@) + collect_tc_in_nodes(t, tag@, class@));
}

fn collect_tc_node(n: &HtmlNode, tag: &str, class: &str, out: &mut Vec<HtmlNode>)
    ensures
        refs_view(final(out)@) == refs_view(old(out)@) + collect_tc_in_node(n@, tag@, class@),
    decreases *n, 0int,
{
    match n {
        HtmlNode::Text(_) => {
            assert(refs_view(out@) =~~= refs_view(out@) + collect_tc_in_node(n@, tag@, class@));
        },
        HtmlNode::Element(e) => {
            proof {
                assert(n@ == NodeView::Element {
                    name: e.name@,
                    attrs: attrs_view(e.attrs@),
                    children: nodes_view(e.children@),
                });
                assert(nodes_view(e.children@).skip(0) =~= nodes_view(e.children@));
            }
            if is_tag_class(e, tag, class) {
                let copied = HtmlNode::Element(
                    ElementNode {
                        name: e.name.clone(),
                        attrs: crate::dom::clone_attrs(&e.attrs),
                        children: clone_nodes(&e.children),
                    },
                );
                proof {
                    assert(node_view(copied) == n@);
                }
                out.push(copied);
                proof {
                    assert(refs_view(out@) =~~= refs_view(old(out)@) + seq![n@]);
                }
            }
            collect_tc_nodes(&e.children, 0, tag, class, out);
            assert(refs_view(out@) =~~= refs_view(old(out)@) + collect_tc_in_node(
                n@,
                tag@,
                class@,
            ));
        },
    }
}

/// A copy of a subtree forest.
pub fn clone_nodes(v: &Vec<HtmlNode>) -> (r: Vec<HtmlNode>)
    ensures
        nodes_view(r@) == nodes_view(v@),
    decreases v@, v@.len(), 1int,
{
    let mut out: Vec<HtmlNode> = Vec::new();
    clone_nodes_from(v, 0, &mut out);
    proof {
        assert(nodes_view(v@).skip(0) =~= nodes_view(v@));
    }
    out
}

fn clone_nodes_from(v: &Vec<HtmlNode>, i: usize, out: &mut Vec<HtmlNode>)
    requires
        i <= v@.len(),
    ensures
        nodes_view(final(out)@) == nodes_view(old(out)@) + nodes_view(v@).skip(i as int),
    decreases v@, v@.len() - i, 0int,
{
    proof {
        crate::dom::lemma_nodes_view_len(v@);
    }
    let ghost t = nodes_view(v@).skip(i as int);
    if i == v.len() {
        assert(nodes_view(out@) =~~= nodes_view(out@) + t);
        return ;
    }
    proof {
        crate::dom::lemma_nodes_view_index(v@, i as int);
        assert(t[0] == node_view(v@[i as int]));
        assert(t.drop_first() =~= nodes_view(v@).skip(i + 1));
    }
    let copied = clone_node(&v[i]);
    let ghost before = out@;
    out.push(copied);
    proof {
        crate::dom::lemma_nodes_view_push(before, copied);
        assert(nodes_view(out@) =~~= nodes_view(old(out)@) + seq![node_view(v@[i as int])]);
    }
    clone_nodes_from(v, i + 1, out);
    assert(nodes_view(out@) =~~= nodes_view(old(out)@) + t);
}

fn clone_node(n: &HtmlNode) -> (r: HtmlNode)
    ensures
        node_view(r) == node_view(*n),
    decreases *n, 0int, 0int,
{
    match n {
        HtmlNode::Text(t) => HtmlNode::Text(t.clone()),
        HtmlNode::Element(e) => {
            proof {
                assert(nodes_view(e.children@).skip(0) =~= nodes_view(e.children@));
            }
            let mut children: Vec<HtmlNode> = Vec::new();
            clone_nodes_from(&e.children, 0, &mut children);
            HtmlNode::Element(
                ElementNode {
                    name: e.name.clone(),
                    attrs: crate::dom::clone_attrs(&e.attrs),
                    children,
                },
            )
        },
    }
}

pub ghost struct VariantView {
    pub signature: Seq<char>,
    pub doc: Seq<char>,
}

/// One variant read off an aliased enum's page: its signature and its
/// documentation.
pub struct Variant {
    pub signature: String,
    pub doc: String,
}

impl View for Variant {
    type V = VariantView;

    open spec fn view(&self) -> VariantView {
        VariantView { signature: self.signature@, doc: self.doc@ }
    }
}

pub open spec fn variants_view(s: Seq<Variant>) -> Seq<VariantView> {
    Seq::new(s.len(), |i: int| s[i]@)
}

/// A function of an implementation block: its signature and documentation.
pub struct Function {
    pub signature: String,
    pub doc: String,
}

/// An implementation block: its signature and its functions.
pub struct Implementation {
    pub signature: String,
    pub functions: Vec<Function>,
}

/// The variants read out of one variants block: the i-th variant section
/// paired with the i-th documentation block; a section without a signature
/// heading is passed over.
pub open spec fn variants_of_div(sections: Seq<NodeView>, docs: Seq<NodeView>, i: int) -> Seq<
    VariantView,
>
    decreases sections.len() - i,
{
    if !(0 <= i < sections.len()) {
        Seq::<VariantView>::empty()
    } else {
        (match sections[i] {
            NodeView::Element { name, attrs, children } => {
                match find_tc_in_nodes(children, "h3"@, "code-header"@) {
                    Some(h) => seq![
                        VariantView {
                            signature: text_of_node(h),
                            doc: if i < docs.len() {
                                trim_spec(text_of_node(docs[i]))
                            } else {
                                Seq::<char>::empty()
                            },
                        },
                    ],
                    None => Seq::<VariantView>::empty(),
                }
            },
            NodeView::Text(_) => Seq::<VariantView>::empty(),
        }) + variants_of_div(sections, docs, i + 1)
    }
}

/// The variants read out of the variants blocks from position `i` on.
pub open spec fn variants_of_divs(divs: Seq<NodeView>, i: int) -> Seq<VariantView>
    decreases divs.len() - i,
{
    if !(0 <= i < divs.len()) {
        Seq::<VariantView>::empty()
    } else {
        (match divs[i] {
            NodeView::Element { name, attrs, children } => variants_of_div(
                collect_tc_in_nodes(children, "section"@, "variant"@),
                collect_tc_in_nodes(children, "div"@, "docblock"@),
                0,
            ),
            NodeView::Text(_) => Seq::<VariantView>::empty(),
        }) + variants_of_divs(divs, i + 1)
    }
}

/// The variants of the whole page.
pub open spec fn page_variants(f: Seq<NodeView>) -> Seq<VariantView> {
    variants_of_divs(collect_tc_in_nodes(f, "div"@, "variants"@), 0)
}

fn extract_variants_of_div(
    sections: &Vec<HtmlNode>,
    docs: &Vec<HtmlNode>,
    i: usize,
    out: &mut Vec<Variant>,
)
    requires
        i <= sections@.len(),
    ensures
        variants_view(final(out)@) == variants_view(old(out)@) + variants_of_div(
            refs_view(sections@),
            refs_view(docs@),
            i as int,
        ),
    decreases sections@.len() - i,
{
    let ghost sv = refs_view(sections@);
    let ghost dv = refs_view(docs@);
    if i == sections.len() {
        assert(variants_view(out@) =~~= variants_view(out@) + variants_of_div(sv, dv, i as int));
        return ;
    }
    match &sections[i] {
        HtmlNode::Element(e) => {
            proof {
                assert(sv[i as int] == node_view(sections@[i as int]));
                assert(nodes_view(e.children@).skip(0) =~= nodes_view(e.children@));
            }
            match find_tc_nodes(&e.children, 0, "h3", "code-header") {
                Some(h) => {
                    let mut sig: Vec<char> = Vec::new();
                    push_text_of_node(h, &mut sig);
                    let doc = if i < docs.len() {
                        let mut dtext: Vec<char> = Vec::new();
                        push_text_of_node(&docs[i], &mut dtext);
                        proof {
                            assert(dv[i as int] == node_view(docs@[i as int]));
                        }
                        trim_str(chars_string(&dtext).as_str())
                    } else {
                        String::new()
                    };
                    out.push(Variant { signature: chars_string(&sig), doc });
                    proof {
                        assert(variants_view(out@) =~~= variants_view(old(out)@) + seq![
                            VariantView {
                                signature: text_of_node(
                                    find_tc_in_nodes(
                                        nodes_view(e.children@),
                                        "h3"@,
                                        "code-header"@,
                                    )->0,
                                ),
                                doc: if i < dv.len() {
                                    trim_spec(text_of_node(dv[i as int]))
                                } else {
                                    Seq::<char>::empty()
                                },
                            },
                        ]);
                    }
                },
                None => {},
            }
        },
        HtmlNode::Text(_) => {
            proof {
                assert(sv[i as int] == node_view(sections@[i as int]));
            }
        },
    }
    extract_variants_of_div(sections, docs, i + 1, out);
    assert(variants_view(out@) =~~= variants_view(old(out)@) + variants_of_div(sv, dv, i as int));
}

fn extract_variants_of_divs(divs: &Vec<HtmlNode>, i: usize, out: &mut Vec<Variant>)
    requires
        i <= divs@.len(),
    ensures
        variants_view(final(out)@) == variants_view(old(out)@) + variants_of_divs(
            refs_view(divs@),
            i as int,
        ),
    decreases divs@.len() - i,
{
    let ghost t = refs_view(divs@);
    if i == divs.len() {
        assert(variants_view(out@) =~~= variants_view(out@) + variants_of_divs(t, i as int));
        return ;
    }
    match &divs[i] {
        HtmlNode::Element(e) => {
            proof {
                assert(t[i as int] == node_view(divs@[i as int]));
                assert(nodes_view(e.children@).skip(0) =~= nodes_view(e.children@));
            }
            let mut sections: Vec<HtmlNode> = Vec::new();
            collect_tc_nodes(&e.children, 0, "section", "variant", &mut sections);
            let mut docs: Vec<HtmlNode> = Vec::new();
            collect_tc_nodes(&e.children, 0, "div", "docblock", &mut docs);
            proof {
                assert(refs_view(sections@) =~~= collect_tc_in_nodes(
                    nodes_view(e.children@),
                    "section"@,
                    "variant"@,
                ));
                assert(refs_view(docs@) =~~= collect_tc_in_nodes(
                    nodes_view(e.children@),
                    "div"@,
                    "docblock"@,
                ));
            }
            extract_variants_of_div(&sections, &docs, 0, out);
        },
        HtmlNode::Text(_) => {
            proof {
                assert(t[i as int] == node_view(divs@[i as int]));
            }
        },
    }
    extract_variants_of_divs(divs, i + 1, out);
    assert(variants_view(out@) =~~= variants_view(old(out)@) + variants_of_divs(t, i as int));
}

} // verus!

verus! {

/// A type alias read off its documentation page, every part kept as the page
/// spells it.
pub struct TypeAlias {
    pub name: String,
    pub declaration: String,
    pub doc: String,
    pub aliased_type: String,
    pub variants: Vec<Variant>,
    pub implementations: Vec<Implementation>,
    pub trait_implementations: Vec<Implementation>,
}

/// The markdown of one function of an implementation block.
pub open spec fn functions_md(fs: Seq<Function>) -> Seq<char>
    decreases fs.len(),
{
    if fs.len() == 0 {
        Seq::<char>::empty()
    } else {
        "#### `"@ + fs[0].signature@ + "`\n\n"@ + fs[0].doc@ + "\n\n"@ + functions_md(
            fs.drop_first(),
        )
    }
}

/// The markdown of one implementation block.
pub open spec fn impl_md(imp: Implementation) -> Seq<char> {
    "### `"@ + imp.signature@ + "`\n\n"@ + functions_md(imp.functions@)
}

pub open spec fn impls_md(is: Seq<Implementation>) -> Seq<char>
    decreases is.len(),
{
    if is.len() == 0 {
        Seq::<char>::empty()
    } else {
        impl_md(is[0]) + impls_md(is.drop_first())
    }
}

/// One variant's line in the alias's Markdown.
pub open spec fn variant_md_lines(vs: Seq<Variant>) -> Seq<char>
    decreases vs.len(),
{
    if vs.len() == 0 {
        Seq::<char>::empty()
    } else {
        "- `"@ + vs[0].signature@ + "`: "@ + vs[0].doc@ + seq!['\n'] + variant_md_lines(
            vs.drop_first(),
        )
    }
}

/// The Markdown written for a parsed type alias: the heading, the declaration
/// in a code fence, the documentation, then the aliased type, the variants and
/// the implementations where the page carried them.
pub open spec fn alias_md_spec(ta: TypeAlias) -> Seq<char> {
    "# Type Alias `"@ + ta.name@ + "`\n\n"@ + "```rust\n"@ + ta.declaration@ + "\n```\n\n"@
        + ta.doc@ + "\n\n"@ + (if ta.aliased_type@.len() > 0 {
        "## Aliased Type\n\n```rust\n"@ + ta.aliased_type@ + "\n```\n\n"@
    } else {
        Seq::<char>::empty()
    }) + (if ta.variants@.len() > 0 {
        "## Variants\n\n"@ + variant_md_lines(ta.variants@) + seq!['\n']
    } else {
        Seq::<char>::empty()
    }) + (if ta.implementations@.len() > 0 {
        "## Implementations\n\n"@ + impls_md(ta.implementations@)
    } else {
        Seq::<char>::empty()
    }) + (if ta.trait_implementations@.len() > 0 {
        "## Trait Implementations\n\n"@ + impls_md(ta.trait_implementations@)
    } else {
        Seq::<char>::empty()
    })
}

/// Appends the markdown of one implementation block.
pub fn generate_implementation_markdown(implementation: &Implementation, output: &mut String)
    ensures
        final(output)@ == old(output)@ + impl_md(*implementation),
{
    let mut out: Vec<char> = Vec::new();
    append_str(&mut out, "### `");
    append_str(&mut out, implementation.signature.as_str());
    append_str(&mut out, "`\n\n");
    push_functions_md(&implementation.functions, 0, &mut out);
    proof {
        assert(implementation.functions@.skip(0) =~= implementation.functions@);
        assert(out@ =~= impl_md(*implementation));
    }
    output.append(chars_string(&out).as_str());
}

fn push_functions_md(fs: &Vec<Function>, i: usize, out: &mut Vec<char>)
    requires
        i <= fs@.len(),
    ensures
        final(out)@ == old(out)@ + functions_md(fs@.skip(i as int)),
    decreases fs@.len() - i,
{
    let ghost t = fs@.skip(i as int);
    if i == fs.len() {
        assert(out@ =~= out@ + functions_md(t));
        return ;
    }
    proof {
        assert(t[0] == fs@[i as int]);
        assert(t.drop_first() =~= fs@.skip(i + 1));
    }
    append_str(out, "#### `");
    append_str(out, fs[i].signature.as_str());
    append_str(out, "`\n\n");
    append_str(out, fs[i].doc.as_str());
    append_str(out, "\n\n");
    push_functions_md(fs, i + 1, out);
    assert(out@ =~= old(out)@ + functions_md(t));
}

fn push_impls_md(is: &Vec<Implementation>, i: usize, out: &mut Vec<char>)
    requires
        i <= is@.len(),
    ensures
        final(out)@ == old(out)@ + impls_md(is@.skip(i as int)),
    decreases is@.len() - i,
{
    let ghost t = is@.skip(i as int);
    if i == is.len() {
        assert(out@ =~= out@ + impls_md(t));
        return ;
    }
    proof {
        assert(t[0] == is@[i as int]);
        assert(t.drop_first() =~= is@.skip(i + 1));
    }
    append_str(out, "### `");
    append_str(out, is[i].signature.as_str());
    append_str(out, "`\n\n");
    push_functions_md(&is[i].functions, 0, out);
    proof {
        assert(is@[i as int].functions@.skip(0) =~= is@[i as int].functions@);
    }
    push_impls_md(is, i + 1, out);
    assert(out@ =~= old(out)@ + impls_md(t));
}

fn push_variant_md_lines(vs: &Vec<Variant>, i: usize, out: &mut Vec<char>)
    requires
        i <= vs@.len(),
    ensures
        final(out)@ == old(out)@ + variant_md_lines(vs@.skip(i as int)),
    decreases vs@.len() - i,
{
    let ghost t = vs@.skip(i as int);
    if i == vs.len() {
        assert(out@ =~= out@ + variant_md_lines(t));
        return ;
    }
    proof {
        assert(t[0] == vs@[i as int]);
        assert(t.drop_first() =~= vs@.skip(i + 1));
    }
    append_str(out, "- `");
    append_str(out, vs[i].signature.as_str());
    append_str(out, "`: ");
    append_str(out, vs[i].doc.as_str());
    out.push('\n');
    push_variant_md_lines(vs, i + 1, out);
    assert(out@ =~= old(out)@ + variant_md_lines(t));
}

/// The code block below the first declaration block, if any.
pub open spec fn decl_code_of(pre: Option<NodeView>) -> Option<NodeView> {
    match pre {
        Some(NodeView::Element { name, attrs, children }) => find_in_nodes(children, "code"@),
        _ => None,
    }
}

/// What the page's pieces parse to, in the forest of one parsed document.
pub open spec fn page_forest(html: Seq<char>) -> Seq<NodeView> {
    spec_forest(parsed_events(html), 0).0
}

impl TypeAlias {
    /// Parses a type-alias documentation page: the name from the heading, the
    /// declaration from the first declaration block's code, the description
    /// from the first documentation block, the aliased type from the
    /// declaration block after the aliased-type anchor (absent when the page
    /// has none), and the variants from the variants blocks. Fails exactly
    /// when a required piece is missing.
    pub fn from_str(html_str: &str) -> (r: Result<TypeAlias, Error>)
        ensures
            ({
                let f = page_forest(html_str@);
                let h1t = find_h1_type_nodes(f, false);
                let pre = find_decl_in_nodes(f);
                let code = decl_code_of(pre);
                let doc = find_tc_in_nodes(f, "div"@, "docblock"@);
                let adj = find_adjacent_in_nodes(f, false);
                let adj_code = decl_code_of(adj);
                &&& (r is Ok <==> h1t is Some && pre is Some && code is Some && doc is Some && (
                adj is None || adj_code is Some))
                &&& match r {
                    Ok(ta) => {
                        &&& ta.name@ == trim_spec(crate::dom::text_of_node(h1t->0))
                        &&& ta.declaration@ == trim_spec(crate::dom::text_of_node(code->0))
                        &&& ta.doc@ == trim_spec(crate::dom::text_of_node(doc->0))
                        &&& ta.aliased_type@ == (match adj {
                            Some(_) => trim_spec(crate::dom::text_of_node(adj_code->0)),
                            None => Seq::<char>::empty(),
                        })
                        &&& variants_view(ta.variants@) == page_variants(f)
                        &&& ta.implementations@.len() == 0
                        &&& ta.trait_implementations@.len() == 0
                    },
                    Err(e) => e is HtmlElementNotFound,
                }
            }),
    {
        let events = parse_events(html_str);
        let (forest, _end) = parse_forest(&events, 0);
        proof {
            assert(nodes_view(forest@).skip(0) =~= nodes_view(forest@));
        }
        let name = match find_h1_type_exec_nodes(&forest, 0, false) {
            Some(n) => {
                let mut text: Vec<char> = Vec::new();
                push_text_of_node(n, &mut text);
                trim_str(chars_string(&text).as_str())
            },
            None => {
                return Err(
                    Error::HtmlElementNotFound {
                        selector: String::from_str("h1 .type"),
                        detail: String::new(),
                    },
                );
            },
        };
        let declaration = match find_decl_nodes(&forest, 0) {
            Some(pre) => {
                match pre {
                    HtmlNode::Element(e) => {
                        proof {
                            assert(nodes_view(e.children@).skip(0) =~= nodes_view(e.children@));
                        }
                        match find_elem_in_nodes(&e.children, 0, "code") {
                            Some(code) => {
                                let mut text: Vec<char> = Vec::new();
                                push_text_of_node(code, &mut text);
                                trim_str(chars_string(&text).as_str())
                            },
                            None => {
                                return Err(
                                    Error::HtmlElementNotFound {
                                        selector: String::from_str("pre.rust.item-decl code"),
                                        detail: String::new(),
                                    },
                                );
                            },
                        }
                    },
                    HtmlNode::Text(_) => {
                        return Err(
                            Error::HtmlElementNotFound {
                                selector: String::from_str("pre.rust.item-decl code"),
                                detail: String::new(),
                            },
                        );
                    },
                }
            },
            None => {
                return Err(
                    Error::HtmlElementNotFound {
                        selector: String::from_str("pre.rust.item-decl"),
                        detail: String::new(),
                    },
                );
            },
        };
        let doc = match find_tc_nodes(&forest, 0, "div", "docblock") {
            Some(d) => {
                let mut text: Vec<char> = Vec::new();
                push_text_of_node(d, &mut text);
                trim_str(chars_string(&text).as_str())
            },
            None => {
                return Err(
                    Error::HtmlElementNotFound {
                        selector: String::from_str("div.docblock"),
                        detail: String::new(),
                    },
                );
            },
        };
        let aliased_type = match find_adjacent_nodes(&forest, 0, false) {
            Some(pre) => {
                match pre {
                    HtmlNode::Element(e) => {
                        proof {
                            assert(nodes_view(e.children@).skip(0) =~= nodes_view(e.children@));
                        }
                        match find_elem_in_nodes(&e.children, 0, "code") {
                            Some(code) => {
                                let mut text: Vec<char> = Vec::new();
                                push_text_of_node(code, &mut text);
                                trim_str(chars_string(&text).as_str())
                            },
                            None => {
                                return Err(
                                    Error::HtmlElementNotFound {
                                        selector: String::from_str(
                                            "#aliased-type + pre.rust.item-decl code",
                                        ),
                                        detail: String::new(),
                                    },
                                );
                            },
                        }
                    },
                    HtmlNode::Text(_) => {
                        return Err(
                            Error::HtmlElementNotFound {
                                selector: String::from_str(
                                    "#aliased-type + pre.rust.item-decl code",
                                ),
                                detail: String::new(),
                            },
                        );
                    },
                }
            },
            None => String::new(),
        };
        let mut divs: Vec<HtmlNode> = Vec::new();
        collect_tc_nodes(&forest, 0, "div", "variants", &mut divs);
        let mut variants: Vec<Variant> = Vec::new();
        extract_variants_of_divs(&divs, 0, &mut variants);
        proof {
            assert(refs_view(divs@) =~~= collect_tc_in_nodes(
                nodes_view(forest@),
                "div"@,
                "variants"@,
            ));
            assert(variants_view(variants@) =~~= page_variants(page_forest(html_str@)));
        }
        Ok(
            TypeAlias {
                name,
                declaration,
                doc,
                aliased_type,
                variants,
                implementations: Vec::new(),
                trait_implementations: Vec::new(),
            },
        )
    }

    /// Renders the parsed type alias as Markdown.
    pub fn markdown(&self) -> (r: String)
        ensures
            r@ == alias_md_spec(*self),
    {
        let mut out: Vec<char> = Vec::new();
        append_str(&mut out, "# Type Alias `");
        append_str(&mut out, self.name.as_str());
        append_str(&mut out, "`\n\n");
        append_str(&mut out, "```rust\n");
        append_str(&mut out, self.declaration.as_str());
        append_str(&mut out, "\n```\n\n");
        append_str(&mut out, self.doc.as_str());
        append_str(&mut out, "\n\n");
        if self.aliased_type.as_str().unicode_len() > 0 {
            append_str(&mut out, "## Aliased Type\n\n```rust\n");
            append_str(&mut out, self.aliased_type.as_str());
            append_str(&mut out, "\n```\n\n");
        }
        if self.variants.len() > 0 {
            append_str(&mut out, "## Variants\n\n");
            push_variant_md_lines(&self.variants, 0, &mut out);
            proof {
                assert(self.variants@.skip(0) =~= self.variants@);
            }
            out.push('\n');
        }
        if self.implementations.len() > 0 {
            append_str(&mut out, "## Implementations\n\n");
            push_impls_md(&self.implementations, 0, &mut out);
            proof {
                assert(self.implementations@.skip(0) =~= self.implementations@);
            }
        }
        if self.trait_implementations.len() > 0 {
            append_str(&mut out, "## Trait Implementations\n\n");
            push_impls_md(&self.trait_implementations, 0, &mut out);
            proof {
                assert(self.trait_implementations@.skip(0) =~= self.trait_implementations@);
            }
        }
        proof {
            assert(out@ =~= alias_md_spec(*self));
        }
        chars_string(&out)
    }
}

} // verus!
