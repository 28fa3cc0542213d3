//! The document tree that the converters walk: a tagged-union node, either an
//! element (name, attributes, children) or a text node, together with the flat
//! event stream the tree is built from and the queries the converters need.

use vstd::prelude::*;

verus! {

/// One attribute of an element.
pub struct Attr {
    pub name: String,
    pub value: String,
}

/// One step of a depth-first walk over a parsed document: an element opens,
/// text appears, an element closes, or some other node kind passes by.
pub enum RawEvent {
    Open(String, Vec<Attr>),
    Text(String),
    Close,
    Other,
}

/// An element of the document tree.
pub struct ElementNode {
    pub name: String,
    pub attrs: Vec<Attr>,
    pub children: Vec<HtmlNode>,
}

/// A node of the document tree: an element or a run of text.
pub enum HtmlNode {
    Element(ElementNode),
    Text(String),
}

pub ghost struct AttrView {
    pub name: Seq<char>,
    pub value: Seq<char>,
}

pub ghost enum EventView {
    Open(Seq<char>, Seq<AttrView>),
    Text(Seq<char>),
    Close,
    Other,
}

pub ghost enum NodeView {
    Element { name: Seq<char>, attrs: Seq<AttrView>, children: Seq<NodeView> },
    Text(Seq<char>),
}

impl View for Attr {
    type V = AttrView;

    open spec fn view(&self) -> AttrView {
        AttrView { name: self.name@, value: self.value@ }
    }
}

pub open spec fn attrs_view(s: Seq<Attr>) -> Seq<AttrView> {
    Seq::new(s.len(), |i: int| s[i]@)
}

impl View for RawEvent {
    type V = EventView;

    open spec fn view(&self) -> EventView {
        match self {
            RawEvent::Open(name, attrs) => EventView::Open(name@, attrs_view(attrs@)),
            RawEvent::Text(t) => EventView::Text(t@),
            RawEvent::Close => EventView::Close,
            RawEvent::Other => EventView::Other,
        }
    }
}

pub open spec fn events_view(s: Seq<RawEvent>) -> Seq<EventView> {
    Seq::new(s.len(), |i: int| s[i]@)
}

/// The view of one tree node.
pub open spec fn node_view(n: HtmlNode) -> NodeView
    decreases n,
{
    match n {
        HtmlNode::Text(t) => NodeView::Text(t@),
        HtmlNode::Element(e) => NodeView::Element {
            name: e.name@,
            attrs: attrs_view(e.attrs@),
            children: nodes_view(e.children@),
        },
    }
}

/// The views of a sequence of tree nodes.
pub open spec fn nodes_view(s: Seq<HtmlNode>) -> Seq<NodeView>
    decreases s,
{
    if s.len() == 0 {
        Seq::<NodeView>::empty()
    } else {
        seq![node_view(s[0])].add(nodes_view(s.drop_first()))
    }
}

impl View for HtmlNode {
    type V = NodeView;

    open spec fn view(&self) -> NodeView {
        node_view(*self)
    }
}

pub proof fn lemma_nodes_view_len(s: Seq<HtmlNode>)
    ensures
        nodes_view(s).len() == s.len(),
    decreases s,
{
    if s.len() > 0 {
        lemma_nodes_view_len(s.drop_first());
    }
}

pub proof fn lemma_nodes_view_index(s: Seq<HtmlNode>, i: int)
    requires
        0 <= i < s.len(),
    ensures
        nodes_view(s).len() == s.len(),
        nodes_view(s)[i] == node_view(s[i]),
    decreases s,
{
    lemma_nodes_view_len(s);
    if i > 0 {
        lemma_nodes_view_index(s.drop_first(), i - 1);
    }
}

pub proof fn lemma_nodes_view_push(s: Seq<HtmlNode>, n: HtmlNode)
    ensures
        nodes_view(s.push(n)) == nodes_view(s).push(node_view(n)),
    decreases s,
{
    if s.len() == 0 {
        reveal_with_fuel(nodes_view, 2);
        assert(s.push(n).drop_first() =~= Seq::<HtmlNode>::empty());
        assert(s.push(n)[0] == n);
        assert(nodes_view(s.push(n)) == seq![node_view(n)].add(
            nodes_view(Seq::<HtmlNode>::empty()),
        ));
        assert(nodes_view(s.push(n)) =~= nodes_view(s).push(node_view(n)));
    } else {
        assert(s.push(n).drop_first() =~= s.drop_first().push(n));
        lemma_nodes_view_push(s.drop_first(), n);
        assert(nodes_view(s.push(n)) =~= nodes_view(s).push(node_view(n)));
    }
}

/// The forest read from `events` starting at position `i`, paired with the
/// position after it. A close event ends the forest; an open event starts an
/// element whose children are the forest that follows, up to its close.
pub open spec fn spec_forest(events: Seq<EventView>, i: int) -> (Seq<NodeView>, int)
    decreases events.len() - i,
{
    if !(0 <= i < events.len()) {
        (Seq::<NodeView>::empty(), if i < 0 { 0 } else { events.len() as int })
    } else {
        match events[i] {
            EventView::Close => (Seq::<NodeView>::empty(), i + 1),
            EventView::Other => spec_forest(events, i + 1),
            EventView::Text(t) => {
                let r = spec_forest(events, i + 1);
                (seq![NodeView::Text(t)].add(r.0), r.1)
            },
            EventView::Open(name, attrs) => {
                let c = spec_forest(events, i + 1);
                let j = forest_resume(events, i, c.1);
                let r = spec_forest(events, j);
                let node = NodeView::Element { name, attrs, children: c.0 };
                (seq![node].add(r.0), r.1)
            },
        }
    }
}

/// Where parsing resumes after an element's children: the position the child
/// parse reported, kept inside the event stream.
pub open spec fn forest_resume(events: Seq<EventView>, i: int, cont: int) -> int {
    if cont < i + 1 {
        i + 1
    } else if cont > events.len() {
        events.len() as int
    } else {
        cont
    }
}

/// Where a forest parse ends: never before where it started, never past the
/// end of the event stream.
pub proof fn lemma_spec_forest_bounds(events: Seq<EventView>, i: int)
    requires
        0 <= i <= events.len(),
    ensures
        i <= spec_forest(events, i).1 <= events.len(),
    decreases events.len() - i,
{
    if i < events.len() {
        match events[i] {
            EventView::Close => {},
            EventView::Other => {
                lemma_spec_forest_bounds(events, i + 1);
            },
            EventView::Text(_) => {
                lemma_spec_forest_bounds(events, i + 1);
            },
            EventView::Open(_, _) => {
                lemma_spec_forest_bounds(events, i + 1);
                let c = spec_forest(events, i + 1);
                lemma_spec_forest_bounds(events, forest_resume(events, i, c.1));
            },
        }
    }
}

/// Builds the subtree forest that starts at event `i`, returning the nodes and
/// the position after the forest.
pub fn parse_forest(events: &Vec<RawEvent>, i: usize) -> (r: (Vec<HtmlNode>, usize))
    requires
        i <= events@.len(),
    ensures
        nodes_view(r.0@) == spec_forest(events_view(events@), i as int).0,
        r.1 as int == spec_forest(events_view(events@), i as int).1,
        i <= r.1 <= events@.len(),
    decreases events@.len() - i,
{
    proof {
        assert(events_view(events@).len() == events@.len());
        lemma_spec_forest_bounds(events_view(events@), i as int);
    }
    if i == events.len() {
        return (Vec::new(), i);
    }
    proof {
        assert(events_view(events@)[i as int] == events@[i as int]@);
    }
    match &events[i] {
        RawEvent::Close => (Vec::new(), i + 1),
        RawEvent::Other => parse_forest(events, i + 1),
        RawEvent::Text(t) => {
            let (rest, j) = parse_forest(events, i + 1);
            let node = HtmlNode::Text(t.clone());
            let mut head: Vec<HtmlNode> = Vec::new();
            head.push(node);
            let ghost nv = node_view(head@[0]);
            let out = append_nodes(head, rest);
            proof {
                let s = spec_forest(events_view(events@), i as int);
                assert(out@.drop_first() =~= rest@);
                assert(nodes_view(out@) == seq![nv].add(nodes_view(rest@)));
                assert(nodes_view(out@) == s.0);
            }
            (out, j)
        },
        RawEvent::Open(name, attrs) => {
            let (children, j) = parse_forest(events, i + 1);
            let (rest, k) = parse_forest(events, j);
            let node = HtmlNode::Element(
                ElementNode { name: name.clone(), attrs: clone_attrs(attrs), children },
            );
            let mut head: Vec<HtmlNode> = Vec::new();
            head.push(node);
            let ghost nv = node_view(head@[0]);
            let out = append_nodes(head, rest);
            proof {
                let ev = events_view(events@);
                let s = spec_forest(ev, i as int);
                let c = spec_forest(ev, i + 1);
                assert(forest_resume(ev, i as int, c.1) == j as int);
                assert(out@.drop_first() =~= rest@);
                assert(nodes_view(out@) == seq![nv].add(nodes_view(rest@)));
                assert(nv == NodeView::Element {
                    name: ev[i as int]->Open_0,
                    attrs: ev[i as int]->Open_1,
                    children: c.0,
                });
                assert(nodes_view(out@) == s.0);
            }
            (out, k)
        },
    }
}

/// A copy of an attribute list.
pub fn clone_attrs(v: &Vec<Attr>) -> (r: Vec<Attr>)
    ensures
        r@ == v@,
{
    let mut r: Vec<Attr> = Vec::new();
    let mut i: usize = 0;
    while i < v.len()
        invariant
            i <= v@.len(),
            r@ == v@.subrange(0, i as int),
        decreases v@.len() - i,
    {
        let a = &v[i];
        r.push(Attr { name: a.name.clone(), value: a.value.clone() });
        assert(r@ =~= v@.subrange(0, i + 1));
        i = i + 1;
    }
    assert(r@ =~= v@);
    r
}

/// The first vector followed by the second.
pub fn append_nodes(a: Vec<HtmlNode>, b: Vec<HtmlNode>) -> (r: Vec<HtmlNode>)
    ensures
        r@ == a@ + b@,
{
    let mut r = a;
    let mut b = b;
    let ghost a0 = r@;
    let ghost b0 = b@;
    assert(r@ + b@ =~= a0 + b0);
    while b.len() > 0
        invariant
            r@ + b@ == a0 + b0,
        decreases b@.len(),
    {
        let x = b.remove(0);
        r.push(x);
        assert(r@ + b@ =~= a0 + b0);
    }
    assert(r@ =~= a0 + b0);
    r
}

} // verus!

verus! {

/// The raw text of a subtree: the text nodes' characters in document order.
pub open spec fn text_of_node(n: NodeView) -> Seq<char>
    decreases n, 0int,
{
    match n {
        NodeView::Text(t) => t,
        NodeView::Element { name, attrs, children } => text_of_nodes(children),
    }
}

pub open spec fn text_of_nodes(s: Seq<NodeView>) -> Seq<char>
    decreases s, 1int,
{
    if s.len() == 0 {
        Seq::<char>::empty()
    } else {
        text_of_node(s[0]) + text_of_nodes(s.drop_first())
    }
}

/// Appends the raw text of one subtree.
pub fn push_text_of_node(n: &HtmlNode, out: &mut Vec<char>)
    ensures
        final(out)@ == old(out)@ + text_of_node(n@),
    decreases *n, 0int,
{
    match n {
        HtmlNode::Text(t) => {
            crate::text::append_str(out, t.as_str());
        },
        HtmlNode::Element(e) => {
            proof {
                assert(n@ == NodeView::Element {
                    name: e.name@,
                    attrs: attrs_view(e.attrs@),
                    children: nodes_view(e.children@),
                });
                assert(nodes_view(e.children@).skip(0) =~= nodes_view(e.children@));
            }
            push_text_of_nodes(&e.children, 0, out);
        },
    }
}

/// Appends the raw text of the subtrees from position `i` on.
pub fn push_text_of_nodes(v: &Vec<HtmlNode>, i: usize, out: &mut Vec<char>)
    requires
        i <= v@.len(),
    ensures
        final(out)@ == old(out)@ + text_of_nodes(nodes_view(v@).skip(i as int)),
    decreases v@, v@.len() - i, 1int,
{
    proof {
        lemma_nodes_view_len(v@);
    }
    let ghost t = nodes_view(v@).skip(i as int);
    if i == v.len() {
        assert(out@ =~= out@ + text_of_nodes(t));
        return ;
    }
    proof {
        lemma_nodes_view_index(v@, i as int);
        assert(t[0] == node_view(v@[i as int]));
        assert(t.drop_first() =~= nodes_view(v@).skip(i + 1));
    }
    push_text_of_node(&v[i], out);
    push_text_of_nodes(v, i + 1, out);
    assert(out@ =~= old(out)@ + text_of_nodes(t));
}

} // verus!
