//! The item-index builder and the formatting of the item-listing page: from
//! the "all items" page, one record per documented item mapping its full
//! dotted path to the fragment file that documents it.

use vstd::prelude::*;
use vstd::string::*;
use crate::dom::{AttrView, HtmlNode, NodeView, attrs_view, node_view, nodes_view, parse_forest,
    push_text_of_nodes, spec_forest, text_of_nodes};
use crate::error::Error;
use crate::html2md::{attr_of, get_attr};
use crate::scrape::{parse_events, parsed_events};
use crate::text::{append_str, chars_string, is_ws, is_ws_char, join_nl, join_nl_vec, lines_spec,
    split_lines_vec, starts_with_spec, starts_with_str, str_chars, str_eq, strings_view,
    word_clamped};

verus! {

/// Whether a class attribute value holds `token` as one whitespace-separated
/// word.
pub open spec fn class_has(c: Seq<char>, token: Seq<char>) -> bool
    decreases c.len(),
{
    if c.len() == 0 {
        false
    } else if is_ws(c[0]) {
        class_has(c.drop_first(), token)
    } else {
        let w = word_clamped(c);
        c.take(w) == token || class_has(c.skip(w), token)
    }
}

/// Whether the characters from `i` on hold `token` as one word.
fn class_has_from(v: &Vec<char>, i: usize, token: &str) -> (r: bool)
    requires
        i <= v@.len(),
    ensures
        r == class_has(v@.skip(i as int), token@),
    decreases v@.len() - i,
{
    let ghost t = v@.skip(i as int);
    if i == v.len() {
        return false;
    }
    proof {
        assert(t[0] == v@[i as int]);
        assert(t.drop_first() =~= v@.skip(i + 1));
    }
    if is_ws_char(v[i]) {
        return class_has_from(v, i + 1, token);
    }
    // scan the word
    let start = i;
    let mut k = i;
    while k < v.len() && !is_ws_char(v[k])
        invariant
            start <= k <= v@.len(),
            start < v@.len(),
            !is_ws(v@[start as int]),
            t == v@.skip(start as int),
            forall|q: int| start <= q < k ==> !is_ws(#[trigger] v@[q]),
        decreases v@.len() - k,
    {
        k = k + 1;
    }
    assert(k > start) by {
        if k == start {
            assert(!(k < v@.len() && !is_ws(v@[k as int])));
        }
    }
    let ghost w = k - start as int;
    proof {
        assert forall|q: int| 0 <= q < w implies !is_ws(#[trigger] t[q]) by {
            assert(t[q] == v@[start + q]);
        }
        if w < t.len() {
            assert(t[w] == v@[k as int]);
        }
        crate::text::lemma_word_run_eq(t, w);
        assert(word_clamped(t) == w);
    }
    // compare the word with the token
    let n = token.unicode_len();
    let mut same = n == k - start;
    let mut q: usize = 0;
    while q < n && same
        invariant
            q <= n,
            n == token@.len(),
            start < k <= v@.len(),
            t == v@.skip(start as int),
            w == k - start,
            same ==> n == k - start,
            same ==> forall|x: int| 0 <= x < q ==> v@[start + x] == token@[x],
            !same ==> t.take(w) != token@,
        decreases n - q, (if same { 1int } else { 0int }),
    {
        if v[start + q] != token.get_char(q) {
            proof {
                assert(t.take(w)[q as int] == v@[start + q]);
            }
            same = false;
        } else {
            q = q + 1;
        }
    }
    proof {
        if same {
            assert forall|x: int| 0 <= x < w implies t.take(w)[x] == token@[x] by {
                assert(t.take(w)[x] == v@[start + x]);
            }
            assert(t.take(w) =~= token@);
        } else {
            if n != k - start {
                assert(t.take(w).len() != token@.len());
            }
        }
    }
    if same {
        true
    } else {
        proof {
            assert(t.skip(w) =~= v@.skip(k as int));
        }
        class_has_from(v, k, token)
    }
}

/// Whether an element's class attribute holds the given class.
pub open spec fn has_class(attrs: Seq<AttrView>, token: Seq<char>) -> bool {
    match attr_of(attrs, "class"@) {
        Some(c) => class_has(c, token),
        None => false,
    }
}

pub(crate) fn elem_has_class(e: &crate::dom::ElementNode, token: &str) -> (r: bool)
    ensures
        r == has_class(attrs_view(e.attrs@), token@),
{
    match get_attr(e, "class") {
        Some(c) => {
            let v = str_chars(c.as_str());
            proof {
                assert(v@.skip(0) =~= v@);
            }
            class_has_from(&v, 0, token)
        },
        None => false,
    }
}

pub ghost struct AnchorView {
    pub text: Seq<char>,
    pub href: Option<Seq<char>>,
}

/// An anchor found in the item listing: its visible text and its target.
pub struct Anchor {
    pub text: String,
    pub href: Option<String>,
}

impl View for Anchor {
    type V = AnchorView;

    open spec fn view(&self) -> AnchorView {
        AnchorView {
            text: self.text@,
            href: match self.href {
                Some(h) => Some(h@),
                None => None,
            },
        }
    }
}

pub open spec fn anchors_view(s: Seq<Anchor>) -> Seq<AnchorView> {
    Seq::new(s.len(), |i: int| s[i]@)
}

/// The anchors selected from the item listing, in document order: every
/// anchor below a list item below a list marked as the item listing.
pub open spec fn anchors_in_node(n: NodeView, in_list: bool, in_item: bool) -> Seq<AnchorView>
    decreases n, 0int,
{
    match n {
        NodeView::Text(_) => Seq::<AnchorView>::empty(),
        NodeView::Element { name, attrs, children } => {
            let list = in_list || (name == "ul"@ && has_class(attrs, "all-items"@));
            let item = in_item || (list && name == "li"@);
            let below = anchors_in_nodes(children, list, item);
            if in_list && in_item && name == "a"@ {
                seq![
                    AnchorView { text: text_of_nodes(children), href: attr_of(attrs, "href"@) },
                ] + below
            } else {
                below
            }
        },
    }
}

pub open spec fn anchors_in_nodes(s: Seq<NodeView>, in_list: bool, in_item: bool) -> Seq<
    AnchorView,
>
    decreases s, 1int,
{
    if s.len() == 0 {
        Seq::<AnchorView>::empty()
    } else {
        anchors_in_node(s[0], in_list, in_item) + anchors_in_nodes(s.drop_first(), in_list, in_item)
    }
}

fn collect_anchors_node(n: &HtmlNode, in_list: bool, in_item: bool, out: &mut Vec<Anchor>)
    ensures
        anchors_view(final(out)@) == anchors_view(old(out)@) + anchors_in_node(n@, in_list, in_item),
    decreases *n, 0int,
{
    match n {
        HtmlNode::Text(_) => {
            assert(anchors_view(out@) =~= anchors_view(out@) + anchors_in_node(
                n@,
                in_list,
                in_item,
            ));
        },
        HtmlNode::Element(e) => {
            proof {
                assert(n@ == NodeView::Element {
                    name: e.name@,
                    attrs: attrs_view(e.attrs@),
                    children: nodes_view(e.children@),
                });
                assert(nodes_view(e.children@).skip(0) =~= nodes_view(e.children@));
            }
            let list = in_list || (str_eq(e.name.as_str(), "ul") && elem_has_class(e, "all-items"));
            let item = in_item || (list && str_eq(e.name.as_str(), "li"));
            if in_list && in_item && str_eq(e.name.as_str(), "a") {
                let mut text: Vec<char> = Vec::new();
                push_text_of_nodes(&e.children, 0, &mut text);
                let href = get_attr(e, "href");
                let anchor = Anchor { text: chars_string(&text), href };
                out.push(anchor);
                proof {
                    assert(anchors_view(out@) =~= anchors_view(old(out)@) + seq![
                        AnchorView {
                            text: text_of_nodes(nodes_view(e.children@)),
                            href: attr_of(attrs_view(e.attrs@), "href"@),
                        },
                    ]);
                }
                collect_anchors_nodes(&e.children, 0, list, item, out);
                assert(anchors_view(out@) =~= anchors_view(old(out)@) + anchors_in_node(
                    n@,
                    in_list,
                    in_item,
                ));
            } else {
                collect_anchors_nodes(&e.children, 0, list, item, out);
                assert(anchors_view(out@) =~= anchors_view(old(out)@) + anchors_in_node(
                    n@,
                    in_list,
                    in_item,
                ));
            }
        },
    }
}

fn collect_anchors_nodes(
    v: &Vec<HtmlNode>,
    i: usize,
    in_list: bool,
    in_item: bool,
    out: &mut Vec<Anchor>,
)
    requires
        i <= v@.len(),
    ensures
        anchors_view(final(out)@) == anchors_view(old(out)@) + anchors_in_nodes(
            nodes_view(v@).skip(i as int),
            in_list,
            in_item,
        ),
    decreases v@, v@.len() - i, 1int,
{
    proof {
        crate::dom::lemma_nodes_view_len(v@);
    }
    let ghost t = nodes_view(v@).skip(i as int);
    if i == v.len() {
        assert(anchors_view(out@) =~= anchors_view(out@) + anchors_in_nodes(t, in_list, in_item));
        return ;
    }
    proof {
        crate::dom::lemma_nodes_view_index(v@, i as int);
        assert(t[0] == node_view(v@[i as int]));
        assert(t.drop_first() =~= nodes_view(v@).skip(i + 1));
    }
    collect_anchors_node(&v[i], in_list, in_item, out);
    collect_anchors_nodes(v, i + 1, in_list, in_item, out);
    assert(anchors_view(out@) =~= anchors_view(old(out)@) + anchors_in_nodes(t, in_list, in_item));
}

pub ghost struct EntryView {
    pub path: Seq<char>,
    pub file: Seq<char>,
}

/// One record of the item-path map.
#[derive(Debug)]
pub struct MapEntry {
    pub path: String,
    pub file: String,
}

impl View for MapEntry {
    type V = EntryView;

    open spec fn view(&self) -> EntryView {
        EntryView { path: self.path@, file: self.file@ }
    }
}

pub open spec fn entries_view(s: Seq<MapEntry>) -> Seq<EntryView> {
    Seq::new(s.len(), |i: int| s[i]@)
}

/// The file mapped to `key`, if any.
pub open spec fn seq_lookup(s: Seq<EntryView>, key: Seq<char>) -> Option<Seq<char>>
    decreases s.len(),
{
    if s.len() == 0 {
        None
    } else if s[0].path == key {
        Some(s[0].file)
    } else {
        seq_lookup(s.drop_first(), key)
    }
}

/// The entries with `key` now mapped to `file`: an existing record is
/// replaced in place, a new key goes at the end.
pub open spec fn seq_upsert(s: Seq<EntryView>, key: Seq<char>, file: Seq<char>) -> Seq<EntryView>
    decreases s.len(),
{
    if s.len() == 0 {
        seq![EntryView { path: key, file }]
    } else if s[0].path == key {
        seq![EntryView { path: key, file }] + s.drop_first()
    } else {
        seq![s[0]] + seq_upsert(s.drop_first(), key, file)
    }
}

/// The item-path map: one record per documented item, keys unique.
#[derive(Debug)]
pub struct ItemMap {
    entries: Vec<MapEntry>,
}

impl View for ItemMap {
    type V = Seq<EntryView>;

    closed spec fn view(&self) -> Seq<EntryView> {
        entries_view(self.entries@)
    }
}

impl ItemMap {
    pub fn new() -> (r: ItemMap)
        ensures
            r@ == Seq::<EntryView>::empty(),
    {
        let r = ItemMap { entries: Vec::new() };
        proof {
            assert(r@ =~= Seq::<EntryView>::empty());
        }
        r
    }

    /// How many items are mapped.
    pub fn len(&self) -> (r: usize)
        ensures
            r == self@.len(),
    {
        self.entries.len()
    }

    /// The record at one position.
    pub fn entry_at(&self, i: usize) -> (r: (&String, &String))
        requires
            i < self@.len(),
        ensures
            r.0@ == self@[i as int].path,
            r.1@ == self@[i as int].file,
    {
        (&self.entries[i].path, &self.entries[i].file)
    }

    /// The file mapped to `key`, if any.
    pub fn get(&self, key: &str) -> (r: Option<&String>)
        ensures
            match r {
                Some(f) => seq_lookup(self@, key@) == Some(f@),
                None => seq_lookup(self@, key@) is None,
            },
    {
        proof {
            assert(self@.skip(0) =~= self@);
        }
        let mut i: usize = 0;
        while i < self.entries.len()
            invariant
                i <= self.entries@.len(),
                seq_lookup(self@, key@) == seq_lookup(self@.skip(i as int), key@),
                self@ == entries_view(self.entries@),
            decreases self.entries@.len() - i,
        {
            proof {
                assert(self@.skip(i as int)[0] == self.entries@[i as int]@);
                assert(self@.skip(i as int).drop_first() =~= self@.skip(i + 1));
            }
            if str_eq(self.entries[i].path.as_str(), key) {
                return Some(&self.entries[i].file);
            }
            i = i + 1;
        }
        proof {
            assert(self@.skip(i as int) =~= Seq::<EntryView>::empty());
        }
        None
    }

    /// Maps `key` to `file`, replacing an existing record for the key.
    pub fn insert(&mut self, key: String, file: String)
        ensures
            final(self)@ == seq_upsert(old(self)@, key@, file@),
    {
        let ghost orig = self@;
        let mut i: usize = 0;
        while i < self.entries.len()
            invariant
                i <= self.entries@.len(),
                orig == old(self)@,
                self@ == orig,
                self@ == entries_view(self.entries@),
                forall|q: int| 0 <= q < i ==> orig[q].path != key@,
            decreases self.entries@.len() - i,
        {
            proof {
                assert(orig[i as int] == self.entries@[i as int]@);
            }
            if str_eq(self.entries[i].path.as_str(), key.as_str()) {
                self.entries.set(i, MapEntry { path: key, file });
                proof {
                    lemma_upsert_found(orig, key@, file@, i as int);
                    assert(self@ =~= orig.update(
                        i as int,
                        EntryView { path: key@, file: file@ },
                    ));
                }
                return ;
            }
            i = i + 1;
        }
        self.entries.push(MapEntry { path: key, file });
        proof {
            lemma_upsert_missing(orig, key@, file@);
            assert(self@ =~= orig.push(EntryView { path: key@, file: file@ }));
        }
    }
}

/// Replacing a present key updates its record in place.
proof fn lemma_upsert_found(s: Seq<EntryView>, key: Seq<char>, file: Seq<char>, i: int)
    requires
        0 <= i < s.len(),
        s[i].path == key,
        forall|q: int| 0 <= q < i ==> s[q].path != key,
    ensures
        seq_upsert(s, key, file) == s.update(i, EntryView { path: key, file }),
    decreases s.len(),
{
    if i == 0 {
        assert(seq_upsert(s, key, file) =~= s.update(0, EntryView { path: key, file }));
    } else {
        assert(s.drop_first()[i - 1].path == key);
        assert forall|q: int| 0 <= q < i - 1 implies s.drop_first()[q].path != key by {
            assert(s.drop_first()[q] == s[q + 1]);
        }
        lemma_upsert_found(s.drop_first(), key, file, i - 1);
        assert(s.update(i, EntryView { path: key, file }).drop_first() =~= s.drop_first().update(
            i - 1,
            EntryView { path: key, file },
        ));
        assert(seq_upsert(s, key, file) =~= s.update(i, EntryView { path: key, file }));
    }
}

/// Inserting an absent key appends its record.
proof fn lemma_upsert_missing(s: Seq<EntryView>, key: Seq<char>, file: Seq<char>)
    requires
        forall|q: int| 0 <= q < s.len() ==> s[q].path != key,
    ensures
        seq_upsert(s, key, file) == s.push(EntryView { path: key, file }),
    decreases s.len(),
{
    if s.len() == 0 {
        assert(seq_upsert(s, key, file) =~= s.push(EntryView { path: key, file }));
    } else {
        assert forall|q: int| 0 <= q < s.drop_first().len() implies s.drop_first()[q].path
            != key by {
            assert(s.drop_first()[q] == s[q + 1]);
        }
        lemma_upsert_missing(s.drop_first(), key, file);
        assert(seq_upsert(s, key, file) =~= s.push(EntryView { path: key, file }));
    }
}

/// The full dotted path of one listed item: the crate's qualified name, the
/// path separator, then the anchor's visible text.
pub open spec fn full_path_of(prefix: Seq<char>, text: Seq<char>) -> Seq<char> {
    prefix + "::"@ + text
}

/// The map built from the listed anchors, in document order, each mapping the
/// item's full path to the anchor's target.
pub open spec fn mappings_of(anchors: Seq<AnchorView>, prefix: Seq<char>, acc: Seq<EntryView>) -> Seq<
    EntryView,
>
    decreases anchors.len(),
{
    if anchors.len() == 0 {
        acc
    } else {
        mappings_of(
            anchors.drop_first(),
            prefix,
            seq_upsert(acc, full_path_of(prefix, anchors[0].text), anchors[0].href->0),
        )
    }
}

/// Whether every listed anchor names a target.
pub open spec fn all_have_href(anchors: Seq<AnchorView>) -> bool {
    forall|i: int| 0 <= i < anchors.len() ==> (#[trigger] anchors[i].href) is Some
}

/// The anchors of the item listing of a whole document.
pub open spec fn listing_anchors(html: Seq<char>) -> Seq<AnchorView> {
    anchors_in_nodes(spec_forest(parsed_events(html), 0).0, false, false)
}

/// Scans the "all items" page and maps every listed item's full dotted path
/// (the crate's qualified name, `::`, the anchor's text) to the anchor's
/// fragment path. Fails when the page lists nothing, and when a listed anchor
/// has no target.
pub fn extract_item_mappings(crate_name: &str, html: &str) -> (r: Result<ItemMap, Error>)
    ensures
        ({
            let anchors = listing_anchors(html@);
            &&& (r is Ok <==> anchors.len() > 0 && all_have_href(anchors))
            &&& match r {
                Ok(m) => m@ == mappings_of(anchors, crate_name@, Seq::<EntryView>::empty()),
                Err(e) => e.spec_message() == if anchors.len() == 0 {
                    no_items_detail()
                } else {
                    no_href_detail()
                },
            }
        }),
{
    let events = parse_events(html);
    let (forest, _end) = parse_forest(&events, 0);
    let mut anchors: Vec<Anchor> = Vec::new();
    proof {
        assert(nodes_view(forest@).skip(0) =~= nodes_view(forest@));
    }
    collect_anchors_nodes(&forest, 0, false, false, &mut anchors);
    proof {
        assert(anchors_view(anchors@) =~= listing_anchors(html@));
    }
    if anchors.len() == 0 {
        proof {
            reveal_strlit("failed to find item mappings in documentation - no items found");
        }
        return Err(
            Error::HtmlElementNotFound {
                selector: String::from_str("ul.all-items li a"),
                detail: String::from_str(
                    "failed to find item mappings in documentation - no items found",
                ),
            },
        );
    }
    let mut map = ItemMap::new();
    let mut i: usize = 0;
    let ghost av = anchors_view(anchors@);
    proof {
        assert(av.skip(0) =~= av);
    }
    while i < anchors.len()
        invariant
            i <= anchors@.len(),
            av == anchors_view(anchors@),
            av == listing_anchors(html@),
            av.len() > 0,
            forall|q: int| 0 <= q < i ==> (#[trigger] av[q].href) is Some,
            mappings_of(av, crate_name@, Seq::<EntryView>::empty()) == mappings_of(
                av.skip(i as int),
                crate_name@,
                map@,
            ),
        decreases anchors@.len() - i,
    {
        proof {
            assert(av[i as int] == anchors@[i as int]@);
            assert(av.skip(i as int)[0] == av[i as int]);
            assert(av.skip(i as int).drop_first() =~= av.skip(i + 1));
        }
        match &anchors[i].href {
            Some(href) => {
                let mut key: Vec<char> = Vec::new();
                append_str(&mut key, crate_name);
                append_str(&mut key, "::");
                append_str(&mut key, anchors[i].text.as_str());
                proof {
                    assert(key@ =~= full_path_of(crate_name@, av[i as int].text));
                }
                map.insert(chars_string(&key), href.clone());
            },
            None => {
                proof {
                    reveal_strlit("href attribute not found in item link");
                }
                return Err(
                    Error::HtmlElementNotFound {
                        selector: String::from_str("ul.all-items li a[href]"),
                        detail: String::from_str("href attribute not found in item link"),
                    },
                );
            },
        }
        i = i + 1;
    }
    proof {
        assert(av.skip(i as int) =~= Seq::<AnchorView>::empty());
    }
    Ok(map)
}

/// The text surfaced when the listing page lists nothing.
pub open spec fn no_items_detail() -> Seq<char> {
    "failed to find item mappings in documentation - no items found"@
}

/// The text surfaced when a listed anchor has no target.
pub open spec fn no_href_detail() -> Seq<char> {
    "href attribute not found in item link"@
}

} // verus!

verus! {

/// The body lines of the listing with every list item prefixed by the crate's
/// qualified name, paired with the first prefixed item of each section.
pub open spec fn prefixed_lines(lines: Seq<Seq<char>>, cr: Seq<char>, in_section: bool) -> (
    Seq<Seq<char>>,
    Seq<Seq<char>>,
)
    decreases lines.len(),
{
    if lines.len() == 0 {
        (Seq::<Seq<char>>::empty(), Seq::<Seq<char>>::empty())
    } else {
        let line = lines[0];
        if starts_with_spec(line, "### "@) {
            let r = prefixed_lines(lines.drop_first(), cr, true);
            (seq![line] + r.0, r.1)
        } else if starts_with_spec(line, "- "@) {
            let item = cr + "::"@ + line.skip(2);
            let r = prefixed_lines(lines.drop_first(), cr, false);
            (
                seq!["- "@ + item] + r.0,
                if in_section {
                    seq![item] + r.1
                } else {
                    r.1
                },
            )
        } else {
            let r = prefixed_lines(lines.drop_first(), cr, in_section);
            (seq![line] + r.0, r.1)
        }
    }
}

/// The worked examples of the usage section: the first item of each of the
/// first three sections, or one generic example when no section listed items.
pub open spec fn usage_examples(items: Seq<Seq<char>>, cr: Seq<char>) -> Seq<Seq<char>> {
    if items.len() == 0 {
        seq!["cargo txt show "@ + cr + "::SomeItem"@]
    } else {
        Seq::new(
            if items.len() < 3 {
                items.len()
            } else {
                3
            },
            |i: int| "cargo txt show "@ + items[i],
        )
    }
}

/// The fixed lines that open the usage section.
pub open spec fn usage_head_lines() -> Seq<Seq<char>> {
    seq![
        Seq::<char>::empty(),
        "## Usage"@,
        Seq::<char>::empty(),
        "To view documentation for a specific item, use the `show` command:"@,
        Seq::<char>::empty(),
        "```shell"@,
        "cargo txt show <ITEM_PATH>"@,
        "```"@,
        Seq::<char>::empty(),
        "Examples:"@,
        Seq::<char>::empty(),
        "```shell"@,
    ]
}

/// The listing page formatted for the corpus: the crate's name becomes the
/// top heading, the original heading becomes a paragraph, every list item is
/// prefixed with the crate's qualified name, and a usage section closes the
/// file.
pub open spec fn format_all_md_spec(cr: Seq<char>, content: Seq<char>) -> Seq<char> {
    let lines = lines_spec(content);
    if lines.len() == 0 {
        join_nl(seq!["# "@ + cr, Seq::<char>::empty()])
    } else {
        let first = if starts_with_spec(lines[0], "# List of all items"@) {
            lines[0].skip(2)
        } else {
            lines[0]
        };
        let body = prefixed_lines(lines.drop_first(), cr, false);
        join_nl(
            seq!["# "@ + cr, Seq::<char>::empty(), first] + body.0 + usage_head_lines()
                + usage_examples(body.1, cr) + seq!["```"@],
        )
    }
}

fn prefix_lines_exec(
    lines: &Vec<String>,
    i: usize,
    cr: &str,
    in_section: bool,
    out: &mut Vec<String>,
    items: &mut Vec<String>,
)
    requires
        i <= lines@.len(),
    ensures
        ({
            let r = prefixed_lines(strings_view(lines@).skip(i as int), cr@, in_section);
            strings_view(final(out)@) == strings_view(old(out)@) + r.0 && strings_view(
                final(items)@,
            ) == strings_view(old(items)@) + r.1
        }),
    decreases lines@.len() - i,
{
    let ghost t = strings_view(lines@).skip(i as int);
    if i == lines.len() {
        assert(strings_view(out@) =~~= strings_view(out@) + prefixed_lines(t, cr@, in_section).0);
        assert(strings_view(items@) =~~= strings_view(items@) + prefixed_lines(
            t,
            cr@,
            in_section,
        ).1);
        return ;
    }
    proof {
        assert(t[0] == lines@[i as int]@);
        assert(t.drop_first() =~~= strings_view(lines@).skip(i + 1));
    }
    let line = &lines[i];
    if starts_with_str(line.as_str(), "### ") {
        out.push(line.clone());
        proof {
            assert(strings_view(out@) =~~= strings_view(old(out)@) + seq![t[0]]);
        }
        prefix_lines_exec(lines, i + 1, cr, true, out, items);
        proof {
            let r = prefixed_lines(t, cr@, in_section);
            assert(strings_view(out@) =~~= strings_view(old(out)@) + r.0);
            assert(strings_view(items@) =~~= strings_view(old(items)@) + r.1);
        }
    } else if starts_with_str(line.as_str(), "- ") {
        proof {
            reveal_strlit("- ");
        }
        let chars = str_chars(line.as_str());
        let mut item: Vec<char> = Vec::new();
        append_str(&mut item, cr);
        append_str(&mut item, "::");
        let mut p: usize = 2;
        while p < chars.len()
            invariant
                2 <= p <= chars@.len(),
                2 <= chars@.len(),
                item@ == cr@ + "::"@ + chars@.subrange(2, p as int),
            decreases chars@.len() - p,
        {
            item.push(chars[p]);
            assert(item@ =~~= cr@ + "::"@ + chars@.subrange(2, p + 1));
            p = p + 1;
        }
        proof {
            assert(chars@.subrange(2, chars@.len() as int) =~~= chars@.skip(2));
            assert(item@ == cr@ + "::"@ + t[0].skip(2));
        }
        let item_str = chars_string(&item);
        let mut prefixed: Vec<char> = Vec::new();
        append_str(&mut prefixed, "- ");
        append_str(&mut prefixed, item_str.as_str());
        out.push(chars_string(&prefixed));
        proof {
            assert(strings_view(out@) =~~= strings_view(old(out)@) + seq!["- "@ + (cr@ + "::"@ + t[0].skip(2))]);
        }
        if in_section {
            items.push(item_str);
            proof {
                assert(strings_view(items@) =~~= strings_view(old(items)@) + seq![
                    cr@ + "::"@ + t[0].skip(2),
                ]);
            }
        }
        prefix_lines_exec(lines, i + 1, cr, false, out, items);
        proof {
            let r = prefixed_lines(t, cr@, in_section);
            assert(("- "@ + (cr@ + "::"@ + t[0].skip(2))) =~~= ("- "@ + cr@ + "::"@ + t[0].skip(2)));
            assert(strings_view(out@) =~~= strings_view(old(out)@) + r.0);
            assert(strings_view(items@) =~~= strings_view(old(items)@) + r.1);
        }
    } else {
        out.push(line.clone());
        proof {
            assert(strings_view(out@) =~~= strings_view(old(out)@) + seq![t[0]]);
        }
        prefix_lines_exec(lines, i + 1, cr, in_section, out, items);
        proof {
            let r = prefixed_lines(t, cr@, in_section);
            assert(strings_view(out@) =~~= strings_view(old(out)@) + r.0);
            assert(strings_view(items@) =~~= strings_view(old(items)@) + r.1);
        }
    }
}

/// Formats the listing page for the corpus: the crate's name as the top
/// heading, the original heading demoted to a paragraph, every list item
/// prefixed with the crate's qualified name, and a usage section at the end
/// whose examples name the first item of each of the first three sections.
pub fn format_all_md(crate_name: &str, content: &str) -> (r: String)
    ensures
        r@ == format_all_md_spec(crate_name@, content@),
{
    let content_chars = str_chars(content);
    let lines = split_lines_vec(&content_chars);
    let mut result: Vec<String> = Vec::new();
    let mut heading: Vec<char> = Vec::new();
    append_str(&mut heading, "# ");
    append_str(&mut heading, crate_name);
    result.push(chars_string(&heading));
    result.push(String::new());
    if lines.len() == 0 {
        proof {
            assert(strings_view(result@) =~~= seq!["# "@ + crate_name@, Seq::<char>::empty()]);
        }
        return join_nl_vec(&result);
    }
    let ghost lv = strings_view(lines@);
    let first = &lines[0];
    if starts_with_str(first.as_str(), "# List of all items") {
        let chars = str_chars(first.as_str());
        let mut rest: Vec<char> = Vec::new();
        let mut p: usize = 2;
        proof {
            reveal_strlit("# List of all items");
        }
        while p < chars.len()
            invariant
                2 <= p <= chars@.len(),
                2 <= chars@.len(),
                rest@ == chars@.subrange(2, p as int),
            decreases chars@.len() - p,
        {
            rest.push(chars[p]);
            assert(rest@ =~~= chars@.subrange(2, p + 1));
            p = p + 1;
        }
        proof {
            assert(chars@.subrange(2, chars@.len() as int) =~~= chars@.skip(2));
        }
        result.push(chars_string(&rest));
    } else {
        result.push(first.clone());
    }
    proof {
        let firstline = if starts_with_spec(lv[0], "# List of all items"@) {
            lv[0].skip(2)
        } else {
            lv[0]
        };
        assert(strings_view(result@) =~~= seq!["# "@ + crate_name@, Seq::<char>::empty(), firstline]);
    }
    let mut items: Vec<String> = Vec::new();
    proof {
        assert(lv.skip(1) =~~= lv.drop_first());
        assert(strings_view(items@) =~~= Seq::<Seq<char>>::empty());
    }
    prefix_lines_exec(&lines, 1, crate_name, false, &mut result, &mut items);
    result.push(String::new());
    result.push(String::from_str("## Usage"));
    result.push(String::new());
    result.push(
        String::from_str("To view documentation for a specific item, use the `show` command:"),
    );
    result.push(String::new());
    result.push(String::from_str("```shell"));
    result.push(String::from_str("cargo txt show <ITEM_PATH>"));
    result.push(String::from_str("```"));
    result.push(String::new());
    result.push(String::from_str("Examples:"));
    result.push(String::new());
    result.push(String::from_str("```shell"));
    let ghost before_examples = strings_view(result@);
    let ghost body = prefixed_lines(lv.drop_first(), crate_name@, false);
    proof {
        assert(before_examples =~~= seq![
            "# "@ + crate_name@,
            Seq::<char>::empty(),
            (if starts_with_spec(lv[0], "# List of all items"@) {
                lv[0].skip(2)
            } else {
                lv[0]
            }),
        ] + body.0 + usage_head_lines());
    }
    if items.len() == 0 {
        let mut example: Vec<char> = Vec::new();
        append_str(&mut example, "cargo txt show ");
        append_str(&mut example, crate_name);
        append_str(&mut example, "::SomeItem");
        result.push(chars_string(&example));
        proof {
            assert(("cargo txt show "@ + crate_name@ + "::SomeItem"@) =~~= ("cargo txt show "@
                + (crate_name@ + "::SomeItem"@)));
            assert(strings_view(result@) =~~= before_examples + usage_examples(
                strings_view(items@),
                crate_name@,
            ));
        }
    } else {
        let count = if items.len() < 3 {
            items.len()
        } else {
            3
        };
        let mut k: usize = 0;
        while k < count
            invariant
                k <= count,
                count == (if strings_view(items@).len() < 3 {
                    strings_view(items@).len()
                } else {
                    3
                }),
                count <= items@.len(),
                strings_view(items@).len() > 0,
                strings_view(result@) == before_examples + usage_examples(
                    strings_view(items@),
                    crate_name@,
                ).take(k as int),
            decreases count - k,
        {
            proof {
                let ue0 = usage_examples(strings_view(items@), crate_name@);
                assert(ue0.take(k as int).len() == k);
                assert(strings_view(result@).len() == before_examples.len() + k);
            }
            let mut example: Vec<char> = Vec::new();
            append_str(&mut example, "cargo txt show ");
            append_str(&mut example, items[k].as_str());
            result.push(chars_string(&example));
            proof {
                let ue = usage_examples(strings_view(items@), crate_name@);
                assert(ue.len() == count);
                assert(ue[k as int] == "cargo txt show "@ + strings_view(items@)[k as int]);
                assert(example@ =~= ue[k as int]);
                assert(ue.take(k as int).len() == k);
                assert(strings_view(result@).len() == result@.len());
                assert(result@.len() == before_examples.len() + k + 1);
                assert(strings_view(result@) =~~= (before_examples + ue.take(k as int)).push(
                    example@,
                ));
                assert((before_examples + ue.take(k as int)).push(example@) =~~= before_examples
                    + ue.take(k + 1));
                assert(strings_view(result@) =~~= before_examples + ue.take(k + 1));
            }
            k = k + 1;
        }
        proof {
            assert(usage_examples(strings_view(items@), crate_name@).take(count as int)
                =~~= usage_examples(strings_view(items@), crate_name@));
        }
    }
    result.push(String::from_str("```"));
    proof {
        assert(strings_view(result@) =~~= seq![
            "# "@ + crate_name@,
            Seq::<char>::empty(),
            (if starts_with_spec(lv[0], "# List of all items"@) {
                lv[0].skip(2)
            } else {
                lv[0]
            }),
        ] + body.0 + usage_head_lines() + usage_examples(body.1, crate_name@) + seq!["```"@]);
    }
    join_nl_vec(&result)
}

} // verus!
