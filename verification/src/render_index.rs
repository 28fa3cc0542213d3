//! The renderer of the crate overview page: all public items grouped by kind,
//! groups and items alphabetically ordered, with item counts and a link to
//! each item's page.

use vstd::prelude::*;
use vstd::string::*;
use crate::html2md::{dec_str, push_dec};
use crate::model::{CrateData, CrateIndex, Item, ItemId, Visibility, find_item};
use crate::render::{documentation_spec, filename_spec, generate_filename, header_spec,
    item_type_name, get_item_type_name, render_documentation, render_header};
use crate::text::{append_str, chars_string, str_eq, strings_view};

verus! {

/// Strict alphabetical order on text, by character value.
pub open spec fn lex_lt(a: Seq<char>, b: Seq<char>) -> bool
    decreases a.len(),
{
    if b.len() == 0 {
        false
    } else if a.len() == 0 {
        true
    } else if a[0] == b[0] {
        lex_lt(a.drop_first(), b.drop_first())
    } else {
        (a[0] as u32) < (b[0] as u32)
    }
}

/// Whether `a` orders strictly before `b`.
pub fn str_lt(a: &str, b: &str) -> (r: bool)
    ensures
        r == lex_lt(a@, b@),
{
    let na = a.unicode_len();
    let nb = b.unicode_len();
    let mut i: usize = 0;
    proof {
        assert(a@.skip(0) =~= a@);
        assert(b@.skip(0) =~= b@);
    }
    while i < na && i < nb
        invariant
            i <= na,
            i <= nb,
            na == a@.len(),
            nb == b@.len(),
            lex_lt(a@, b@) == lex_lt(a@.skip(i as int), b@.skip(i as int)),
        decreases na - i,
    {
        let ca = a.get_char(i);
        let cb = b.get_char(i);
        proof {
            assert(a@.skip(i as int)[0] == a@[i as int]);
            assert(b@.skip(i as int)[0] == b@[i as int]);
            assert(a@.skip(i as int).drop_first() =~= a@.skip(i + 1));
            assert(b@.skip(i as int).drop_first() =~= b@.skip(i + 1));
        }
        if ca != cb {
            return (ca as u32) < (cb as u32);
        }
        i = i + 1;
    }
    proof {
        if i >= na {
            assert(a@.skip(i as int) =~= Seq::<char>::empty());
        } else {
            assert(b@.skip(i as int) =~= Seq::<char>::empty());
        }
    }
    na < nb
}

pub ghost struct GroupView {
    pub kind: Seq<char>,
    pub items: Seq<Seq<char>>,
}

/// One group of the overview: the items of one kind, alphabetically ordered.
pub struct Group {
    pub kind: String,
    pub items: Vec<String>,
}

impl View for Group {
    type V = GroupView;

    open spec fn view(&self) -> GroupView {
        GroupView { kind: self.kind@, items: strings_view(self.items@) }
    }
}

pub open spec fn groups_view(s: Seq<Group>) -> Seq<GroupView> {
    Seq::new(s.len(), |i: int| s[i]@)
}

/// The position a name takes in an ordered list: after everything that orders
/// strictly before it.
pub open spec fn point_from(items: Seq<Seq<char>>, x: Seq<char>, i: int) -> int
    decreases items.len() - i,
{
    if !(0 <= i < items.len()) {
        i
    } else if lex_lt(items[i], x) {
        point_from(items, x, i + 1)
    } else {
        i
    }
}

/// The group a kind belongs to, if one exists.
pub open spec fn group_of_from(gs: Seq<GroupView>, kind: Seq<char>, i: int) -> Option<int>
    decreases gs.len() - i,
{
    if !(0 <= i < gs.len()) {
        None
    } else if gs[i].kind == kind {
        Some(i)
    } else {
        group_of_from(gs, kind, i + 1)
    }
}

/// The position a new group's kind takes among the ordered group kinds.
pub open spec fn group_point_from(gs: Seq<GroupView>, kind: Seq<char>, i: int) -> int
    decreases gs.len() - i,
{
    if !(0 <= i < gs.len()) {
        i
    } else if lex_lt(gs[i].kind, kind) {
        group_point_from(gs, kind, i + 1)
    } else {
        i
    }
}

/// One item recorded into the groups: into its kind's group at its
/// alphabetical position, or opening a new group at the kind's position.
pub open spec fn add_entry(gs: Seq<GroupView>, kind: Seq<char>, name: Seq<char>) -> Seq<
    GroupView,
> {
    match group_of_from(gs, kind, 0) {
        Some(g) => gs.update(
            g,
            GroupView { kind, items: gs[g].items.insert(point_from(gs[g].items, name, 0), name) },
        ),
        None => gs.insert(
            group_point_from(gs, kind, 0),
            GroupView { kind, items: seq![name] },
        ),
    }
}

/// Whether the overview records an item: it is not the crate root, it has a
/// name, and it is public.
pub open spec fn listed(item: Item, root: ItemId) -> bool {
    &&& item.id != root
    &&& item.name is Some
    &&& item.visibility is Public
}

/// The groups built from the items from position `i` on.
pub open spec fn groups_of(items: Seq<Item>, root: ItemId, i: int, acc: Seq<GroupView>) -> Seq<
    GroupView,
>
    decreases items.len() - i,
{
    if !(0 <= i < items.len()) {
        acc
    } else {
        let item = items[i];
        let next = if listed(item, root) {
            add_entry(acc, item_type_name(item.inner), item.name->0@)
        } else {
            acc
        };
        groups_of(items, root, i + 1, next)
    }
}

proof fn lemma_point_bounds(items: Seq<Seq<char>>, x: Seq<char>, i: int)
    requires
        0 <= i <= items.len(),
    ensures
        i <= point_from(items, x, i) <= items.len(),
    decreases items.len() - i,
{
    if i < items.len() && lex_lt(items[i], x) {
        lemma_point_bounds(items, x, i + 1);
    }
}

proof fn lemma_group_point_bounds(gs: Seq<GroupView>, kind: Seq<char>, i: int)
    requires
        0 <= i <= gs.len(),
    ensures
        i <= group_point_from(gs, kind, i) <= gs.len(),
    decreases gs.len() - i,
{
    if i < gs.len() && lex_lt(gs[i].kind, kind) {
        lemma_group_point_bounds(gs, kind, i + 1);
    }
}

proof fn lemma_group_of_bounds(gs: Seq<GroupView>, kind: Seq<char>, i: int)
    requires
        0 <= i <= gs.len(),
    ensures
        match group_of_from(gs, kind, i) {
            Some(g) => i <= g < gs.len() && gs[g].kind == kind,
            None => true,
        },
    decreases gs.len() - i,
{
    if i < gs.len() && gs[i].kind != kind {
        lemma_group_of_bounds(gs, kind, i + 1);
    }
}

/// Records one item into the groups.
fn insert_entry(groups: &mut Vec<Group>, kind: &str, name: String)
    ensures
        groups_view(final(groups)@) == add_entry(groups_view(old(groups)@), kind@, name@),
{
    let ghost gv = groups_view(groups@);
    proof {
        lemma_group_of_bounds(gv, kind@, 0);
    }
    let mut g: usize = 0;
    let mut found = false;
    while g < groups.len() && !found
        invariant
            g <= groups@.len(),
            gv == groups_view(groups@),
            !found ==> group_of_from(gv, kind@, 0) == group_of_from(gv, kind@, g as int),
            found ==> g < groups@.len() && gv[g as int].kind == kind@ && group_of_from(
                gv,
                kind@,
                0,
            ) == Some(g as int),
        decreases groups@.len() - g, (if found { 0int } else { 1int }),
    {
        if str_eq(groups[g].kind.as_str(), kind) {
            found = true;
        } else {
            g = g + 1;
        }
    }
    if found {
        let grp = groups.remove(g);
        let ghost items_v = strings_view(grp.items@);
        proof {
            lemma_point_bounds(items_v, name@, 0);
        }
        let mut p: usize = 0;
        let items_len = grp.items.len();
        let mut grp = grp;
        while p < items_len && str_lt(grp.items[p].as_str(), name.as_str())
            invariant
                p <= items_len,
                items_len == grp.items@.len(),
                items_v == strings_view(grp.items@),
                point_from(items_v, name@, 0) == point_from(items_v, name@, p as int),
            decreases items_len - p,
        {
            proof {
                assert(items_v[p as int] == grp.items@[p as int]@);
            }
            p = p + 1;
        }
        proof {
            if p < items_len {
                assert(items_v[p as int] == grp.items@[p as int]@);
            }
            assert(point_from(items_v, name@, 0) == p as int);
        }
        let mut items = grp.items;
        items.insert(p, name);
        let newgrp = Group { kind: grp.kind, items };
        groups.insert(g, newgrp);
        proof {
            assert(strings_view(items@) =~~= items_v.insert(
                point_from(items_v, name@, 0),
                name@,
            ));
            assert(groups_view(groups@) =~~= add_entry(gv, kind@, name@));
        }
    } else {
        proof {
            lemma_group_point_bounds(gv, kind@, 0);
        }
        let mut q: usize = 0;
        while q < groups.len() && str_lt(groups[q].kind.as_str(), kind)
            invariant
                q <= groups@.len(),
                gv == groups_view(groups@),
                group_point_from(gv, kind@, 0) == group_point_from(gv, kind@, q as int),
            decreases groups@.len() - q,
        {
            q = q + 1;
        }
        proof {
            assert(group_point_from(gv, kind@, 0) == q as int);
        }
        let mut items: Vec<String> = Vec::new();
        items.push(name);
        let mut kindv: Vec<char> = Vec::new();
        append_str(&mut kindv, kind);
        groups.insert(q, Group { kind: chars_string(&kindv), items });
        proof {
            assert(strings_view(groups@[q as int].items@) =~~= seq![name@]);
            assert(groups_view(groups@) =~~= add_entry(gv, kind@, name@));
        }
    }
}

/// Groups the crate's public named items by kind, groups and items ordered
/// alphabetically; the crate root, private items and nameless items stay out.
pub fn group_items_by_type(krate: &CrateData) -> (r: Vec<Group>)
    ensures
        groups_view(r@) == groups_of(
            krate.index.items@,
            krate.root,
            0,
            Seq::<GroupView>::empty(),
        ),
{
    let mut groups: Vec<Group> = Vec::new();
    let items = &krate.index.items;
    let mut i: usize = 0;
    proof {
        assert(groups_view(groups@) =~~= Seq::<GroupView>::empty());
    }
    while i < items.len()
        invariant
            i <= items@.len(),
            items@ == krate.index.items@,
            groups_of(items@, krate.root, 0, Seq::<GroupView>::empty()) == groups_of(
                items@,
                krate.root,
                i as int,
                groups_view(groups@),
            ),
        decreases items@.len() - i,
    {
        let item = &items[i];
        let is_root = item.id.0 == krate.root.0;
        let keep = !is_root && match (&item.name, &item.visibility) {
            (Some(_), Visibility::Public) => true,
            _ => false,
        };
        if keep {
            let kind = get_item_type_name(&item.inner);
            let name = match &item.name {
                Some(n) => n.clone(),
                None => String::new(),
            };
            proof {
                assert(listed(items@[i as int], krate.root));
            }
            insert_entry(&mut groups, kind, name);
        } else {
            proof {
                assert(!listed(items@[i as int], krate.root));
            }
        }
        i = i + 1;
    }
    groups
}

} // verus!

verus! {

/// How many items the groups hold together.
pub open spec fn total_count(gs: Seq<GroupView>) -> int
    decreases gs.len(),
{
    if gs.len() == 0 {
        0int
    } else {
        gs[0].items.len() + total_count(gs.drop_first())
    }
}

proof fn lemma_total_count_bounds(gs: Seq<GroupView>)
    ensures
        total_count(gs) >= 0,
    decreases gs.len(),
{
    if gs.len() > 0 {
        lemma_total_count_bounds(gs.drop_first());
    }
}

/// One line of the counts section per group.
pub open spec fn count_lines(gs: Seq<GroupView>) -> Seq<char>
    decreases gs.len(),
{
    if gs.len() == 0 {
        Seq::<char>::empty()
    } else {
        "- **"@ + gs[0].kind + "**: "@ + dec_str(gs[0].items.len() as int) + seq!['\n']
            + count_lines(gs.drop_first())
    }
}

/// The item-counts section: the total, then one line per kind; a note when
/// the crate has no public items.
pub open spec fn item_counts_spec(gs: Seq<GroupView>) -> Seq<char> {
    if gs.len() == 0 {
        "## Item Counts\n\nNo public items found.\n"@
    } else {
        "## Item Counts\n\n**Total**: "@ + dec_str(total_count(gs)) + " public items\n\n"@
            + count_lines(gs)
    }
}

fn push_count_lines(groups: &Vec<Group>, i: usize, out: &mut Vec<char>)
    requires
        i <= groups@.len(),
    ensures
        final(out)@ == old(out)@ + count_lines(groups_view(groups@).skip(i as int)),
    decreases groups@.len() - i,
{
    let ghost t = groups_view(groups@).skip(i as int);
    if i == groups.len() {
        assert(out@ =~= out@ + count_lines(t));
        return ;
    }
    proof {
        assert(t[0] == groups@[i as int]@);
        assert(t.drop_first() =~= groups_view(groups@).skip(i + 1));
    }
    append_str(out, "- **");
    append_str(out, groups[i].kind.as_str());
    append_str(out, "**: ");
    proof {
        assert(strings_view(groups@[i as int].items@).len() == groups@[i as int].items@.len());
    }
    push_dec(groups[i].items.len() as u128, out);
    out.push('\n');
    push_count_lines(groups, i + 1, out);
    assert(out@ =~= old(out)@ + count_lines(t));
}

/// Renders the item-counts section of the overview.
pub fn render_item_counts(groups: &Vec<Group>) -> (r: String)
    ensures
        r@ == item_counts_spec(groups_view(groups@)),
{
    let mut out: Vec<char> = Vec::new();
    if groups.len() == 0 {
        append_str(&mut out, "## Item Counts\n\nNo public items found.\n");
        return chars_string(&out);
    }
    append_str(&mut out, "## Item Counts\n\n**Total**: ");
    let mut total: u128 = 0;
    let mut i: usize = 0;
    let ghost gv = groups_view(groups@);
    proof {
        assert(gv.skip(0) =~= gv);
        lemma_total_count_bounds(gv);
    }
    while i < groups.len()
        invariant
            i <= groups@.len(),
            gv == groups_view(groups@),
            total_count(gv) == total + total_count(gv.skip(i as int)),
            total <= u64::MAX as u128 * i as u128,
        decreases groups@.len() - i,
    {
        proof {
            assert(gv.skip(i as int)[0] == groups@[i as int]@);
            assert(gv.skip(i as int).drop_first() =~= gv.skip(i + 1));
            assert(strings_view(groups@[i as int].items@).len() == groups@[i as int].items@.len());
        }
        total = total + groups[i].items.len() as u128;
        i = i + 1;
    }
    proof {
        assert(gv.skip(i as int) =~= Seq::<GroupView>::empty());
        assert(total == total_count(gv));
    }
    push_dec(total, &mut out);
    append_str(&mut out, " public items\n\n");
    push_count_lines(groups, 0, &mut out);
    proof {
        assert(out@ =~= item_counts_spec(gv));
    }
    chars_string(&out)
}

/// The link lines of one group's items.
pub open spec fn item_link_lines(items: Seq<Seq<char>>) -> Seq<char>
    decreases items.len(),
{
    if items.len() == 0 {
        Seq::<char>::empty()
    } else {
        "- ["@ + items[0] + "]("@ + filename_spec(items[0]) + ")\n"@ + item_link_lines(
            items.drop_first(),
        )
    }
}

/// The item lists of the overview: per nonempty group, a header and a link
/// per item.
pub open spec fn item_lists_spec(gs: Seq<GroupView>) -> Seq<char>
    decreases gs.len(),
{
    if gs.len() == 0 {
        Seq::<char>::empty()
    } else {
        (if gs[0].items.len() == 0 {
            Seq::<char>::empty()
        } else {
            header_spec(3, gs[0].kind) + "\n\n"@ + item_link_lines(gs[0].items) + seq!['\n']
        }) + item_lists_spec(gs.drop_first())
    }
}

fn push_item_link_lines(items: &Vec<String>, i: usize, out: &mut Vec<char>)
    requires
        i <= items@.len(),
    ensures
        final(out)@ == old(out)@ + item_link_lines(strings_view(items@).skip(i as int)),
    decreases items@.len() - i,
{
    let ghost t = strings_view(items@).skip(i as int);
    if i == items.len() {
        assert(out@ =~= out@ + item_link_lines(t));
        return ;
    }
    proof {
        assert(t[0] == items@[i as int]@);
        assert(t.drop_first() =~= strings_view(items@).skip(i + 1));
    }
    append_str(out, "- [");
    append_str(out, items[i].as_str());
    append_str(out, "](");
    let fname = generate_filename(items[i].as_str());
    append_str(out, fname.as_str());
    append_str(out, ")\n");
    push_item_link_lines(items, i + 1, out);
    assert(out@ =~= old(out)@ + item_link_lines(t));
}

fn push_item_lists(groups: &Vec<Group>, i: usize, out: &mut Vec<char>)
    requires
        i <= groups@.len(),
    ensures
        final(out)@ == old(out)@ + item_lists_spec(groups_view(groups@).skip(i as int)),
    decreases groups@.len() - i,
{
    let ghost t = groups_view(groups@).skip(i as int);
    if i == groups.len() {
        assert(out@ =~= out@ + item_lists_spec(t));
        return ;
    }
    proof {
        assert(t[0] == groups@[i as int]@);
        assert(t.drop_first() =~= groups_view(groups@).skip(i + 1));
        assert(strings_view(groups@[i as int].items@).len() == groups@[i as int].items@.len());
    }
    if groups[i].items.len() > 0 {
        let header = render_header(3, groups[i].kind.as_str());
        append_str(out, header.as_str());
        append_str(out, "\n\n");
        push_item_link_lines(&groups[i].items, 0, out);
        proof {
            assert(strings_view(groups@[i as int].items@).skip(0) =~= strings_view(
                groups@[i as int].items@,
            ));
        }
        out.push('\n');
    }
    push_item_lists(groups, i + 1, out);
    assert(out@ =~= old(out)@ + item_lists_spec(t));
}

/// Renders the item lists of the overview.
pub fn render_item_lists(groups: &Vec<Group>) -> (r: String)
    ensures
        r@ == item_lists_spec(groups_view(groups@)),
{
    let mut out: Vec<char> = Vec::new();
    push_item_lists(groups, 0, &mut out);
    proof {
        assert(groups_view(groups@).skip(0) =~= groups_view(groups@));
    }
    chars_string(&out)
}

/// The overview page of a crate: its name, its documentation, the item
/// counts, the item lists, and a closing action; nothing when the index does
/// not hold the root module.
pub open spec fn index_content_spec(krate: CrateData) -> Option<Seq<char>> {
    match find_item(krate.index.items@, krate.root) {
        None => None,
        Some(root_item) => {
            let crate_name = match root_item.name {
                Some(n) => n@,
                None => "Unknown"@,
            };
            let docs = documentation_spec(
                match root_item.docs {
                    Some(d) => Some(d@),
                    None => None,
                },
            );
            let gs = groups_of(krate.index.items@, krate.root, 0, Seq::<GroupView>::empty());
            Some(
                header_spec(2, crate_name) + "\n\n"@ + (if docs.len() > 0 {
                    docs + "\n\n"@
                } else {
                    Seq::<char>::empty()
                }) + item_counts_spec(gs) + "\n\n"@ + item_lists_spec(gs) + "\n\n"@
                    + "## Next Actions\n\n- View source: `cargo docmd browse --crate "@ + crate_name
                    + "`\n"@,
            )
        },
    }
}

/// Renders the overview page of a crate, or nothing when the index does not
/// hold the root module.
pub fn render_index_content(krate: &CrateData) -> (r: Option<String>)
    ensures
        match r {
            Some(s) => index_content_spec(*krate) == Some(s@),
            None => index_content_spec(*krate) is None,
        },
{
    let root_item = match krate.index.get(krate.root) {
        Some(it) => it,
        None => {
            return None;
        },
    };
    let mut out: Vec<char> = Vec::new();
    let crate_name = match &root_item.name {
        Some(n) => n.as_str(),
        None => "Unknown",
    };
    let header = render_header(2, crate_name);
    append_str(&mut out, header.as_str());
    append_str(&mut out, "\n\n");
    let docs = render_documentation(&root_item.docs);
    if docs.as_str().unicode_len() > 0 {
        append_str(&mut out, docs.as_str());
        append_str(&mut out, "\n\n");
    }
    let groups = group_items_by_type(krate);
    let counts = render_item_counts(&groups);
    append_str(&mut out, counts.as_str());
    append_str(&mut out, "\n\n");
    let lists = render_item_lists(&groups);
    append_str(&mut out, lists.as_str());
    append_str(&mut out, "\n\n");
    append_str(&mut out, "## Next Actions\n\n- View source: `cargo docmd browse --crate ");
    append_str(&mut out, crate_name);
    append_str(&mut out, "`\n");
    proof {
        assert(out@ =~= index_content_spec(*krate)->0);
    }
    Some(chars_string(&out))
}

} // verus!
