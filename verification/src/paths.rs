//! The path-addressing scheme: dotted item paths are parsed into a crate name
//! and an item part, caller input is validated before any resolution, and a
//! resolved item maps to the Markdown file generated for it.

use vstd::prelude::*;
use vstd::string::*;
use crate::error::{Error, OpenError};
use crate::listing::{ItemMap, seq_lookup};
use crate::text::{append_str, chars_string, str_chars, strings_view};

verus! {

/// The position of the first path separator (`::`) at or after `i`, or the
/// end of the text when none follows.
pub open spec fn find_sep(s: Seq<char>, i: int) -> int
    decreases s.len() - i,
{
    if !(0 <= i) || i >= s.len() {
        s.len() as int
    } else if i + 2 <= s.len() && s[i] == ':' && s[i + 1] == ':' {
        i
    } else {
        find_sep(s, i + 1)
    }
}

pub proof fn lemma_find_sep_bounds(s: Seq<char>, i: int)
    requires
        0 <= i <= s.len(),
    ensures
        i <= find_sep(s, i) <= s.len(),
        find_sep(s, i) < s.len() ==> find_sep(s, i) + 2 <= s.len() && s[find_sep(s, i)] == ':'
            && s[find_sep(s, i) + 1] == ':',
    decreases s.len() - i,
{
    if i < s.len() && !(i + 2 <= s.len() && s[i] == ':' && s[i + 1] == ':') {
        lemma_find_sep_bounds(s, i + 1);
    }
}

/// The first separator is no later than any separator.
pub proof fn lemma_find_sep_first(s: Seq<char>, i: int, p: int)
    requires
        0 <= i <= p,
        p + 2 <= s.len(),
        s[p] == ':',
        s[p + 1] == ':',
    ensures
        find_sep(s, i) <= p,
    decreases p - i,
{
    if i < p && !(i + 2 <= s.len() && s[i] == ':' && s[i + 1] == ':') {
        lemma_find_sep_first(s, i + 1, p);
    }
}

/// The segments of a path: the text split at each `::`, scanning left to
/// right without overlap.
pub open spec fn split_sep(s: Seq<char>, i: int) -> Seq<Seq<char>>
    decreases s.len() - i,
    when 0 <= i <= s.len()
    via split_sep_decreases
{
    let j = find_sep(s, i);
    if j >= s.len() {
        seq![s.subrange(i, s.len() as int)]
    } else {
        seq![s.subrange(i, j)] + split_sep(s, j + 2)
    }
}

#[via_fn]
proof fn split_sep_decreases(s: Seq<char>, i: int) {
    lemma_find_sep_bounds(s, i);
}

/// The segments of a whole path.
pub open spec fn path_segments(s: Seq<char>) -> Seq<Seq<char>> {
    split_sep(s, 0)
}

pub proof fn lemma_split_sep_len(s: Seq<char>, i: int)
    requires
        0 <= i <= s.len(),
    ensures
        split_sep(s, i).len() >= 1,
    decreases s.len() - i,
{
    lemma_find_sep_bounds(s, i);
}

/// Splits a path at each `::`.
pub fn split_path(s: &str) -> (r: Vec<String>)
    ensures
        strings_view(r@) == path_segments(s@),
        r@.len() >= 1,
{
    let v = str_chars(s);
    let mut out: Vec<String> = Vec::new();
    split_path_from(&v, 0, &mut out);
    proof {
        lemma_split_sep_len(v@, 0);
        assert(strings_view(out@) =~~= path_segments(s@));
        assert(strings_view(out@).len() == out@.len());
    }
    out
}

fn split_path_from(v: &Vec<char>, i: usize, out: &mut Vec<String>)
    requires
        i <= v@.len(),
    ensures
        strings_view(final(out)@) == strings_view(old(out)@) + split_sep(v@, i as int),
    decreases v@.len() - i,
{
    proof {
        lemma_find_sep_bounds(v@, i as int);
    }
    let mut j = i;
    while j < v.len() && !(j + 1 < v.len() && v[j] == ':' && v[j + 1] == ':')
        invariant
            i <= j <= v@.len(),
            find_sep(v@, i as int) == find_sep(v@, j as int),
        decreases v@.len() - j,
    {
        j = j + 1;
    }
    proof {
        assert(find_sep(v@, i as int) == j as int);
    }
    let mut seg: Vec<char> = Vec::new();
    let mut p = i;
    while p < j
        invariant
            i <= p <= j <= v@.len(),
            seg@ == v@.subrange(i as int, p as int),
        decreases j - p,
    {
        seg.push(v[p]);
        assert(seg@ =~= v@.subrange(i as int, p + 1));
        p = p + 1;
    }
    out.push(chars_string(&seg));
    if j < v.len() {
        proof {
            assert(strings_view(out@) =~~= strings_view(old(out)@) + seq![
                v@.subrange(i as int, j as int),
            ]);
        }
        split_path_from(v, j + 2, out);
        assert(strings_view(out@) =~~= strings_view(old(out)@) + split_sep(v@, i as int));
    } else {
        assert(strings_view(out@) =~~= strings_view(old(out)@) + split_sep(v@, i as int));
    }
}

/// The segments joined back with `::` between each two.
pub open spec fn join_sep(parts: Seq<Seq<char>>) -> Seq<char>
    decreases parts.len(),
{
    if parts.len() == 0 {
        Seq::<char>::empty()
    } else if parts.len() == 1 {
        parts[0]
    } else {
        parts[0] + "::"@ + join_sep(parts.drop_first())
    }
}

fn join_path_from(v: &Vec<String>, i: usize, out: &mut Vec<char>)
    requires
        i <= v@.len(),
    ensures
        final(out)@ == old(out)@ + join_sep(strings_view(v@).skip(i as int)),
    decreases v@.len() - i,
{
    let ghost t = strings_view(v@).skip(i as int);
    if i == v.len() {
        assert(out@ =~= out@ + join_sep(t));
        return ;
    }
    proof {
        assert(t[0] == v@[i as int]@);
        assert(t.drop_first() =~= strings_view(v@).skip(i + 1));
    }
    append_str(out, v[i].as_str());
    if i + 1 < v.len() {
        append_str(out, "::");
        join_path_from(v, i + 1, out);
        assert(out@ =~= old(out)@ + join_sep(t));
    } else {
        assert(t.len() == 1);
        assert(out@ =~= old(out)@ + join_sep(t));
    }
}

/// A parsed item path: the crate named by its first segment, and what remains
/// after the first separator, if anything does.
#[derive(Debug)]
pub struct ParsedItemPath {
    pub crate_name: String,
    pub item: Option<String>,
}

/// What parsing an item path yields: nothing when the path starts with a
/// separator or is empty, otherwise the first segment and the joined rest.
pub open spec fn parse_item_path_spec(s: Seq<char>) -> Option<(Seq<char>, Option<Seq<char>>)> {
    let parts = path_segments(s);
    if parts[0].len() == 0 {
        None
    } else if parts.len() == 1 {
        Some((parts[0], None))
    } else {
        Some((parts[0], Some(join_sep(parts.drop_first()))))
    }
}

/// Parses an item path into the crate name and the item part. Fails exactly
/// when the path has an empty first segment: an empty path, a leading
/// separator, or only separators.
pub fn parse_item_path(item_path: &str) -> (r: Result<ParsedItemPath, Error>)
    ensures
        match r {
            Ok(p) => parse_item_path_spec(item_path@) == Some(
                (
                    p.crate_name@,
                    match p.item {
                        Some(it) => Some(it@),
                        None => None,
                    },
                ),
            ),
            Err(e) => {
                &&& parse_item_path_spec(item_path@) is None
                &&& e == Error::Open(OpenError::InvalidItemPath { item_path: item_path_owned(e) })
                &&& invalid_item_path_input(e) == item_path@
            },
        },
        r is Ok <==> parse_item_path_spec(item_path@) is Some,
{
    let parts = split_path(item_path);
    proof {
        assert(strings_view(parts@)[0] == parts@[0]@);
    }
    if parts[0].as_str().unicode_len() == 0 {
        return Err(
            Error::Open(OpenError::InvalidItemPath { item_path: String::from_str(item_path) }),
        );
    }
    if parts.len() == 1 {
        let crate_name = parts[0].clone();
        return Ok(ParsedItemPath { crate_name, item: None });
    }
    let crate_name = parts[0].clone();
    let mut rest: Vec<char> = Vec::new();
    join_path_from(&parts, 1, &mut rest);
    proof {
        assert(strings_view(parts@).skip(1) =~= strings_view(parts@).drop_first());
        assert(rest@ == join_sep(path_segments(item_path@).drop_first()));
    }
    Ok(ParsedItemPath { crate_name, item: Some(chars_string(&rest)) })
}

/// The path an invalid-item-path error carries.
pub open spec fn invalid_item_path_input(e: Error) -> Seq<char> {
    e->Open_0->InvalidItemPath_item_path@
}

/// The owned form of that path (for stating which error value is returned).
pub open spec fn item_path_owned(e: Error) -> String {
    e->Open_0->InvalidItemPath_item_path
}

/// Whether every segment of the path is nonempty.
pub open spec fn path_well_formed(s: Seq<char>) -> bool {
    forall|k: int|
        0 <= k < path_segments(s).len() ==> (#[trigger] path_segments(s)[k]).len() > 0
}

/// Validates a caller-supplied item path before resolution: every segment
/// must be nonempty, so an empty path, bare separators, and leading,
/// trailing or doubled separators are all rejected.
pub fn validate_item_path(item_path: &str) -> (r: Result<(), Error>)
    ensures
        r is Ok <==> path_well_formed(item_path@),
        r is Err ==> r->Err_0 == Error::Open(
            OpenError::InvalidItemPath { item_path: item_path_owned(r->Err_0) },
        ) && invalid_item_path_input(r->Err_0) == item_path@,
{
    let parts = split_path(item_path);
    let mut k: usize = 0;
    while k < parts.len()
        invariant
            k <= parts@.len(),
            strings_view(parts@) == path_segments(item_path@),
            forall|q: int| 0 <= q < k ==> (#[trigger] path_segments(item_path@)[q]).len() > 0,
        decreases parts@.len() - k,
    {
        proof {
            assert(path_segments(item_path@)[k as int] == parts@[k as int]@);
        }
        if parts[k].as_str().unicode_len() == 0 {
            return Err(
                Error::Open(OpenError::InvalidItemPath { item_path: String::from_str(item_path) }),
            );
        }
        k = k + 1;
    }
    Ok(())
}

/// Caller input of the malformed shapes is always rejected by validation: an
/// empty path, a path opening with a separator (which covers a path of only
/// separators), and a path closing with a separator that does not overlap an
/// earlier one.
pub proof fn lemma_malformed_paths_rejected(s: Seq<char>)
    requires
        s.len() == 0 || (s.len() >= 2 && s[0] == ':' && s[1] == ':') || (s.len() >= 2 && s[s.len()
            - 2] == ':' && s[s.len() - 1] == ':' && (s.len() == 2 || s[s.len() - 3] != ':')),
    ensures
        !path_well_formed(s),
{
    if s.len() == 0 {
        assert(path_segments(s)[0].len() == 0);
    } else if s.len() >= 2 && s[0] == ':' && s[1] == ':' {
        lemma_find_sep_first(s, 0, 0);
        lemma_find_sep_bounds(s, 0);
        assert(find_sep(s, 0) == 0);
        assert(path_segments(s)[0].len() == 0);
    } else {
        lemma_split_trailing(s, 0);
        let parts = path_segments(s);
        assert(parts[parts.len() - 1].len() == 0);
    }
}

/// With a separator closing the path (and no colon just before it), the last
/// segment is empty.
proof fn lemma_split_trailing(s: Seq<char>, i: int)
    requires
        0 <= i <= s.len() - 2,
        s[s.len() - 2] == ':',
        s[s.len() - 1] == ':',
        s.len() == 2 || s[s.len() - 3] != ':',
    ensures
        split_sep(s, i).last().len() == 0,
    decreases s.len() - i,
{
    lemma_find_sep_bounds(s, i);
    lemma_find_sep_first(s, i, s.len() - 2);
    let j = find_sep(s, i);
    assert(j <= s.len() - 2);
    if j + 2 <= s.len() - 2 {
        lemma_split_trailing(s, j + 2);
        assert(split_sep(s, i).last() == split_sep(s, j + 2).last());
    } else if j + 2 == s.len() - 1 {
        // a separator here would put a colon just before the trailing one,
        // which the hypothesis rules out
        assert(s[s.len() - 3] == ':');
        assert(false);
    } else {
        assert(j + 2 == s.len());
        assert(find_sep(s, j + 2) == s.len() as int);
        assert(split_sep(s, j + 2) == seq![s.subrange(s.len() as int, s.len() as int)]);
        assert(split_sep(s, i).last() =~= s.subrange(s.len() as int, s.len() as int));
    }
}

/// The path of the Markdown file for one item: the fragment path with its
/// extension swapped for the Markdown extension.
pub open spec fn with_md_ext(p: Seq<char>) -> Seq<char> {
    let d = last_dot(p, p.len() - 1);
    if d >= 0 {
        p.take(d) + ".md"@
    } else {
        p + ".md"@
    }
}

/// The position of the last `.` in the final path component at or before `i`,
/// or -1 when the component has none.
pub open spec fn last_dot(p: Seq<char>, i: int) -> int
    decreases i + 1,
{
    if i < 0 || i >= p.len() {
        -1
    } else if p[i] == '.' {
        i
    } else if p[i] == '/' {
        -1
    } else {
        last_dot(p, i - 1)
    }
}

/// The last dot of the final path component, if it has one.
fn last_dot_exec(v: &Vec<char>, j: usize) -> (r: Option<usize>)
    requires
        j <= v@.len(),
    ensures
        match r {
            Some(d) => last_dot(v@, j - 1) == d && d < j,
            None => last_dot(v@, j - 1) == -1,
        },
    decreases j,
{
    if j == 0 {
        None
    } else if v[j - 1] == '.' {
        Some(j - 1)
    } else if v[j - 1] == '/' {
        None
    } else {
        last_dot_exec(v, j - 1)
    }
}

/// Swaps a fragment path's extension for the Markdown extension.
pub fn md_file_name(p: &str) -> (r: String)
    ensures
        r@ == with_md_ext(p@),
{
    let v = str_chars(p);
    let n = v.len();
    let end = match last_dot_exec(&v, n) {
        Some(d) => d,
        None => n,
    };
    let mut out: Vec<char> = Vec::new();
    let mut q: usize = 0;
    while q < end
        invariant
            q <= end <= n,
            n == v@.len(),
            v@ == p@,
            out@ == v@.subrange(0, q as int),
        decreases end - q,
    {
        out.push(v[q]);
        assert(out@ =~= v@.subrange(0, q + 1));
        q = q + 1;
    }
    append_str(&mut out, ".md");
    proof {
        if last_dot(p@, p@.len() - 1) >= 0 {
            assert(p@.take(end as int) =~= p@.subrange(0, end as int));
        } else {
            assert(p@.subrange(0, n as int) =~= p@);
        }
    }
    chars_string(&out)
}

/// Where the corpus keeps a crate's files: below `docmd` in the build's
/// target directory.
pub open spec fn docmd_dir(target: Seq<char>, crate_name: Seq<char>) -> Seq<char> {
    target + "/docmd/"@ + crate_name
}

/// The path of a crate's master index file (`all.md`).
pub fn resolve_all_md_path(target_directory: &str, crate_name: &str) -> (r: String)
    ensures
        r@ == docmd_dir(target_directory@, crate_name@) + "/all.md"@,
{
    let mut out: Vec<char> = Vec::new();
    append_str(&mut out, target_directory);
    append_str(&mut out, "/docmd/");
    append_str(&mut out, crate_name);
    append_str(&mut out, "/all.md");
    proof {
        assert(out@ =~= docmd_dir(target_directory@, crate_name@) + "/all.md"@);
    }
    chars_string(&out)
}

/// What resolving a parsed path against the item map yields: the crate
/// overview file when no item is named; otherwise the mapped fragment with
/// the Markdown extension, or nothing when the map has no record.
pub open spec fn resolve_spec(
    target: Seq<char>,
    crate_name: Seq<char>,
    item: Option<Seq<char>>,
    map: Seq<crate::listing::EntryView>,
) -> Option<Seq<char>> {
    match item {
        None => Some(docmd_dir(target, crate_name) + "/index.md"@),
        Some(it) => {
            match seq_lookup(map, crate_name + "::"@ + it) {
                Some(file) => Some(docmd_dir(target, crate_name) + "/"@ + with_md_ext(file)),
                None => None,
            }
        },
    }
}

/// Resolves a parsed item path to the Markdown file generated for it. With no
/// item part the crate overview file answers. Fails exactly when the item map
/// has no record for the full path; lookups use the map as built, while the
/// error keeps the caller's own spelling.
pub fn resolve_markdown_path(
    target_directory: &str,
    parsed: &ParsedItemPath,
    mappings: &ItemMap,
) -> (r: Result<String, Error>)
    ensures
        match r {
            Ok(p) => resolve_spec(
                target_directory@,
                parsed.crate_name@,
                match parsed.item {
                    Some(it) => Some(it@),
                    None => None,
                },
                mappings@,
            ) == Some(p@),
            Err(e) => {
                &&& resolve_spec(
                    target_directory@,
                    parsed.crate_name@,
                    match parsed.item {
                        Some(it) => Some(it@),
                        None => None,
                    },
                    mappings@,
                ) is None
                &&& e is Open
                &&& e->Open_0 is ItemPathResolutionFailed
                &&& e->Open_0->ItemPathResolutionFailed_item_path@ == parsed.crate_name@ + "::"@
                    + parsed.item->0@
                &&& e->Open_0->ItemPathResolutionFailed_crate_name@ == parsed.crate_name@
            },
        },
{
    match &parsed.item {
        None => {
            let mut out: Vec<char> = Vec::new();
            append_str(&mut out, target_directory);
            append_str(&mut out, "/docmd/");
            append_str(&mut out, parsed.crate_name.as_str());
            append_str(&mut out, "/index.md");
            proof {
                assert(out@ =~= docmd_dir(target_directory@, parsed.crate_name@) + "/index.md"@);
            }
            Ok(chars_string(&out))
        },
        Some(item) => {
            let mut full: Vec<char> = Vec::new();
            append_str(&mut full, parsed.crate_name.as_str());
            append_str(&mut full, "::");
            append_str(&mut full, item.as_str());
            proof {
                assert(full@ =~= parsed.crate_name@ + "::"@ + item@);
            }
            let full_path = chars_string(&full);
            match mappings.get(full_path.as_str()) {
                Some(html_path) => {
                    let file = md_file_name(html_path.as_str());
                    let mut out: Vec<char> = Vec::new();
                    append_str(&mut out, target_directory);
                    append_str(&mut out, "/docmd/");
                    append_str(&mut out, parsed.crate_name.as_str());
                    append_str(&mut out, "/");
                    append_str(&mut out, file.as_str());
                    proof {
                        assert(out@ =~= docmd_dir(target_directory@, parsed.crate_name@) + "/"@
                            + with_md_ext(html_path@));
                    }
                    Ok(chars_string(&out))
                },
                None => Err(
                    Error::Open(
                        OpenError::ItemPathResolutionFailed {
                            item_path: full_path,
                            crate_name: parsed.crate_name.clone(),
                        },
                    ),
                ),
            }
        },
    }
}

} // verus!

verus! {

/// Validates input of the command that lists a whole crate: only a bare crate
/// name is accepted, never an item path, and never an empty name.
pub fn validate_crate_name(crate_name: &str) -> (r: Result<(), Error>)
    ensures
        r is Ok <==> !crate::text::contains_seq(crate_name@, "::"@) && crate_name@.len() > 0,
        crate::text::contains_seq(crate_name@, "::"@) ==> r is Err && r->Err_0 is Open
            && r->Err_0->Open_0 is InvalidCrateName
            && r->Err_0->Open_0->InvalidCrateName_crate_name@ == crate_name@,
        !crate::text::contains_seq(crate_name@, "::"@) && crate_name@.len() == 0 ==> r is Err
            && r->Err_0 == Error::Open(OpenError::EmptyCrateName),
{
    if crate::text::contains_str(crate_name, "::") {
        return Err(
            Error::Open(OpenError::InvalidCrateName { crate_name: String::from_str(crate_name) }),
        );
    }
    if crate_name.unicode_len() == 0 {
        return Err(Error::Open(OpenError::EmptyCrateName));
    }
    Ok(())
}

} // verus!
