//! Character-level text utilities shared by the converters: whitespace
//! normalization, substring search, non-breaking-space handling, and the
//! rewriting of reference-style link markers.

use vstd::prelude::*;
use vstd::string::*;

verus! {

/// A character the converters treat as whitespace: the ASCII whitespace
/// characters and the non-breaking space.
pub open spec fn is_ws(c: char) -> bool {
    c == ' ' || c == '\t' || c == '\n' || c == '\r' || c == '\u{b}' || c == '\u{c}'
        || c == '\u{a0}'
}

pub fn is_ws_char(c: char) -> (r: bool)
    ensures
        r == is_ws(c),
{
    c == ' ' || c == '\t' || c == '\n' || c == '\r' || c == '\u{b}' || c == '\u{c}'
        || c == '\u{a0}'
}

/// Whether every character of `s` is whitespace.
pub open spec fn all_ws(s: Seq<char>) -> bool {
    forall|i: int| 0 <= i < s.len() ==> is_ws(s[i])
}

/// The characters of a string slice, as a vector.
pub fn str_chars(s: &str) -> (r: Vec<char>)
    ensures
        r@ == s@,
{
    let n = s.unicode_len();
    let mut r: Vec<char> = Vec::new();
    let mut i: usize = 0;
    while i < n
        invariant
            i <= n,
            n == s@.len(),
            r@ == s@.subrange(0, i as int),
        decreases n - i,
    {
        r.push(s.get_char(i));
        assert(r@ =~= s@.subrange(0, i + 1));
        i = i + 1;
    }
    assert(r@ =~= s@);
    r
}

/// Relies on String::push: appends one character to the string.
#[verifier::external_body]
fn push_char(s: &mut String, c: char)
    ensures
        final(s)@ == old(s)@.push(c),
{
    s.push(c);
}

/// A string holding exactly the given characters.
pub fn chars_string(v: &Vec<char>) -> (r: String)
    ensures
        r@ == v@,
{
    let mut r = String::new();
    let mut i: usize = 0;
    while i < v.len()
        invariant
            i <= v@.len(),
            r@ == v@.subrange(0, i as int),
        decreases v@.len() - i,
    {
        push_char(&mut r, v[i]);
        assert(r@ =~= v@.subrange(0, i + 1));
        i = i + 1;
    }
    assert(r@ =~= v@);
    r
}

/// Appends the characters of a string slice to a character vector.
pub fn append_str(out: &mut Vec<char>, s: &str)
    ensures
        final(out)@ == old(out)@ + s@,
{
    let n = s.unicode_len();
    let mut i: usize = 0;
    while i < n
        invariant
            i <= n,
            n == s@.len(),
            out@ == old(out)@ + s@.subrange(0, i as int),
        decreases n - i,
    {
        out.push(s.get_char(i));
        assert(out@ =~= old(out)@ + s@.subrange(0, i + 1));
        i = i + 1;
    }
    assert(out@ =~= old(out)@ + s@);
}

/// Appends a copy of `src` to `out`.
pub fn append_chars(out: &mut Vec<char>, src: &Vec<char>)
    ensures
        final(out)@ == old(out)@ + src@,
{
    let mut i: usize = 0;
    while i < src.len()
        invariant
            i <= src@.len(),
            out@ == old(out)@ + src@.subrange(0, i as int),
        decreases src@.len() - i,
    {
        out.push(src[i]);
        assert(out@ =~= old(out)@ + src@.subrange(0, i + 1));
        i = i + 1;
    }
    assert(out@ =~= old(out)@ + src@);
}

/// Whether two string slices hold the same characters.
pub fn str_eq(a: &str, b: &str) -> (r: bool)
    ensures
        r == (a@ == b@),
{
    let na = a.unicode_len();
    let nb = b.unicode_len();
    if na != nb {
        assert(a@ != b@);
        return false;
    }
    let mut i: usize = 0;
    while i < na
        invariant
            i <= na,
            na == a@.len(),
            na == b@.len(),
            forall|k: int| 0 <= k < i ==> a@[k] == b@[k],
        decreases na - i,
    {
        if a.get_char(i) != b.get_char(i) {
            return false;
        }
        i = i + 1;
    }
    assert(a@ =~= b@);
    true
}

/// Whether the characters `needle` occur contiguously inside `hay`.
pub open spec fn contains_seq(hay: Seq<char>, needle: Seq<char>) -> bool {
    exists|k: int|
        0 <= k && k + needle.len() <= hay.len() && #[trigger] hay.subrange(k, k + needle.len())
            == needle
}

/// Whether `needle` occurs as a substring of `hay`.
pub fn contains_str(hay: &str, needle: &str) -> (r: bool)
    ensures
        r == contains_seq(hay@, needle@),
{
    let h = str_chars(hay);
    let n = str_chars(needle);
    let hlen = h.len();
    let nlen = n.len();
    if nlen > hlen {
        return false;
    }
    if nlen == 0 {
        proof {
            assert(hay@.subrange(0, 0 + needle@.len() as int) =~= needle@);
        }
        return true;
    }
    let mut k: usize = 0;
    while k <= hlen - nlen
        invariant
            1 <= nlen <= hlen,
            hlen == h@.len(),
            nlen == n@.len(),
            h@ == hay@,
            n@ == needle@,
            k <= hlen - nlen + 1,
            forall|q: int|
                0 <= q < k ==> #[trigger] hay@.subrange(q, q + needle@.len()) != needle@,
        decreases hlen - k,
    {
        let mut j: usize = 0;
        let mut matches = true;
        while j < nlen
            invariant
                1 <= nlen <= hlen,
                k + nlen <= hlen,
                hlen == h@.len(),
                nlen == n@.len(),
                j <= nlen,
                h@ == hay@,
                n@ == needle@,
                matches ==> forall|q: int| 0 <= q < j ==> hay@[k + q] == needle@[q],
                !matches ==> hay@.subrange(k as int, k + needle@.len()) != needle@,
            decreases nlen - j,
        {
            if h[k + j] != n[j] {
                proof {
                    let sub = hay@.subrange(k as int, k + needle@.len());
                    assert(sub[j as int] != needle@[j as int]);
                }
                matches = false;
                j = nlen;
            } else {
                j = j + 1;
            }
        }
        if matches {
            proof {
                assert(hay@.subrange(k as int, k + needle@.len()) =~= needle@);
            }
            return true;
        }
        k = k + 1;
    }
    proof {
        assert forall|q: int| 0 <= q && q + needle@.len() <= hay@.len() implies #[trigger] hay@
            .subrange(q, q + needle@.len()) != needle@ by {
            assert(q < k);
        }
    }
    false
}

/// `s` with every occurrence of the character `from` replaced by `to`.
pub open spec fn replace_char(s: Seq<char>, from: char, to: char) -> Seq<char> {
    Seq::new(s.len(), |i: int| if s[i] == from { to } else { s[i] })
}

pub fn replace_char_vec(v: &Vec<char>, from: char, to: char) -> (r: Vec<char>)
    ensures
        r@ == replace_char(v@, from, to),
{
    let mut r: Vec<char> = Vec::new();
    let mut i: usize = 0;
    while i < v.len()
        invariant
            i <= v@.len(),
            r@ == replace_char(v@, from, to).subrange(0, i as int),
        decreases v@.len() - i,
    {
        let c = v[i];
        if c == from {
            r.push(to);
        } else {
            r.push(c);
        }
        assert(r@ =~= replace_char(v@, from, to).subrange(0, i + 1));
        i = i + 1;
    }
    assert(r@ =~= replace_char(v@, from, to));
    r
}

/// The literal entity form of a non-breaking space.
pub open spec fn nbsp_entity() -> Seq<char> {
    seq!['&', 'n', 'b', 's', 'p', ';']
}

/// `s` with every occurrence of the literal entity `&nbsp;` replaced by one
/// space, scanning left to right.
pub open spec fn replace_nbsp_entity(s: Seq<char>) -> Seq<char>
    decreases s.len(),
{
    if s.len() == 0 {
        Seq::<char>::empty()
    } else if s.len() >= 6 && s.subrange(0, 6) == nbsp_entity() {
        seq![' '] + replace_nbsp_entity(s.skip(6))
    } else {
        seq![s[0]] + replace_nbsp_entity(s.drop_first())
    }
}

fn replace_nbsp_from(v: &Vec<char>, i: usize, out: &mut Vec<char>)
    requires
        i <= v@.len(),
    ensures
        final(out)@ == old(out)@ + replace_nbsp_entity(v@.skip(i as int)),
    decreases v@.len() - i,
{
    if i == v.len() {
        assert(v@.skip(i as int) =~= Seq::<char>::empty());
        assert(out@ =~= out@ + replace_nbsp_entity(v@.skip(i as int)));
        return ;
    }
    let ghost s = v@.skip(i as int);
    if v.len() - i >= 6 && v[i] == '&' && v[i + 1] == 'n' && v[i + 2] == 'b' && v[i + 3] == 's'
        && v[i + 4] == 'p' && v[i + 5] == ';' {
        proof {
            assert(s.subrange(0, 6) =~= nbsp_entity());
            assert(s.skip(6) =~= v@.skip(i + 6));
        }
        out.push(' ');
        replace_nbsp_from(v, i + 6, out);
        assert(out@ =~= old(out)@ + replace_nbsp_entity(s));
    } else {
        proof {
            assert(s.len() >= 6 ==> s.subrange(0, 6) != nbsp_entity()) by {
                if s.len() >= 6 && s.subrange(0, 6) == nbsp_entity() {
                    assert(s.subrange(0, 6)[0] == v@[i as int]);
                    assert(s.subrange(0, 6)[1] == v@[i + 1]);
                    assert(s.subrange(0, 6)[2] == v@[i + 2]);
                    assert(s.subrange(0, 6)[3] == v@[i + 3]);
                    assert(s.subrange(0, 6)[4] == v@[i + 4]);
                    assert(s.subrange(0, 6)[5] == v@[i + 5]);
                }
            }
            assert(s.drop_first() =~= v@.skip(i + 1));
        }
        out.push(v[i]);
        replace_nbsp_from(v, i + 1, out);
        assert(out@ =~= old(out)@ + replace_nbsp_entity(s));
    }
}

pub fn replace_nbsp_vec(v: &Vec<char>) -> (r: Vec<char>)
    ensures
        r@ == replace_nbsp_entity(v@),
{
    let mut out: Vec<char> = Vec::new();
    replace_nbsp_from(v, 0, &mut out);
    proof {
        assert(v@.skip(0) =~= v@);
    }
    out
}

} // verus!

verus! {

/// The length of the whitespace run at the front of `s`.
pub open spec fn ws_run(s: Seq<char>) -> int
    decreases s.len(),
{
    if s.len() > 0 && is_ws(s[0]) {
        1 + ws_run(s.drop_first())
    } else {
        0
    }
}

/// The length of the run of non-whitespace characters at the front of `s`.
pub open spec fn word_run(s: Seq<char>) -> int
    decreases s.len(),
{
    if s.len() > 0 && !is_ws(s[0]) {
        1 + word_run(s.drop_first())
    } else {
        0
    }
}

pub proof fn lemma_word_run(s: Seq<char>)
    ensures
        0 <= word_run(s) <= s.len(),
        forall|i: int| 0 <= i < word_run(s) ==> !is_ws(#[trigger] s[i]),
        word_run(s) < s.len() ==> is_ws(s[word_run(s)]),
    decreases s.len(),
{
    if s.len() > 0 && !is_ws(s[0]) {
        lemma_word_run(s.drop_first());
        assert forall|i: int| 0 <= i < word_run(s) implies !is_ws(#[trigger] s[i]) by {
            if i > 0 {
                assert(s.drop_first()[i - 1] == s[i]);
            }
        }
        if word_run(s) < s.len() {
            assert(s.drop_first()[word_run(s) - 1] == s[word_run(s)]);
        }
    }
}

/// The front word run is exactly the first position holding whitespace.
pub proof fn lemma_word_run_eq(s: Seq<char>, m: int)
    requires
        0 <= m <= s.len(),
        forall|q: int| 0 <= q < m ==> !is_ws(#[trigger] s[q]),
        m < s.len() ==> is_ws(s[m]),
    ensures
        word_run(s) == m,
    decreases s.len(),
{
    if s.len() > 0 && !is_ws(s[0]) {
        assert(m > 0);
        assert forall|q: int| 0 <= q < m - 1 implies !is_ws(#[trigger] s.drop_first()[q]) by {
            assert(s.drop_first()[q] == s[q + 1]);
        }
        if m - 1 < s.drop_first().len() {
            assert(s.drop_first()[m - 1] == s[m]);
        }
        lemma_word_run_eq(s.drop_first(), m - 1);
    }
}

/// The front word run, kept inside `s` so that the remainder is well formed.
pub open spec fn word_clamped(s: Seq<char>) -> int {
    if 1 <= word_run(s) && word_run(s) <= s.len() {
        word_run(s)
    } else {
        1
    }
}

/// Interior whitespace collapsed: maximal whitespace runs between words become
/// one space each, and leading and trailing whitespace is dropped.
pub open spec fn normalize_ws(s: Seq<char>) -> Seq<char>
    decreases s.len(),
{
    if s.len() == 0 {
        Seq::<char>::empty()
    } else if is_ws(s[0]) {
        normalize_ws(s.drop_first())
    } else {
        let w = word_clamped(s);
        let rest = normalize_ws(s.skip(w));
        if rest.len() == 0 {
            s.take(w)
        } else {
            s.take(w) + seq![' '] + rest
        }
    }
}

/// A nonempty text that starts with a word normalizes to a nonempty text.
pub proof fn lemma_normalize_ws_nonempty(s: Seq<char>)
    requires
        s.len() > 0,
        !is_ws(s[0]),
    ensures
        normalize_ws(s).len() > 0,
        normalize_ws(s)[0] == s[0],
{
    lemma_word_run(s);
    let w = word_clamped(s);
    assert(s.take(w)[0] == s[0]);
}

/// Text that is all whitespace normalizes to nothing.
pub proof fn lemma_normalize_ws_all_ws(s: Seq<char>)
    requires
        all_ws(s),
    ensures
        normalize_ws(s).len() == 0,
    decreases s.len(),
{
    if s.len() > 0 {
        assert(is_ws(s[0]));
        assert forall|i: int| 0 <= i < s.drop_first().len() implies is_ws(
            #[trigger] s.drop_first()[i],
        ) by {
            assert(s.drop_first()[i] == s[i + 1]);
        }
        lemma_normalize_ws_all_ws(s.drop_first());
    }
}

/// Within one normalized logical line no whitespace survives except single
/// interior spaces, and none at either end.
pub proof fn lemma_normalize_ws_single_spaced(s: Seq<char>)
    ensures
        ({
            let r = normalize_ws(s);
            &&& forall|i: int| 0 <= i < r.len() && is_ws(#[trigger] r[i]) ==> r[i] == ' '
            &&& forall|i: int|
                0 <= i && i + 1 < r.len() ==> !(is_ws(#[trigger] r[i]) && is_ws(r[i + 1]))
            &&& r.len() > 0 ==> !is_ws(r[0]) && !is_ws(r[r.len() - 1])
        }),
    decreases s.len(),
{
    let r = normalize_ws(s);
    if s.len() == 0 {
    } else if is_ws(s[0]) {
        lemma_normalize_ws_single_spaced(s.drop_first());
    } else {
        lemma_word_run(s);
        let w = word_clamped(s);
        let rest = normalize_ws(s.skip(w));
        lemma_normalize_ws_single_spaced(s.skip(w));
        assert(forall|i: int| 0 <= i < w ==> !is_ws(#[trigger] s.take(w)[i]));
        if rest.len() == 0 {
            assert(r == s.take(w));
            assert(r.len() == w);
            assert(forall|i: int| 0 <= i < r.len() ==> !is_ws(#[trigger] r[i]));
        } else {
            assert(r == s.take(w) + seq![' '] + rest);
            assert(r.len() == w + 1 + rest.len());
            assert forall|i: int| 0 <= i < r.len() implies (is_ws(#[trigger] r[i]) ==> r[i]
                == ' ') && (i < w ==> !is_ws(r[i])) && (i == w ==> r[i] == ' ') && (i > w ==> r[i]
                == rest[i - w - 1]) by {
                if i < w {
                    assert(r[i] == s.take(w)[i]);
                } else if i == w {
                    assert(r[i] == (s.take(w) + seq![' '])[i]);
                } else {
                    assert(r[i] == rest[i - w - 1]);
                }
            }
            assert forall|i: int| 0 <= i && i + 1 < r.len() implies !(is_ws(#[trigger] r[i])
                && is_ws(r[i + 1])) by {
                if i < w {
                } else if i == w {
                    assert(r[i + 1] == rest[0]);
                    assert(!is_ws(rest[0]));
                } else {
                    assert(r[i] == rest[i - w - 1]);
                    assert(r[i + 1] == rest[i - w]);
                }
            }
            assert(!is_ws(r[0]));
            assert(r[r.len() - 1] == rest[rest.len() - 1]);
            assert(!is_ws(r[r.len() - 1]));
        }
    }
}

/// Collapses interior whitespace to single spaces and trims the ends.
pub fn normalize_vec(v: &Vec<char>) -> (r: Vec<char>)
    ensures
        r@ == normalize_ws(v@),
{
    let mut out: Vec<char> = Vec::new();
    normalize_from(v, 0, &mut out);
    proof {
        assert(v@.skip(0) =~= v@);
    }
    out
}

fn normalize_from(v: &Vec<char>, i: usize, out: &mut Vec<char>)
    requires
        i <= v@.len(),
    ensures
        final(out)@ == old(out)@ + normalize_ws(v@.skip(i as int)),
    decreases v@.len() - i,
{
    let ghost base = out@;
    // skip leading whitespace
    let mut j = i;
    while j < v.len() && is_ws_char(v[j])
        invariant
            i <= j <= v@.len(),
            out@ == base,
            normalize_ws(v@.skip(i as int)) == normalize_ws(v@.skip(j as int)),
        decreases v@.len() - j,
    {
        proof {
            assert(v@.skip(j as int)[0] == v@[j as int]);
            assert(v@.skip(j as int).drop_first() =~= v@.skip(j + 1));
        }
        j = j + 1;
    }
    if j == v.len() {
        proof {
            assert(v@.skip(j as int) =~= Seq::<char>::empty());
            assert(out@ =~= base + normalize_ws(v@.skip(i as int)));
        }
        return ;
    }
    let ghost t = v@.skip(j as int);
    proof {
        assert(t[0] == v@[j as int]);
    }
    // copy the word
    let start = j;
    let mut k = j;
    while k < v.len() && !is_ws_char(v[k])
        invariant
            start <= k <= v@.len(),
            start < v@.len(),
            !is_ws(v@[start as int]),
            out@ == base,
            t == v@.skip(start as int),
            forall|q: int| start <= q < k ==> !is_ws(#[trigger] v@[q]),
        decreases v@.len() - k,
    {
        k = k + 1;
    }
    assert(k > start) by {
        if k == start {
            assert(!(k < v@.len() && !is_ws(v@[k as int])));
        }
    }
    let ghost w = k - start as int;
    proof {
        assert forall|q: int| 0 <= q < w implies !is_ws(#[trigger] t[q]) by {
            assert(t[q] == v@[start + q]);
        }
        if w < t.len() {
            assert(t[w] == v@[k as int]);
        }
        lemma_word_run_eq(t, w);
        assert(word_clamped(t) == w);
    }
    let mut p = start;
    while p < k
        invariant
            start <= p <= k <= v@.len(),
            t == v@.skip(start as int),
            out@ == base + t.subrange(0, p - start as int),
        decreases k - p,
    {
        out.push(v[p]);
        proof {
            assert(t[p - start as int] == v@[p as int]);
            assert(out@ =~= base + t.subrange(0, p + 1 - start as int));
        }
        p = p + 1;
    }
    proof {
        assert(t.take(w) =~= t.subrange(0, k - start as int));
    }
    // skip whitespace after the word; if anything follows, a single space
    // separates it from the word
    let mut q = k;
    proof {
        assert(t.skip(w) =~= v@.skip(k as int));
    }
    while q < v.len() && is_ws_char(v[q])
        invariant
            k <= q <= v@.len(),
            out@ == base + t.take(w),
            t == v@.skip(start as int),
            normalize_ws(t.skip(w)) == normalize_ws(v@.skip(q as int)),
        decreases v@.len() - q,
    {
        proof {
            assert(v@.skip(q as int)[0] == v@[q as int]);
            assert(v@.skip(q as int).drop_first() =~= v@.skip(q + 1));
        }
        q = q + 1;
    }
    if q == v.len() {
        proof {
            assert(v@.skip(q as int) =~= Seq::<char>::empty());
            assert(normalize_ws(t) == t.take(w));
            assert(out@ =~= base + normalize_ws(v@.skip(i as int)));
        }
        return ;
    }
    out.push(' ');
    proof {
        lemma_normalize_ws_nonempty(v@.skip(q as int));
    }
    normalize_from(v, q, out);
    proof {
        assert(normalize_ws(t) == t.take(w) + seq![' '] + normalize_ws(t.skip(w)));
        assert(out@ =~= base + normalize_ws(v@.skip(i as int)));
    }
}

} // verus!

verus! {

/// The position just after the bracket group standing open to depth `d` at
/// position `i`; brackets nest, and the scan also ends at the end of the text.
pub open spec fn scan_close(s: Seq<char>, i: int, d: int) -> int
    decreases s.len() - i,
{
    if !(0 <= i < s.len()) {
        s.len() as int
    } else if s[i] == '[' {
        scan_close(s, i + 1, d + 1)
    } else if s[i] == ']' {
        if d <= 1 {
            i + 1
        } else {
            scan_close(s, i + 1, d - 1)
        }
    } else {
        scan_close(s, i + 1, d)
    }
}

/// The characters inside that bracket group: nested brackets are kept, the
/// closing bracket is dropped.
pub open spec fn label_text(s: Seq<char>, i: int, d: int) -> Seq<char>
    decreases s.len() - i,
{
    if !(0 <= i < s.len()) {
        Seq::<char>::empty()
    } else if s[i] == '[' {
        seq!['['] + label_text(s, i + 1, d + 1)
    } else if s[i] == ']' {
        if d <= 1 {
            Seq::<char>::empty()
        } else {
            seq![']'] + label_text(s, i + 1, d - 1)
        }
    } else {
        seq![s[i]] + label_text(s, i + 1, d)
    }
}

/// The first position at or after `i` that holds no whitespace.
pub open spec fn skip_ws_from(s: Seq<char>, i: int) -> int
    decreases s.len() - i,
{
    if 0 <= i < s.len() && is_ws(s[i]) {
        skip_ws_from(s, i + 1)
    } else {
        i
    }
}

pub proof fn lemma_scan_close_bounds(s: Seq<char>, i: int, d: int)
    requires
        0 <= i <= s.len(),
    ensures
        i <= scan_close(s, i, d) <= s.len(),
    decreases s.len() - i,
{
    if i < s.len() {
        if s[i] == '[' {
            lemma_scan_close_bounds(s, i + 1, d + 1);
        } else if s[i] == ']' {
            if d > 1 {
                lemma_scan_close_bounds(s, i + 1, d - 1);
            }
        } else {
            lemma_scan_close_bounds(s, i + 1, d);
        }
    }
}

pub proof fn lemma_skip_ws_bounds(s: Seq<char>, i: int)
    requires
        0 <= i <= s.len(),
    ensures
        i <= skip_ws_from(s, i) <= s.len(),
    decreases s.len() - i,
{
    if i < s.len() && is_ws(s[i]) {
        lemma_skip_ws_bounds(s, i + 1);
    }
}

/// The text from position `i` on with reference-style link markers rewritten:
/// a bracket group followed (after whitespace) by a second bracket group keeps
/// only the first group's text; a group with no following group keeps its
/// brackets.
pub open spec fn ptl(s: Seq<char>, i: int) -> Seq<char>
    decreases s.len() - i,
    when 0 <= i <= s.len()
    via ptl_decreases
{
    if i >= s.len() {
        Seq::<char>::empty()
    } else if s[i] != '[' {
        seq![s[i]] + ptl(s, i + 1)
    } else {
        let text = label_text(s, i + 1, 1);
        let j = scan_close(s, i + 1, 1);
        let k = skip_ws_from(s, j);
        if k < s.len() && s[k] == '[' {
            text + ptl(s, scan_close(s, k + 1, 1))
        } else {
            seq!['['] + text + seq![']'] + ptl(s, j)
        }
    }
}

#[via_fn]
proof fn ptl_decreases(s: Seq<char>, i: int) {
    if 0 <= i < s.len() && s[i] == '[' {
        lemma_scan_close_bounds(s, i + 1, 1);
        let j = scan_close(s, i + 1, 1);
        lemma_skip_ws_bounds(s, j);
        let k = skip_ws_from(s, j);
        if k < s.len() && s[k] == '[' {
            lemma_scan_close_bounds(s, k + 1, 1);
        }
    }
}

/// The whole text with reference-style link markers rewritten.
pub open spec fn links_rewritten(s: Seq<char>) -> Seq<char> {
    ptl(s, 0)
}

/// Scans the bracket group open at `start`, returning the position after it
/// and the text inside it.
fn scan_group(v: &Vec<char>, start: usize) -> (r: (usize, Vec<char>))
    requires
        start <= v@.len(),
    ensures
        r.0 as int == scan_close(v@, start as int, 1),
        r.1@ == label_text(v@, start as int, 1),
        start <= r.0 <= v@.len(),
{
    let mut i = start;
    let mut depth: u128 = 1;
    let mut text: Vec<char> = Vec::new();
    while i < v.len()
        invariant
            start <= i <= v@.len(),
            1 <= depth,
            depth <= 1 + i - start,
            scan_close(v@, start as int, 1) == scan_close(v@, i as int, depth as int),
            label_text(v@, start as int, 1) == text@ + label_text(v@, i as int, depth as int),
        decreases v@.len() - i,
    {
        let c = v[i];
        if c == '[' {
            depth = depth + 1;
            text.push(c);
            proof {
                assert(label_text(v@, start as int, 1) =~= text@ + label_text(
                    v@,
                    i + 1,
                    depth as int,
                ));
            }
            i = i + 1;
        } else if c == ']' {
            if depth == 1 {
                proof {
                    assert(label_text(v@, start as int, 1) =~= text@);
                }
                return (i + 1, text);
            }
            depth = depth - 1;
            text.push(c);
            proof {
                assert(label_text(v@, start as int, 1) =~= text@ + label_text(
                    v@,
                    i + 1,
                    depth as int,
                ));
            }
            i = i + 1;
        } else {
            text.push(c);
            proof {
                assert(label_text(v@, start as int, 1) =~= text@ + label_text(
                    v@,
                    i + 1,
                    depth as int,
                ));
            }
            i = i + 1;
        }
    }
    proof {
        assert(label_text(v@, start as int, 1) =~= text@);
    }
    (i, text)
}

/// The first position at or after `start` holding no whitespace.
fn skip_ws_exec(v: &Vec<char>, start: usize) -> (r: usize)
    requires
        start <= v@.len(),
    ensures
        r as int == skip_ws_from(v@, start as int),
        start <= r <= v@.len(),
{
    let mut i = start;
    while i < v.len() && is_ws_char(v[i])
        invariant
            start <= i <= v@.len(),
            skip_ws_from(v@, start as int) == skip_ws_from(v@, i as int),
        decreases v@.len() - i,
    {
        i = i + 1;
    }
    i
}

fn ptl_from(v: &Vec<char>, i: usize, out: &mut Vec<char>)
    requires
        i <= v@.len(),
    ensures
        final(out)@ == old(out)@ + ptl(v@, i as int),
    decreases v@.len() - i,
{
    if i == v.len() {
        proof {
            assert(out@ =~= out@ + ptl(v@, i as int));
        }
        return ;
    }
    let c = v[i];
    if c != '[' {
        out.push(c);
        ptl_from(v, i + 1, out);
        proof {
            assert(out@ =~= old(out)@ + ptl(v@, i as int));
        }
        return ;
    }
    let (j, text) = scan_group(v, i + 1);
    let k = skip_ws_exec(v, j);
    if k < v.len() && v[k] == '[' {
        let (m, group) = scan_group(v, k + 1);
        let _ = group;
        append_chars(out, &text);
        ptl_from(v, m, out);
        proof {
            assert(out@ =~= old(out)@ + ptl(v@, i as int));
        }
    } else {
        out.push('[');
        append_chars(out, &text);
        out.push(']');
        ptl_from(v, j, out);
        proof {
            assert(out@ =~= old(out)@ + ptl(v@, i as int));
        }
    }
}

/// Rewrites reference-style link markers: `[text][reference]` becomes `text`,
/// while a bracket group with no following bracket group keeps its brackets.
pub fn process_text_links(text: &str) -> (r: String)
    ensures
        r@ == links_rewritten(text@),
{
    let v = str_chars(text);
    let mut out: Vec<char> = Vec::new();
    ptl_from(&v, 0, &mut out);
    chars_string(&out)
}

} // verus!

verus! {

/// Whether `s` begins with `p`.
pub open spec fn starts_with_spec(s: Seq<char>, p: Seq<char>) -> bool {
    p.len() <= s.len() && s.take(p.len() as int) == p
}

/// Whether the characters of `s` begin with those of `p`.
pub fn starts_with_str(s: &str, p: &str) -> (r: bool)
    ensures
        r == starts_with_spec(s@, p@),
{
    let ns = s.unicode_len();
    let np = p.unicode_len();
    if np > ns {
        return false;
    }
    let mut i: usize = 0;
    while i < np
        invariant
            i <= np,
            np <= ns,
            ns == s@.len(),
            np == p@.len(),
            forall|k: int| 0 <= k < i ==> s@[k] == p@[k],
        decreases np - i,
    {
        if s.get_char(i) != p.get_char(i) {
            proof {
                assert(s@.take(p@.len() as int)[i as int] != p@[i as int]);
            }
            return false;
        }
        i = i + 1;
    }
    proof {
        assert(s@.take(p@.len() as int) =~= p@);
    }
    true
}

/// The length of the whitespace run at the back of `s`.
pub open spec fn ws_run_back(s: Seq<char>) -> int
    decreases s.len(),
{
    if s.len() > 0 && is_ws(s.last()) {
        1 + ws_run_back(s.drop_last())
    } else {
        0
    }
}

pub proof fn lemma_ws_run_front(s: Seq<char>)
    ensures
        0 <= ws_run(s) <= s.len(),
        forall|i: int| 0 <= i < ws_run(s) ==> is_ws(#[trigger] s[i]),
        ws_run(s) < s.len() ==> !is_ws(s[ws_run(s)]),
    decreases s.len(),
{
    if s.len() > 0 && is_ws(s[0]) {
        lemma_ws_run_front(s.drop_first());
        assert forall|i: int| 0 <= i < ws_run(s) implies is_ws(#[trigger] s[i]) by {
            if i > 0 {
                assert(s.drop_first()[i - 1] == s[i]);
            }
        }
        if ws_run(s) < s.len() {
            assert(s.drop_first()[ws_run(s) - 1] == s[ws_run(s)]);
        }
    }
}

pub proof fn lemma_ws_run_back(s: Seq<char>)
    ensures
        0 <= ws_run_back(s) <= s.len(),
        forall|i: int|
            s.len() - ws_run_back(s) <= i < s.len() ==> is_ws(#[trigger] s[i]),
        ws_run_back(s) < s.len() ==> !is_ws(s[s.len() - ws_run_back(s) - 1]),
    decreases s.len(),
{
    if s.len() > 0 && is_ws(s.last()) {
        lemma_ws_run_back(s.drop_last());
        assert forall|i: int| s.len() - ws_run_back(s) <= i < s.len() implies is_ws(
            #[trigger] s[i],
        ) by {
            if i < s.len() - 1 {
                assert(s.drop_last()[i] == s[i]);
            }
        }
        if ws_run_back(s) < s.len() {
            assert(s.drop_last()[s.len() - ws_run_back(s) - 1] == s[s.len() - ws_run_back(s)
                - 1]);
        }
    }
}

/// `s` without leading and trailing whitespace.
pub open spec fn trim_spec(s: Seq<char>) -> Seq<char> {
    if ws_run(s) == s.len() {
        Seq::<char>::empty()
    } else {
        s.subrange(ws_run(s), s.len() - ws_run_back(s))
    }
}

/// The string without its leading and trailing whitespace.
pub fn trim_str(s: &str) -> (r: String)
    ensures
        r@ == trim_spec(s@),
{
    let v = str_chars(s);
    let n = v.len();
    proof {
        lemma_ws_run_front(v@);
        lemma_ws_run_back(v@);
    }
    let mut a: usize = 0;
    while a < n && is_ws_char(v[a])
        invariant
            a <= n,
            n == v@.len(),
            v@ == s@,
            a <= ws_run(v@),
            forall|k: int| 0 <= k < a ==> is_ws(#[trigger] v@[k]),
        decreases n - a,
    {
        proof {
            lemma_ws_run_front(v@);
            if a + 1 > ws_run(v@) {
                assert(is_ws(v@[ws_run(v@)]));
            }
        }
        a = a + 1;
    }
    if a == n {
        proof {
            lemma_ws_run_front(v@);
            assert(ws_run(v@) == n);
        }
        let empty: Vec<char> = Vec::new();
        return chars_string(&empty);
    }
    proof {
        lemma_ws_run_front(v@);
        assert(a == ws_run(v@));
    }
    let mut b: usize = n;
    while b > a && is_ws_char(v[b - 1])
        invariant
            a <= b <= n,
            n == v@.len(),
            v@ == s@,
            a == ws_run(v@),
            a < n,
            !is_ws(v@[a as int]),
            n - b <= ws_run_back(v@),
            forall|k: int| b <= k < n ==> is_ws(#[trigger] v@[k]),
        decreases b,
    {
        proof {
            lemma_ws_run_back(v@);
            if n - b + 1 > ws_run_back(v@) {
                assert(is_ws(v@[n - ws_run_back(v@) - 1]));
            }
        }
        b = b - 1;
    }
    proof {
        lemma_ws_run_back(v@);
        assert(b > a);
        assert(n - b == ws_run_back(v@)) by {
            if n - b < ws_run_back(v@) {
                assert(is_ws(v@[b - 1]));
            }
        }
    }
    let mut out: Vec<char> = Vec::new();
    let mut i = a;
    while i < b
        invariant
            a <= i <= b <= n,
            n == v@.len(),
            v@ == s@,
            out@ == v@.subrange(a as int, i as int),
        decreases b - i,
    {
        out.push(v[i]);
        assert(out@ =~= v@.subrange(a as int, i + 1));
        i = i + 1;
    }
    chars_string(&out)
}

} // verus!

verus! {

/// The views of a list of strings.
pub open spec fn strings_view(v: Seq<String>) -> Seq<Seq<char>> {
    Seq::new(v.len(), |i: int| v[i]@)
}

/// The position of the first line break at or after `i`, or the end.
pub open spec fn find_nl(s: Seq<char>, i: int) -> int
    decreases s.len() - i,
{
    if !(0 <= i) || i >= s.len() {
        s.len() as int
    } else if s[i] == '\n' {
        i
    } else {
        find_nl(s, i + 1)
    }
}

pub proof fn lemma_find_nl_bounds(s: Seq<char>, i: int)
    requires
        0 <= i <= s.len(),
    ensures
        i <= find_nl(s, i) <= s.len(),
        find_nl(s, i) < s.len() ==> s[find_nl(s, i)] == '\n',
    decreases s.len() - i,
{
    if i < s.len() && s[i] != '\n' {
        lemma_find_nl_bounds(s, i + 1);
    }
}

/// One line of text: the line break is dropped, and so is a carriage return
/// just before it.
pub open spec fn line_of(s: Seq<char>, a: int, b: int) -> Seq<char> {
    if a < b && s[b - 1] == '\r' {
        s.subrange(a, b - 1)
    } else {
        s.subrange(a, b)
    }
}

/// The lines of `s`: text split at line breaks, a final line break opening no
/// further line.
pub open spec fn split_lines(s: Seq<char>, i: int) -> Seq<Seq<char>>
    decreases s.len() - i,
    when 0 <= i <= s.len()
    via split_lines_decreases
{
    if i >= s.len() {
        Seq::<Seq<char>>::empty()
    } else {
        let j = find_nl(s, i);
        if j >= s.len() {
            seq![line_of(s, i, j)]
        } else {
            seq![line_of(s, i, j)] + split_lines(s, j + 1)
        }
    }
}

#[via_fn]
proof fn split_lines_decreases(s: Seq<char>, i: int) {
    if 0 <= i < s.len() {
        lemma_find_nl_bounds(s, i);
    }
}

/// The lines of a text.
pub open spec fn lines_spec(s: Seq<char>) -> Seq<Seq<char>> {
    split_lines(s, 0)
}

/// Splits a text into its lines, as `str::lines` does.
pub fn split_lines_vec(v: &Vec<char>) -> (r: Vec<String>)
    ensures
        strings_view(r@) == split_lines(v@, 0),
{
    let mut out: Vec<String> = Vec::new();
    split_lines_from(v, 0, &mut out);
    out
}

fn split_lines_from(v: &Vec<char>, i: usize, out: &mut Vec<String>)
    requires
        i <= v@.len(),
    ensures
        strings_view(final(out)@) == strings_view(old(out)@) + split_lines(v@, i as int),
    decreases v@.len() - i,
{
    if i == v.len() {
        assert(strings_view(out@) =~= strings_view(out@) + split_lines(v@, i as int));
        return ;
    }
    proof {
        lemma_find_nl_bounds(v@, i as int);
    }
    let mut j = i;
    while j < v.len() && v[j] != '\n'
        invariant
            i <= j <= v@.len(),
            find_nl(v@, i as int) == find_nl(v@, j as int),
        decreases v@.len() - j,
    {
        j = j + 1;
    }
    let mut line: Vec<char> = Vec::new();
    let end = if j > i && v[j - 1] == '\r' {
        j - 1
    } else {
        j
    };
    let mut p = i;
    while p < end
        invariant
            i <= p <= end <= v@.len(),
            line@ == v@.subrange(i as int, p as int),
        decreases end - p,
    {
        line.push(v[p]);
        assert(line@ =~= v@.subrange(i as int, p + 1));
        p = p + 1;
    }
    proof {
        assert(line@ == line_of(v@, i as int, j as int));
    }
    out.push(chars_string(&line));
    if j < v.len() {
        proof {
            assert(strings_view(out@) =~= strings_view(old(out)@) + seq![
                line_of(v@, i as int, j as int),
            ]);
        }
        split_lines_from(v, j + 1, out);
        assert(strings_view(out@) =~= strings_view(old(out)@) + split_lines(v@, i as int));
    } else {
        assert(strings_view(out@) =~= strings_view(old(out)@) + split_lines(v@, i as int));
    }
}

/// The lines joined with a line break between each two.
pub open spec fn join_nl(v: Seq<Seq<char>>) -> Seq<char>
    decreases v.len(),
{
    if v.len() == 0 {
        Seq::<char>::empty()
    } else if v.len() == 1 {
        v[0]
    } else {
        v[0] + seq!['\n'] + join_nl(v.drop_first())
    }
}

/// Joins lines with a line break between each two.
pub fn join_nl_vec(v: &Vec<String>) -> (r: String)
    ensures
        r@ == join_nl(strings_view(v@)),
{
    let mut out: Vec<char> = Vec::new();
    join_nl_from(v, 0, &mut out);
    proof {
        assert(strings_view(v@).skip(0) =~= strings_view(v@));
    }
    chars_string(&out)
}

fn join_nl_from(v: &Vec<String>, i: usize, out: &mut Vec<char>)
    requires
        i <= v@.len(),
    ensures
        final(out)@ == old(out)@ + join_nl(strings_view(v@).skip(i as int)),
    decreases v@.len() - i,
{
    let ghost t = strings_view(v@).skip(i as int);
    if i == v.len() {
        assert(out@ =~= out@ + join_nl(t));
        return ;
    }
    proof {
        assert(t[0] == v@[i as int]@);
        assert(t.drop_first() =~= strings_view(v@).skip(i + 1));
    }
    append_str(out, v[i].as_str());
    if i + 1 < v.len() {
        out.push('\n');
        join_nl_from(v, i + 1, out);
        assert(out@ =~= old(out)@ + join_nl(t));
    } else {
        assert(t.len() == 1);
        assert(out@ =~= old(out)@ + join_nl(t));
    }
}

} // verus!
