//! Rendering a documentation page's HTML into markdown: the main container is located by
//! tag depth, tags are stripped with block boundaries kept as line breaks, code blocks are
//! fenced, links are annotated and entities decoded.
use vstd::prelude::*;
use crate::strings::{
    chars_of, copy_str, is_whitespace, push_str, split_chars, split_parts, string_of, trim_by,
    trim_range, ws,
};
use crate::sync::{ascii_lower, lower_ascii};

verus! {

/// Whether `pat` occurs in `s` at `i`.
pub open spec fn occurs_at<T>(s: Seq<T>, i: int, pat: Seq<T>) -> bool {
    0 <= i && i + pat.len() <= s.len() && s.subrange(i, i + pat.len()) == pat
}

fn run_at(b: &[char], i: usize, pat: &[char]) -> (r: bool)
    ensures
        r == occurs_at(b@, i as int, pat@),
{
    if i > b.len() || pat.len() > b.len() - i {
        return false;
    }
    let mut k: usize = 0;
    while k < pat.len()
        invariant
            i + pat.len() <= b.len(),
            k <= pat.len(),
            forall|j: int| 0 <= j < k ==> b@[i + j] == pat@[j],
        decreases pat.len() - k,
    {
        if b[i + k] != pat[k] {
            assert(b@.subrange(i as int, i + pat.len())[k as int] != pat@[k as int]);
            return false;
        }
        k = k + 1;
    }
    assert(b@.subrange(i as int, i + pat.len()) =~= pat@);
    true
}

fn chars_at(s: &Vec<char>, i: usize, pat: &Vec<char>) -> (r: bool)
    ensures
        r == occurs_at(s@, i as int, pat@),
{
    if i > s.len() || pat.len() > s.len() - i {
        return false;
    }
    let mut k: usize = 0;
    while k < pat.len()
        invariant
            i + pat.len() <= s.len(),
            k <= pat.len(),
            forall|j: int| 0 <= j < k ==> s@[i + j] == pat@[j],
        decreases pat.len() - k,
    {
        if s[i + k] != pat[k] {
            assert(s@.subrange(i as int, i + pat.len())[k as int] != pat@[k as int]);
            return false;
        }
        k = k + 1;
    }
    assert(s@.subrange(i as int, i + pat.len()) =~= pat@);
    true
}

/// The first position at or after `from` where `pat` occurs.
pub open spec fn find_from<T>(s: Seq<T>, pat: Seq<T>, from: int) -> Option<int>
    decreases s.len() + 1 - from,
{
    if from < 0 || from + pat.len() > s.len() {
        None
    } else if occurs_at(s, from, pat) {
        Some(from)
    } else {
        find_from(s, pat, from + 1)
    }
}

proof fn lemma_find_from_bounds<T>(s: Seq<T>, pat: Seq<T>, from: int)
    ensures
        find_from(s, pat, from) matches Some(k) ==> from <= k && k + pat.len() <= s.len() && occurs_at(s, k, pat),
    decreases s.len() + 1 - from,
{
    if from >= 0 && from + pat.len() <= s.len() && !occurs_at(s, from, pat) {
        lemma_find_from_bounds(s, pat, from + 1);
    }
}

fn find_chars(s: &Vec<char>, pat: &Vec<char>, from: usize) -> (r: Option<usize>)
    ensures
        r is Some <==> find_from(s@, pat@, from as int) is Some,
        r is Some ==> r->0 as int == find_from(s@, pat@, from as int)->0,
        r matches Some(k) ==> from <= k && k + pat@.len() <= s@.len(),
{
    proof {
        lemma_find_from_bounds(s@, pat@, from as int);
    }
    if from > s.len() || pat.len() > s.len() - from {
        return None;
    }
    let limit = s.len() - pat.len();
    let mut k = from;
    while k < limit
        invariant
            from <= k <= limit,
            limit == s.len() - pat.len(),
            find_from(s@, pat@, from as int) == find_from(s@, pat@, k as int),
        decreases limit - k,
    {
        if chars_at(s, k, pat) {
            return Some(k);
        }
        k = k + 1;
    }
    if chars_at(s, k, pat) {
        Some(k)
    } else {
        assert(find_from(s@, pat@, k + 1) is None);
        None
    }
}

fn find_run(b: &[char], pat: &[char]) -> (r: Option<usize>)
    ensures
        r is Some <==> find_from(b@, pat@, 0) is Some,
        r is Some ==> r->0 as int == find_from(b@, pat@, 0)->0,
        r matches Some(k) ==> k + pat@.len() <= b@.len(),
{
    proof {
        lemma_find_from_bounds(b@, pat@, 0);
    }
    if pat.len() > b.len() {
        return None;
    }
    let limit = b.len() - pat.len();
    let mut k: usize = 0;
    while k < limit
        invariant
            k <= limit,
            limit == b.len() - pat.len(),
            find_from(b@, pat@, 0) == find_from(b@, pat@, k as int),
        decreases limit - k,
    {
        if run_at(b, k, pat) {
            return Some(k);
        }
        k = k + 1;
    }
    if run_at(b, k, pat) {
        Some(k)
    } else {
        assert(find_from(b@, pat@, k + 1) is None);
        None
    }
}

/// `s` with every occurrence of `from` replaced by `to`, left to right without overlaps, as
/// `str::replace` does for a non-empty pattern.
pub open spec fn replace_all(s: Seq<char>, from: Seq<char>, to: Seq<char>) -> Seq<char>
    decreases s.len(),
{
    if s.len() == 0 || from.len() == 0 {
        s
    } else if occurs_at(s, 0, from) {
        to + replace_all(s.skip(from.len() as int), from, to)
    } else {
        seq![s[0]] + replace_all(s.drop_first(), from, to)
    }
}

fn replace_chars(s: &Vec<char>, from: &str, to: &str) -> (r: Vec<char>)
    requires
        from@.len() > 0,
    ensures
        r@ == replace_all(s@, from@, to@),
{
    let f = chars_of(from);
    let t = chars_of(to);
    let mut out: Vec<char> = Vec::new();
    let mut i: usize = 0;
    assert(s@.skip(0) =~= s@);
    while i < s.len()
        invariant
            f@ == from@,
            t@ == to@,
            f@.len() > 0,
            i <= s.len(),
            replace_all(s@, f@, t@) == out@ + replace_all(s@.skip(i as int), f@, t@),
        decreases s.len() - i,
    {
        let ghost rest = s@.skip(i as int);
        if chars_at(s, i, &f) {
            assert(rest.subrange(0, f@.len() as int) =~= s@.subrange(i as int, i + f@.len()));
            assert(rest.skip(f@.len() as int) =~= s@.skip(i + f@.len()));
            let mut k: usize = 0;
            let ghost before = out@;
            while k < t.len()
                invariant
                    k <= t.len(),
                    out@ == before + t@.take(k as int),
                decreases t.len() - k,
            {
                out.push(t[k]);
                k = k + 1;
                assert(out@ =~= before + t@.take(k as int));
            }
            assert(t@.take(t@.len() as int) =~= t@);
            assert(out@ + replace_all(s@.skip(i + f@.len()), f@, t@) =~= before + (t@ + replace_all(rest.skip(f@.len() as int), f@, t@)));
            i = i + f.len();
        } else {
            proof {
                if i + f@.len() <= s@.len() {
                    assert(rest.subrange(0, f@.len() as int) =~= s@.subrange(i as int, i + f@.len()));
                }
            }
            assert(rest.drop_first() =~= s@.skip(i + 1));
            assert(rest[0] == s@[i as int]);
            let ghost before = out@;
            out.push(s[i]);
            assert(out@ + replace_all(s@.skip(i + 1), f@, t@) =~= before + (seq![rest[0]] + replace_all(rest.drop_first(), f@, t@)));
            i = i + 1;
        }
    }
    assert(s@.skip(i as int) =~= Seq::<char>::empty());
    assert(out@ + Seq::<char>::empty() =~= out@);
    out
}

} // verus!
verus! {

/// Lines trimmed, each followed by a line break, with a run of blank lines kept as one;
/// the second part tells whether the text so far ends in a blank line.
pub open spec fn clean_lines(ls: Seq<Seq<char>>) -> (Seq<char>, bool)
    decreases ls.len(),
{
    if ls.len() == 0 {
        (Seq::empty(), false)
    } else {
        let (o, blank) = clean_lines(ls.drop_last());
        let t = trim_by(ls.last(), ws());
        if t.len() == 0 {
            if !blank {
                (o + "\n"@, true)
            } else {
                (o, blank)
            }
        } else {
            (o + t + "\n"@, false)
        }
    }
}

/// Whitespace normalisation of rendered text: every line trimmed, runs of blank lines
/// collapsed to one, and the whole trimmed. (A `\r` before a line break and a final line
/// break are whitespace that trimming removes, so lines are simply the pieces between `\n`.)
pub open spec fn cleaned(s: Seq<char>) -> Seq<char> {
    trim_by(clean_lines(split_parts(s, '\n')).0, ws())
}

fn clean_chars(s: &Vec<char>) -> (r: Vec<char>)
    ensures
        r@ == cleaned(s@),
{
    let lines = split_chars(s, '\n');
    let ghost ls = split_parts(s@, '\n');
    let mut out: Vec<char> = Vec::new();
    let mut blank = false;
    let mut i: usize = 0;
    while i < lines.len()
        invariant
            i <= lines.len(),
            lines@.len() == ls.len(),
            forall|k: int| 0 <= k < lines@.len() ==> #[trigger] lines@[k]@ == ls[k],
            (out@, blank) == clean_lines(ls.take(i as int)),
        decreases lines.len() - i,
    {
        assert(ls.take(i + 1).drop_last() =~= ls.take(i as int));
        assert(ls.take(i + 1).last() == ls[i as int]);
        let line = &lines[i];
        let t = trim_range(line, 0, line.len(), false);
        assert(line@.subrange(0, line@.len() as int) =~= line@);
        if t.len() == 0 {
            if !blank {
                out.push('\n');
                assert(out@ =~= clean_lines(ls.take(i as int)).0 + "\n"@) by {
                    reveal_strlit("\n");
                }
                blank = true;
            }
        } else {
            let ghost before = out@;
            let mut k: usize = 0;
            while k < t.len()
                invariant
                    k <= t.len(),
                    out@ == before + t@.take(k as int),
                decreases t.len() - k,
            {
                out.push(t[k]);
                k = k + 1;
                assert(out@ =~= before + t@.take(k as int));
            }
            out.push('\n');
            assert(out@ =~= before + t@ + "\n"@) by {
                reveal_strlit("\n");
                assert(t@.take(t@.len() as int) =~= t@);
            }
            blank = false;
        }
        i = i + 1;
    }
    assert(ls.take(ls.len() as int) =~= ls);
    let r = trim_range(&out, 0, out.len(), false);
    assert(out@.subrange(0, out@.len() as int) =~= out@);
    r
}

/// Normalises whitespace: lines trimmed, blank runs collapsed, the whole trimmed.
pub fn clean_markdown_whitespace(s: &str) -> (r: String)
    ensures
        r@ == cleaned(s@),
{
    let cs = chars_of(s);
    string_of(&clean_chars(&cs))
}

/// The trimmed text between the first `<title>` and the next `</title>`.
pub open spec fn title_of(h: Seq<char>) -> Option<Seq<char>> {
    match find_from(h, "<title>"@, 0) {
        None => None,
        Some(a) => match find_from(h, "</title>"@, a + 7) {
            None => None,
            Some(b) => Some(trim_by(h.subrange(a + 7, b), ws())),
        },
    }
}

/// The page title of an HTML document.
pub fn extract_title(html: &str) -> (r: Option<String>)
    ensures
        match title_of(html@) {
            Some(t) => r matches Some(x) && x@ == t,
            None => r is None,
        },
{
    let h = chars_of(html);
    let open = chars_of("<title>");
    let close = chars_of("</title>");
    proof {
        reveal_strlit("<title>");
        assert(open@.len() == 7);
    }
    let a = match find_chars(&h, &open, 0) {
        Some(a) => a,
        None => {
            return None;
        },
    };
    let n = open.len();
    let hl = h.len();
    assert(a + n <= hl);
    let start = a + n;
    assert(start as int == a + 7);
    let b = match find_chars(&h, &close, start) {
        Some(b) => b,
        None => {
            return None;
        },
    };
    let t = trim_range(&h, start, b, false);
    Some(string_of(&t))
}

/// Makes a documentation link absolute: links from the site root get the site's origin.
pub open spec fn absolute_href(href: Seq<char>) -> Seq<char> {
    if occurs_at(href, 0, "http"@) {
        href
    } else if href.len() > 0 && href[0] == '/' {
        "https://docs.rs"@ + href
    } else {
        href
    }
}

/// Makes a link target absolute.
pub fn href_to_absolute(href: &str) -> (r: String)
    ensures
        r@ == absolute_href(href@),
{
    let h = chars_of(href);
    let http = chars_of("http");
    if chars_at(&h, 0, &http) {
        copy_str(href)
    } else if h.len() > 0 && h[0] == '/' {
        let mut s = copy_str("https://docs.rs");
        push_str(&mut s, href);
        s
    } else {
        copy_str(href)
    }
}

} // verus!
verus! {

/// Whether `w` occurs in `s` at `k`, ignoring ASCII case.
pub open spec fn occurs_ci_at(s: Seq<char>, k: int, w: Seq<char>) -> bool {
    0 <= k && k + w.len() <= s.len() && forall|i: int|
        0 <= i < w.len() ==> ascii_lower(#[trigger] s[k + i]) == ascii_lower(w[i])
}

/// The first position where `w` occurs in `s` ignoring ASCII case, from `from` on.
pub open spec fn find_ci_from(s: Seq<char>, w: Seq<char>, from: int) -> Option<int>
    decreases s.len() + 1 - from,
{
    if from < 0 || from + w.len() > s.len() {
        None
    } else if occurs_ci_at(s, from, w) {
        Some(from)
    } else {
        find_ci_from(s, w, from + 1)
    }
}

fn chars_ci_at(s: &Vec<char>, k: usize, w: &Vec<char>) -> (r: bool)
    ensures
        r == occurs_ci_at(s@, k as int, w@),
{
    if k > s.len() || w.len() > s.len() - k {
        return false;
    }
    let mut i: usize = 0;
    while i < w.len()
        invariant
            k + w.len() <= s.len(),
            i <= w.len(),
            forall|j: int| 0 <= j < i ==> ascii_lower(#[trigger] s@[k + j]) == ascii_lower(w@[j]),
        decreases w.len() - i,
    {
        if lower_ascii(s[k + i]) != lower_ascii(w[i]) {
            return false;
        }
        i = i + 1;
    }
    true
}

proof fn lemma_find_ci_bounds(s: Seq<char>, w: Seq<char>, from: int)
    ensures
        find_ci_from(s, w, from) matches Some(k) ==> from <= k && k + w.len() <= s.len(),
    decreases s.len() + 1 - from,
{
    if from >= 0 && from + w.len() <= s.len() && !occurs_ci_at(s, from, w) {
        lemma_find_ci_bounds(s, w, from + 1);
    }
}

fn find_ci(s: &Vec<char>, w: &Vec<char>) -> (r: Option<usize>)
    ensures
        r is Some <==> find_ci_from(s@, w@, 0) is Some,
        r is Some ==> r->0 as int == find_ci_from(s@, w@, 0)->0,
        r matches Some(k) ==> k + w@.len() <= s@.len(),
{
    proof {
        lemma_find_ci_bounds(s@, w@, 0);
    }
    if w.len() > s.len() {
        return None;
    }
    let limit = s.len() - w.len();
    let mut k: usize = 0;
    while k < limit
        invariant
            k <= limit,
            limit == s.len() - w.len(),
            find_ci_from(s@, w@, 0) == find_ci_from(s@, w@, k as int),
        decreases limit - k,
    {
        if chars_ci_at(s, k, w) {
            return Some(k);
        }
        k = k + 1;
    }
    if chars_ci_at(s, k, w) {
        Some(k)
    } else {
        assert(find_ci_from(s@, w@, k + 1) is None);
        None
    }
}

/// The first index at or after `from` whose character satisfies `p`, or the length.
pub open spec fn first_where(s: Seq<char>, from: int, p: spec_fn(char) -> bool) -> int
    decreases s.len() - from,
{
    if from < 0 || from >= s.len() {
        s.len() as int
    } else if p(s[from]) {
        from
    } else {
        first_where(s, from + 1, p)
    }
}

pub open spec fn value_end() -> spec_fn(char) -> bool {
    |c: char| c == ' ' || c == '>'
}

/// The link target of a tag's text: the value after the first `href=` (any ASCII case),
/// quoted with `"` or `'` up to the matching quote, or unquoted up to a space or `>`; made
/// absolute. None without `href=` or without the closing quote.
pub open spec fn href_of(tag: Seq<char>) -> Option<Seq<char>> {
    match find_ci_from(tag, "href="@, 0) {
        None => None,
        Some(k) => {
            let v = crate::strings::trim_start_by(tag.skip(k + 5), ws());
            if v.len() > 0 && (v[0] == '"' || v[0] == '\'') {
                let w = v.drop_first();
                let e = first_where(w, 0, |c: char| c == v[0]);
                if e < w.len() {
                    Some(absolute_href(w.take(e)))
                } else {
                    None
                }
            } else {
                Some(absolute_href(v.take(first_where(v, 0, value_end()))))
            }
        },
    }
}

proof fn lemma_first_where(s: Seq<char>, from: int, p: spec_fn(char) -> bool)
    requires
        0 <= from <= s.len(),
    ensures
        from <= first_where(s, from, p) <= s.len(),
        forall|j: int| from <= j < first_where(s, from, p) ==> !p(#[trigger] s[j]),
        first_where(s, from, p) < s.len() ==> p(s[first_where(s, from, p)]),
    decreases s.len() - from,
{
    if from < s.len() && !p(s[from]) {
        lemma_first_where(s, from + 1, p);
    }
}

/// The link target of a tag, made absolute.
pub fn extract_href(tag: &str) -> (r: Option<String>)
    ensures
        match href_of(tag@) {
            Some(h) => r matches Some(x) && x@ == h,
            None => r is None,
        },
{
    let t = chars_of(tag);
    let pat = chars_of("href=");
    proof {
        reveal_strlit("href=");
    }
    let k = match find_ci(&t, &pat) {
        Some(k) => k,
        None => {
            return None;
        },
    };
    let tl = t.len();
    assert(pat@.len() == 5);
    let mut i = k + 5;
    while i < tl && is_whitespace(t[i])
        invariant
            k + 5 <= i <= tl,
            tl == t@.len(),
            forall|j: int| k + 5 <= j < i ==> ws()(#[trigger] t@[j]),
        decreases tl - i,
    {
        i = i + 1;
    }
    let ghost s5 = t@.skip(k + 5);
    proof {
        assert forall|j: int| 0 <= j < i - (k + 5) implies ws()(#[trigger] s5[j]) by {
            assert(s5[j] == t@[k + 5 + j]);
        }
        if i < tl {
            assert(s5[i - (k + 5)] == t@[i as int]);
        }
        crate::strings::lemma_trim_start_skip(s5, ws(), i - (k + 5));
        assert(s5.skip(i - (k + 5)) =~= t@.skip(i as int));
    }
    let ghost v = t@.skip(i as int);
    if i < tl && (t[i] == '"' || t[i] == '\'') {
        let q = t[i];
        let ghost w = v.drop_first();
        let mut e = i + 1;
        while e < tl && t[e] != q
            invariant
                i + 1 <= e <= tl,
                tl == t@.len(),
                forall|j: int| i + 1 <= j < e ==> t@[j] != q,
            decreases tl - e,
        {
            e = e + 1;
        }
        proof {
            let p = |c: char| c == v[0];
            assert(v[0] == q);
            assert(w =~= t@.skip(i + 1));
            lemma_first_where(w, 0, p);
            let fe = first_where(w, 0, p);
            if fe < e - (i + 1) {
                assert(w[fe] == t@[i + 1 + fe]);
            }
            if e < tl {
                assert(w[e - (i + 1)] == t@[e as int]);
                if fe > e - (i + 1) {
                    assert(!p(w[e - (i + 1)]));
                }
            } else if fe < w.len() {
                assert(w[fe] == t@[i + 1 + fe]);
            }
        }
        if e < tl {
            let mut inner: Vec<char> = Vec::new();
            let mut m = i + 1;
            while m < e
                invariant
                    i + 1 <= m <= e,
                    e < tl,
                    tl == t@.len(),
                    inner@ == t@.subrange(i + 1, m as int),
                decreases e - m,
            {
                inner.push(t[m]);
                m = m + 1;
                assert(inner@ =~= t@.subrange(i + 1, m as int));
            }
            assert(inner@ =~= w.take(e - (i + 1)));
            let s = string_of(&inner);
            return Some(href_to_absolute(s.as_str()));
        }
        return None;
    }
    let mut e = i;
    while e < tl && t[e] != ' ' && t[e] != '>'
        invariant
            i <= e <= tl,
            tl == t@.len(),
            forall|j: int| i <= j < e ==> !value_end()(#[trigger] t@[j]),
        decreases tl - e,
    {
        e = e + 1;
    }
    proof {
        lemma_first_where(v, 0, value_end());
        let fe = first_where(v, 0, value_end());
        if fe < e - i {
            assert(v[fe] == t@[i + fe]);
        }
        if e < tl {
            assert(v[e - i] == t@[e as int]);
        }
    }
    let mut inner: Vec<char> = Vec::new();
    let mut m = i;
    while m < e
        invariant
            i <= m <= e <= tl,
            tl == t@.len(),
            inner@ == t@.subrange(i as int, m as int),
        decreases e - m,
    {
        inner.push(t[m]);
        m = m + 1;
        assert(inner@ =~= t@.subrange(i as int, m as int));
    }
    assert(inner@ =~= v.take(e - i));
    let s = string_of(&inner);
    Some(href_to_absolute(s.as_str()))
}

} // verus!
verus! {

/// Character patterns of the tags and entities the scanner recognises.
pub open spec fn div_open() -> Seq<char> {
    seq!['<', 'd', 'i', 'v']
}

pub open spec fn div_close() -> Seq<char> {
    seq!['<', '/', 'd', 'i', 'v', '>']
}

/// Whether a `<div` tag starts at `i`: the name is followed by a space, `>` or the end.
pub open spec fn div_starts(b: Seq<char>, i: int) -> bool {
    occurs_at(b, i, div_open()) && (i + 4 >= b.len() || b[i + 4] == ' ' || b[i + 4] == '>')
}

/// The end of the element opened at the start of `b`, scanning from `i` at nesting `depth`:
/// the position just past the `</div>` that brings the depth back to zero.
pub open spec fn close_scan(b: Seq<char>, i: int, depth: int) -> Option<int>
    decreases b.len() - i,
{
    if i < 0 || i >= b.len() {
        None
    } else if div_starts(b, i) {
        close_scan(b, i + 4, depth + 1)
    } else if occurs_at(b, i, div_close()) {
        if depth - 1 == 0 {
            Some(i + 6)
        } else {
            close_scan(b, i + 6, depth - 1)
        }
    } else {
        close_scan(b, i + 1, depth)
    }
}

proof fn lemma_close_scan(b: Seq<char>, i: int, depth: int)
    ensures
        close_scan(b, i, depth) matches Some(e) ==> 0 <= e <= b.len(),
    decreases b.len() - i,
{
    if 0 <= i < b.len() {
        if div_starts(b, i) {
            lemma_close_scan(b, i + 4, depth + 1);
        } else if occurs_at(b, i, div_close()) {
            if depth - 1 != 0 {
                lemma_close_scan(b, i + 6, depth - 1);
            }
        } else {
            lemma_close_scan(b, i + 1, depth);
        }
    }
}

/// The end (exclusive) of the `div` element that starts `html`, by matching nested
/// `<div` and `</div>` tags.
pub fn find_closing_div(html: &[char]) -> (r: Option<usize>)
    ensures
        r is Some <==> close_scan(html@, 0, 0) is Some,
        r is Some ==> r->0 as int == close_scan(html@, 0, 0)->0,
{
    let open: [char; 4] = ['<', 'd', 'i', 'v'];
    let close: [char; 6] = ['<', '/', 'd', 'i', 'v', '>'];
    assert(open@ =~= div_open());
    assert(close@ =~= div_close());
    let mut depth: i128 = 0;
    let mut i: usize = 0;
    let n = html.len();
    proof {
        lemma_close_scan(html@, 0, 0);
    }
    while i < n
        invariant
            n == html@.len(),
            i <= n,
            -(i as int) <= depth <= i,
            open@ == div_open(),
            close@ == div_close(),
            close_scan(html@, 0, 0) == close_scan(html@, i as int, depth as int),
        decreases n - i,
    {
        if run_at(html, i, open.as_slice()) {
            let is_tag = i + 4 >= n || html[i + 4] == ' ' || html[i + 4] == '>';
            if is_tag {
                depth = depth + 1;
                i = i + 4;
                continue;
            }
        }
        if run_at(html, i, close.as_slice()) {
            depth = depth - 1;
            i = i + 6;
            if depth == 0 {
                proof {
                    lemma_close_scan(html@, 0, 0);
                }
                return Some(i);
            }
            continue;
        }
        i = i + 1;
    }
    None
}

} // verus!
verus! {

pub open spec fn pre_open() -> Seq<char> {
    seq!['<', 'p', 'r', 'e']
}

pub open spec fn pre_close() -> Seq<char> {
    seq!['<', '/', 'p', 'r', 'e', '>']
}

pub open spec fn ent_nbsp() -> Seq<char> {
    seq!['&', 'n', 'b', 's', 'p', ';']
}

pub open spec fn ent_lt() -> Seq<char> {
    seq!['&', 'l', 't', ';']
}

pub open spec fn ent_gt() -> Seq<char> {
    seq!['&', 'g', 't', ';']
}

pub open spec fn ent_amp() -> Seq<char> {
    seq!['&', 'a', 'm', 'p', ';']
}

pub open spec fn ent_quot() -> Seq<char> {
    seq!['&', 'q', 'u', 'o', 't', ';']
}

/// Whether a tag's text starts with `w`, ignoring ASCII case.
pub open spec fn starts_ci(t: Seq<char>, w: Seq<char>) -> bool {
    occurs_ci_at(t, 0, w)
}

/// Tags that end a block of text: paragraphs, headings, list items, divisions, breaks.
pub open spec fn block_tag(t: Seq<char>) -> bool {
    starts_ci(t, "p"@) || starts_ci(t, "/p"@) || starts_ci(t, "h"@) || starts_ci(t, "/h"@)
        || starts_ci(t, "li"@) || starts_ci(t, "/li"@) || starts_ci(t, "div"@) || starts_ci(t, "/div"@)
        || starts_ci(t, "br"@)
}

/// What closing a tag writes: the target of a link tag in parentheses, then a line break
/// after block tags.
pub open spec fn tag_close_text(t: Seq<char>) -> Seq<char> {
    let link = if starts_ci(t, "a "@) && href_of(t) is Some {
        " ("@ + href_of(t)->0 + ")"@
    } else {
        Seq::empty()
    };
    link + if block_tag(t) {
        "\n"@
    } else {
        Seq::empty()
    }
}

/// The text of `b` from character `i` on, characters kept whole. `skipping` holds inside
/// the rest of a `<pre` opening tag, `in_tag` inside any other tag, whose text so far is
/// `tag`. Preformatted blocks become fenced code, tags vanish (closing one writes
/// `tag_close_text`), and five entities are decoded.
pub open spec fn strip_scan(b: Seq<char>, i: int, skipping: bool, in_tag: bool, tag: Seq<char>) -> Seq<char>
    decreases b.len() - i,
{
    if i < 0 || i >= b.len() {
        Seq::empty()
    } else if skipping {
        strip_scan(b, i + 1, b[i] != '>', in_tag, tag)
    } else if occurs_at(b, i, pre_open()) {
        "\n```rust\n"@ + strip_scan(b, i + 4, true, in_tag, tag)
    } else if occurs_at(b, i, pre_close()) {
        "\n```\n"@ + strip_scan(b, i + 6, false, in_tag, tag)
    } else if b[i] == '<' {
        strip_scan(b, i + 1, false, true, Seq::empty())
    } else if b[i] == '>' {
        tag_close_text(tag) + strip_scan(b, i + 1, false, false, tag)
    } else if in_tag {
        strip_scan(b, i + 1, false, in_tag, tag.push(b[i]))
    } else if occurs_at(b, i, ent_nbsp()) {
        seq![' '] + strip_scan(b, i + 6, false, in_tag, tag)
    } else if occurs_at(b, i, ent_lt()) {
        seq!['<'] + strip_scan(b, i + 4, false, in_tag, tag)
    } else if occurs_at(b, i, ent_gt()) {
        seq!['>'] + strip_scan(b, i + 4, false, in_tag, tag)
    } else if occurs_at(b, i, ent_amp()) {
        seq!['&'] + strip_scan(b, i + 5, false, in_tag, tag)
    } else if occurs_at(b, i, ent_quot()) {
        seq!['"'] + strip_scan(b, i + 6, false, in_tag, tag)
    } else {
        seq![b[i]] + strip_scan(b, i + 1, false, in_tag, tag)
    }
}

fn push_all(out: &mut Vec<char>, s: &str)
    ensures
        final(out)@ == old(out)@ + s@,
{
    let cs = chars_of(s);
    let mut k: usize = 0;
    while k < cs.len()
        invariant
            k <= cs.len(),
            cs@ == s@,
            out@ == old(out)@ + cs@.take(k as int),
        decreases cs.len() - k,
    {
        out.push(cs[k]);
        k = k + 1;
        assert(out@ =~= old(out)@ + cs@.take(k as int));
    }
    assert(cs@.take(cs@.len() as int) =~= cs@);
}

fn tag_starts(t: &Vec<char>, w: &str) -> (r: bool)
    ensures
        r == starts_ci(t@, w@),
{
    let wc = chars_of(w);
    chars_ci_at(t, 0, &wc)
}

fn close_tag_text(t: &Vec<char>) -> (r: Vec<char>)
    ensures
        r@ == tag_close_text(t@),
{
    let mut out: Vec<char> = Vec::new();
    if tag_starts(t, "a ") {
        let s = string_of(t);
        if let Some(h) = extract_href(s.as_str()) {
            push_all(&mut out, " (");
            push_all(&mut out, h.as_str());
            push_all(&mut out, ")");
        }
    }
    let ghost link = out@;
    let block = tag_starts(t, "p") || tag_starts(t, "/p") || tag_starts(t, "h") || tag_starts(t, "/h")
        || tag_starts(t, "li") || tag_starts(t, "/li") || tag_starts(t, "div") || tag_starts(t, "/div")
        || tag_starts(t, "br");
    if block {
        push_all(&mut out, "\n");
    }
    assert(out@ =~= tag_close_text(t@));
    out
}

/// Strips tags from HTML text as `strip_scan` describes.
fn strip_chars(b: &[char]) -> (r: Vec<char>)
    ensures
        r@ == strip_scan(b@, 0, false, false, Seq::empty()),
{
    let pre_o: [char; 4] = ['<', 'p', 'r', 'e'];
    let pre_c: [char; 6] = ['<', '/', 'p', 'r', 'e', '>'];
    let nbsp: [char; 6] = ['&', 'n', 'b', 's', 'p', ';'];
    let lt: [char; 4] = ['&', 'l', 't', ';'];
    let gt: [char; 4] = ['&', 'g', 't', ';'];
    let amp: [char; 5] = ['&', 'a', 'm', 'p', ';'];
    let quot: [char; 6] = ['&', 'q', 'u', 'o', 't', ';'];
    assert(pre_o@ =~= pre_open());
    assert(pre_c@ =~= pre_close());
    assert(nbsp@ =~= ent_nbsp());
    assert(lt@ =~= ent_lt());
    assert(gt@ =~= ent_gt());
    assert(amp@ =~= ent_amp());
    assert(quot@ =~= ent_quot());
    let mut out: Vec<char> = Vec::new();
    let mut skipping = false;
    let mut in_tag = false;
    let mut tag: Vec<char> = Vec::new();
    let mut i: usize = 0;
    let n = b.len();
    while i < n
        invariant
            n == b@.len(),
            i <= n + 6,
            pre_o@ == pre_open(),
            pre_c@ == pre_close(),
            nbsp@ == ent_nbsp(),
            lt@ == ent_lt(),
            gt@ == ent_gt(),
            amp@ == ent_amp(),
            quot@ == ent_quot(),
            strip_scan(b@, 0, false, false, Seq::empty()) == out@ + strip_scan(
                b@,
                i as int,
                skipping,
                in_tag,
                tag@,
            ),
        decreases n - i,
    {
        let ghost before = out@;
        if skipping {
            skipping = b[i] != '>';
            i = i + 1;
        } else if run_at(b, i, pre_o.as_slice()) {
            push_all(&mut out, "\n```rust\n");
            skipping = true;
            i = i + 4;
        } else if run_at(b, i, pre_c.as_slice()) {
            push_all(&mut out, "\n```\n");
            i = i + 6;
        } else if b[i] == '<' {
            in_tag = true;
            tag = Vec::new();
            i = i + 1;
        } else if b[i] == '>' {
            in_tag = false;
            let add = close_tag_text(&tag);
            let mut k: usize = 0;
            while k < add.len()
                invariant
                    k <= add.len(),
                    out@ == before + add@.take(k as int),
                decreases add.len() - k,
            {
                out.push(add[k]);
                k = k + 1;
                assert(out@ =~= before + add@.take(k as int));
            }
            assert(add@.take(add@.len() as int) =~= add@);
            i = i + 1;
        } else if in_tag {
            tag.push(b[i]);
            i = i + 1;
        } else if run_at(b, i, nbsp.as_slice()) {
            out.push(' ');
            i = i + 6;
        } else if run_at(b, i, lt.as_slice()) {
            out.push('<');
            i = i + 4;
        } else if run_at(b, i, gt.as_slice()) {
            out.push('>');
            i = i + 4;
        } else if run_at(b, i, amp.as_slice()) {
            out.push('&');
            i = i + 5;
        } else if run_at(b, i, quot.as_slice()) {
            out.push('"');
            i = i + 6;
        } else {
            out.push(b[i]);
            i = i + 1;
        }
    }
    assert(out@ + Seq::<char>::empty() =~= out@);
    out
}

} // verus!
verus! {

/// Stripped HTML after the second entity pass and whitespace normalisation.
pub open spec fn rendered_text(b: Seq<char>) -> Seq<char> {
    let s = strip_scan(b, 0, false, false, Seq::empty());
    let s1 = replace_all(s, "&lt;"@, "<"@);
    let s2 = replace_all(s1, "&gt;"@, ">"@);
    let s3 = replace_all(s2, "&amp;"@, "&"@);
    let s4 = replace_all(s3, "&quot;"@, "\""@);
    let s5 = replace_all(s4, "&#39;"@, "'"@);
    cleaned(s5)
}

fn render_chars(b: &[char]) -> (r: Vec<char>)
    ensures
        r@ == rendered_text(b@),
{
    let s = strip_chars(b);
    proof {
        reveal_strlit("&lt;");
        reveal_strlit("&gt;");
        reveal_strlit("&amp;");
        reveal_strlit("&quot;");
        reveal_strlit("&#39;");
    }
    let s1 = replace_chars(&s, "&lt;", "<");
    let s2 = replace_chars(&s1, "&gt;", ">");
    let s3 = replace_chars(&s2, "&amp;", "&");
    let s4 = replace_chars(&s3, "&quot;", "\"");
    let s5 = replace_chars(&s4, "&#39;", "'");
    clean_chars(&s5)
}

/// Converts an HTML fragment to markdown text: tags stripped with block breaks kept,
/// preformatted blocks fenced, links annotated, entities decoded, whitespace normalised.
pub fn strip_html_tags(crate_name: &str, version: &str, html: &str) -> (r: String)
    ensures
        r@ == rendered_text(html@),
{
    let cs = chars_of(html);
    string_of(&render_chars(cs.as_slice()))
}

pub open spec fn main_mark() -> Seq<char> {
    seq!['<', 'd', 'i', 'v', ' ', 'i', 'd', '=', '"', 'm', 'a', 'i', 'n', '-', 'c', 'o', 'n', 't', 'e', 'n', 't', '"']
}

pub open spec fn docblock_mark() -> Seq<char> {
    seq!['<', 'd', 'i', 'v', ' ', 'c', 'l', 'a', 's', 's', '=', '"', 'd', 'o', 'c', 'b', 'l', 'o', 'c', 'k', '"']
}

/// The element starting with the first occurrence of `mark`, up to its matching close.
pub open spec fn element_at(b: Seq<char>, mark: Seq<char>) -> Option<Seq<char>> {
    match find_from(b, mark, 0) {
        None => None,
        Some(s) => match close_scan(b.skip(s), 0, 0) {
            Some(e) => Some(b.subrange(s, s + e)),
            None => None,
        },
    }
}

/// The page's primary content as text: the `main-content` element if the page has that
/// marker, else the first `docblock` element; empty when none closes.
pub open spec fn main_content_of(b: Seq<char>) -> Seq<char> {
    let region = if find_from(b, main_mark(), 0) is Some {
        element_at(b, main_mark())
    } else {
        element_at(b, docblock_mark())
    };
    match region {
        Some(r) => trim_by(rendered_text(r), ws()),
        None => Seq::empty(),
    }
}

fn element_text(b: &[char], start: usize) -> (r: Vec<char>)
    requires
        start <= b@.len(),
    ensures
        match close_scan(b@.skip(start as int), 0, 0) {
            Some(e) => r@ == trim_by(rendered_text(b@.subrange(start as int, start + e)), ws()),
            None => r@ == Seq::<char>::empty(),
        },
{
    let rest = vstd::slice::slice_subrange(b, start, b.len());
    assert(rest@ =~= b@.skip(start as int));
    match find_closing_div(rest) {
        Some(end) => {
            proof {
                lemma_close_scan(rest@, 0, 0);
            }
            let region = vstd::slice::slice_subrange(rest, 0, end);
            assert(region@ =~= b@.subrange(start as int, start + end));
            let t = render_chars(region);
            let r = trim_range(&t, 0, t.len(), false);
            assert(t@.subrange(0, t@.len() as int) =~= t@);
            r
        },
        None => Vec::new(),
    }
}

/// The main documentation text of a page.
pub fn extract_main_content(crate_name: &str, version: &str, html: &str) -> (r: String)
    ensures
        r@ == main_content_of(html@),
{
    let cs = chars_of(html);
    let b = cs.as_slice();
    let main: [char; 22] = ['<', 'd', 'i', 'v', ' ', 'i', 'd', '=', '"', 'm', 'a', 'i', 'n', '-', 'c', 'o', 'n', 't', 'e', 'n', 't', '"'];
    let doc: [char; 21] = ['<', 'd', 'i', 'v', ' ', 'c', 'l', 'a', 's', 's', '=', '"', 'd', 'o', 'c', 'b', 'l', 'o', 'c', 'k', '"'];
    assert(main@ =~= main_mark());
    assert(doc@ =~= docblock_mark());
    let t = match find_run(b, main.as_slice()) {
        Some(s) => element_text(b, s),
        None => match find_run(b, doc.as_slice()) {
            Some(s) => element_text(b, s),
            None => Vec::new(),
        },
    };
    proof {
        let e = trim_by(Seq::<char>::empty(), ws());
        assert(e =~= Seq::<char>::empty());
    }
    string_of(&t)
}

} // verus!
verus! {

pub open spec fn is_quote() -> spec_fn(char) -> bool {
    |c: char| c == '"'
}

/// The targets of the attributes that start with `needle` (whose last six characters before
/// the target are `href="`), from position `idx` on, in order.
pub open spec fn link_scan(s: Seq<char>, needle: Seq<char>, idx: int) -> Seq<Seq<char>>
    decreases s.len() + 1 - idx,
{
    match find_from(s, needle, idx) {
        None => Seq::empty(),
        Some(f) => {
            let start = f + 6;
            let e = first_where(s, start, is_quote());
            if idx < e < s.len() && start <= e {
                seq![s.subrange(start, e)] + link_scan(s, needle, e)
            } else {
                Seq::empty()
            }
        },
    }
}

/// `v` without repeats, first occurrences kept in order.
pub open spec fn dedup(v: Seq<Seq<char>>) -> Seq<Seq<char>>
    decreases v.len(),
{
    if v.len() == 0 {
        Seq::empty()
    } else {
        let d = dedup(v.drop_last());
        if d.contains(v.last()) {
            d
        } else {
            d.push(v.last())
        }
    }
}

/// The attribute prefix of same-version documentation links.
pub open spec fn docs_needle(name: Seq<char>, version: Seq<char>) -> Seq<char> {
    "href=\"/"@ + name + "/"@ + version + "/"@
}

/// The distinct same-version documentation links of a page, in order of appearance.
pub open spec fn docs_links_of(name: Seq<char>, version: Seq<char>, h: Seq<char>) -> Seq<Seq<char>> {
    dedup(link_scan(h, docs_needle(name, version), 0))
}

fn contains_text(v: &Vec<String>, x: &Vec<char>) -> (r: bool)
    ensures
        r == crate::sync::texts(v@).contains(x@),
{
    let s = string_of(x);
    let mut i: usize = 0;
    while i < v.len()
        invariant
            i <= v.len(),
            s@ == x@,
            forall|j: int| 0 <= j < i ==> (#[trigger] v@[j])@ != x@,
        decreases v.len() - i,
    {
        if v[i] == s {
            assert(crate::sync::texts(v@)[i as int] == x@);
            return true;
        }
        i = i + 1;
    }
    proof {
        if crate::sync::texts(v@).contains(x@) {
            let k = choose|k: int| 0 <= k < crate::sync::texts(v@).len() && crate::sync::texts(v@)[k] == x@;
            assert(v@[k]@ == x@);
        }
    }
    false
}

/// The distinct links of a page into the documentation of `crate_name` at `version`.
pub fn extract_docs_links(crate_name: &str, version: &str, html: &str) -> (r: Vec<String>)
    ensures
        crate::sync::texts(r@) == docs_links_of(crate_name@, version@, html@),
{
    let h = chars_of(html);
    let mut ns = copy_str("href=\"/");
    push_str(&mut ns, crate_name);
    push_str(&mut ns, "/");
    push_str(&mut ns, version);
    push_str(&mut ns, "/");
    let needle = chars_of(ns.as_str());
    proof {
        reveal_strlit("href=\"/");
        assert(needle@.len() >= 7);
    }
    let ghost nd = needle@;
    let mut links: Vec<String> = Vec::new();
    let ghost mut found: Seq<Seq<char>> = Seq::empty();
    let mut idx: usize = 0;
    while idx <= h.len()
        invariant
            needle@ == nd,
            nd.len() >= 7,
            h@ == html@,
            idx <= h@.len() + 1,
            link_scan(h@, nd, 0) == found + link_scan(h@, nd, idx as int),
            crate::sync::texts(links@) == dedup(found),
        ensures
            link_scan(h@, nd, 0) == found + link_scan(h@, nd, idx as int),
            crate::sync::texts(links@) == dedup(found),
            link_scan(h@, nd, idx as int) == Seq::<Seq<char>>::empty(),
        decreases h@.len() + 1 - idx,
    {
        proof {
            lemma_find_from_bounds(h@, nd, idx as int);
        }
        let f = match find_chars(&h, &needle, idx) {
            Some(f) => f,
            None => {
                break;
            },
        };
        let start = f + 6;
        let mut e = start;
        while e < h.len() && h[e] != '"'
            invariant
                start <= e <= h@.len(),
                forall|j: int| start <= j < e ==> !is_quote()(#[trigger] h@[j]),
            decreases h@.len() - e,
        {
            e = e + 1;
        }
        proof {
            lemma_first_where(h@, start as int, is_quote());
            let fe = first_where(h@, start as int, is_quote());
            if fe < e {
                assert(!is_quote()(h@[fe]));
            }
            if e < h@.len() {
                assert(is_quote()(h@[e as int]));
            }
            assert(fe == e);
        }
        if e >= h.len() {
            break;
        }
        let mut href: Vec<char> = Vec::new();
        let mut m = start;
        while m < e
            invariant
                start <= m <= e <= h@.len(),
                href@ == h@.subrange(start as int, m as int),
            decreases e - m,
        {
            href.push(h[m]);
            m = m + 1;
            assert(href@ =~= h@.subrange(start as int, m as int));
        }
        proof {
            let old_found = found;
            found = found.push(href@);
            assert(found.drop_last() =~= old_found);
            assert(seq![href@] + link_scan(h@, nd, e as int) =~= link_scan(h@, nd, idx as int));
            assert(old_found + link_scan(h@, nd, idx as int) =~= found + link_scan(h@, nd, e as int));
        }
        if !contains_text(&links, &href) {
            let s = string_of(&href);
            links.push(s);
            assert(crate::sync::texts(links@) =~= dedup(found));
        }
        idx = e;
    }
    proof {
        assert(link_scan(h@, nd, idx as int) =~= Seq::<Seq<char>>::empty());
        assert(found + Seq::<Seq<char>>::empty() =~= found);
    }
    links
}

} // verus!
verus! {

/// One list line per documentation link.
pub open spec fn link_lines(ls: Seq<Seq<char>>) -> Seq<char>
    decreases ls.len(),
{
    if ls.len() == 0 {
        Seq::empty()
    } else {
        link_lines(ls.drop_last()) + "- ["@ + ls.last() + "](https://docs.rs"@ + ls.last() + ")\n"@
    }
}

pub open spec fn page_head(name: Seq<char>, version: Seq<char>, title: Seq<char>) -> Seq<char> {
    "# "@ + name + "@"@ + version + "\n\n"@ + "## Overview\n\n"@ + "Generated from docs.rs page **"@ + title
        + "** for `"@ + name + "` `"@ + version + "`.\n\n"@
}

pub open spec fn page_docs(main: Seq<char>) -> Seq<char> {
    if main.len() > 0 {
        "## Documentation\n\n"@ + main + "\n\n"@
    } else {
        Seq::empty()
    }
}

pub open spec fn page_reference(name: Seq<char>, version: Seq<char>) -> Seq<char> {
    "## API Reference\n\n"@ + "- [crate page]("@ + ("https://docs.rs/crate/"@ + name + "/"@ + version) + ")\n"@
        + "- [rustdoc root]("@ + ("https://docs.rs/"@ + name + "/"@ + version) + "/"@ + name + "/)\n"@
}

pub open spec fn page_tail(name: Seq<char>, version: Seq<char>) -> Seq<char> {
    "\n## Example\n\n"@ + "```rust\n"@ + "use "@ + name + " as _;\n"@ + "```\n\n"@ + "---\n"@ + "Source: "@
        + ("https://docs.rs/crate/"@ + name + "/"@ + version) + "\n"@
}

/// At most the first twenty links.
pub open spec fn shown_links(links: Seq<Seq<char>>) -> Seq<Seq<char>> {
    if links.len() > 20 {
        links.take(20)
    } else {
        links
    }
}

/// The markdown document rendered from a documentation page: title and overview, the main
/// content when there is any, an API reference with at most twenty of the page's
/// documentation links, a usage stub, and the source.
pub open spec fn page_markdown(name: Seq<char>, version: Seq<char>, h: Seq<char>) -> Seq<char> {
    let title = match title_of(h) {
        Some(t) => t,
        None => name + " "@ + version,
    };
    page_head(name, version, title) + page_docs(main_content_of(h)) + page_reference(name, version)
        + link_lines(shown_links(docs_links_of(name, version, h))) + page_tail(name, version)
}

fn push_head(out: &mut String, name: &str, version: &str, title: &str)
    ensures
        final(out)@ == old(out)@ + page_head(name@, version@, title@),
{
    push_str(out, "# ");
    push_str(out, name);
    push_str(out, "@");
    push_str(out, version);
    push_str(out, "\n\n");
    push_str(out, "## Overview\n\n");
    push_str(out, "Generated from docs.rs page **");
    push_str(out, title);
    push_str(out, "** for `");
    push_str(out, name);
    push_str(out, "` `");
    push_str(out, version);
    push_str(out, "`.\n\n");
    assert(out@ =~= old(out)@ + page_head(name@, version@, title@));
}

fn push_reference(out: &mut String, name: &str, version: &str)
    ensures
        final(out)@ == old(out)@ + page_reference(name@, version@),
{
    push_str(out, "## API Reference\n\n");
    push_str(out, "- [crate page](");
    push_str(out, "https://docs.rs/crate/");
    push_str(out, name);
    push_str(out, "/");
    push_str(out, version);
    push_str(out, ")\n");
    push_str(out, "- [rustdoc root](");
    push_str(out, "https://docs.rs/");
    push_str(out, name);
    push_str(out, "/");
    push_str(out, version);
    push_str(out, "/");
    push_str(out, name);
    push_str(out, "/)\n");
    assert(out@ =~= old(out)@ + page_reference(name@, version@));
}

fn push_tail(out: &mut String, name: &str, version: &str)
    ensures
        final(out)@ == old(out)@ + page_tail(name@, version@),
{
    push_str(out, "\n## Example\n\n");
    push_str(out, "```rust\n");
    push_str(out, "use ");
    push_str(out, name);
    push_str(out, " as _;\n");
    push_str(out, "```\n\n");
    push_str(out, "---\n");
    push_str(out, "Source: ");
    push_str(out, "https://docs.rs/crate/");
    push_str(out, name);
    push_str(out, "/");
    push_str(out, version);
    push_str(out, "\n");
    assert(out@ =~= old(out)@ + page_tail(name@, version@));
}

fn push_links(out: &mut String, links: &Vec<String>)
    ensures
        final(out)@ == old(out)@ + link_lines(shown_links(crate::sync::texts(links@))),
{
    let n: usize = if links.len() > 20 { 20 } else { links.len() };
    let ghost all = crate::sync::texts(links@);
    let ghost shown = all.take(n as int);
    let mut i: usize = 0;
    while i < n
        invariant
            i <= n <= links@.len(),
            all == crate::sync::texts(links@),
            shown == all.take(n as int),
            out@ == old(out)@ + link_lines(shown.take(i as int)),
        decreases n - i,
    {
        assert(shown.take(i + 1).drop_last() =~= shown.take(i as int));
        assert(shown.take(i + 1).last() == links@[i as int]@);
        push_str(out, "- [");
        push_str(out, links[i].as_str());
        push_str(out, "](https://docs.rs");
        push_str(out, links[i].as_str());
        push_str(out, ")\n");
        i = i + 1;
        assert(out@ =~= old(out)@ + link_lines(shown.take(i as int)));
    }
    assert(shown.take(n as int) =~= shown);
    proof {
        if all.len() <= 20 {
            assert(shown =~= all);
        }
    }
}

/// Renders a documentation page of `crate_name` at `version` as markdown.
pub fn render_docsrs_markdown(crate_name: &str, version: &str, html: &str) -> (r: String)
    ensures
        r@ == page_markdown(crate_name@, version@, html@),
{
    let title = match extract_title(html) {
        Some(t) => t,
        None => {
            let mut t = copy_str(crate_name);
            push_str(&mut t, " ");
            push_str(&mut t, version);
            t
        },
    };
    let links = extract_docs_links(crate_name, version, html);
    let main = extract_main_content(crate_name, version, html);
    let mut out = String::new();
    push_head(&mut out, crate_name, version, title.as_str());
    let main_chars = chars_of(main.as_str());
    if main_chars.len() > 0 {
        push_str(&mut out, "## Documentation\n\n");
        push_str(&mut out, main.as_str());
        push_str(&mut out, "\n\n");
    }
    push_reference(&mut out, crate_name, version);
    push_links(&mut out, &links);
    push_tail(&mut out, crate_name, version);
    assert(out@ =~= page_markdown(crate_name@, version@, html@));
    out
}

} // verus!
verus! {

/// `s` with every trailing copy of `suf` removed.
pub open spec fn strip_suffixes(s: Seq<char>, suf: Seq<char>) -> Seq<char>
    decreases s.len(),
{
    if suf.len() > 0 && s.len() >= suf.len() && s.skip(s.len() - suf.len()) == suf {
        strip_suffixes(s.take(s.len() - suf.len()), suf)
    } else {
        s
    }
}

/// The non-empty pieces, in order.
pub open spec fn non_empty(ps: Seq<Seq<char>>) -> Seq<Seq<char>>
    decreases ps.len(),
{
    if ps.len() == 0 {
        Seq::empty()
    } else if ps.last().len() == 0 {
        non_empty(ps.drop_last())
    } else {
        non_empty(ps.drop_last()).push(ps.last())
    }
}

/// `owner/name` of a GitHub repository URL: after `github.com/`, the first two non-empty
/// path segments, once surrounding whitespace, trailing `/` and trailing `.git` are gone.
pub open spec fn owner_repo_of(url: Seq<char>) -> Option<Seq<char>> {
    let n = strip_suffixes(crate::strings::trim_end_by(trim_by(url, ws()), crate::strings::slash()), ".git"@);
    match find_from(n, "github.com/"@, 0) {
        None => None,
        Some(k) => {
            let parts = non_empty(split_parts(n.skip(k + 11), '/'));
            if parts.len() >= 2 {
                Some(parts[0] + "/"@ + parts[1])
            } else {
                None
            }
        },
    }
}

fn strip_git_suffixes(s: &Vec<char>) -> (r: Vec<char>)
    ensures
        r@ == strip_suffixes(s@, ".git"@),
{
    let suf = chars_of(".git");
    proof {
        reveal_strlit(".git");
    }
    let mut n = s.len();
    assert(s@.take(n as int) =~= s@);
    while n >= 4 && chars_at(s, n - 4, &suf)
        invariant
            n <= s.len(),
            suf@ == ".git"@,
            suf@.len() == 4,
            strip_suffixes(s@, ".git"@) == strip_suffixes(s@.take(n as int), ".git"@),
        decreases n,
    {
        proof {
            let t = s@.take(n as int);
            assert(t.skip(n - 4) =~= s@.subrange(n - 4, n as int));
            assert(t.take(n - 4) =~= s@.take(n - 4));
        }
        n = n - 4;
    }
    proof {
        let t = s@.take(n as int);
        if n >= 4 {
            assert(t.skip(n - 4) =~= s@.subrange(n - 4, n as int));
        }
    }
    let mut out: Vec<char> = Vec::new();
    let mut k: usize = 0;
    while k < n
        invariant
            k <= n <= s.len(),
            out@ == s@.take(k as int),
        decreases n - k,
    {
        out.push(s[k]);
        k = k + 1;
        assert(out@ =~= s@.take(k as int));
    }
    out
}

/// The `owner/name` of a GitHub repository URL, if it is one.
pub fn extract_github_owner_repo(url: &str) -> (r: Option<String>)
    ensures
        match owner_repo_of(url@) {
            Some(x) => r matches Some(y) && y@ == x,
            None => r is None,
        },
{
    let cs = chars_of(url);
    let t = trim_range(&cs, 0, cs.len(), false);
    assert(cs@.subrange(0, cs@.len() as int) =~= url@);
    let mut j = t.len();
    while j > 0 && t[j - 1] == '/'
        invariant
            j <= t.len(),
            forall|k: int| j <= k < t@.len() ==> crate::strings::slash()(#[trigger] t@[k]),
        decreases j,
    {
        j = j - 1;
    }
    proof {
        crate::strings::lemma_trim_end_take(t@, crate::strings::slash(), j as int);
    }
    let mut u: Vec<char> = Vec::new();
    let mut k: usize = 0;
    while k < j
        invariant
            k <= j <= t.len(),
            u@ == t@.take(k as int),
        decreases j - k,
    {
        u.push(t[k]);
        k = k + 1;
        assert(u@ =~= t@.take(k as int));
    }
    let n = strip_git_suffixes(&u);
    let marker = chars_of("github.com/");
    proof {
        reveal_strlit("github.com/");
    }
    let at = match find_chars(&n, &marker, 0) {
        Some(a) => a,
        None => {
            return None;
        },
    };
    let nl = n.len();
    assert(at + 11 <= nl);
    let mut tail: Vec<char> = Vec::new();
    let mut m = at + 11;
    while m < nl
        invariant
            at + 11 <= m <= nl,
            nl == n@.len(),
            tail@ == n@.subrange(at + 11, m as int),
        decreases nl - m,
    {
        tail.push(n[m]);
        m = m + 1;
        assert(tail@ =~= n@.subrange(at + 11, m as int));
    }
    assert(tail@ =~= n@.skip(at + 11));
    let parts = split_chars(&tail, '/');
    let ghost ps = split_parts(tail@, '/');
    let mut kept: Vec<usize> = Vec::new();
    let mut i: usize = 0;
    while i < parts.len()
        invariant
            i <= parts.len(),
            parts@.len() == ps.len(),
            forall|q: int| 0 <= q < parts@.len() ==> #[trigger] parts@[q]@ == ps[q],
            kept@.len() == non_empty(ps.take(i as int)).len(),
            forall|q: int| 0 <= q < kept@.len() ==> #[trigger] kept@[q] < parts@.len() && parts@[kept@[q] as int]@ == non_empty(ps.take(i as int))[q],
        decreases parts.len() - i,
    {
        assert(ps.take(i + 1).drop_last() =~= ps.take(i as int));
        assert(ps.take(i + 1).last() == ps[i as int]);
        if parts[i].len() > 0 {
            kept.push(i);
        }
        i = i + 1;
    }
    assert(ps.take(ps.len() as int) =~= ps);
    if kept.len() < 2 {
        return None;
    }
    let mut out = string_of(&parts[kept[0]]);
    out.push('/');
    let second = string_of(&parts[kept[1]]);
    push_str(&mut out, second.as_str());
    assert(out@ =~= non_empty(ps)[0] + "/"@ + non_empty(ps)[1]) by {
        reveal_strlit("/");
    }
    Some(out)
}

} // verus!
