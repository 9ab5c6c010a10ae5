//! Changelog windowing: keep the sections of the current version and of one older minor
//! series, and cut the rest.
use vstd::prelude::*;
use vstd::utf8::{decode_utf8, encode_utf8, is_char_boundary};
use vstd::string::StringSliceAdditionalSpecFns;
use crate::strings::{chars_of, copy_str, push_str, same_text, string_of, trim_end_by, trim_end_ws, ws};
use crate::versions::{minor_of, parse_minor};

verus! {

broadcast use vstd::utf8::encode_utf8_valid_utf8, vstd::utf8::encode_utf8_decode_utf8;

/// The version headings `regex` finds in a changelog: for each match of the heading pattern,
/// in order, the byte offset where it starts and its version.
pub uninterp spec fn heading_matches(content: Seq<char>) -> Seq<(usize, Seq<char>)>;

/// The headings as offsets and version texts.
pub open spec fn headings_view(h: Seq<(usize, String)>) -> Seq<(usize, Seq<char>)> {
    h.map_values(|p: (usize, String)| (p.0, p.1@))
}

/// Relies on `regex::Regex::captures_iter` with the heading pattern below: the matches in
/// order, each with the start of the whole match (a character boundary within the text, as
/// `regex::Match::start` documents) and the text of the version group.
#[verifier::external_body]
fn version_headings(content: &str) -> (r: Vec<(usize, String)>)
    ensures
        headings_view(r@) == heading_matches(content@),
        forall|i: int|
            0 <= i < r@.len() ==> (#[trigger] r@[i]).0 <= content.len() && is_char_boundary(
                content.spec_bytes(),
                r@[i].0 as int,
            ),
{
    let re = regex::Regex::new(r"(?m)^#{1,3}\s+.*?\b?\[?v?(\d+\.\d+\.\d+(?:-[\w.]+)?)\]?\b")
        .expect("valid changelog heading regex");
    re.captures_iter(content).filter_map(
        |cap| Some((cap.get(0)?.start(), cap.get(1)?.as_str().to_string())),
    ).collect()
}

/// Whether `ver` belongs to the series `series` (its major and minor numbers).
pub open spec fn in_series(ver: Seq<char>, series: Option<(nat, nat)>) -> bool {
    series is Some && minor_of(ver) == series
}

/// The state of the heading scan from heading `i` on: whether the current version's heading
/// was seen (`fc`), and, once a heading outside the current series followed it, that older
/// series (`older`, itself `None` when that heading's version has no readable series). Gives
/// whether the current version was seen and where to cut: at the first later heading in
/// neither the current series nor the older one.
pub open spec fn scan_cut(
    h: Seq<(usize, Seq<char>)>,
    cur: Seq<char>,
    i: nat,
    fc: bool,
    older: Option<Option<(nat, nat)>>,
) -> (bool, Option<usize>)
    decreases h.len() - i,
{
    if i >= h.len() {
        (fc, None)
    } else {
        let pos = h[i as int].0;
        let ver = h[i as int].1;
        if ver == cur {
            scan_cut(h, cur, i + 1, true, older)
        } else if fc && older is None {
            if !in_series(ver, minor_of(cur)) {
                scan_cut(h, cur, i + 1, fc, Some(minor_of(ver)))
            } else {
                scan_cut(h, cur, i + 1, fc, older)
            }
        } else if older is Some {
            if in_series(ver, minor_of(cur)) || minor_of(ver) == older->0 {
                scan_cut(h, cur, i + 1, fc, older)
            } else {
                (fc, Some(pos))
            }
        } else {
            scan_cut(h, cur, i + 1, fc, older)
        }
    }
}

/// A series read from text, as the executable code holds it.
pub open spec fn series_value(o: Option<(nat, nat)>) -> Option<(u64, u64)> {
    match o {
        Some((a, b)) => Some((a as u64, b as u64)),
        None => None,
    }
}

/// A series that fits in `u64` numbers.
pub open spec fn series_fits(o: Option<(nat, nat)>) -> bool {
    o matches Some((a, b)) ==> a <= u64::MAX && b <= u64::MAX
}

/// Where a changelog is cut: at the first heading after the current version's that is in
/// neither its minor series nor the next older one; or, when the current version never
/// appears and there are at least three headings, at the third.
pub open spec fn changelog_cut(h: Seq<(usize, Seq<char>)>, cur: Seq<char>) -> Option<usize> {
    let (fc, cut) = scan_cut(h, cur, 0, false, None);
    if !fc && h.len() > 2 {
        Some(h[2].0)
    } else {
        cut
    }
}

/// The note appended after a cut.
pub open spec fn changelog_marker() -> Seq<char> {
    "\n---\n\n*[Earlier entries truncated by ai-fdocs]*\n"@
}

/// The windowed changelog: unchanged without headings or without a cut, else the text
/// before the cut with trailing whitespace removed, then the note.
pub open spec fn windowed(content: Seq<char>, cur: Seq<char>, h: Seq<(usize, Seq<char>)>) -> Seq<char> {
    if h.len() == 0 {
        content
    } else {
        match changelog_cut(h, cur) {
            Some(pos) => trim_end_by(decode_utf8(encode_utf8(content).take(pos as int)), ws())
                + changelog_marker(),
            None => content,
        }
    }
}

fn same_minor(a: Option<(u64, u64)>, b: Option<(u64, u64)>) -> (r: bool)
    ensures
        r == (a == b),
{
    match (a, b) {
        (Some(x), Some(y)) => x.0 == y.0 && x.1 == y.1,
        (None, None) => true,
        _ => false,
    }
}

/// Windows `content` for `current_version` given its version headings (offset, version).
pub fn truncate_changelog_at(content: &str, current_version: &str, headings: &Vec<(usize, String)>) -> (r: String)
    requires
        forall|i: int|
            0 <= i < headings@.len() ==> (#[trigger] headings@[i]).0 <= content.len()
                && is_char_boundary(content.spec_bytes(), headings@[i].0 as int),
    ensures
        r@ == windowed(content@, current_version@, headings_view(headings@)),
{
    let ghost h = headings_view(headings@);
    if headings.len() == 0 {
        return copy_str(content);
    }
    let current_minor = parse_minor(current_version);
    let mut found_current = false;
    let mut older: Option<Option<(u64, u64)>> = None;
    let ghost mut older_spec: Option<Option<(nat, nat)>> = None;
    let mut cut_position: Option<usize> = None;
    let mut i: usize = 0;
    while i < headings.len()
        invariant_except_break
            cut_position is None,
        invariant
            forall|j: int|
                0 <= j < headings@.len() ==> (#[trigger] headings@[j]).0 <= content.len()
                    && is_char_boundary(content.spec_bytes(), headings@[j].0 as int),
            h == headings_view(headings@),
            h.len() == headings@.len(),
            i <= headings.len(),
            current_minor == series_value(minor_of(current_version@)),
            series_fits(minor_of(current_version@)),
            older_spec matches Some(o) ==> series_fits(o) && older == Some(series_value(o)),
            older_spec is None ==> older is None,
            scan_cut(h, current_version@, 0, false, None) == scan_cut(
                h,
                current_version@,
                i as nat,
                found_current,
                older_spec,
            ),
        ensures
            scan_cut(h, current_version@, 0, false, None) == (found_current, cut_position),
            cut_position matches Some(p) ==> p <= content.len() && is_char_boundary(
                content.spec_bytes(),
                p as int,
            ),
        decreases headings.len() - i,
    {
        let pos = headings[i].0;
        let ver = &headings[i].1;
        assert(pos <= content.len() && is_char_boundary(content.spec_bytes(), pos as int));
        assert(h[i as int] == (pos, ver@));
        let ver_minor = parse_minor(ver.as_str());
        proof {
            lemma_series_fits(ver@);
            lemma_series_eq(minor_of(ver@), minor_of(current_version@));
            if let Some(o) = older_spec {
                lemma_series_eq(minor_of(ver@), o);
            }
        }
        let in_current = current_minor.is_some() && same_minor(ver_minor, current_minor);
        if same_text(ver.as_str(), current_version) {
            found_current = true;
            i = i + 1;
            continue;
        }
        if found_current && older.is_none() {
            if !in_current {
                older = Some(ver_minor);
                proof {
                    older_spec = Some(minor_of(ver@));
                }
            }
            i = i + 1;
            continue;
        }
        match older {
            Some(o) => {
                if !(in_current || same_minor(ver_minor, o)) {
                    cut_position = Some(pos);
                    break;
                }
            },
            None => {},
        }
        i = i + 1;
    }
    if !found_current && headings.len() > 2 {
        cut_position = Some(headings[2].0);
        assert(h[2] == (headings@[2].0, headings@[2].1@));
    }
    match cut_position {
        Some(pos) => {
            let (head, _) = content.split_at(pos);
            let cs = chars_of(head);
            let kept = trim_end_ws(&cs);
            let mut out = string_of(&kept);
            push_str(&mut out, "\n---\n\n*[Earlier entries truncated by ai-fdocs]*\n");
            proof {
                assert(encode_utf8(head@) =~= content.spec_bytes().take(pos as int));
                assert(head@ == decode_utf8(encode_utf8(head@)));
            }
            out
        },
        None => copy_str(content),
    }
}

proof fn lemma_series_fits(v: Seq<char>)
    ensures
        series_fits(minor_of(v)),
{
}

proof fn lemma_series_eq(x: Option<(nat, nat)>, y: Option<(nat, nat)>)
    requires
        series_fits(x),
        series_fits(y),
    ensures
        (x == y) == (series_value(x) == series_value(y)),
{
}

/// Windows a changelog for `current_version`: keeps the current version's section and one
/// older minor series and notes the cut.
pub fn truncate_changelog(content: &str, current_version: &str) -> (r: String)
    ensures
        r@ == windowed(content@, current_version@, heading_matches(content@)),
{
    let headings = version_headings(content);
    truncate_changelog_at(content, current_version, &headings)
}

} // verus!
