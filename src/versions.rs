//! Version strings: `name@version` directory names, dotted version comparison and the
//! name-to-version map read from a dependency lock file.
use vstd::prelude::*;
use crate::error::AiDocsError;
use crate::strings::{copy_str, same_text, chars_of, parse_unsigned, parse_unsigned_chars, split_chars, split_parts};

verus! {

/// Index of the last occurrence of `c` in `s`, or -1.
pub open spec fn last_index_of(s: Seq<char>, c: char) -> int
    decreases s.len(),
{
    if s.len() == 0 {
        -1
    } else if s.last() == c {
        s.len() - 1
    } else {
        last_index_of(s.drop_last(), c)
    }
}

proof fn lemma_last_index_bounds(s: Seq<char>, c: char)
    ensures
        -1 <= last_index_of(s, c) < s.len(),
        last_index_of(s, c) >= 0 ==> s[last_index_of(s, c)] == c,
        forall|j: int| last_index_of(s, c) < j < s.len() ==> s[j] != c,
    decreases s.len(),
{
    if s.len() > 0 && s.last() != c {
        lemma_last_index_bounds(s.drop_last(), c);
        assert forall|j: int| last_index_of(s, c) < j < s.len() implies s[j] != c by {
            if j < s.len() - 1 {
                assert(s[j] == s.drop_last()[j]);
            }
        }
    }
}

/// The split of `s` at its last `@`, as `str::rsplit_once('@')` makes it.
pub open spec fn rsplit_at_sign(s: Seq<char>) -> Option<(Seq<char>, Seq<char>)> {
    let k = last_index_of(s, '@');
    if k < 0 {
        None
    } else {
        Some((s.take(k), s.skip(k + 1)))
    }
}

/// The package name and version of a cache directory name, when both parts are non-empty.
pub open spec fn name_version_of(s: Seq<char>) -> Option<(Seq<char>, Seq<char>)> {
    match rsplit_at_sign(s) {
        Some((n, v)) => if n.len() > 0 && v.len() > 0 {
            Some((n, v))
        } else {
            None
        },
        None => None,
    }
}

fn last_at_sign(cs: &Vec<char>) -> (r: Option<usize>)
    ensures
        match r {
            Some(k) => k as int == last_index_of(cs@, '@'),
            None => last_index_of(cs@, '@') == -1,
        },
{
    proof {
        lemma_last_index_bounds(cs@, '@');
    }
    let mut i: usize = cs.len();
    while i > 0
        invariant
            i <= cs.len(),
            forall|j: int| i <= j < cs.len() ==> cs@[j] != '@',
        decreases i,
    {
        if cs[i - 1] == '@' {
            proof {
                lemma_last_index_unique(cs@, '@', i - 1);
            }
            return Some(i - 1);
        }
        i = i - 1;
    }
    proof {
        lemma_last_index_bounds(cs@, '@');
        if last_index_of(cs@, '@') >= 0 {
            assert(cs@[last_index_of(cs@, '@')] == '@');
        }
    }
    None
}

proof fn lemma_last_index_unique(s: Seq<char>, c: char, k: int)
    requires
        0 <= k < s.len(),
        s[k] == c,
        forall|j: int| k < j < s.len() ==> s[j] != c,
    ensures
        last_index_of(s, c) == k,
    decreases s.len(),
{
    if s.last() != c {
        lemma_last_index_unique(s.drop_last(), c, k);
    }
}

/// Splits a directory name at its last `@` (the version never holds one).
pub fn split_crate_version(dir_name: &str) -> (r: Option<(&str, &str)>)
    ensures
        match (r, rsplit_at_sign(dir_name@)) {
            (Some((n, v)), Some((sn, sv))) => n@ == sn && v@ == sv,
            (None, None) => true,
            _ => false,
        },
{
    let cs = chars_of(dir_name);
    match last_at_sign(&cs) {
        Some(k) => {
            proof {
                lemma_last_index_bounds(cs@, '@');
            }
            let name = dir_name.substring_char(0, k);
            assert(k < cs.len());
            let version = dir_name.substring_char(k + 1, cs.len());
            Some((name, version))
        },
        None => None,
    }
}

/// Splits a cache directory name `name@version` into its two non-empty parts.
pub fn split_name_version(dir_name: &str) -> (r: Option<(&str, &str)>)
    ensures
        match (r, name_version_of(dir_name@)) {
            (Some((n, v)), Some((sn, sv))) => n@ == sn && v@ == sv,
            (None, None) => true,
            _ => false,
        },
{
    match split_crate_version(dir_name) {
        Some((name, version)) => {
            if name.is_empty() || version.is_empty() {
                None
            } else {
                Some((name, version))
            }
        },
        None => None,
    }
}

} // verus!
verus! {

/// Lexicographic order of two character sequences by code point; for UTF-8 text this is
/// the byte order that `str`'s `>` uses.
pub open spec fn chars_gt(a: Seq<char>, b: Seq<char>) -> bool
    decreases a.len(),
{
    if a.len() == 0 {
        false
    } else if b.len() == 0 {
        true
    } else if a[0] != b[0] {
        a[0] > b[0]
    } else {
        chars_gt(a.drop_first(), b.drop_first())
    }
}

/// Whether `a` ranks after `b` in code-point order.
pub fn chars_greater(a: &Vec<char>, b: &Vec<char>) -> (r: bool)
    ensures
        r == chars_gt(a@, b@),
{
    let mut i: usize = 0;
    assert(a@.skip(0) =~= a@);
    assert(b@.skip(0) =~= b@);
    while i < a.len() && i < b.len()
        invariant
            i <= a.len(),
            i <= b.len(),
            chars_gt(a@, b@) == chars_gt(a@.skip(i as int), b@.skip(i as int)),
        decreases a.len() - i,
    {
        assert(a@.skip(i as int)[0] == a@[i as int]);
        assert(b@.skip(i as int)[0] == b@[i as int]);
        if a[i] != b[i] {
            return a[i] > b[i];
        }
        assert(a@.skip(i as int).drop_first() =~= a@.skip(i + 1));
        assert(b@.skip(i as int).drop_first() =~= b@.skip(i + 1));
        i = i + 1;
    }
    i < a.len()
}

/// The `i`-th dot-separated part, or the empty text past the end.
pub open spec fn part_at(p: Seq<Seq<char>>, i: int) -> Seq<char> {
    if 0 <= i < p.len() {
        p[i]
    } else {
        Seq::empty()
    }
}

/// The `i`-th part read as a `u32`, when it is one.
pub open spec fn number_at(p: Seq<Seq<char>>, i: int) -> Option<nat> {
    if 0 <= i < p.len() {
        parse_unsigned(p[i], u32::MAX as nat)
    } else {
        None
    }
}

/// Compares two dotted versions part by part from part `i` on: numbers compare as numbers,
/// a number beats a non-number, and otherwise the texts compare.
pub open spec fn parts_better_from(n: Seq<Seq<char>>, b: Seq<Seq<char>>, i: nat) -> bool
    decreases (if n.len() > b.len() { n.len() } else { b.len() }) - i,
{
    if i >= n.len() && i >= b.len() {
        false
    } else {
        let x = number_at(n, i as int);
        let y = number_at(b, i as int);
        if x is Some && y is Some && x->0 != y->0 {
            x->0 > y->0
        } else if x is Some && y is None {
            true
        } else if x is None && y is Some {
            false
        } else if part_at(n, i as int) != part_at(b, i as int) {
            chars_gt(part_at(n, i as int), part_at(b, i as int))
        } else {
            parts_better_from(n, b, i + 1)
        }
    }
}

/// Whether version `new_v` ranks above `best` (anything ranks above no version).
pub open spec fn version_better(new_v: Seq<char>, best: Option<Seq<char>>) -> bool {
    match best {
        None => true,
        Some(b) => parts_better_from(split_parts(new_v, '.'), split_parts(b, '.'), 0),
    }
}

/// Whether `new_v` is a better (newer) version than `current_best`.
pub fn is_version_better(new_v: &str, current_best: Option<&str>) -> (r: bool)
    ensures
        r == version_better(new_v@, match current_best { Some(b) => Some(b@), None => None }),
{
    let best = match current_best {
        None => {
            return true;
        },
        Some(b) => b,
    };
    let nc = chars_of(new_v);
    let bc = chars_of(best);
    let np = split_chars(&nc, '.');
    let bp = split_chars(&bc, '.');
    let ghost n = split_parts(new_v@, '.');
    let ghost b = split_parts(best@, '.');
    let len: usize = if np.len() > bp.len() { np.len() } else { bp.len() };
    let empty: Vec<char> = Vec::new();
    let mut i: usize = 0;
    assert(version_better(new_v@, Some(best@)) == parts_better_from(n, b, 0));
    while i < len
        invariant
            np@.len() == n.len(),
            bp@.len() == b.len(),
            forall|k: int| 0 <= k < np@.len() ==> np@[k]@ == n[k],
            forall|k: int| 0 <= k < bp@.len() ==> bp@[k]@ == b[k],
            len == if n.len() > b.len() { n.len() } else { b.len() },
            empty@ == Seq::<char>::empty(),
            i <= len,
            parts_better_from(n, b, 0) == parts_better_from(n, b, i as nat),
            version_better(new_v@, match current_best { Some(c) => Some(c@), None => None })
                == parts_better_from(n, b, 0),
        decreases len - i,
    {
        let x = if i < np.len() { parse_unsigned_chars(&np[i], 4294967295u64) } else { None };
        let y = if i < bp.len() { parse_unsigned_chars(&bp[i], 4294967295u64) } else { None };
        let ns: &Vec<char> = if i < np.len() { &np[i] } else { &empty };
        let bs: &Vec<char> = if i < bp.len() { &bp[i] } else { &empty };
        proof {
            assert(i < np@.len() ==> np@[i as int]@ == n[i as int]);
            assert(i < bp@.len() ==> bp@[i as int]@ == b[i as int]);
            assert(ns@ == part_at(n, i as int));
            assert(bs@ == part_at(b, i as int));
            assert(x matches Some(v) ==> number_at(n, i as int) == Some(v as nat));
            assert(x is None ==> number_at(n, i as int) is None);
            assert(y matches Some(v) ==> number_at(b, i as int) == Some(v as nat));
            assert(y is None ==> number_at(b, i as int) is None);
            let xx = number_at(n, i as int);
            let yy = number_at(b, i as int);
            assert(parts_better_from(n, b, i as nat) == if xx is Some && yy is Some && xx->0 != yy->0 {
                xx->0 > yy->0
            } else if xx is Some && yy is None {
                true
            } else if xx is None && yy is Some {
                false
            } else if part_at(n, i as int) != part_at(b, i as int) {
                chars_gt(part_at(n, i as int), part_at(b, i as int))
            } else {
                parts_better_from(n, b, (i + 1) as nat)
            });
        }
        match (x, y) {
            (Some(xv), Some(yv)) => {
                if xv != yv {
                    return xv > yv;
                }
            },
            (Some(_), None) => {
                return true;
            },
            (None, Some(_)) => {
                return false;
            },
            _ => {},
        }
        if ns.len() != bs.len() || !same_chars(ns, bs) {
            return chars_greater(ns, bs);
        }
        i = i + 1;
    }
    false
}

fn same_chars(a: &Vec<char>, b: &Vec<char>) -> (r: bool)
    ensures
        r == (a@ == b@),
{
    if a.len() != b.len() {
        return false;
    }
    let mut i: usize = 0;
    while i < a.len()
        invariant
            a.len() == b.len(),
            i <= a.len(),
            forall|j: int| 0 <= j < i ==> a@[j] == b@[j],
        decreases a.len() - i,
    {
        if a[i] != b[i] {
            return false;
        }
        i = i + 1;
    }
    assert(a@ =~= b@);
    true
}

/// The (major, minor) pair of a dotted version, when its first two parts are `u64` numbers.
pub open spec fn minor_of(version: Seq<char>) -> Option<(nat, nat)> {
    let p = split_parts(version, '.');
    if p.len() >= 2 && parse_unsigned(p[0], u64::MAX as nat) is Some && parse_unsigned(
        p[1],
        u64::MAX as nat,
    ) is Some {
        Some((parse_unsigned(p[0], u64::MAX as nat)->0, parse_unsigned(p[1], u64::MAX as nat)->0))
    } else {
        None
    }
}

/// Reads the major and minor numbers of a version.
pub fn parse_minor(version: &str) -> (r: Option<(u64, u64)>)
    ensures
        match minor_of(version@) {
            Some((a, b)) => r == Some((a as u64, b as u64)),
            None => r is None,
        },
{
    let cs = chars_of(version);
    let parts = split_chars(&cs, '.');
    if parts.len() < 2 {
        return None;
    }
    let major = match parse_unsigned_chars(&parts[0], 18446744073709551615u64) {
        Some(v) => v,
        None => {
            return None;
        },
    };
    let minor = match parse_unsigned_chars(&parts[1], 18446744073709551615u64) {
        Some(v) => v,
        None => {
            return None;
        },
    };
    Some((major, minor))
}

} // verus!
verus! {

/// One package record of a dependency lock file, with the fields the resolver reads.
#[derive(Debug, Clone)]
pub struct LockPackage {
    pub name: Option<String>,
    pub version: Option<String>,
}

/// Package name to resolved version; a later record for a name replaces an earlier one.
#[derive(Debug, Clone)]
pub struct VersionMap {
    entries: Vec<(String, String)>,
}

/// The map a list of (name, version) pairs describes, later pairs winning.
pub open spec fn map_of(e: Seq<(String, String)>) -> Map<Seq<char>, Seq<char>>
    decreases e.len(),
{
    if e.len() == 0 {
        Map::empty()
    } else {
        map_of(e.drop_last()).insert(e.last().0@, e.last().1@)
    }
}

/// The versions a lock file's package records resolve: records lacking a name or a version
/// are ignored, and the last record of a name wins.
pub open spec fn lock_map(p: Seq<LockPackage>) -> Map<Seq<char>, Seq<char>>
    decreases p.len(),
{
    if p.len() == 0 {
        Map::empty()
    } else {
        let m = lock_map(p.drop_last());
        match (p.last().name, p.last().version) {
            (Some(n), Some(v)) => m.insert(n@, v@),
            _ => m,
        }
    }
}

impl View for VersionMap {
    type V = Map<Seq<char>, Seq<char>>;

    closed spec fn view(&self) -> Map<Seq<char>, Seq<char>> {
        map_of(self.entries@)
    }
}

proof fn lemma_map_of_tail(e: Seq<(String, String)>, i: int, k: Seq<char>)
    requires
        0 <= i <= e.len(),
        forall|j: int| i <= j < e.len() ==> (#[trigger] e[j]).0@ != k,
    ensures
        map_of(e).contains_key(k) == map_of(e.take(i)).contains_key(k),
        map_of(e).contains_key(k) ==> map_of(e)[k] == map_of(e.take(i))[k],
    decreases e.len() - i,
{
    if i == e.len() {
        assert(e.take(i) =~= e);
    } else {
        let d = e.drop_last();
        assert forall|j: int| i <= j < d.len() implies (#[trigger] d[j]).0@ != k by {
            assert(d[j] == e[j]);
        }
        lemma_map_of_tail(d, i, k);
        assert(d.take(i) =~= e.take(i));
    }
}

impl VersionMap {
    /// The map with no package.
    pub fn new() -> (r: VersionMap)
        ensures
            r@ == Map::<Seq<char>, Seq<char>>::empty(),
    {
        VersionMap { entries: Vec::new() }
    }

    /// Records `version` for `name`, replacing an earlier version.
    pub fn insert(&mut self, name: String, version: String)
        ensures
            final(self)@ == old(self)@.insert(name@, version@),
    {
        self.entries.push((name, version));
        proof {
            assert(self.entries@.drop_last() =~= old(self).entries@);
        }
    }

    /// The version recorded for `name`.
    pub fn get(&self, name: &str) -> (r: Option<&String>)
        ensures
            match r {
                Some(v) => self@.contains_key(name@) && self@[name@] == v@,
                None => !self@.contains_key(name@),
            },
    {
        let mut i = self.entries.len();
        while i > 0
            invariant
                i <= self.entries.len(),
                forall|j: int| i <= j < self.entries@.len() ==> (#[trigger] self.entries@[j]).0@ != name@,
            decreases i,
        {
            if same_text(self.entries[i - 1].0.as_str(), name) {
                proof {
                    let e = self.entries@;
                    lemma_map_of_tail(e, i as int, name@);
                    assert(e.take(i as int).drop_last() =~= e.take(i - 1));
                    assert(e.take(i as int).last() == e[i - 1]);
                }
                return Some(&self.entries[i - 1].1);
            }
            i = i - 1;
        }
        proof {
            lemma_map_of_tail(self.entries@, 0, name@);
        }
        None
    }
}

/// The name-to-version map of a lock file's package records; `None` stands for a lock file
/// without the top-level package array.
pub fn resolve_versions(packages: Option<&Vec<LockPackage>>) -> (r: Result<VersionMap, AiDocsError>)
    ensures
        match packages {
            Some(p) => r matches Ok(m) && m@ == lock_map(p@),
            None => r matches Err(AiDocsError::CargoLockParse(msg)) && msg@ == "`package` array is missing"@,
        },
{
    let p = match packages {
        Some(p) => p,
        None => {
            return Err(AiDocsError::CargoLockParse(copy_str("`package` array is missing")));
        },
    };
    let mut m = VersionMap::new();
    let mut i: usize = 0;
    while i < p.len()
        invariant
            i <= p.len(),
            m@ == lock_map(p@.take(i as int)),
        decreases p.len() - i,
    {
        assert(p@.take(i + 1).drop_last() =~= p@.take(i as int));
        match (&p[i].name, &p[i].version) {
            (Some(n), Some(v)) => {
                m.insert(n.clone(), v.clone());
            },
            _ => {},
        }
        i = i + 1;
    }
    assert(p@.take(p.len() as int) =~= p@);
    Ok(m)
}

} // verus!
verus! {

pub proof fn lemma_last_index_unique_pub(s: Seq<char>, c: char, k: int)
    requires
        0 <= k < s.len(),
        s[k] == c,
        forall|j: int| k < j < s.len() ==> s[j] != c,
    ensures
        last_index_of(s, c) == k,
{
    lemma_last_index_unique(s, c, k);
}

pub proof fn lemma_no_index(s: Seq<char>, c: char)
    requires
        forall|j: int| 0 <= j < s.len() ==> s[j] != c,
    ensures
        last_index_of(s, c) == -1,
{
    lemma_last_index_bounds(s, c);
    if last_index_of(s, c) >= 0 {
        assert(s[last_index_of(s, c)] == c);
    }
}

} // verus!
