//! The on-disk cache, as plans and decisions: a `{package}@{version}` directory per cached
//! package holding flattened files and a metadata file. Reading and writing the disk is the
//! caller's part; it hands in what it read and carries out what is planned.
use vstd::prelude::*;
use crate::changelog::{heading_matches, truncate_changelog, windowed};
use crate::config::{clone_strings, Config, CrateDoc};
use crate::fetch::{FetchedFile, ResolvedRef};
use crate::strings::{chars_of, copy_str, push_str, same_text, slash, string_of, trim_end_by};
use crate::sync::{ascii_lower, lower_ascii};
use crate::text::{limited_text, truncate_if_needed};
use crate::versions::{last_index_of, name_version_of, split_name_version, VersionMap};

verus! {

/// The version of the metadata layout this library writes and reads.
pub const META_SCHEMA_VERSION: u32 = 1;

/// The name of the metadata file inside a cache directory.
pub const META_FILE_NAME: &'static str = ".aifd-meta.toml";

/// The metadata of one cache directory, the sole record of what it holds.
#[derive(Debug, Clone)]
pub struct CrateMeta {
    pub schema_version: u32,
    pub version: String,
    pub git_ref: String,
    pub fetched_at: String,
    pub is_fallback: bool,
    pub source_kind: Option<String>,
    pub upstream_checked_at: Option<String>,
    pub truncated: Option<bool>,
}

/// What reading a cache directory's metadata file gave.
#[derive(Debug, Clone)]
pub enum MetaRead {
    /// The file is missing or could not be read.
    Unreadable,
    /// The file is not valid metadata.
    Invalid,
    Parsed(CrateMeta),
}

/// A cached package as the index lists it.
#[derive(Debug, Clone)]
pub struct SavedCrate {
    pub name: String,
    pub version: String,
    pub git_ref: String,
    pub is_fallback: bool,
    pub files: Vec<String>,
    pub ai_notes: String,
}

/// The cache directory name of a package version.
pub open spec fn dir_name_of(name: Seq<char>, version: Seq<char>) -> Seq<char> {
    name + seq!['@'] + version
}

/// The cache directory name `{crate_name}@{version}`.
pub fn crate_dir_name(crate_name: &str, version: &str) -> (r: String)
    ensures
        r@ == dir_name_of(crate_name@, version@),
{
    let mut s = copy_str(crate_name);
    s.push('@');
    push_str(&mut s, version);
    s
}

/// A path with every `/` replaced by `__`.
pub open spec fn flatten(s: Seq<char>) -> Seq<char>
    decreases s.len(),
{
    if s.len() == 0 {
        Seq::empty()
    } else if s.last() == '/' {
        flatten(s.drop_last()) + seq!['_', '_']
    } else {
        flatten(s.drop_last()).push(s.last())
    }
}

/// The file name a fetched path is stored under: nested paths become one name.
pub fn flatten_filename(file_path: &str) -> (r: String)
    ensures
        r@ == flatten(file_path@),
{
    let cs = chars_of(file_path);
    let mut out = String::new();
    let mut i: usize = 0;
    while i < cs.len()
        invariant
            i <= cs.len(),
            cs@ == file_path@,
            out@ == flatten(cs@.take(i as int)),
        decreases cs.len() - i,
    {
        assert(cs@.take(i + 1).drop_last() =~= cs@.take(i as int));
        if cs[i] == '/' {
            out.push('_');
            out.push('_');
            assert(out@ =~= flatten(cs@.take(i as int)) + seq!['_', '_']);
        } else {
            out.push(cs[i]);
        }
        i = i + 1;
    }
    assert(cs@.take(cs.len() as int) =~= cs@);
    out
}

/// Whether `s` ends with `ext`, ignoring ASCII case.
pub open spec fn ends_with_ci(s: Seq<char>, ext: Seq<char>) -> bool {
    s.len() >= ext.len() && forall|i: int|
        0 <= i < ext.len() ==> ascii_lower(#[trigger] s[s.len() - ext.len() + i]) == ascii_lower(ext[i])
}

fn ends_with_ignoring_case(s: &Vec<char>, ext: &str) -> (r: bool)
    ensures
        r == ends_with_ci(s@, ext@),
{
    let e = chars_of(ext);
    if s.len() < e.len() {
        return false;
    }
    let off = s.len() - e.len();
    let mut i: usize = 0;
    while i < e.len()
        invariant
            e@ == ext@,
            off + e.len() == s.len(),
            i <= e.len(),
            forall|j: int| 0 <= j < i ==> ascii_lower(#[trigger] s@[s@.len() - e@.len() + j]) == ascii_lower(e@[j]),
        decreases e.len() - i,
    {
        if lower_ascii(s[off + i]) != lower_ascii(e[i]) {
            assert(ascii_lower(s@[s@.len() - ext@.len() + i]) != ascii_lower(ext@[i as int]));
            return false;
        }
        i = i + 1;
    }
    true
}

/// Text and markup files, which get a provenance header: `.md`, `.html`, `.htm`, in any
/// ASCII case.
pub open spec fn is_text_file(path: Seq<char>) -> bool {
    ends_with_ci(path, ".md"@) || ends_with_ci(path, ".html"@) || ends_with_ci(path, ".htm"@)
}

/// Whether a fetched file gets a provenance header.
pub fn should_inject_header(file_path: &str) -> (r: bool)
    ensures
        r == is_text_file(file_path@),
{
    let cs = chars_of(file_path);
    ends_with_ignoring_case(&cs, ".md") || ends_with_ignoring_case(&cs, ".html")
        || ends_with_ignoring_case(&cs, ".htm")
}

/// The provenance header of a file: where it came from and when, and, for a fallback
/// branch, a warning that it may not match the version.
pub open spec fn header_of(
    owner_repo: Seq<char>,
    git_ref: Seq<char>,
    original_path: Seq<char>,
    is_fallback: bool,
    version: Seq<char>,
    source_url: Seq<char>,
    date: Seq<char>,
) -> Seq<char> {
    "<!-- AI-FDOCS: source=github.com/"@ + owner_repo + " ref="@ + git_ref + " path="@ + original_path
        + " fetched="@ + date + " -->\n<!-- AI-FDOCS: url="@ + source_url + " -->\n"@ + if is_fallback {
        "<!-- AI-FDOCS WARNING: No tag found for version "@ + version + ". Fetched from '"@ + git_ref
            + "' branch. Content may not match installed version. -->\n"@
    } else {
        Seq::empty()
    }
}

/// Prepends the provenance header and a blank line to `content`; `date` is the fetch date.
pub fn inject_header(
    content: &str,
    owner_repo: &str,
    git_ref: &str,
    original_path: &str,
    is_fallback: bool,
    version: &str,
    source_url: &str,
    date: &str,
) -> (r: String)
    ensures
        r@ == header_of(owner_repo@, git_ref@, original_path@, is_fallback, version@, source_url@, date@)
            + "\n"@ + content@,
{
    let mut h = copy_str("<!-- AI-FDOCS: source=github.com/");
    push_str(&mut h, owner_repo);
    push_str(&mut h, " ref=");
    push_str(&mut h, git_ref);
    push_str(&mut h, " path=");
    push_str(&mut h, original_path);
    push_str(&mut h, " fetched=");
    push_str(&mut h, date);
    push_str(&mut h, " -->\n<!-- AI-FDOCS: url=");
    push_str(&mut h, source_url);
    push_str(&mut h, " -->\n");
    let ghost base = h@;
    if is_fallback {
        push_str(&mut h, "<!-- AI-FDOCS WARNING: No tag found for version ");
        push_str(&mut h, version);
        push_str(&mut h, ". Fetched from '");
        push_str(&mut h, git_ref);
        push_str(&mut h, "' branch. Content may not match installed version. -->\n");
    }
    assert(h@ =~= header_of(owner_repo@, git_ref@, original_path@, is_fallback, version@, source_url@, date@));
    push_str(&mut h, "\n");
    push_str(&mut h, content);
    h
}

/// Whether the cache holds `version`: the metadata was read and records that very version.
pub open spec fn cached(meta: MetaRead, version: Seq<char>) -> bool {
    meta matches MetaRead::Parsed(m) && m.version@ == version
}

/// Whether the cache entry whose metadata read gave `meta` holds `version`; the directory
/// name alone decides nothing.
pub fn is_cached(meta: &MetaRead, version: &str) -> (r: bool)
    ensures
        r == cached(*meta, version@),
{
    match meta {
        MetaRead::Parsed(m) => same_text(m.version.as_str(), version),
        _ => false,
    }
}

/// Whether a package of that name is configured.
pub open spec fn is_configured(crates: Seq<(String, CrateDoc)>, name: Seq<char>) -> bool {
    exists|i: int| 0 <= i < crates.len() && (#[trigger] crates[i]).0@ == name
}

/// Whether a package called `name` is configured.
pub fn configured(config: &Config, name: &str) -> (r: bool)
    ensures
        r == is_configured(config.crates@, name@),
{
    let mut i: usize = 0;
    while i < config.crates.len()
        invariant
            i <= config.crates.len(),
            forall|j: int| 0 <= j < i ==> (#[trigger] config.crates@[j]).0@ != name@,
        decreases config.crates.len() - i,
    {
        if same_text(config.crates[i].0.as_str(), name) {
            return true;
        }
        i = i + 1;
    }
    false
}

/// Whether pruning removes a cache directory: it names a package that is no longer
/// configured, or a version other than the one the lock file resolves for it.
pub open spec fn prunable(dir: Seq<char>, crates: Seq<(String, CrateDoc)>, lock: Map<Seq<char>, Seq<char>>) -> bool {
    match name_version_of(dir) {
        None => false,
        Some((n, v)) => !is_configured(crates, n) || !lock.contains_key(n) || lock[n] != v,
    }
}

/// The directories pruning removes, in listing order.
pub open spec fn prune_list(dirs: Seq<String>, crates: Seq<(String, CrateDoc)>, lock: Map<Seq<char>, Seq<char>>) -> Seq<String>
    decreases dirs.len(),
{
    if dirs.len() == 0 {
        Seq::empty()
    } else if prunable(dirs.last()@, crates, lock) {
        prune_list(dirs.drop_last(), crates, lock).push(dirs.last())
    } else {
        prune_list(dirs.drop_last(), crates, lock)
    }
}

/// Of the cache directories `dir_names`, those to remove.
pub fn prune_targets(dir_names: &Vec<String>, config: &Config, lock_versions: &VersionMap) -> (r: Vec<String>)
    ensures
        r@ == prune_list(dir_names@, config.crates@, lock_versions@),
{
    let mut out: Vec<String> = Vec::new();
    let mut i: usize = 0;
    while i < dir_names.len()
        invariant
            i <= dir_names.len(),
            out@ == prune_list(dir_names@.take(i as int), config.crates@, lock_versions@),
        decreases dir_names.len() - i,
    {
        assert(dir_names@.take(i + 1).drop_last() =~= dir_names@.take(i as int));
        let d = &dir_names[i];
        let remove = match split_name_version(d.as_str()) {
            None => false,
            Some((name, version)) => {
                if !configured(config, name) {
                    true
                } else {
                    match lock_versions.get(name) {
                        Some(v) => !same_text(v.as_str(), version),
                        None => true,
                    }
                }
            },
        };
        if remove {
            out.push(d.clone());
        }
        i = i + 1;
    }
    assert(dir_names@.take(dir_names.len() as int) =~= dir_names@);
    out
}

proof fn lemma_prune_list_member(dirs: Seq<String>, crates: Seq<(String, CrateDoc)>, lock: Map<Seq<char>, Seq<char>>, d: String)
    ensures
        prune_list(dirs, crates, lock).contains(d) <==> dirs.contains(d) && prunable(d@, crates, lock),
    decreases dirs.len(),
{
    if dirs.len() > 0 {
        let init = dirs.drop_last();
        lemma_prune_list_member(init, crates, lock, d);
        if dirs.contains(d) && d != dirs.last() {
            let k = choose|k: int| 0 <= k < dirs.len() && dirs[k] == d;
            assert(init[k] == d);
        }
        if init.contains(d) {
            let k = choose|k: int| 0 <= k < init.len() && init[k] == d;
            assert(dirs[k] == d);
        }
        if prunable(dirs.last()@, crates, lock) {
            let p = prune_list(init, crates, lock);
            assert(p.push(dirs.last()).last() == dirs.last());
            if p.contains(d) {
                let k = choose|k: int| 0 <= k < p.len() && p[k] == d;
                assert(p.push(dirs.last())[k] == d);
            }
            if p.push(dirs.last()).contains(d) && d != dirs.last() {
                let k = choose|k: int| 0 <= k < p.len() + 1 && p.push(dirs.last())[k] == d;
                assert(k < p.len());
                assert(p[k] == d);
            }
        }
        if dirs.last() == d {
            assert(dirs[dirs.len() - 1] == d);
        }
    }
}

/// Pruning removes a directory of a package that is no longer configured and one whose
/// version differs from the lock file's, and keeps a configured package's directory at its
/// locked version.
pub proof fn prune_law(
    dirs: Seq<String>,
    crates: Seq<(String, CrateDoc)>,
    lock: Map<Seq<char>, Seq<char>>,
    d: String,
    name: Seq<char>,
    version: Seq<char>,
)
    requires
        dirs.contains(d),
        name_version_of(d@) == Some((name, version)),
    ensures
        !is_configured(crates, name) ==> prune_list(dirs, crates, lock).contains(d),
        lock.contains_key(name) && lock[name] != version ==> prune_list(dirs, crates, lock).contains(d),
        is_configured(crates, name) && lock.contains_key(name) && lock[name] == version
            ==> !prune_list(dirs, crates, lock).contains(d),
{
    lemma_prune_list_member(dirs, crates, lock, d);
}

/// The directory for the cache: the output directory itself when its last component is
/// `rust`, else its `rust` subdirectory.
pub open spec fn rust_dir_of(base: Seq<char>) -> Seq<char> {
    let t = trim_end_by(base, slash());
    let last = t.skip(last_index_of(t, '/') + 1);
    if last == "rust"@ {
        base
    } else if base.len() == 0 {
        "rust"@
    } else if base.last() == '/' {
        base + "rust"@
    } else {
        base + "/rust"@
    }
}

/// The cache directory under the configured output directory.
pub fn rust_output_dir(base_output_dir: &str) -> (r: String)
    ensures
        r@ == rust_dir_of(base_output_dir@),
{
    let cs = chars_of(base_output_dir);
    let mut j = cs.len();
    while j > 0 && cs[j - 1] == '/'
        invariant
            j <= cs.len(),
            forall|k: int| j <= k < cs.len() ==> slash()(#[trigger] cs@[k]),
        decreases j,
    {
        j = j - 1;
    }
    proof {
        crate::strings::lemma_trim_end_take(cs@, slash(), j as int);
    }
    let ghost t = cs@.take(j as int);
    let mut k = j;
    while k > 0 && cs[k - 1] != '/'
        invariant
            k <= j <= cs.len(),
            t == cs@.take(j as int),
            forall|m: int| k <= m < j ==> cs@[m] != '/',
        decreases k,
    {
        k = k - 1;
    }
    proof {
        if k > 0 {
            assert(t[k - 1] == '/');
            crate::versions::lemma_last_index_unique_pub(t, '/', k - 1);
        } else {
            crate::versions::lemma_no_index(t, '/');
        }
    }
    let mut last: Vec<char> = Vec::new();
    let mut m = k;
    while m < j
        invariant
            k <= m <= j <= cs.len(),
            last@ == cs@.subrange(k as int, m as int),
        decreases j - m,
    {
        last.push(cs[m]);
        m = m + 1;
        assert(last@ =~= cs@.subrange(k as int, m as int));
    }
    assert(last@ =~= t.skip(last_index_of(t, '/') + 1));
    let name = string_of(&last);
    if same_text(name.as_str(), "rust") {
        copy_str(base_output_dir)
    } else if cs.len() == 0 {
        copy_str("rust")
    } else if cs[cs.len() - 1] == '/' {
        let mut r = copy_str(base_output_dir);
        push_str(&mut r, "rust");
        r
    } else {
        let mut r = copy_str(base_output_dir);
        push_str(&mut r, "/rust");
        r
    }
}

} // verus!
verus! {

/// Whether `s` contains `w`, ignoring ASCII case.
pub open spec fn contains_ci(s: Seq<char>, w: Seq<char>) -> bool {
    exists|k: int| 0 <= k && k + w.len() <= s.len() && #[trigger] matches_ci_at(s, w, k)
}

pub open spec fn matches_ci_at(s: Seq<char>, w: Seq<char>, k: int) -> bool {
    forall|i: int| 0 <= i < w.len() ==> ascii_lower(#[trigger] s[k + i]) == ascii_lower(w[i])
}

fn matches_at(s: &Vec<char>, w: &Vec<char>, k: usize) -> (r: bool)
    requires
        k + w.len() <= s.len(),
    ensures
        r == matches_ci_at(s@, w@, k as int),
{
    let mut i: usize = 0;
    while i < w.len()
        invariant
            k + w.len() <= s.len(),
            i <= w.len(),
            forall|j: int| 0 <= j < i ==> ascii_lower(#[trigger] s@[k + j]) == ascii_lower(w@[j]),
        decreases w.len() - i,
    {
        if lower_ascii(s[k + i]) != lower_ascii(w[i]) {
            return false;
        }
        i = i + 1;
    }
    true
}

fn contains_ignoring_case(s: &str, w: &str) -> (r: bool)
    ensures
        r == contains_ci(s@, w@),
{
    let x = chars_of(s);
    let y = chars_of(w);
    if y.len() > x.len() {
        return false;
    }
    let mut k: usize = 0;
    while k <= x.len() - y.len()
        invariant
            x@ == s@,
            y@ == w@,
            y.len() <= x.len(),
            k <= x.len() - y.len() + 1,
            forall|j: int| 0 <= j < k ==> !#[trigger] matches_ci_at(x@, y@, j),
        decreases x.len() - k,
    {
        if matches_at(&x, &y, k) {
            return true;
        }
        k = k + 1;
    }
    assert forall|j: int| 0 <= j && j + w@.len() <= s@.len() implies !#[trigger] matches_ci_at(s@, w@, j) by {
        assert(j < k);
    }
    false
}

/// A file as stored in a cache directory.
#[derive(Debug, Clone)]
pub struct StoredFile {
    pub name: String,
    pub content: String,
}

/// Files whose path mentions a changelog, in any ASCII case.
pub open spec fn is_changelog(path: Seq<char>) -> bool {
    contains_ci(path, "changelog"@)
}

/// What a fetched file's content becomes on disk: a changelog is windowed around `version`,
/// the text is limited to `max_kb` KiB, and text files get the provenance header.
pub open spec fn processed_content(
    file: FetchedFile,
    repo: Seq<char>,
    resolved: ResolvedRef,
    version: Seq<char>,
    max_kb: nat,
    date: Seq<char>,
) -> Seq<char> {
    processed_text(file_view(file), repo, resolved, version, max_kb, date)
}

/// A fetched file as text: its path, source URL and content.
pub open spec fn file_view(f: FetchedFile) -> (Seq<char>, Seq<char>, Seq<char>) {
    (f.path@, f.source_url@, f.content@)
}

/// `processed_content` of a file given as (path, source URL, content).
pub open spec fn processed_text(
    file: (Seq<char>, Seq<char>, Seq<char>),
    repo: Seq<char>,
    resolved: ResolvedRef,
    version: Seq<char>,
    max_kb: nat,
    date: Seq<char>,
) -> Seq<char> {
    let (path, url, c0) = file;
    let c1 = if is_changelog(path) {
        windowed(c0, version, heading_matches(c0))
    } else {
        c0
    };
    let c2 = limited_text(c1, max_kb);
    if is_text_file(path) {
        header_of(repo, resolved.git_ref@, path, resolved.is_fallback, version, url, date) + "\n"@
            + c2
    } else {
        c2
    }
}

/// Prepares a fetched file for the cache; `date` is the fetch date.
pub fn process_file(
    file: &FetchedFile,
    repo: &str,
    resolved: &ResolvedRef,
    version: &str,
    max_kb: usize,
    date: &str,
) -> (r: StoredFile)
    ensures
        r.name@ == flatten(file.path@),
        r.content@ == processed_content(*file, repo@, *resolved, version@, max_kb as nat, date@),
{
    let name = flatten_filename(file.path.as_str());
    let c1 = if contains_ignoring_case(file.path.as_str(), "changelog") {
        truncate_changelog(file.content.as_str(), version)
    } else {
        file.content.clone()
    };
    let c2 = truncate_if_needed(c1.as_str(), max_kb);
    let content = if should_inject_header(file.path.as_str()) {
        inject_header(
            c2.as_str(),
            repo,
            resolved.git_ref.as_str(),
            file.path.as_str(),
            resolved.is_fallback,
            version,
            file.source_url.as_str(),
            date,
        )
    } else {
        c2
    };
    StoredFile { name, content }
}

/// Everything one save writes: the directory (deleted first if present), its files, then the
/// metadata last as the commit mark; and the index entry of the result.
#[derive(Debug, Clone)]
pub struct SavePlan {
    pub dir_name: String,
    pub files: Vec<StoredFile>,
    pub meta: CrateMeta,
    pub saved: SavedCrate,
}

/// Plans saving the fetched files of `crate_name@version` taken from `repo` at `resolved`.
/// `source_kind` tags where the content came from; with `upstream_checked` the fetch date
/// also records when the newest version was last checked.
pub fn plan_crate_save(
    crate_name: &str,
    version: &str,
    repo: &str,
    resolved: &ResolvedRef,
    fetched_files: &Vec<FetchedFile>,
    crate_config: &CrateDoc,
    max_kb: usize,
    date: &str,
    source_kind: &str,
    upstream_checked: bool,
) -> (r: SavePlan)
    ensures
        r.dir_name@ == dir_name_of(crate_name@, version@),
        r.files@.len() == fetched_files@.len(),
        forall|i: int|
            0 <= i < fetched_files@.len() ==> (#[trigger] r.files@[i]).name@ == flatten(fetched_files@[i].path@)
                && r.files@[i].content@ == processed_content(
                fetched_files@[i],
                repo@,
                *resolved,
                version@,
                max_kb as nat,
                date@,
            ),
        r.meta.schema_version == META_SCHEMA_VERSION,
        r.meta.version@ == version@,
        r.meta.git_ref == resolved.git_ref,
        r.meta.fetched_at@ == date@,
        r.meta.is_fallback == resolved.is_fallback,
        r.meta.source_kind matches Some(k) && k@ == source_kind@,
        upstream_checked ==> (r.meta.upstream_checked_at matches Some(d) && d@ == date@),
        !upstream_checked ==> r.meta.upstream_checked_at is None,
        r.meta.truncated is None,
        r.saved.name@ == crate_name@,
        r.saved.version@ == version@,
        r.saved.git_ref == resolved.git_ref,
        r.saved.is_fallback == resolved.is_fallback,
        r.saved.files@.len() == fetched_files@.len(),
        forall|i: int| 0 <= i < fetched_files@.len() ==> (#[trigger] r.saved.files@[i])@ == flatten(fetched_files@[i].path@),
        r.saved.ai_notes == crate_config.ai_notes,
{
    let mut files: Vec<StoredFile> = Vec::new();
    let mut names: Vec<String> = Vec::new();
    let mut i: usize = 0;
    while i < fetched_files.len()
        invariant
            i <= fetched_files.len(),
            files@.len() == i,
            names@.len() == i,
            forall|j: int|
                0 <= j < i ==> (#[trigger] files@[j]).name@ == flatten(fetched_files@[j].path@)
                    && files@[j].content@ == processed_content(
                    fetched_files@[j],
                    repo@,
                    *resolved,
                    version@,
                    max_kb as nat,
                    date@,
                ),
            forall|j: int| 0 <= j < i ==> (#[trigger] names@[j])@ == flatten(fetched_files@[j].path@),
        decreases fetched_files.len() - i,
    {
        let f = process_file(&fetched_files[i], repo, resolved, version, max_kb, date);
        names.push(f.name.clone());
        files.push(f);
        i = i + 1;
    }
    let meta = CrateMeta {
        schema_version: META_SCHEMA_VERSION,
        version: copy_str(version),
        git_ref: resolved.git_ref.clone(),
        fetched_at: copy_str(date),
        is_fallback: resolved.is_fallback,
        source_kind: Some(copy_str(source_kind)),
        upstream_checked_at: if upstream_checked { Some(copy_str(date)) } else { None },
        truncated: None,
    };
    let saved = SavedCrate {
        name: copy_str(crate_name),
        version: copy_str(version),
        git_ref: resolved.git_ref.clone(),
        is_fallback: resolved.is_fallback,
        files: names,
        ai_notes: crate_config.ai_notes.clone(),
    };
    SavePlan { dir_name: crate_dir_name(crate_name, version), files, meta, saved }
}

/// Plans saving a rendered documentation page as `API.md`, tagged as coming from the
/// documentation host.
pub fn plan_docs_save(
    crate_name: &str,
    version: &str,
    markdown: &str,
    truncated: bool,
    crate_config: &CrateDoc,
    date: &str,
) -> (r: SavePlan)
    ensures
        r.dir_name@ == dir_name_of(crate_name@, version@),
        r.files@.len() == 1,
        r.files@[0].name@ == "API.md"@,
        r.files@[0].content@ == markdown@,
        r.meta.schema_version == META_SCHEMA_VERSION,
        r.meta.version@ == version@,
        r.meta.git_ref@ == "docs.rs"@,
        r.meta.fetched_at@ == date@,
        !r.meta.is_fallback,
        r.meta.source_kind matches Some(k) && k@ == "docsrs"@,
        r.meta.upstream_checked_at matches Some(d) && d@ == date@,
        r.meta.truncated == Some(truncated),
        r.saved.name@ == crate_name@,
        r.saved.version@ == version@,
        r.saved.files@.len() == 1,
        r.saved.files@[0]@ == "API.md"@,
        r.saved.ai_notes == crate_config.ai_notes,
{
    let files = vec![StoredFile { name: copy_str("API.md"), content: copy_str(markdown) }];
    let meta = CrateMeta {
        schema_version: META_SCHEMA_VERSION,
        version: copy_str(version),
        git_ref: copy_str("docs.rs"),
        fetched_at: copy_str(date),
        is_fallback: false,
        source_kind: Some(copy_str("docsrs")),
        upstream_checked_at: Some(copy_str(date)),
        truncated: Some(truncated),
    };
    let saved = SavedCrate {
        name: copy_str(crate_name),
        version: copy_str(version),
        git_ref: copy_str("docs.rs"),
        is_fallback: false,
        files: vec![copy_str("API.md")],
        ai_notes: crate_config.ai_notes.clone(),
    };
    SavePlan { dir_name: crate_dir_name(crate_name, version), files, meta, saved }
}

/// The names of a directory's content files: all but hidden ones.
pub open spec fn visible_names(names: Seq<String>) -> Seq<String>
    decreases names.len(),
{
    if names.len() == 0 {
        Seq::empty()
    } else if names.last()@.len() > 0 && names.last()@[0] == '.' {
        visible_names(names.drop_last())
    } else {
        visible_names(names.drop_last()).push(names.last())
    }
}

/// The index entry of a cached package read from metadata `m` and the file names of its
/// directory.
pub open spec fn cached_info(s: SavedCrate, m: CrateMeta, names: Seq<String>, name: Seq<char>, version: Seq<char>, d: CrateDoc) -> bool {
    s.name@ == name && s.version@ == version && s.git_ref == m.git_ref && s.is_fallback == m.is_fallback
        && s.files@ == visible_names(names) && s.ai_notes == d.ai_notes
}

/// The index entry of a cached package, from its metadata and the names of the files in its
/// directory; none when the metadata could not be read.
pub fn read_cached_info(
    meta: &MetaRead,
    file_names: &Vec<String>,
    crate_name: &str,
    version: &str,
    crate_config: &CrateDoc,
) -> (r: Option<SavedCrate>)
    ensures
        match *meta {
            MetaRead::Parsed(m) => r matches Some(s) && cached_info(s, m, file_names@, crate_name@, version@, *crate_config),
            _ => r is None,
        },
{
    let m = match meta {
        MetaRead::Parsed(m) => m,
        _ => {
            return None;
        },
    };
    let mut files: Vec<String> = Vec::new();
    let mut i: usize = 0;
    while i < file_names.len()
        invariant
            i <= file_names.len(),
            files@ == visible_names(file_names@.take(i as int)),
        decreases file_names.len() - i,
    {
        assert(file_names@.take(i + 1).drop_last() =~= file_names@.take(i as int));
        let cs = chars_of(file_names[i].as_str());
        if !(cs.len() > 0 && cs[0] == '.') {
            files.push(file_names[i].clone());
        }
        i = i + 1;
    }
    assert(file_names@.take(file_names.len() as int) =~= file_names@);
    Some(
        SavedCrate {
            name: copy_str(crate_name),
            version: copy_str(version),
            git_ref: m.git_ref.clone(),
            is_fallback: m.is_fallback,
            files,
            ai_notes: crate_config.ai_notes.clone(),
        },
    )
}

} // verus!
verus! {

/// A cache entry whose metadata records another version than the one asked for is never
/// taken as cached, whatever its directory is called.
pub proof fn cache_version_law(meta: MetaRead, version: Seq<char>)
    ensures
        (meta matches MetaRead::Parsed(m) && m.version@ != version) ==> !cached(meta, version),
        !(meta is Parsed) ==> !cached(meta, version),
{
}

} // verus!
