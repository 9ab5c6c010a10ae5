//! The configuration: global settings and one entry per documented package.
use vstd::prelude::*;
use crate::error::AiDocsError;
use crate::strings::{copy_str, push_decimal, push_str, same_text};

verus! {

/// Where documentation is fetched from.
#[derive(Debug, Clone, Copy, PartialEq, Eq, Structural)]
pub enum DocsSource {
    GitHub,
}

/// How a sync pass picks versions and content.
#[derive(Debug, Clone, Copy, PartialEq, Eq, Structural)]
pub enum SyncMode {
    Lockfile,
    LatestDocs,
    Hybrid,
}

impl SyncMode {
    /// The mode's name as written in settings.
    pub fn as_str(self) -> (r: &'static str)
        ensures
            r@ == sync_mode_name(self),
    {
        match self {
            SyncMode::Lockfile => "lockfile",
            SyncMode::LatestDocs => "latest_docs",
            SyncMode::Hybrid => "hybrid",
        }
    }
}

pub open spec fn sync_mode_name(m: SyncMode) -> Seq<char> {
    match m {
        SyncMode::Lockfile => "lockfile"@,
        SyncMode::LatestDocs => "latest_docs"@,
        SyncMode::Hybrid => "hybrid"@,
    }
}

/// The mode a settings value names; `latest-docs` is accepted for `latest_docs`.
pub open spec fn sync_mode_named(v: Seq<char>) -> Option<SyncMode> {
    if v == "lockfile"@ {
        Some(SyncMode::Lockfile)
    } else if v == "latest_docs"@ || v == "latest-docs"@ {
        Some(SyncMode::LatestDocs)
    } else if v == "hybrid"@ {
        Some(SyncMode::Hybrid)
    } else {
        None
    }
}

/// Reads a `sync_mode` settings value.
pub fn parse_sync_mode(value: &str) -> (r: Result<SyncMode, String>)
    ensures
        match sync_mode_named(value@) {
            Some(m) => r == Ok::<SyncMode, String>(m),
            None => r matches Err(msg) && msg@ == "settings.sync_mode must be \"lockfile\", \"latest_docs\", or \"hybrid\", got: "@
                + value@,
        },
{
    if same_text(value, "lockfile") {
        Ok(SyncMode::Lockfile)
    } else if same_text(value, "latest_docs") || same_text(value, "latest-docs") {
        Ok(SyncMode::LatestDocs)
    } else if same_text(value, "hybrid") {
        Ok(SyncMode::Hybrid)
    } else {
        let mut msg = copy_str(
            "settings.sync_mode must be \"lockfile\", \"latest_docs\", or \"hybrid\", got: ",
        );
        push_str(&mut msg, value);
        Err(msg)
    }
}

/// Reads a `docs_source` settings value.
pub fn parse_docs_source(value: &str) -> (r: Result<DocsSource, String>)
    ensures
        value@ == "github"@ ==> r == Ok::<DocsSource, String>(DocsSource::GitHub),
        value@ != "github"@ ==> (r matches Err(msg) && msg@ == "settings.docs_source must be \"github\", got: "@ + value@),
{
    if same_text(value, "github") {
        Ok(DocsSource::GitHub)
    } else {
        let mut msg = copy_str("settings.docs_source must be \"github\", got: ");
        push_str(&mut msg, value);
        Err(msg)
    }
}

/// The documentation source when settings name none.
pub fn default_docs_source() -> (r: DocsSource)
    ensures
        r == DocsSource::GitHub,
{
    DocsSource::GitHub
}

/// The sync mode when settings name none.
pub fn default_sync_mode() -> (r: SyncMode)
    ensures
        r == SyncMode::Lockfile,
{
    SyncMode::Lockfile
}

/// The output directory when settings name none.
pub fn default_output_dir() -> (r: String)
    ensures
        r@ == "fdocs"@,
{
    copy_str("fdocs")
}

/// The per-file size limit, in KiB, when settings name none.
pub fn default_max_file_size_kb() -> (r: usize)
    ensures
        r == 200,
{
    200
}

/// The default of the boolean settings.
pub fn default_true() -> (r: bool)
    ensures
        r,
{
    true
}

/// How many packages sync at once when settings name no limit.
pub fn default_sync_concurrency() -> (r: usize)
    ensures
        r == 8,
{
    8
}

/// How long, in hours, latest-docs entries stay fresh when settings name no TTL.
pub fn default_latest_ttl_hours() -> (r: usize)
    ensures
        r == 24,
{
    24
}

/// Global settings.
#[derive(Debug, Clone)]
pub struct Settings {
    pub output_dir: String,
    pub max_file_size_kb: usize,
    pub prune: bool,
    pub sync_concurrency: usize,
    pub docs_source: DocsSource,
    pub sync_mode: SyncMode,
    pub latest_ttl_hours: usize,
    pub docsrs_single_page: bool,
}

impl Default for Settings {
    fn default() -> (r: Settings)
        ensures
            r.output_dir@ == "fdocs"@,
            r.max_file_size_kb == 200,
            r.prune,
            r.sync_concurrency == 8,
            r.docs_source == DocsSource::GitHub,
            r.sync_mode == SyncMode::Lockfile,
            r.latest_ttl_hours == 24,
            r.docsrs_single_page,
    {
        Settings {
            output_dir: default_output_dir(),
            max_file_size_kb: default_max_file_size_kb(),
            prune: default_true(),
            sync_concurrency: default_sync_concurrency(),
            docs_source: default_docs_source(),
            sync_mode: default_sync_mode(),
            latest_ttl_hours: default_latest_ttl_hours(),
            docsrs_single_page: default_true(),
        }
    }
}

/// The legacy form of a package's upstream, a list of typed sources.
#[derive(Debug, Clone)]
pub enum Source {
    GitHub { repo: String, files: Vec<String> },
    DocsRs,
}

/// One configured package.
#[derive(Debug, Clone)]
pub struct CrateDoc {
    /// Repository as `owner/name`.
    pub repo: Option<String>,
    /// Subdirectory of the package inside a monorepo; used for the default file list.
    pub subpath: Option<String>,
    /// Explicit list of files to fetch.
    pub files: Option<Vec<String>>,
    /// Legacy source list.
    pub sources: Option<Vec<Source>>,
    pub ai_notes: String,
}

/// The repository of the first GitHub entry of a legacy source list.
pub open spec fn first_github_repo(s: Seq<Source>) -> Option<Seq<char>>
    decreases s.len(),
{
    if s.len() == 0 {
        None
    } else {
        match s[0] {
            Source::GitHub { repo, .. } => Some(repo@),
            Source::DocsRs => first_github_repo(s.drop_first()),
        }
    }
}

/// The file list of the first GitHub entry of a legacy source list that has a non-empty one.
pub open spec fn first_github_files(s: Seq<Source>) -> Option<Seq<String>>
    decreases s.len(),
{
    if s.len() == 0 {
        None
    } else {
        match s[0] {
            Source::GitHub { files, .. } => if files@.len() > 0 {
                Some(files@)
            } else {
                first_github_files(s.drop_first())
            },
            Source::DocsRs => first_github_files(s.drop_first()),
        }
    }
}

/// The repository a package resolves to: the explicit one, else the legacy GitHub source's.
pub open spec fn repo_of(d: CrateDoc) -> Option<Seq<char>> {
    match d.repo {
        Some(r) => Some(r@),
        None => match d.sources {
            Some(v) => first_github_repo(v@),
            None => None,
        },
    }
}

/// The explicit file list of a package: its own, else the legacy GitHub source's.
pub open spec fn files_of(d: CrateDoc) -> Option<Seq<String>> {
    match d.files {
        Some(f) => Some(f@),
        None => match d.sources {
            Some(v) => first_github_files(v@),
            None => None,
        },
    }
}

/// Copies a list of strings.
pub fn clone_strings(v: &Vec<String>) -> (r: Vec<String>)
    ensures
        r@ == v@,
{
    let mut out: Vec<String> = Vec::new();
    let mut i: usize = 0;
    while i < v.len()
        invariant
            i <= v.len(),
            out@ == v@.take(i as int),
        decreases v.len() - i,
    {
        out.push(v[i].clone());
        i = i + 1;
        assert(out@ =~= v@.take(i as int));
    }
    assert(v@.take(v.len() as int) =~= v@);
    out
}

impl CrateDoc {
    /// The `owner/name` repository the package is fetched from, if any.
    pub fn github_repo(&self) -> (r: Option<&str>)
        ensures
            match repo_of(*self) {
                Some(x) => r matches Some(y) && y@ == x,
                None => r is None,
            },
    {
        if let Some(repo) = &self.repo {
            return Some(repo.as_str());
        }
        match &self.sources {
            None => None,
            Some(sources) => {
                let mut i: usize = 0;
                assert(sources@.skip(0) =~= sources@);
                while i < sources.len()
                    invariant
                        i <= sources.len(),
                        first_github_repo(sources@) == first_github_repo(sources@.skip(i as int)),
                        self.repo is None,
                        self.sources == Some(*sources),
                    decreases sources.len() - i,
                {
                    assert(sources@.skip(i as int).drop_first() =~= sources@.skip(i + 1));
                    assert(sources@.skip(i as int)[0] == sources@[i as int]);
                    match &sources[i] {
                        Source::GitHub { repo, .. } => {
                            return Some(repo.as_str());
                        },
                        Source::DocsRs => {},
                    }
                    i = i + 1;
                }
                None
            },
        }
    }

    /// The explicit list of files to fetch, if one is configured.
    pub fn effective_files(&self) -> (r: Option<Vec<String>>)
        ensures
            match files_of(*self) {
                Some(x) => r matches Some(y) && y@ == x,
                None => r is None,
            },
    {
        if let Some(files) = &self.files {
            return Some(clone_strings(files));
        }
        match &self.sources {
            None => None,
            Some(sources) => {
                let mut i: usize = 0;
                assert(sources@.skip(0) =~= sources@);
                while i < sources.len()
                    invariant
                        i <= sources.len(),
                        first_github_files(sources@) == first_github_files(sources@.skip(i as int)),
                        self.files is None,
                        self.sources == Some(*sources),
                    decreases sources.len() - i,
                {
                    assert(sources@.skip(i as int).drop_first() =~= sources@.skip(i + 1));
                    assert(sources@.skip(i as int)[0] == sources@[i as int]);
                    match &sources[i] {
                        Source::GitHub { files, .. } => {
                            if files.len() > 0 {
                                return Some(clone_strings(files));
                            }
                        },
                        Source::DocsRs => {},
                    }
                    i = i + 1;
                }
                None
            },
        }
    }
}

/// The whole configuration: settings and the configured packages, by name.
#[derive(Debug, Clone)]
pub struct Config {
    pub settings: Settings,
    pub crates: Vec<(String, CrateDoc)>,
}

/// The first configured package without a repository, if any.
pub open spec fn first_without_repo(c: Seq<(String, CrateDoc)>) -> Option<Seq<char>>
    decreases c.len(),
{
    if c.len() == 0 {
        None
    } else if repo_of(c[0].1) is None {
        Some(c[0].0@)
    } else {
        first_without_repo(c.drop_first())
    }
}

/// The message of the first rule a configuration breaks, if any.
pub open spec fn config_problem(c: Config) -> Option<Seq<char>> {
    let s = c.settings;
    if s.sync_concurrency == 0 {
        Some("settings.sync_concurrency must be greater than 0"@)
    } else if s.sync_concurrency > 50 {
        Some("settings.sync_concurrency must not exceed 50 to avoid rate limiting"@)
    } else if s.max_file_size_kb == 0 {
        Some("settings.max_file_size_kb must be greater than 0"@)
    } else if s.latest_ttl_hours == 0 {
        Some("settings.latest_ttl_hours must be greater than 0"@)
    } else if !s.docsrs_single_page {
        Some("settings.docsrs_single_page=false is not supported yet; use true"@)
    } else if s.sync_mode == SyncMode::Lockfile && first_without_repo(c.crates@) is Some {
        Some(
            "crate '"@ + first_without_repo(c.crates@)->0
                + "' must define `repo` or legacy `sources` with GitHub for lockfile mode"@,
        )
    } else {
        None
    }
}

impl Config {
    /// Checks the configuration's rules; the error names the first one broken.
    pub fn validate(&self) -> (r: Result<(), AiDocsError>)
        ensures
            match config_problem(*self) {
                None => r is Ok,
                Some(m) => r matches Err(AiDocsError::InvalidConfig(msg)) && msg@ == m,
            },
    {
        let s = &self.settings;
        if s.sync_concurrency == 0 {
            return Err(
                AiDocsError::InvalidConfig(
                    copy_str("settings.sync_concurrency must be greater than 0"),
                ),
            );
        }
        if s.sync_concurrency > 50 {
            return Err(
                AiDocsError::InvalidConfig(
                    copy_str("settings.sync_concurrency must not exceed 50 to avoid rate limiting"),
                ),
            );
        }
        if s.max_file_size_kb == 0 {
            return Err(
                AiDocsError::InvalidConfig(copy_str("settings.max_file_size_kb must be greater than 0")),
            );
        }
        if s.latest_ttl_hours == 0 {
            return Err(
                AiDocsError::InvalidConfig(copy_str("settings.latest_ttl_hours must be greater than 0")),
            );
        }
        if !s.docsrs_single_page {
            return Err(
                AiDocsError::InvalidConfig(
                    copy_str("settings.docsrs_single_page=false is not supported yet; use true"),
                ),
            );
        }
        if s.sync_mode == SyncMode::Lockfile {
            let mut i: usize = 0;
            assert(self.crates@.skip(0) =~= self.crates@);
            while i < self.crates.len()
                invariant
                    i <= self.crates.len(),
                    first_without_repo(self.crates@) == first_without_repo(self.crates@.skip(i as int)),
                    self.settings.sync_concurrency != 0,
                    self.settings.sync_concurrency <= 50,
                    self.settings.max_file_size_kb != 0,
                    self.settings.latest_ttl_hours != 0,
                    self.settings.docsrs_single_page,
                    self.settings.sync_mode == SyncMode::Lockfile,
                decreases self.crates.len() - i,
            {
                assert(self.crates@.skip(i as int).drop_first() =~= self.crates@.skip(i + 1));
                assert(self.crates@.skip(i as int)[0] == self.crates@[i as int]);
                if self.crates[i].1.github_repo().is_none() {
                    let mut msg = copy_str("crate '");
                    push_str(&mut msg, self.crates[i].0.as_str());
                    push_str(
                        &mut msg,
                        "' must define `repo` or legacy `sources` with GitHub for lockfile mode",
                    );
                    return Err(AiDocsError::InvalidConfig(msg));
                }
                i = i + 1;
            }
        }
        Ok(())
    }
}

} // verus!
verus! {

/// The SHA-256 digest of `data`.
pub uninterp spec fn sha256_of(data: Seq<u8>) -> Seq<u8>;

/// Relies on `sha2::Sha256::digest`: the digest depends on the bytes alone.
#[verifier::external_body]
fn sha256_digest(data: &[u8]) -> (r: Vec<u8>)
    ensures
        r@ == sha256_of(data@),
{
    <sha2::Sha256 as sha2::Digest>::digest(data).to_vec()
}

/// The lowercase hexadecimal digit of a value below 16.
pub open spec fn hex_digit(v: u8) -> char {
    if v < 10 {
        ((v + 48) as u8) as char
    } else {
        ((v + 87) as u8) as char
    }
}

/// Two lowercase hexadecimal digits per byte, high half first.
pub open spec fn lower_hex(b: Seq<u8>) -> Seq<char>
    decreases b.len(),
{
    if b.len() == 0 {
        Seq::empty()
    } else {
        lower_hex(b.drop_last()).push(hex_digit(b.last() / 16)).push(hex_digit(b.last() % 16))
    }
}

fn hex_char(v: u8) -> (r: char)
    requires
        v < 16,
    ensures
        r == hex_digit(v),
{
    if v < 10 {
        (v + 48) as char
    } else {
        (v + 87) as char
    }
}

/// Writes bytes as lowercase hexadecimal.
pub fn to_lower_hex(b: &Vec<u8>) -> (r: String)
    ensures
        r@ == lower_hex(b@),
{
    let mut out = String::new();
    let mut i: usize = 0;
    while i < b.len()
        invariant
            i <= b.len(),
            out@ == lower_hex(b@.take(i as int)),
        decreases b.len() - i,
    {
        assert(b@.take(i + 1).drop_last() =~= b@.take(i as int));
        out.push(hex_char(b[i] / 16));
        out.push(hex_char(b[i] % 16));
        i = i + 1;
    }
    assert(b@.take(b.len() as int) =~= b@);
    out
}

/// The `Debug` rendering of a text: quoted, with escapes.
pub uninterp spec fn debug_of(s: Seq<char>) -> Seq<char>;

/// Relies on `str`'s `Debug`: the quoted, escaped text depends on the text alone.
#[verifier::external_body]
fn debug_str(s: &str) -> (r: String)
    ensures
        r@ == debug_of(s@),
{
    format!("{:?}", s)
}

/// The items separated by `, `.
pub open spec fn joined(items: Seq<Seq<char>>) -> Seq<char>
    decreases items.len(),
{
    if items.len() == 0 {
        Seq::empty()
    } else if items.len() == 1 {
        items[0]
    } else {
        joined(items.drop_last()) + ", "@ + items.last()
    }
}

/// The `Debug` rendering of a list from those of its items.
pub open spec fn debug_list(items: Seq<Seq<char>>) -> Seq<char> {
    "["@ + joined(items) + "]"@
}

pub open spec fn strings_debug(v: Seq<String>) -> Seq<char> {
    debug_list(v.map_values(|s: String| debug_of(s@)))
}

/// The `Debug` rendering of a legacy source.
pub open spec fn source_debug(s: Source) -> Seq<char> {
    match s {
        Source::GitHub { repo, files } => "GitHub { repo: "@ + debug_of(repo@) + ", files: "@
            + strings_debug(files@) + " }"@,
        Source::DocsRs => "DocsRs"@,
    }
}

pub open spec fn sources_debug(v: Seq<Source>) -> Seq<char> {
    debug_list(v.map_values(|s: Source| source_debug(s)))
}

/// Each file followed by a comma.
pub open spec fn files_text(f: Seq<String>) -> Seq<char>
    decreases f.len(),
{
    if f.len() == 0 {
        Seq::empty()
    } else {
        files_text(f.drop_last()) + f.last()@ + ","@
    }
}

/// The text whose digest identifies a package's configuration.
pub open spec fn config_text(d: CrateDoc) -> Seq<char> {
    (match d.repo {
        Some(r) => "repo:"@ + r@,
        None => Seq::empty(),
    }) + (match d.subpath {
        Some(s) => "subpath:"@ + s@,
        None => Seq::empty(),
    }) + (match d.files {
        Some(f) => "files:"@ + files_text(f@),
        None => Seq::empty(),
    }) + "notes:"@ + d.ai_notes@ + (match d.sources {
        Some(v) => "sources:"@ + sources_debug(v@),
        None => Seq::empty(),
    })
}

/// Appends the `Debug` list of already rendered items.
fn push_list(out: &mut String, items: &Vec<String>)
    ensures
        final(out)@ == old(out)@ + debug_list(items@.map_values(|s: String| s@)),
{
    let ghost v = items@.map_values(|s: String| s@);
    push_str(out, "[");
    let ghost start = out@;
    let mut i: usize = 0;
    while i < items.len()
        invariant
            i <= items.len(),
            v == items@.map_values(|s: String| s@),
            out@ == start + joined(v.take(i as int)),
        decreases items.len() - i,
    {
        assert(v.take(i + 1).drop_last() =~= v.take(i as int));
        assert(v.take(i + 1).last() == items@[i as int]@);
        if i > 0 {
            push_str(out, ", ");
        } else {
            assert(v.take(1) =~= seq![items@[0]@]);
        }
        push_str(out, items[i].as_str());
        i = i + 1;
        assert(out@ =~= start + joined(v.take(i as int)));
    }
    assert(v.take(items.len() as int) =~= v);
    push_str(out, "]");
    assert(out@ =~= old(out)@ + debug_list(v));
}

fn strings_debug_text(v: &Vec<String>) -> (r: String)
    ensures
        r@ == strings_debug(v@),
{
    let mut items: Vec<String> = Vec::new();
    let mut i: usize = 0;
    while i < v.len()
        invariant
            i <= v.len(),
            items@.len() == i,
            forall|j: int| 0 <= j < i ==> #[trigger] items@[j]@ == debug_of(v@[j]@),
        decreases v.len() - i,
    {
        items.push(debug_str(v[i].as_str()));
        i = i + 1;
    }
    let mut out = String::new();
    push_list(&mut out, &items);
    assert(items@.map_values(|s: String| s@) =~= v@.map_values(|s: String| debug_of(s@)));
    out
}

fn sources_debug_text(v: &Vec<Source>) -> (r: String)
    ensures
        r@ == sources_debug(v@),
{
    let mut items: Vec<String> = Vec::new();
    let mut i: usize = 0;
    while i < v.len()
        invariant
            i <= v.len(),
            items@.len() == i,
            forall|j: int| 0 <= j < i ==> #[trigger] items@[j]@ == source_debug(v@[j]),
        decreases v.len() - i,
    {
        let item = match &v[i] {
            Source::GitHub { repo, files } => {
                let mut s = copy_str("GitHub { repo: ");
                let r = debug_str(repo.as_str());
                push_str(&mut s, r.as_str());
                push_str(&mut s, ", files: ");
                let f = strings_debug_text(files);
                push_str(&mut s, f.as_str());
                push_str(&mut s, " }");
                s
            },
            Source::DocsRs => copy_str("DocsRs"),
        };
        items.push(item);
        i = i + 1;
    }
    let mut out = String::new();
    push_list(&mut out, &items);
    assert(items@.map_values(|s: String| s@) =~= v@.map_values(|s: Source| source_debug(s)));
    out
}

impl CrateDoc {
    /// A digest of the package's configuration, to notice when it changes.
    pub fn config_hash(&self) -> (r: String)
        ensures
            r@ == lower_hex(sha256_of(vstd::utf8::encode_utf8(config_text(*self)))),
    {
        let mut t = String::new();
        if let Some(repo) = &self.repo {
            push_str(&mut t, "repo:");
            push_str(&mut t, repo.as_str());
        }
        if let Some(subpath) = &self.subpath {
            push_str(&mut t, "subpath:");
            push_str(&mut t, subpath.as_str());
        }
        if let Some(files) = &self.files {
            push_str(&mut t, "files:");
            let ghost before = t@;
            let mut i: usize = 0;
            while i < files.len()
                invariant
                    i <= files.len(),
                    t@ == before + files_text(files@.take(i as int)),
                decreases files.len() - i,
            {
                assert(files@.take(i + 1).drop_last() =~= files@.take(i as int));
                push_str(&mut t, files[i].as_str());
                push_str(&mut t, ",");
                i = i + 1;
                assert(t@ =~= before + files_text(files@.take(i as int)));
            }
            assert(files@.take(files.len() as int) =~= files@);
        }
        push_str(&mut t, "notes:");
        push_str(&mut t, self.ai_notes.as_str());
        if let Some(sources) = &self.sources {
            push_str(&mut t, "sources:");
            let d = sources_debug_text(sources);
            push_str(&mut t, d.as_str());
        }
        assert(t@ =~= config_text(*self));
        to_lower_hex(&sha256_digest(t.as_str().as_bytes()))
    }
}

} // verus!
verus! {

/// Configured package names in strictly ascending order, so each name occurs once.
pub open spec fn names_ascending(c: Seq<(String, CrateDoc)>) -> bool {
    forall|i: int, j: int| 0 <= i < j < c.len() ==> crate::versions::chars_gt(#[trigger] c[j].0@, #[trigger] c[i].0@)
}

impl Config {
    /// Whether the packages are listed by name in strictly ascending order, as reports list
    /// them.
    pub fn has_sorted_names(&self) -> (r: bool)
        ensures
            r == names_ascending(self.crates@),
    {
        let n = self.crates.len();
        let mut j: usize = 0;
        while j < n
            invariant
                n == self.crates@.len(),
                j <= n,
                forall|a: int, b: int| 0 <= a < b < j ==> crate::versions::chars_gt(#[trigger] self.crates@[b].0@, #[trigger] self.crates@[a].0@),
            decreases n - j,
        {
            let cj = crate::strings::chars_of(self.crates[j].0.as_str());
            let mut i: usize = 0;
            while i < j
                invariant
                    n == self.crates@.len(),
                    i <= j < n,
                    cj@ == self.crates@[j as int].0@,
                    forall|a: int, b: int| 0 <= a < b < j ==> crate::versions::chars_gt(#[trigger] self.crates@[b].0@, #[trigger] self.crates@[a].0@),
                    forall|a: int| 0 <= a < i ==> crate::versions::chars_gt(self.crates@[j as int].0@, #[trigger] self.crates@[a].0@),
                decreases j - i,
            {
                let ci = crate::strings::chars_of(self.crates[i].0.as_str());
                if !crate::versions::chars_greater(&cj, &ci) {
                    return false;
                }
                i = i + 1;
            }
            j = j + 1;
        }
        true
    }
}

} // verus!
