//! Decisions of a sync pass: which files to ask for, how fetched results are kept, how the
//! pass is counted, and which mode runs.
use vstd::prelude::*;
use crate::config::{clone_strings, SyncMode};
use crate::error::SyncErrorKind;
use crate::fetch::FileRequest;
use crate::job::SyncOutcome;
use crate::strings::{chars_of, copy_str, push_str, slash, string_of, trim_by, trim_range};

verus! {

/// The directory prefix of default file paths: the trimmed subpath and a `/`, or nothing.
pub open spec fn subpath_prefix(subpath: Option<Seq<char>>) -> Seq<char> {
    match subpath {
        Some(s) => if trim_by(s, slash()).len() > 0 {
            trim_by(s, slash()) + "/"@
        } else {
            Seq::empty()
        },
        None => Seq::empty(),
    }
}

/// The texts of a list of strings.
pub open spec fn texts(v: Seq<String>) -> Seq<Seq<char>> {
    v.map_values(|s: String| s@)
}

/// A required request for exactly one explicit path.
pub open spec fn explicit_request(f: String, r: FileRequest) -> bool {
    r.original_path == f && r.candidates@ == seq![f] && r.required
}

/// An optional request for `{p}{upper}` trying the three usual spellings of a name.
pub open spec fn default_request(p: Seq<char>, upper: Seq<char>, title: Seq<char>, lower: Seq<char>, r: FileRequest) -> bool {
    r.original_path@ == p + upper && texts(r.candidates@) == seq![p + upper, p + title, p + lower]
        && !r.required
}

fn prefixed(prefix: &str, name: &str) -> (r: String)
    ensures
        r@ == prefix@ + name@,
{
    let mut s = copy_str(prefix);
    push_str(&mut s, name);
    s
}

fn spelled_request(prefix: &str, upper: &str, title: &str, lower: &str) -> (r: FileRequest)
    ensures
        default_request(prefix@, upper@, title@, lower@, r),
{
    let c = vec![prefixed(prefix, upper), prefixed(prefix, title), prefixed(prefix, lower)];
    assert(texts(c@) =~= seq![prefix@ + upper@, prefix@ + title@, prefix@ + lower@]);
    FileRequest { original_path: prefixed(prefix, upper), candidates: c, required: false }
}

/// The requests for a package: each explicit file as a required request of its own, else
/// an optional README and an optional CHANGELOG under the subpath.
pub open spec fn requests_built(subpath: Option<Seq<char>>, explicit: Option<Seq<String>>, r: Seq<FileRequest>) -> bool {
    match explicit {
        Some(files) => r.len() == files.len() && forall|i: int|
            0 <= i < files.len() ==> explicit_request(#[trigger] files[i], r[i]),
        None => {
            let p = subpath_prefix(subpath);
            &&& r.len() == 2
            &&& default_request(p, "README.md"@, "Readme.md"@, "readme.md"@, r[0])
            &&& default_request(p, "CHANGELOG.md"@, "Changelog.md"@, "changelog.md"@, r[1])
        },
    }
}

/// The files to fetch for a package.
pub fn build_requests(subpath: Option<&str>, explicit_files: Option<Vec<String>>) -> (r: Vec<FileRequest>)
    ensures
        requests_built(
            match subpath {
                Some(s) => Some(s@),
                None => None,
            },
            match explicit_files {
                Some(f) => Some(f@),
                None => None,
            },
            r@,
        ),
{
    if let Some(files) = explicit_files {
        let mut out: Vec<FileRequest> = Vec::new();
        let mut i: usize = 0;
        while i < files.len()
            invariant
                i <= files.len(),
                out@.len() == i,
                forall|j: int| 0 <= j < i ==> explicit_request(#[trigger] files@[j], out@[j]),
            decreases files.len() - i,
        {
            let f = files[i].clone();
            let c = vec![files[i].clone()];
            assert(c@ =~= seq![files@[i as int]]);
            out.push(FileRequest { original_path: f, candidates: c, required: true });
            i = i + 1;
        }
        return out;
    }
    let prefix = match subpath {
        Some(s) => {
            let cs = chars_of(s);
            let t = trim_range(&cs, 0, cs.len(), true);
            assert(cs@.subrange(0, cs@.len() as int) =~= s@);
            if t.len() > 0 {
                let mut p = string_of(&t);
                p.push('/');
                assert(p@ =~= t@ + "/"@) by {
                    reveal_strlit("/");
                }
                p
            } else {
                String::new()
            }
        },
        None => String::new(),
    };
    vec![
        spelled_request(prefix.as_str(), "README.md", "Readme.md", "readme.md"),
        spelled_request(prefix.as_str(), "CHANGELOG.md", "Changelog.md", "changelog.md"),
    ]
}

/// ASCII lowercase of one character.
pub open spec fn ascii_lower(c: char) -> char {
    if 'A' <= c <= 'Z' {
        (((c as u32) + 32) as u8) as char
    } else {
        c
    }
}

/// Equality up to ASCII case, as `str::eq_ignore_ascii_case` decides it.
pub open spec fn eq_ignore_ascii_case(a: Seq<char>, b: Seq<char>) -> bool {
    a.len() == b.len() && forall|i: int| 0 <= i < a.len() ==> ascii_lower(#[trigger] a[i]) == ascii_lower(b[i])
}

/// ASCII lowercase of one character; other characters are unchanged.
pub fn lower_ascii(c: char) -> (r: char)
    ensures
        r == ascii_lower(c),
{
    if 'A' <= c && c <= 'Z' {
        let b: u8 = (c as u32) as u8;
        (b + 32) as char
    } else {
        c
    }
}

/// Compares two texts ignoring ASCII case.
pub fn same_ignoring_ascii_case(a: &str, b: &str) -> (r: bool)
    ensures
        r == eq_ignore_ascii_case(a@, b@),
{
    let x = chars_of(a);
    let y = chars_of(b);
    if x.len() != y.len() {
        return false;
    }
    let mut i: usize = 0;
    while i < x.len()
        invariant
            x@ == a@,
            y@ == b@,
            x.len() == y.len(),
            i <= x.len(),
            forall|j: int| 0 <= j < i ==> ascii_lower(#[trigger] x@[j]) == ascii_lower(y@[j]),
        decreases x.len() - i,
    {
        if lower_ascii(x[i]) != lower_ascii(y[i]) {
            return false;
        }
        i = i + 1;
    }
    true
}

/// Whether a request is for the README, whose place the rendered documentation page takes.
pub fn is_readme_request(path: &str) -> (r: bool)
    ensures
        r == eq_ignore_ascii_case(path@, "README.md"@),
{
    same_ignoring_ascii_case(path, "README.md")
}

} // verus!
verus! {

/// The per-pass counters of a sync.
#[derive(Debug, Clone, Copy, PartialEq, Eq, Structural)]
pub struct SyncStats {
    pub synced: usize,
    pub cached: usize,
    pub skipped: usize,
    pub errors: usize,
    pub auth_errors: usize,
    pub rate_limit_errors: usize,
    pub network_errors: usize,
    pub not_found_errors: usize,
    pub other_errors: usize,
}

impl SyncStats {
    /// All counters at zero.
    pub fn new() -> (r: SyncStats)
        ensures
            r.balanced(),
            r == (SyncStats {
                synced: 0,
                cached: 0,
                skipped: 0,
                errors: 0,
                auth_errors: 0,
                rate_limit_errors: 0,
                network_errors: 0,
                not_found_errors: 0,
                other_errors: 0,
            }),
    {
        SyncStats {
            synced: 0,
            cached: 0,
            skipped: 0,
            errors: 0,
            auth_errors: 0,
            rate_limit_errors: 0,
            network_errors: 0,
            not_found_errors: 0,
            other_errors: 0,
        }
    }

    /// Well-formedness: the error total equals the sum of the per-kind counters.
    pub open spec fn balanced(self) -> bool {
        self.errors == self.auth_errors + self.rate_limit_errors + self.network_errors
            + self.not_found_errors + self.other_errors
    }

    /// Counts one failed package under its kind.
    pub fn record_error(&mut self, kind: SyncErrorKind)
        requires
            old(self).errors < usize::MAX,
            old(self).balanced(),
        ensures
            final(self).balanced(),
            *final(self) == (match kind {
                SyncErrorKind::Auth => SyncStats {
                    errors: (old(self).errors + 1) as usize,
                    auth_errors: (old(self).auth_errors + 1) as usize,
                    ..*old(self)
                },
                SyncErrorKind::RateLimit => SyncStats {
                    errors: (old(self).errors + 1) as usize,
                    rate_limit_errors: (old(self).rate_limit_errors + 1) as usize,
                    ..*old(self)
                },
                SyncErrorKind::Network => SyncStats {
                    errors: (old(self).errors + 1) as usize,
                    network_errors: (old(self).network_errors + 1) as usize,
                    ..*old(self)
                },
                SyncErrorKind::NotFound => SyncStats {
                    errors: (old(self).errors + 1) as usize,
                    not_found_errors: (old(self).not_found_errors + 1) as usize,
                    ..*old(self)
                },
                SyncErrorKind::Other => SyncStats {
                    errors: (old(self).errors + 1) as usize,
                    other_errors: (old(self).other_errors + 1) as usize,
                    ..*old(self)
                },
            }),
    {
        self.errors = self.errors + 1;
        match kind {
            SyncErrorKind::Auth => self.auth_errors = self.auth_errors + 1,
            SyncErrorKind::RateLimit => self.rate_limit_errors = self.rate_limit_errors + 1,
            SyncErrorKind::Network => self.network_errors = self.network_errors + 1,
            SyncErrorKind::NotFound => self.not_found_errors = self.not_found_errors + 1,
            SyncErrorKind::Other => self.other_errors = self.other_errors + 1,
        }
    }
}

impl SyncStats {
    /// Counts one package's outcome: synced, cached, skipped, or an error under its kind.
    pub fn record_outcome(&mut self, outcome: &SyncOutcome)
        requires
            old(self).balanced(),
            old(self).synced < usize::MAX,
            old(self).cached < usize::MAX,
            old(self).skipped < usize::MAX,
            old(self).errors < usize::MAX,
        ensures
            final(self).balanced(),
            match *outcome {
                SyncOutcome::Synced(_) => *final(self) == SyncStats { synced: (old(self).synced + 1) as usize, ..*old(self) },
                SyncOutcome::Cached(_) => *final(self) == SyncStats { cached: (old(self).cached + 1) as usize, ..*old(self) },
                SyncOutcome::Skipped => *final(self) == SyncStats { skipped: (old(self).skipped + 1) as usize, ..*old(self) },
                SyncOutcome::Error(k) => final(self).errors == old(self).errors + 1 && final(self).synced == old(self).synced
                    && final(self).cached == old(self).cached && final(self).skipped == old(self).skipped
                    && (k == SyncErrorKind::Auth ==> final(self).auth_errors == old(self).auth_errors + 1)
                    && (k == SyncErrorKind::RateLimit ==> final(self).rate_limit_errors == old(self).rate_limit_errors + 1)
                    && (k == SyncErrorKind::Network ==> final(self).network_errors == old(self).network_errors + 1)
                    && (k == SyncErrorKind::NotFound ==> final(self).not_found_errors == old(self).not_found_errors + 1)
                    && (k == SyncErrorKind::Other ==> final(self).other_errors == old(self).other_errors + 1),
            },
    {
        match outcome {
            SyncOutcome::Synced(_) => self.synced = self.synced + 1,
            SyncOutcome::Cached(_) => self.cached = self.cached + 1,
            SyncOutcome::Skipped => self.skipped = self.skipped + 1,
            SyncOutcome::Error(k) => self.record_error(*k),
        }
    }
}

/// Command-line spelling of a sync mode.
#[derive(Debug, Clone, Copy, PartialEq, Eq, Structural)]
pub enum SyncModeArg {
    Lockfile,
    LatestDocs,
    Hybrid,
}

impl SyncModeArg {
    /// The sync mode the argument names.
    pub fn to_sync_mode(self) -> (r: SyncMode)
        ensures
            r == mode_of_arg(self),
    {
        match self {
            SyncModeArg::Lockfile => SyncMode::Lockfile,
            SyncModeArg::LatestDocs => SyncMode::LatestDocs,
            SyncModeArg::Hybrid => SyncMode::Hybrid,
        }
    }
}

pub open spec fn mode_of_arg(a: SyncModeArg) -> SyncMode {
    match a {
        SyncModeArg::Lockfile => SyncMode::Lockfile,
        SyncModeArg::LatestDocs => SyncMode::LatestDocs,
        SyncModeArg::Hybrid => SyncMode::Hybrid,
    }
}

/// Output format of status reports.
#[derive(Debug, Clone, Copy, PartialEq, Eq, Structural)]
pub enum OutputFormat {
    Table,
    Json,
}

/// The mode a pass runs in: the command-line override, else the configured one.
pub fn resolve_sync_mode(mode_override: Option<SyncModeArg>, configured_mode: SyncMode) -> (r: SyncMode)
    ensures
        r == match mode_override {
            Some(a) => mode_of_arg(a),
            None => configured_mode,
        },
{
    match mode_override {
        Some(a) => a.to_sync_mode(),
        None => configured_mode,
    }
}

/// Whether a failing check prints plain problem lines: only for table output outside CI.
pub fn should_emit_plain_check_errors(format: OutputFormat, github_actions: bool) -> (r: bool)
    ensures
        r == (!github_actions && format == OutputFormat::Table),
{
    !github_actions && format == OutputFormat::Table
}

/// The requests without those for the README.
pub open spec fn without_readme(rs: Seq<FileRequest>) -> Seq<FileRequest>
    decreases rs.len(),
{
    if rs.len() == 0 {
        Seq::empty()
    } else if eq_ignore_ascii_case(rs.last().original_path@, "README.md"@) {
        without_readme(rs.drop_last())
    } else {
        without_readme(rs.drop_last()).push(rs.last())
    }
}

/// Two requests for the same path, candidates and requiredness.
pub open spec fn same_request(a: FileRequest, b: FileRequest) -> bool {
    a.original_path == b.original_path && a.candidates@ == b.candidates@ && a.required == b.required
}

/// Two request lists that agree request by request.
pub open spec fn same_requests(a: Seq<FileRequest>, b: Seq<FileRequest>) -> bool {
    a.len() == b.len() && forall|i: int| 0 <= i < a.len() ==> same_request(#[trigger] a[i], b[i])
}

/// Copies a request.
pub fn copy_request(r: &FileRequest) -> (c: FileRequest)
    ensures
        same_request(c, *r),
{
    FileRequest {
        original_path: r.original_path.clone(),
        candidates: clone_strings(&r.candidates),
        required: r.required,
    }
}

/// Drops the README requests, whose content the documentation page supplies instead.
pub fn drop_readme_requests(requests: Vec<FileRequest>) -> (r: Vec<FileRequest>)
    ensures
        same_requests(r@, without_readme(requests@)),
{
    let mut out: Vec<FileRequest> = Vec::new();
    let mut i: usize = 0;
    while i < requests.len()
        invariant
            i <= requests.len(),
            same_requests(out@, without_readme(requests@.take(i as int))),
        decreases requests.len() - i,
    {
        assert(requests@.take(i + 1).drop_last() =~= requests@.take(i as int));
        if !is_readme_request(requests[i].original_path.as_str()) {
            out.push(copy_request(&requests[i]));
        }
        i = i + 1;
    }
    assert(requests@.take(requests.len() as int) =~= requests@);
    out
}

} // verus!
