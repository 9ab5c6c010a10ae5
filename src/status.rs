//! Status reconciliation: compares the lock file (or the newest published version) with the
//! cache metadata and classifies every configured package.
use vstd::prelude::*;
use crate::config::{names_ascending, Config};
use crate::freshness::{day_start_of, fresh_at, is_fresh_at, now_timestamp, parse_day_start};
use crate::storage::{dir_name_of, CrateMeta, MetaRead};
use crate::strings::{copy_str, decimal, push_decimal, push_str, same_text};
use crate::versions::{chars_gt, is_version_better, rsplit_at_sign, split_crate_version, version_better, VersionMap};

verus! {

/// The state of a package's cached documentation.
#[derive(Debug, Clone, Copy, PartialEq, Eq, Structural)]
pub enum DocsStatus {
    Synced,
    SyncedFallback,
    Outdated,
    Missing,
    Corrupted,
}

pub open spec fn status_name(s: DocsStatus) -> Seq<char> {
    match s {
        DocsStatus::Synced => "Synced"@,
        DocsStatus::SyncedFallback => "SyncedFallback"@,
        DocsStatus::Outdated => "Outdated"@,
        DocsStatus::Missing => "Missing"@,
        DocsStatus::Corrupted => "Corrupted"@,
    }
}

pub open spec fn problem(s: DocsStatus) -> bool {
    s == DocsStatus::Outdated || s == DocsStatus::Missing || s == DocsStatus::Corrupted
}

impl DocsStatus {
    /// The state's name as reports print it.
    pub fn as_str(self) -> (r: &'static str)
        ensures
            r@ == status_name(self),
    {
        match self {
            DocsStatus::Synced => "Synced",
            DocsStatus::SyncedFallback => "SyncedFallback",
            DocsStatus::Outdated => "Outdated",
            DocsStatus::Missing => "Missing",
            DocsStatus::Corrupted => "Corrupted",
        }
    }

    /// Outdated, missing and corrupted documentation need a sync.
    pub fn is_problem(self) -> (r: bool)
        ensures
            r == problem(self),
    {
        self == DocsStatus::Outdated || self == DocsStatus::Missing || self == DocsStatus::Corrupted
    }
}

/// Which reconciliation produced a status.
#[derive(Debug, Clone, Copy, PartialEq, Eq, Structural)]
pub enum StatusMode {
    Lockfile,
    LatestDocs,
}

pub open spec fn status_mode_name(m: StatusMode) -> Seq<char> {
    match m {
        StatusMode::Lockfile => "lockfile"@,
        StatusMode::LatestDocs => "latest_docs"@,
    }
}

impl StatusMode {
    /// The mode's name as reports print it.
    pub fn as_str(self) -> (r: &'static str)
        ensures
            r@ == status_mode_name(self),
    {
        match self {
            StatusMode::Lockfile => "lockfile",
            StatusMode::LatestDocs => "latest_docs",
        }
    }
}

/// The classification of one package.
#[derive(Debug, Clone, PartialEq, Eq)]
pub struct CrateStatus {
    pub crate_name: String,
    pub lock_version: Option<String>,
    pub docs_version: Option<String>,
    pub status: DocsStatus,
    pub reason: String,
    pub reason_code: String,
    pub mode: String,
    pub source_kind: Option<String>,
}

pub open spec fn opt_view(o: Option<String>) -> Option<Seq<char>> {
    match o {
        Some(s) => Some(s@),
        None => None,
    }
}

/// A status with the given parts, its fields compared by text.
pub open spec fn status_is(
    r: CrateStatus,
    name: Seq<char>,
    lock: Option<Seq<char>>,
    docs: Option<Seq<char>>,
    status: DocsStatus,
    reason: Seq<char>,
    code: Seq<char>,
    mode: StatusMode,
    source: Option<Seq<char>>,
) -> bool {
    &&& r.crate_name@ == name
    &&& opt_view(r.lock_version) == lock
    &&& opt_view(r.docs_version) == docs
    &&& r.status == status
    &&& r.reason@ == reason
    &&& r.reason_code@ == code
    &&& r.mode@ == status_mode_name(mode)
    &&& opt_view(r.source_kind) == source
}

fn copy_opt_str(o: Option<&str>) -> (r: Option<String>)
    ensures
        opt_view(r) == match o {
            Some(s) => Some(s@),
            None => None,
        },
{
    match o {
        Some(s) => Some(copy_str(s)),
        None => None,
    }
}

/// Builds a status record.
pub fn crate_status(
    crate_name: &str,
    lock_version: Option<&str>,
    docs_version: Option<&str>,
    status: DocsStatus,
    reason: String,
    reason_code: &str,
    mode: StatusMode,
    source_kind: Option<&str>,
) -> (r: CrateStatus)
    ensures
        status_is(
            r,
            crate_name@,
            match lock_version {
                Some(s) => Some(s@),
                None => None,
            },
            match docs_version {
                Some(s) => Some(s@),
                None => None,
            },
            status,
            reason@,
            reason_code@,
            mode,
            match source_kind {
                Some(s) => Some(s@),
                None => None,
            },
        ),
{
    CrateStatus {
        crate_name: copy_str(crate_name),
        lock_version: copy_opt_str(lock_version),
        docs_version: copy_opt_str(docs_version),
        status,
        reason,
        reason_code: copy_str(reason_code),
        mode: copy_str(mode.as_str()),
        source_kind: copy_opt_str(source_kind),
    }
}

/// The reason given when metadata declares a newer layout than this library reads.
pub open spec fn schema_reason(v: nat) -> Seq<char> {
    ".aifd-meta.toml schema version "@ + decimal(v) + " is newer than supported version 1"@
}

/// Lock-file classification of one package. `lock` is its locked version; `expected` is the
/// metadata read of the `{name}@{lock}` cache directory when that directory exists; `best` is
/// the best version among the package's cache directories.
pub open spec fn lockfile_status(
    r: CrateStatus,
    name: Seq<char>,
    lock: Option<Seq<char>>,
    expected: Option<MetaRead>,
    best: Option<Seq<char>>,
) -> bool {
    let lm = StatusMode::Lockfile;
    match lock {
        None => status_is(r, name, None, None, DocsStatus::Missing, "crate missing in Cargo.lock"@,
            "lockfile_missing_crate"@, lm, None),
        Some(lv) => match expected {
            None => match best {
                Some(e) => status_is(r, name, Some(lv), Some(e), DocsStatus::Outdated,
                    "cached docs version "@ + e + " differs from lock version "@ + lv,
                    "lockfile_version_mismatch"@, lm, None),
                None => status_is(r, name, Some(lv), None, DocsStatus::Missing,
                    "no synced docs found for this crate"@, "lockfile_missing_artifacts"@, lm, None),
            },
            Some(MetaRead::Unreadable) => status_is(r, name, Some(lv), Some(lv), DocsStatus::Corrupted,
                ".aifd-meta.toml is missing or unreadable"@, "meta_unreadable"@, lm, None),
            Some(MetaRead::Invalid) => status_is(r, name, Some(lv), Some(lv), DocsStatus::Corrupted,
                ".aifd-meta.toml has invalid TOML"@, "meta_invalid_toml"@, lm, None),
            Some(MetaRead::Parsed(m)) => if m.schema_version > 1 {
                status_is(r, name, Some(lv), Some(lv), DocsStatus::Corrupted,
                    schema_reason(m.schema_version as nat), "meta_schema_unsupported"@, lm,
                    opt_view(m.source_kind))
            } else if m.version@ != lv {
                status_is(r, name, Some(lv), Some(m.version@), DocsStatus::Outdated,
                    "metadata version "@ + m.version@ + " differs from lock version "@ + lv,
                    "meta_version_mismatch"@, lm, opt_view(m.source_kind))
            } else if m.is_fallback {
                status_is(r, name, Some(lv), Some(lv), DocsStatus::SyncedFallback,
                    "synced from fallback branch (no exact tag found)"@, "lockfile_fallback_branch"@,
                    lm, Some("github_fallback"@))
            } else {
                status_is(r, name, Some(lv), Some(lv), DocsStatus::Synced, "up to date"@,
                    "lockfile_ok"@, lm, Some("github"@))
            },
        },
    }
}

/// Classifies one package against the lock file.
pub fn classify_lockfile(
    crate_name: &str,
    lock_version: Option<&str>,
    expected: Option<&MetaRead>,
    best: Option<&str>,
) -> (r: CrateStatus)
    ensures
        r.crate_name@ == crate_name@,
        lockfile_status(
            r,
            crate_name@,
            match lock_version {
                Some(s) => Some(s@),
                None => None,
            },
            match expected {
                Some(m) => Some(*m),
                None => None,
            },
            match best {
                Some(s) => Some(s@),
                None => None,
            },
        ),
{
    let lm = StatusMode::Lockfile;
    let lv = match lock_version {
        None => {
            return crate_status(crate_name, None, None, DocsStatus::Missing,
                copy_str("crate missing in Cargo.lock"), "lockfile_missing_crate", lm, None);
        },
        Some(lv) => lv,
    };
    match expected {
        None => match best {
            Some(e) => {
                let mut reason = copy_str("cached docs version ");
                push_str(&mut reason, e);
                push_str(&mut reason, " differs from lock version ");
                push_str(&mut reason, lv);
                crate_status(crate_name, Some(lv), Some(e), DocsStatus::Outdated, reason,
                    "lockfile_version_mismatch", lm, None)
            },
            None => crate_status(crate_name, Some(lv), None, DocsStatus::Missing,
                copy_str("no synced docs found for this crate"), "lockfile_missing_artifacts", lm,
                None),
        },
        Some(MetaRead::Unreadable) => crate_status(crate_name, Some(lv), Some(lv),
            DocsStatus::Corrupted, copy_str(".aifd-meta.toml is missing or unreadable"),
            "meta_unreadable", lm, None),
        Some(MetaRead::Invalid) => crate_status(crate_name, Some(lv), Some(lv),
            DocsStatus::Corrupted, copy_str(".aifd-meta.toml has invalid TOML"),
            "meta_invalid_toml", lm, None),
        Some(MetaRead::Parsed(m)) => {
            let source = match &m.source_kind {
                Some(s) => Some(s.as_str()),
                None => None,
            };
            if m.schema_version > 1 {
                let mut reason = copy_str(".aifd-meta.toml schema version ");
                push_decimal(&mut reason, m.schema_version as usize);
                push_str(&mut reason, " is newer than supported version 1");
                crate_status(crate_name, Some(lv), Some(lv), DocsStatus::Corrupted, reason,
                    "meta_schema_unsupported", lm, source)
            } else if !same_text(m.version.as_str(), lv) {
                let mut reason = copy_str("metadata version ");
                push_str(&mut reason, m.version.as_str());
                push_str(&mut reason, " differs from lock version ");
                push_str(&mut reason, lv);
                crate_status(crate_name, Some(lv), Some(m.version.as_str()), DocsStatus::Outdated,
                    reason, "meta_version_mismatch", lm, source)
            } else if m.is_fallback {
                crate_status(crate_name, Some(lv), Some(lv), DocsStatus::SyncedFallback,
                    copy_str("synced from fallback branch (no exact tag found)"),
                    "lockfile_fallback_branch", lm, Some("github_fallback"))
            } else {
                crate_status(crate_name, Some(lv), Some(lv), DocsStatus::Synced, copy_str(
                    "up to date"), "lockfile_ok", lm, Some("github"))
            }
        },
    }
}

/// A package in the lock file at version X is Missing without a cache directory and without
/// any other cached version; Corrupted with the directory but unreadable metadata; Outdated
/// when the metadata records another version; SyncedFallback when it records X from a
/// fallback branch; Synced otherwise.
pub proof fn status_classification_law(
    r: CrateStatus,
    name: Seq<char>,
    x: Seq<char>,
    expected: Option<MetaRead>,
)
    requires
        lockfile_status(r, name, Some(x), expected, None),
    ensures
        expected is None ==> r.status == DocsStatus::Missing,
        expected == Some(MetaRead::Unreadable) ==> r.status == DocsStatus::Corrupted,
        expected matches Some(MetaRead::Parsed(m)) ==> (m.schema_version <= 1 && m.version@ != x
            ==> r.status == DocsStatus::Outdated),
        expected matches Some(MetaRead::Parsed(m)) ==> (m.schema_version <= 1 && m.version@ == x
            && m.is_fallback ==> r.status == DocsStatus::SyncedFallback),
        expected matches Some(MetaRead::Parsed(m)) ==> (m.schema_version <= 1 && m.version@ == x
            && !m.is_fallback ==> r.status == DocsStatus::Synced),
{
}

} // verus!
verus! {

/// One directory of the cache as the caller found it: its name and what reading its
/// metadata file gave.
#[derive(Debug, Clone)]
pub struct CacheDir {
    pub name: String,
    pub meta: MetaRead,
}

/// The version part of a cache directory name (after its last `@`).
pub open spec fn dir_version(d: CacheDir) -> Seq<char> {
    (rsplit_at_sign(d.name@)->0).1
}

/// Index of the best-versioned cache directory of package `name`: directories are taken in
/// order and one replaces the best so far when its version ranks above.
pub open spec fn best_index(dirs: Seq<CacheDir>, name: Seq<char>) -> Option<int>
    decreases dirs.len(),
{
    if dirs.len() == 0 {
        None
    } else {
        let prev = best_index(dirs.drop_last(), name);
        match rsplit_at_sign(dirs.last().name@) {
            Some((n, v)) => if n == name && version_better(
                v,
                match prev {
                    None => None,
                    Some(p) => Some(dir_version(dirs[p])),
                },
            ) {
                Some(dirs.len() - 1)
            } else {
                prev
            },
            None => prev,
        }
    }
}

proof fn lemma_best_index(dirs: Seq<CacheDir>, name: Seq<char>)
    ensures
        best_index(dirs, name) is Some ==> 0 <= best_index(dirs, name)->0 < dirs.len(),
        best_index(dirs, name) is Some ==> rsplit_at_sign(dirs[best_index(dirs, name)->0].name@) is Some,
        best_index(dirs, name) is Some ==> (rsplit_at_sign(dirs[best_index(dirs, name)->0].name@)->0).0 == name,
    decreases dirs.len(),
{
    if dirs.len() > 0 {
        lemma_best_index(dirs.drop_last(), name);
        if best_index(dirs.drop_last(), name) is Some {
            let p = best_index(dirs.drop_last(), name)->0;
            assert(dirs.drop_last()[p] == dirs[p]);
        }
    }
}

/// Finds the best-versioned cache directory of a package.
pub fn best_dir(listing: &Vec<CacheDir>, name: &str) -> (r: Option<usize>)
    ensures
        r is Some <==> best_index(listing@, name@) is Some,
        r is Some ==> r->0 as int == best_index(listing@, name@)->0,
{
    let mut best: Option<usize> = None;
    let mut i: usize = 0;
    while i < listing.len()
        invariant
            i <= listing.len(),
            best is Some <==> best_index(listing@.take(i as int), name@) is Some,
            best is Some ==> best->0 as int == best_index(listing@.take(i as int), name@)->0,
        decreases listing.len() - i,
    {
        let ghost pre = listing@.take(i as int);
        proof {
            assert(listing@.take(i + 1).drop_last() =~= pre);
            lemma_best_index(pre, name@);
            if best_index(pre, name@) is Some {
                let p = best_index(pre, name@)->0;
                assert(listing@.take(i + 1)[p] == listing@[p]);
                assert(pre[p] == listing@[p]);
            }
        }
        if let Some((n, v)) = split_crate_version(listing[i].name.as_str()) {
            if same_text(n, name) {
                let better = match best {
                    None => true,
                    Some(p) => {
                        let (_, bv) = split_crate_version(listing[p].name.as_str()).unwrap();
                        is_version_better(v, Some(bv))
                    },
                };
                if better {
                    best = Some(i);
                }
            }
        }
        i = i + 1;
    }
    assert(listing@.take(listing.len() as int) =~= listing@);
    best
}

/// Index of the first cache directory with that exact name.
pub open spec fn first_named(dirs: Seq<CacheDir>, n: Seq<char>) -> Option<int> {
    if exists|j: int| 0 <= j < dirs.len() && (#[trigger] dirs[j]).name@ == n {
        Some(choose|j: int| 0 <= j < dirs.len() && (#[trigger] dirs[j]).name@ == n && forall|k: int| 0 <= k < j ==> dirs[k].name@ != n)
    } else {
        None
    }
}

fn find_dir(listing: &Vec<CacheDir>, dir_name: &str) -> (r: Option<usize>)
    ensures
        r matches Some(j) ==> j < listing@.len(),
        r is Some <==> first_named(listing@, dir_name@) is Some,
        r is Some ==> r->0 as int == first_named(listing@, dir_name@)->0,
{
    let mut i: usize = 0;
    while i < listing.len()
        invariant
            i <= listing.len(),
            forall|k: int| 0 <= k < i ==> (#[trigger] listing@[k]).name@ != dir_name@,
        decreases listing.len() - i,
    {
        if same_text(listing[i].name.as_str(), dir_name) {
            let ghost j = choose|j: int| 0 <= j < listing@.len() && (#[trigger] listing@[j]).name@ == dir_name@ && forall|k: int| 0 <= k < j ==> listing@[k].name@ != dir_name@;
            proof {
                assert(listing@[i as int].name@ == dir_name@);
                if j < i {
                    assert(listing@[j].name@ != dir_name@);
                }
                if j > i {
                    assert(listing@[i as int].name@ != dir_name@);
                }
            }
            return Some(i);
        }
        i = i + 1;
    }
    None
}

/// The locked version of `n`, if any.
pub open spec fn lookup(m: Map<Seq<char>, Seq<char>>, n: Seq<char>) -> Option<Seq<char>> {
    if m.contains_key(n) {
        Some(m[n])
    } else {
        None
    }
}

/// The lock-file classification of the package `name` against a cache listing.
pub open spec fn lockfile_status_in(r: CrateStatus, name: Seq<char>, lock: Map<Seq<char>, Seq<char>>, dirs: Seq<CacheDir>) -> bool {
    let lv = lookup(lock, name);
    let expected = match lv {
        Some(v) => match first_named(dirs, dir_name_of(name, v)) {
            Some(j) => Some(dirs[j].meta),
            None => None,
        },
        None => None,
    };
    let best = match best_index(dirs, name) {
        Some(p) => Some(dir_version(dirs[p])),
        None => None,
    };
    lockfile_status(r, name, lv, expected, best)
}

/// The status of every configured package, by name in ascending order, in lock-file mode.
pub fn collect_status(config: &Config, lock_versions: &VersionMap, listing: &Vec<CacheDir>) -> (r: Vec<CrateStatus>)
    requires
        names_ascending(config.crates@),
    ensures
        r@.len() == config.crates@.len(),
        forall|i: int, j: int| 0 <= i < j < r@.len() ==> chars_gt(#[trigger] r@[j].crate_name@, #[trigger] r@[i].crate_name@),
        forall|i: int|
            0 <= i < r@.len() ==> lockfile_status_in(#[trigger] r@[i], config.crates@[i].0@, lock_versions@, listing@),
{
    let mut out: Vec<CrateStatus> = Vec::new();
    let mut i: usize = 0;
    while i < config.crates.len()
        invariant
            i <= config.crates.len(),
            out@.len() == i,
            forall|j: int|
                0 <= j < i ==> lockfile_status_in(#[trigger] out@[j], config.crates@[j].0@, lock_versions@, listing@),
            forall|j: int| 0 <= j < i ==> (#[trigger] out@[j]).crate_name@ == config.crates@[j].0@,
        decreases config.crates.len() - i,
    {
        let name = config.crates[i].0.as_str();
        let lock = lock_versions.get(name);
        let expected: Option<&MetaRead> = match lock {
            Some(lv) => {
                let dn = crate::storage::crate_dir_name(name, lv.as_str());
                match find_dir(listing, dn.as_str()) {
                    Some(j) => Some(&listing[j].meta),
                    None => None,
                }
            },
            None => None,
        };
        let best: Option<&str> = match best_dir(listing, name) {
            Some(p) => {
                proof {
                    lemma_best_index(listing@, name@);
                    assert(best_index(listing@, name@) == Some(p as int));
                    assert(rsplit_at_sign(listing@[p as int].name@) is Some);
                }
                let (_, v) = split_crate_version(listing[p].name.as_str()).unwrap();
                Some(v)
            },
            None => None,
        };
        let lv: Option<&str> = match lock {
            Some(v) => Some(v.as_str()),
            None => None,
        };
        let st = classify_lockfile(name, lv, expected, best);
        proof {
            let e = match lock_versions@.contains_key(name@) {
                true => match first_named(listing@, dir_name_of(name@, lock_versions@[name@])) {
                    Some(j) => Some(listing@[j].meta),
                    None => None,
                },
                false => None,
            };
            assert(match expected { Some(m) => Some(*m), None => None } == e);
        }
        out.push(st);
        i = i + 1;
    }
    assert forall|a: int, b: int| 0 <= a < b < out@.len() implies chars_gt(#[trigger] out@[b].crate_name@, #[trigger] out@[a].crate_name@) by {
        assert(out@[a].crate_name@ == config.crates@[a].0@);
        assert(out@[b].crate_name@ == config.crates@[b].0@);
    }
    out
}

} // verus!
verus! {

/// Latest-docs classification of one package from its best cache directory (its version and
/// metadata read), and from the newest published version when it was looked up.
pub open spec fn latest_status(r: CrateStatus, name: Seq<char>, cached: Option<(Seq<char>, MetaRead)>, latest: Option<Seq<char>>) -> bool {
    let lm = StatusMode::LatestDocs;
    match cached {
        None => status_is(r, name, None, None, DocsStatus::Missing, "no synced docs found for this crate"@,
            "latest_missing_artifacts"@, lm, None),
        Some((dv, MetaRead::Unreadable)) => status_is(r, name, None, Some(dv), DocsStatus::Corrupted,
            ".aifd-meta.toml is missing or unreadable"@, "meta_unreadable"@, lm, None),
        Some((dv, MetaRead::Invalid)) => status_is(r, name, None, Some(dv), DocsStatus::Corrupted,
            ".aifd-meta.toml has invalid TOML"@, "meta_invalid_toml"@, lm, None),
        Some((dv, MetaRead::Parsed(m))) => if m.schema_version > 1 {
            status_is(r, name, None, Some(dv), DocsStatus::Corrupted, schema_reason(m.schema_version as nat),
                "meta_schema_unsupported"@, lm, opt_view(m.source_kind))
        } else {
            let sk = match m.source_kind {
                Some(s) => s@,
                None => "docsrs"@,
            };
            let fb = m.is_fallback || sk == "github_fallback"@;
            if latest matches Some(l) && l != dv {
                status_is(r, name, None, Some(dv), DocsStatus::Outdated,
                    "latest version "@ + latest->0 + " is newer than cached "@ + dv,
                    "latest_version_mismatch"@, lm, Some(sk))
            } else if fb {
                status_is(r, name, None, Some(dv), DocsStatus::SyncedFallback,
                    "latest-docs synced via GitHub fallback"@, "latest_ok_fallback"@, lm, Some(sk))
            } else {
                status_is(r, name, None, Some(dv), DocsStatus::Synced, "latest-docs up to date"@,
                    "latest_ok_docsrs"@, lm, Some(sk))
            }
        },
    }
}

/// Classifies one package in latest-docs mode.
pub fn classify_latest(crate_name: &str, cached: Option<(&str, &MetaRead)>, latest: Option<&str>) -> (r: CrateStatus)
    ensures
        r.crate_name@ == crate_name@,
        latest_status(
            r,
            crate_name@,
            match cached {
                Some((v, m)) => Some((v@, *m)),
                None => None,
            },
            match latest {
                Some(s) => Some(s@),
                None => None,
            },
        ),
{
    let lm = StatusMode::LatestDocs;
    let (dv, meta) = match cached {
        None => {
            return crate_status(crate_name, None, None, DocsStatus::Missing, copy_str(
                "no synced docs found for this crate"), "latest_missing_artifacts", lm, None);
        },
        Some(c) => c,
    };
    match meta {
        MetaRead::Unreadable => crate_status(crate_name, None, Some(dv), DocsStatus::Corrupted,
            copy_str(".aifd-meta.toml is missing or unreadable"), "meta_unreadable", lm, None),
        MetaRead::Invalid => crate_status(crate_name, None, Some(dv), DocsStatus::Corrupted,
            copy_str(".aifd-meta.toml has invalid TOML"), "meta_invalid_toml", lm, None),
        MetaRead::Parsed(m) => {
            if m.schema_version > 1 {
                let source = match &m.source_kind {
                    Some(s) => Some(s.as_str()),
                    None => None,
                };
                let mut reason = copy_str(".aifd-meta.toml schema version ");
                push_decimal(&mut reason, m.schema_version as usize);
                push_str(&mut reason, " is newer than supported version 1");
                return crate_status(crate_name, None, Some(dv), DocsStatus::Corrupted, reason,
                    "meta_schema_unsupported", lm, source);
            }
            let sk: &str = match &m.source_kind {
                Some(s) => s.as_str(),
                None => "docsrs",
            };
            let fb = m.is_fallback || same_text(sk, "github_fallback");
            match latest {
                Some(l) => {
                    if !same_text(l, dv) {
                        let mut reason = copy_str("latest version ");
                        push_str(&mut reason, l);
                        push_str(&mut reason, " is newer than cached ");
                        push_str(&mut reason, dv);
                        return crate_status(crate_name, None, Some(dv), DocsStatus::Outdated,
                            reason, "latest_version_mismatch", lm, Some(sk));
                    }
                },
                None => {},
            }
            if fb {
                crate_status(crate_name, None, Some(dv), DocsStatus::SyncedFallback, copy_str(
                    "latest-docs synced via GitHub fallback"), "latest_ok_fallback", lm, Some(sk))
            } else {
                crate_status(crate_name, None, Some(dv), DocsStatus::Synced, copy_str(
                    "latest-docs up to date"), "latest_ok_docsrs", lm, Some(sk))
            }
        },
    }
}

/// Whether a cache entry's metadata is readable and current.
pub open spec fn check_allowed(meta: MetaRead) -> bool {
    meta matches MetaRead::Parsed(m) && m.schema_version <= 1
}

/// A readable, current entry with no readable record of an earlier lookup: a lookup is owed
/// whatever the time.
pub open spec fn check_owed(meta: MetaRead) -> bool {
    meta matches MetaRead::Parsed(m) && m.schema_version <= 1 && (m.upstream_checked_at is None
        || day_start_of(m.upstream_checked_at->0@) is None)
}

/// Whether the newest published version is to be looked up at time `now`: the entry is
/// readable and current and its record of the last lookup is absent or stale after
/// `ttl` hours.
pub open spec fn check_due_at(meta: MetaRead, now: i64, ttl: nat) -> bool {
    meta matches MetaRead::Parsed(m) && m.schema_version <= 1 && match m.upstream_checked_at {
        None => true,
        Some(c) => !fresh_at(day_start_of(c@), now, ttl),
    }
}

/// Whether a lookup of the newest published version is due at time `now` (seconds since the
/// epoch).
pub fn upstream_check_due_at(meta: &MetaRead, now: i64, latest_ttl_hours: usize) -> (r: bool)
    ensures
        r == check_due_at(*meta, now, latest_ttl_hours as nat),
{
    match meta {
        MetaRead::Parsed(m) => {
            if m.schema_version > 1 {
                return false;
            }
            match &m.upstream_checked_at {
                Some(c) => !is_fresh_at(parse_day_start(c.as_str()), now, latest_ttl_hours),
                None => true,
            }
        },
        _ => false,
    }
}

/// Whether the newest published version should be looked up for a cache entry now.
pub fn upstream_check_due(meta: &MetaRead, latest_ttl_hours: usize) -> (r: bool)
    ensures
        r ==> check_allowed(*meta),
        check_owed(*meta) ==> r,
{
    upstream_check_due_at(meta, now_timestamp(), latest_ttl_hours)
}

/// For each configured package, whether latest-docs status needs the newest published
/// version looked up: owed for a readable, current best entry without a readable record of
/// an earlier lookup, never for a missing, unreadable or newer-layout entry.
pub fn latest_checks_due(config: &Config, listing: &Vec<CacheDir>) -> (r: Vec<bool>)
    ensures
        r@.len() == config.crates@.len(),
        forall|i: int|
            0 <= i < r@.len() ==> (#[trigger] r@[i] ==> best_index(listing@, config.crates@[i].0@) is Some
                && check_allowed(listing@[best_index(listing@, config.crates@[i].0@)->0].meta)),
        forall|i: int|
            0 <= i < r@.len() && best_index(listing@, config.crates@[i].0@) is Some && check_owed(
                listing@[best_index(listing@, config.crates@[i].0@)->0].meta,
            ) ==> #[trigger] r@[i],
{
    let mut out: Vec<bool> = Vec::new();
    let mut i: usize = 0;
    while i < config.crates.len()
        invariant
            i <= config.crates.len(),
            out@.len() == i,
            forall|j: int|
                0 <= j < i ==> (#[trigger] out@[j] ==> best_index(listing@, config.crates@[j].0@) is Some
                    && check_allowed(listing@[best_index(listing@, config.crates@[j].0@)->0].meta)),
            forall|j: int|
                0 <= j < i && best_index(listing@, config.crates@[j].0@) is Some && check_owed(
                    listing@[best_index(listing@, config.crates@[j].0@)->0].meta,
                ) ==> #[trigger] out@[j],
        decreases config.crates.len() - i,
    {
        let due = match best_dir(listing, config.crates[i].0.as_str()) {
            Some(p) => {
                proof {
                    lemma_best_index(listing@, config.crates@[i as int].0@);
                }
                upstream_check_due(&listing[p].meta, config.settings.latest_ttl_hours)
            },
            None => false,
        };
        out.push(due);
        i = i + 1;
    }
    out
}

/// The latest-docs classification of package `name` against a cache listing.
pub open spec fn latest_status_in(r: CrateStatus, name: Seq<char>, dirs: Seq<CacheDir>, latest: Option<Seq<char>>) -> bool {
    latest_status(
        r,
        name,
        match best_index(dirs, name) {
            Some(p) => Some((dir_version(dirs[p]), dirs[p].meta)),
            None => None,
        },
        latest,
    )
}

/// The status of every configured package, by name in ascending order, in latest-docs mode;
/// `latest[i]` is the newest published version of package `i` when it was looked up.
pub fn collect_status_latest(config: &Config, listing: &Vec<CacheDir>, latest: &Vec<Option<String>>) -> (r: Vec<CrateStatus>)
    requires
        latest@.len() == config.crates@.len(),
        names_ascending(config.crates@),
    ensures
        r@.len() == config.crates@.len(),
        forall|i: int, j: int| 0 <= i < j < r@.len() ==> chars_gt(#[trigger] r@[j].crate_name@, #[trigger] r@[i].crate_name@),
        forall|i: int|
            0 <= i < r@.len() ==> latest_status_in(#[trigger] r@[i], config.crates@[i].0@, listing@, opt_view(latest@[i])),
{
    let mut out: Vec<CrateStatus> = Vec::new();
    let mut i: usize = 0;
    while i < config.crates.len()
        invariant
            latest@.len() == config.crates@.len(),
            i <= config.crates.len(),
            out@.len() == i,
            forall|j: int|
                0 <= j < i ==> latest_status_in(#[trigger] out@[j], config.crates@[j].0@, listing@, opt_view(latest@[j])),
            forall|j: int| 0 <= j < i ==> (#[trigger] out@[j]).crate_name@ == config.crates@[j].0@,
        decreases config.crates.len() - i,
    {
        let name = config.crates[i].0.as_str();
        let cached: Option<(&str, &MetaRead)> = match best_dir(listing, name) {
            Some(p) => {
                proof {
                    lemma_best_index(listing@, name@);
                    assert(best_index(listing@, name@) == Some(p as int));
                    assert(rsplit_at_sign(listing@[p as int].name@) is Some);
                }
                let (_, v) = split_crate_version(listing[p].name.as_str()).unwrap();
                Some((v, &listing[p].meta))
            },
            None => None,
        };
        let l: Option<&str> = match &latest[i] {
            Some(s) => Some(s.as_str()),
            None => None,
        };
        out.push(classify_latest(name, cached, l));
        i = i + 1;
    }
    assert forall|a: int, b: int| 0 <= a < b < out@.len() implies chars_gt(#[trigger] out@[b].crate_name@, #[trigger] out@[a].crate_name@) by {
        assert(out@[a].crate_name@ == config.crates@[a].0@);
        assert(out@[b].crate_name@ == config.crates@[b].0@);
    }
    out
}

} // verus!
verus! {

/// Counts of a status report.
#[derive(Debug, Clone, Copy, PartialEq, Eq, Structural)]
pub struct StatusSummary {
    pub total: usize,
    pub synced: usize,
    pub missing: usize,
    pub outdated: usize,
    pub corrupted: usize,
}

/// How many statuses satisfy `p`.
pub open spec fn count_where(s: Seq<CrateStatus>, p: spec_fn(DocsStatus) -> bool) -> nat
    decreases s.len(),
{
    if s.len() == 0 {
        0
    } else {
        count_where(s.drop_last(), p) + if p(s.last().status) {
            1nat
        } else {
            0nat
        }
    }
}

proof fn lemma_count_bound(s: Seq<CrateStatus>, p: spec_fn(DocsStatus) -> bool)
    ensures
        count_where(s, p) <= s.len(),
    decreases s.len(),
{
    if s.len() > 0 {
        lemma_count_bound(s.drop_last(), p);
    }
}

pub open spec fn is_synced() -> spec_fn(DocsStatus) -> bool {
    |d: DocsStatus| d == DocsStatus::Synced || d == DocsStatus::SyncedFallback
}

pub open spec fn is_status(x: DocsStatus) -> spec_fn(DocsStatus) -> bool {
    |d: DocsStatus| d == x
}

impl StatusSummary {
    pub open spec fn problems(self) -> bool {
        self.missing > 0 || self.outdated > 0 || self.corrupted > 0
    }

    /// Whether any package is missing, outdated or corrupted.
    pub fn has_problems(&self) -> (r: bool)
        ensures
            r == self.problems(),
    {
        self.missing > 0 || self.outdated > 0 || self.corrupted > 0
    }
}

/// Counts a status report: all packages, the synced ones (fallback included) and each
/// problem state.
pub fn summarize(statuses: &Vec<CrateStatus>) -> (r: StatusSummary)
    ensures
        r.total == statuses@.len(),
        r.synced == count_where(statuses@, is_synced()),
        r.missing == count_where(statuses@, is_status(DocsStatus::Missing)),
        r.outdated == count_where(statuses@, is_status(DocsStatus::Outdated)),
        r.corrupted == count_where(statuses@, is_status(DocsStatus::Corrupted)),
{
    let mut s = StatusSummary { total: statuses.len(), synced: 0, missing: 0, outdated: 0, corrupted: 0 };
    let mut i: usize = 0;
    while i < statuses.len()
        invariant
            i <= statuses.len(),
            s.total == statuses@.len(),
            s.synced == count_where(statuses@.take(i as int), is_synced()),
            s.missing == count_where(statuses@.take(i as int), is_status(DocsStatus::Missing)),
            s.outdated == count_where(statuses@.take(i as int), is_status(DocsStatus::Outdated)),
            s.corrupted == count_where(statuses@.take(i as int), is_status(DocsStatus::Corrupted)),
        decreases statuses.len() - i,
    {
        let ghost pre = statuses@.take(i as int);
        proof {
            assert(statuses@.take(i + 1).drop_last() =~= pre);
            lemma_count_bound(pre, is_synced());
            lemma_count_bound(pre, is_status(DocsStatus::Missing));
            lemma_count_bound(pre, is_status(DocsStatus::Outdated));
            lemma_count_bound(pre, is_status(DocsStatus::Corrupted));
        }
        match statuses[i].status {
            DocsStatus::Synced | DocsStatus::SyncedFallback => s.synced = s.synced + 1,
            DocsStatus::Missing => s.missing = s.missing + 1,
            DocsStatus::Outdated => s.outdated = s.outdated + 1,
            DocsStatus::Corrupted => s.corrupted = s.corrupted + 1,
        }
        i = i + 1;
    }
    assert(statuses@.take(statuses.len() as int) =~= statuses@);
    s
}

} // verus!
verus! {

/// `n` copies of `c`.
pub open spec fn repeat(c: char, n: nat) -> Seq<char> {
    Seq::new(n, |i: int| c)
}

/// `s` padded with spaces on the right to `w` characters.
pub open spec fn padded(s: Seq<char>, w: nat) -> Seq<char> {
    if s.len() < w {
        s + repeat(' ', (w - s.len()) as nat)
    } else {
        s
    }
}

/// One table row: four left-aligned columns of 24, 16, 16 and 14 characters.
pub open spec fn table_row(a: Seq<char>, b: Seq<char>, c: Seq<char>, d: Seq<char>) -> Seq<char> {
    padded(a, 24) + " "@ + padded(b, 16) + " "@ + padded(c, 16) + " "@ + padded(d, 14) + "\n"@
}

pub open spec fn or_dash(o: Option<String>) -> Seq<char> {
    match o {
        Some(s) => s@,
        None => "-"@,
    }
}

/// A package's row and, under it, its reason.
pub open spec fn entry_lines(s: Seq<CrateStatus>) -> Seq<char>
    decreases s.len(),
{
    if s.len() == 0 {
        Seq::empty()
    } else {
        let x = s.last();
        entry_lines(s.drop_last()) + table_row(x.crate_name@, or_dash(x.lock_version), or_dash(x.docs_version), status_name(x.status))
            + "  \u{21b3} "@ + x.reason@ + "\n"@
    }
}

/// One line per package with a problem.
pub open spec fn problem_lines(s: Seq<CrateStatus>) -> Seq<char>
    decreases s.len(),
{
    if s.len() == 0 {
        Seq::empty()
    } else {
        let x = s.last();
        if problem(x.status) {
            problem_lines(s.drop_last()) + "- "@ + x.crate_name@ + " ["@ + status_name(x.status) + "]: "@
                + x.reason@ + "\n"@
        } else {
            problem_lines(s.drop_last())
        }
    }
}

pub open spec fn summary_line(m: StatusSummary) -> Seq<char> {
    "\nTotal: "@ + decimal(m.total as nat) + " | Synced: "@ + decimal(m.synced as nat) + " | Missing: "@
        + decimal(m.missing as nat) + " | Outdated: "@ + decimal(m.outdated as nat) + " | Corrupted: "@
        + decimal(m.corrupted as nat) + "\n"@
}

pub open spec fn hints() -> Seq<char> {
    "Hint: run `cargo ai-fdocs sync` (or `--force` for full refresh)\n"@
        + "CI hint: run `cargo ai-fdocs check` to fail on stale docs\n"@ + "\nProblem details:\n"@
}

/// The human-readable status table of a report with summary `m`.
pub open spec fn status_table(s: Seq<CrateStatus>, m: StatusSummary) -> Seq<char> {
    table_row("Crate"@, "Lock Version"@, "Docs Version"@, "Status"@) + repeat('-', 24) + " "@ + repeat('-', 16)
        + " "@ + repeat('-', 16) + " "@ + repeat('-', 14) + "\n"@ + entry_lines(s) + summary_line(m) + if m.problems() {
        hints() + problem_lines(s)
    } else {
        Seq::empty()
    }
}

fn push_repeat(out: &mut String, c: char, n: usize)
    ensures
        final(out)@ == old(out)@ + repeat(c, n as nat),
{
    let mut i: usize = 0;
    while i < n
        invariant
            i <= n,
            out@ == old(out)@ + repeat(c, i as nat),
        decreases n - i,
    {
        out.push(c);
        i = i + 1;
        assert(out@ =~= old(out)@ + repeat(c, i as nat));
    }
}

fn push_padded(out: &mut String, s: &str, w: usize)
    ensures
        final(out)@ == old(out)@ + padded(s@, w as nat),
{
    let n = crate::strings::chars_of(s).len();
    push_str(out, s);
    if n < w {
        push_repeat(out, ' ', w - n);
    }
    assert(out@ =~= old(out)@ + padded(s@, w as nat));
}

fn push_row(out: &mut String, a: &str, b: &str, c: &str, d: &str)
    ensures
        final(out)@ == old(out)@ + table_row(a@, b@, c@, d@),
{
    push_padded(out, a, 24);
    push_str(out, " ");
    push_padded(out, b, 16);
    push_str(out, " ");
    push_padded(out, c, 16);
    push_str(out, " ");
    push_padded(out, d, 14);
    push_str(out, "\n");
    assert(out@ =~= old(out)@ + table_row(a@, b@, c@, d@));
}

/// Renders a status report as a table, a summary line and, when something needs a sync,
/// hints and the list of problems.
pub fn format_status_table(statuses: &Vec<CrateStatus>) -> (r: String)
    ensures
        r@ == status_table(statuses@, summarize_spec(statuses@)),
{
    let mut out = String::new();
    push_row(&mut out, "Crate", "Lock Version", "Docs Version", "Status");
    push_repeat(&mut out, '-', 24);
    push_str(&mut out, " ");
    push_repeat(&mut out, '-', 16);
    push_str(&mut out, " ");
    push_repeat(&mut out, '-', 16);
    push_str(&mut out, " ");
    push_repeat(&mut out, '-', 14);
    push_str(&mut out, "\n");
    let ghost head = out@;
    let mut i: usize = 0;
    while i < statuses.len()
        invariant
            i <= statuses.len(),
            out@ == head + entry_lines(statuses@.take(i as int)),
        decreases statuses.len() - i,
    {
        assert(statuses@.take(i + 1).drop_last() =~= statuses@.take(i as int));
        let item = &statuses[i];
        let lock: &str = match &item.lock_version {
            Some(s) => s.as_str(),
            None => "-",
        };
        let docs: &str = match &item.docs_version {
            Some(s) => s.as_str(),
            None => "-",
        };
        push_row(&mut out, item.crate_name.as_str(), lock, docs, item.status.as_str());
        push_str(&mut out, "  \u{21b3} ");
        push_str(&mut out, item.reason.as_str());
        push_str(&mut out, "\n");
        i = i + 1;
        assert(out@ =~= head + entry_lines(statuses@.take(i as int)));
    }
    assert(statuses@.take(statuses.len() as int) =~= statuses@);
    let summary = summarize(statuses);
    push_str(&mut out, "\nTotal: ");
    push_decimal(&mut out, summary.total);
    push_str(&mut out, " | Synced: ");
    push_decimal(&mut out, summary.synced);
    push_str(&mut out, " | Missing: ");
    push_decimal(&mut out, summary.missing);
    push_str(&mut out, " | Outdated: ");
    push_decimal(&mut out, summary.outdated);
    push_str(&mut out, " | Corrupted: ");
    push_decimal(&mut out, summary.corrupted);
    push_str(&mut out, "\n");
    let ghost body = out@;
    assert(body =~= head + entry_lines(statuses@) + summary_line(summary));
    if summary.has_problems() {
        push_str(&mut out, "Hint: run `cargo ai-fdocs sync` (or `--force` for full refresh)\n");
        push_str(&mut out, "CI hint: run `cargo ai-fdocs check` to fail on stale docs\n");
        push_str(&mut out, "\nProblem details:\n");
        let ghost mid = out@;
        assert(mid =~= body + hints());
        let mut j: usize = 0;
        while j < statuses.len()
            invariant
                j <= statuses.len(),
                out@ == mid + problem_lines(statuses@.take(j as int)),
            decreases statuses.len() - j,
        {
            assert(statuses@.take(j + 1).drop_last() =~= statuses@.take(j as int));
            let item = &statuses[j];
            if item.status.is_problem() {
                push_str(&mut out, "- ");
                push_str(&mut out, item.crate_name.as_str());
                push_str(&mut out, " [");
                push_str(&mut out, item.status.as_str());
                push_str(&mut out, "]: ");
                push_str(&mut out, item.reason.as_str());
                push_str(&mut out, "\n");
            }
            j = j + 1;
            assert(out@ =~= mid + problem_lines(statuses@.take(j as int)));
        }
        assert(statuses@.take(statuses.len() as int) =~= statuses@);
    }
    assert(out@ =~= status_table(statuses@, summary));
    out
}

/// The summary `summarize` computes.
pub open spec fn summarize_spec(s: Seq<CrateStatus>) -> StatusSummary {
    StatusSummary {
        total: s.len() as usize,
        synced: count_where(s, is_synced()) as usize,
        missing: count_where(s, is_status(DocsStatus::Missing)) as usize,
        outdated: count_where(s, is_status(DocsStatus::Outdated)) as usize,
        corrupted: count_where(s, is_status(DocsStatus::Corrupted)) as usize,
    }
}

} // verus!
