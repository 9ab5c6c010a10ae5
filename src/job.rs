//! One package's sync job as a state machine. The caller performs each action the job asks
//! for (a registry lookup, a cache read, a page or file fetch, a save) and hands back what
//! happened; the job decides what comes next, until it finishes with an outcome.
use vstd::prelude::*;
use crate::config::{repo_of, files_of, CrateDoc, SyncMode};
use crate::error::{fallback_eligible, is_docsrs_fallback_eligible, kind_of, AiDocsError, SyncErrorKind};
use crate::fetch::{collect_fetched_files, fetched_files_of, FetchedFile, FileRequest, ResolvedRef};
use crate::storage::{
    cached, cached_info, file_view, processed_text, crate_dir_name, dir_name_of, is_cached, plan_crate_save, plan_docs_save, read_cached_info,
    MetaRead, SavePlan, SavedCrate,
};
use crate::strings::copy_str;
use crate::sync::{build_requests, drop_readme_requests, requests_built, same_requests, without_readme};

verus! {

/// A rendered documentation page.
#[derive(Debug, Clone)]
pub struct DocsRsArtifact {
    pub markdown: String,
    pub docsrs_input_url: String,
    pub truncated: bool,
}

/// How one package's sync ended.
#[derive(Debug, Clone)]
pub enum SyncOutcome {
    Synced(SavedCrate),
    Cached(Option<SavedCrate>),
    Skipped,
    Error(SyncErrorKind),
}

/// Where a job stands: which answer it waits for.
#[derive(Debug, Clone, Copy, PartialEq, Eq, Structural)]
pub enum JobPhase {
    Start,
    AwaitLatest,
    AwaitCache,
    AwaitDocsPage,
    AwaitRef,
    AwaitFiles,
    AwaitSave,
    Done,
}

/// What the caller is asked to do next.
#[derive(Debug)]
pub enum JobAction {
    /// Look up the newest published version of the package.
    LookUpLatest,
    /// Read the metadata and file names of this cache directory.
    ReadCache { dir_name: String },
    /// Fetch and render the documentation page of the package at `version`.
    FetchDocsPage { version: String },
    /// Resolve the source reference of `version` in `repo`.
    ResolveRef { repo: String, version: String },
    /// Fetch these files from `repo` at `git_ref`.
    FetchFiles { repo: String, git_ref: String, requests: Vec<FileRequest> },
    /// Carry out this save.
    Save(SavePlan),
    /// The job is over.
    Finish(SyncOutcome),
}

/// What happened when the caller did what the job asked.
#[derive(Debug)]
pub enum JobEvent {
    /// The job begins; in lock-file and hybrid modes with the locked version, if any.
    Started { lock_version: Option<String> },
    Latest(Result<String, AiDocsError>),
    CacheRead { meta: MetaRead, file_names: Vec<String> },
    DocsPage(Result<DocsRsArtifact, AiDocsError>),
    RefResolved(Result<ResolvedRef, AiDocsError>),
    FilesFetched(Vec<Result<FetchedFile, AiDocsError>>),
    Saved(Result<(), AiDocsError>),
}

/// The sync job of one configured package.
#[derive(Debug)]
pub struct SyncJob {
    pub mode: SyncMode,
    pub crate_name: String,
    pub doc: CrateDoc,
    pub force: bool,
    pub max_file_size_kb: usize,
    pub latest_ttl_hours: usize,
    /// Today's date, recorded as the fetch date.
    pub date: String,
    pub phase: JobPhase,
    pub version: String,
    pub docs_page: Option<DocsRsArtifact>,
    /// Latest-docs mode fell back to the source-hosting path.
    pub fallback: bool,
    pub repo: String,
    pub resolved: Option<ResolvedRef>,
    pub pending: Option<SavedCrate>,
}

/// The source kind recorded for files taken from the source host: `hybrid_docsrs_github`
/// in hybrid mode, `github_fallback` after a latest-docs fallback, else `github`.
pub open spec fn source_kind_of(j: SyncJob) -> Seq<char> {
    if j.mode == SyncMode::Hybrid {
        "hybrid_docsrs_github"@
    } else if j.fallback {
        "github_fallback"@
    } else {
        "github"@
    }
}

/// The fetched files of a batch as (path, source URL, content).
pub open spec fn fetched_views(rs: Seq<Result<FetchedFile, AiDocsError>>) -> Seq<(Seq<char>, Seq<char>, Seq<char>)> {
    fetched_files_of(rs).map_values(|f: FetchedFile| file_view(f))
}

/// The README made from a rendered documentation page.
pub open spec fn page_readme(a: DocsRsArtifact) -> (Seq<char>, Seq<char>, Seq<char>) {
    ("README.md"@, a.docsrs_input_url@, a.markdown@)
}

/// A save of the given files (path, source URL, content) of the job's package at its
/// version and reference, each processed for the cache, tagged with the job's source kind.
pub open spec fn saves_files(p: SavePlan, j: SyncJob, files: Seq<(Seq<char>, Seq<char>, Seq<char>)>) -> bool {
    &&& j.resolved is Some
    &&& p.dir_name@ == dir_name_of(j.crate_name@, j.version@)
    &&& p.files@.len() == files.len()
    &&& forall|i: int|
        0 <= i < files.len() ==> (#[trigger] p.files@[i]).name@ == crate::storage::flatten(files[i].0)
            && p.files@[i].content@ == processed_text(
            files[i],
            j.repo@,
            j.resolved->0,
            j.version@,
            j.max_file_size_kb as nat,
            j.date@,
        )
    &&& p.meta.version@ == j.version@
    &&& p.meta.git_ref == (j.resolved->0).git_ref
    &&& p.meta.is_fallback == (j.resolved->0).is_fallback
    &&& p.meta.source_kind matches Some(k) && k@ == source_kind_of(j)
}

/// Two jobs for the same package with the same settings.
pub open spec fn same_setup(a: SyncJob, b: SyncJob) -> bool {
    &&& a.mode == b.mode
    &&& a.crate_name == b.crate_name
    &&& a.doc == b.doc
    &&& a.force == b.force
    &&& a.max_file_size_kb == b.max_file_size_kb
    &&& a.latest_ttl_hours == b.latest_ttl_hours
    &&& a.date == b.date
}

/// The phase a job is in after asking for `r`: it waits for the answer to that action.
pub open spec fn phase_after(r: JobAction) -> JobPhase {
    match r {
        JobAction::LookUpLatest => JobPhase::AwaitLatest,
        JobAction::ReadCache { .. } => JobPhase::AwaitCache,
        JobAction::FetchDocsPage { .. } => JobPhase::AwaitDocsPage,
        JobAction::ResolveRef { .. } => JobPhase::AwaitRef,
        JobAction::FetchFiles { .. } => JobPhase::AwaitFiles,
        JobAction::Save(_) => JobPhase::AwaitSave,
        JobAction::Finish(_) => JobPhase::Done,
    }
}

/// A save of the rendered page `a` for the job's package at `version`, as `API.md`, tagged
/// as coming from the documentation host.
pub open spec fn saves_page(p: SavePlan, j: SyncJob, version: Seq<char>, a: DocsRsArtifact) -> bool {
    &&& p.dir_name@ == dir_name_of(j.crate_name@, version)
    &&& p.files@.len() == 1
    &&& p.files@[0].name@ == "API.md"@
    &&& p.files@[0].content@ == a.markdown@
    &&& p.meta.version@ == version
    &&& p.meta.git_ref@ == "docs.rs"@
    &&& p.meta.fetched_at@ == j.date@
    &&& !p.meta.is_fallback
    &&& p.meta.truncated == Some(a.truncated)
    &&& p.meta.source_kind matches Some(k) && k@ == "docsrs"@
}

/// Where the source-hosting path begins for job `j` at `version`: resolving the reference
/// when a repository is configured; otherwise saving the rendered page in hybrid mode when
/// there is one, failing after a latest-docs fallback, and skipping the package otherwise.
pub open spec fn source_start(j: SyncJob, version: String, r: JobAction) -> bool {
    match repo_of(j.doc) {
        Some(rp) => r matches JobAction::ResolveRef { repo, version: v } && repo@ == rp && v == version,
        None => if j.mode == SyncMode::Hybrid && j.docs_page is Some {
            r matches JobAction::Save(p) && saves_page(p, j, version@, j.docs_page->0)
        } else if j.fallback {
            finishes_with_error(r, SyncErrorKind::Other)
        } else {
            r == JobAction::Finish(SyncOutcome::Skipped)
        },
    }
}

/// Where fetching begins once the cache did not settle the job: the source-hosting path in
/// lock-file mode, the documentation page otherwise.
pub open spec fn fetch_start(j: SyncJob, version: String, r: JobAction) -> bool {
    if j.mode == SyncMode::Lockfile {
        source_start(j, version, r)
    } else {
        r == JobAction::FetchDocsPage { version }
    }
}

/// The repository a job asking to resolve a reference remembers for fetching files.
pub open spec fn remembers_repo(j: SyncJob, r: JobAction) -> bool {
    r matches JobAction::ResolveRef { repo, .. } ==> j.repo@ == repo@
}

/// Whether the job finishes with exactly this outcome kind.
pub open spec fn finishes_with_error(a: JobAction, k: SyncErrorKind) -> bool {
    a matches JobAction::Finish(SyncOutcome::Error(x)) && x == k
}

impl SyncJob {
    /// A job waiting for fetched files knows the reference they come from, one waiting for a
    /// save knows the index entry it will report, and only latest-docs jobs fall back.
    pub open spec fn wf(&self) -> bool {
        &&& self.phase == JobPhase::AwaitFiles ==> self.resolved is Some
        &&& self.phase == JobPhase::AwaitSave ==> self.pending is Some
        &&& self.mode != SyncMode::LatestDocs ==> !self.fallback
    }

    /// A job that has not started.
    pub fn new(
        mode: SyncMode,
        crate_name: String,
        doc: CrateDoc,
        force: bool,
        max_file_size_kb: usize,
        latest_ttl_hours: usize,
        date: String,
    ) -> (r: SyncJob)
        ensures
            r.phase == JobPhase::Start,
            r.mode == mode,
            r.crate_name == crate_name,
            r.force == force,
            r.doc == doc,
            r.max_file_size_kb == max_file_size_kb,
            r.latest_ttl_hours == latest_ttl_hours,
            r.date == date,
            r.docs_page is None,
            r.resolved is None,
            r.pending is None,
            !r.fallback,
            r.wf(),
    {
        SyncJob {
            mode,
            crate_name,
            doc,
            force,
            max_file_size_kb,
            latest_ttl_hours,
            date,
            phase: JobPhase::Start,
            version: String::new(),
            docs_page: None,
            fallback: false,
            repo: String::new(),
            resolved: None,
            pending: None,
        }
    }

    fn finish(&mut self, outcome: SyncOutcome) -> (r: JobAction)
        requires
            old(self).mode != SyncMode::LatestDocs ==> !old(self).fallback,
        ensures
            final(self).phase == JobPhase::Done,
            r == JobAction::Finish(outcome),
            same_setup(*final(self), *old(self)),
            final(self).docs_page == old(self).docs_page,
            final(self).version == old(self).version,
            final(self).fallback == old(self).fallback,
            final(self).wf(),
    {
        self.phase = JobPhase::Done;
        JobAction::Finish(outcome)
    }

    /// The first step on the source-hosting path: resolve the reference, or settle the job
    /// when the package has no repository.
    fn begin_source(&mut self) -> (r: JobAction)
        requires
            old(self).wf(),
        ensures
            same_setup(*final(self), *old(self)),
            final(self).version == old(self).version,
            final(self).docs_page == old(self).docs_page,
            final(self).fallback == old(self).fallback,
            final(self).wf(),
            !(r matches JobAction::Finish(SyncOutcome::Cached(_))),
            source_start(*old(self), old(self).version, r),
            final(self).phase == phase_after(r),
            remembers_repo(*final(self), r),
    {
        match self.doc.github_repo() {
            Some(repo) => {
                self.repo = copy_str(repo);
                self.phase = JobPhase::AwaitRef;
                JobAction::ResolveRef { repo: copy_str(repo), version: self.version.clone() }
            },
            None => {
                if self.mode == SyncMode::Hybrid && self.docs_page.is_some() {
                    let plan = match &self.docs_page {
                        Some(a) => plan_docs_save(
                            self.crate_name.as_str(),
                            self.version.as_str(),
                            a.markdown.as_str(),
                            a.truncated,
                            &self.doc,
                            self.date.as_str(),
                        ),
                        None => {
                            return self.finish(SyncOutcome::Error(SyncErrorKind::Other));
                        },
                    };
                    self.pending = Some(plan.saved.clone());
                    self.phase = JobPhase::AwaitSave;
                    JobAction::Save(plan)
                } else if self.fallback {
                    self.finish(SyncOutcome::Error(SyncErrorKind::Other))
                } else {
                    self.finish(SyncOutcome::Skipped)
                }
            },
        }
    }

    /// Fetching begins once the cache did not settle the job.
    fn begin_fetch(&mut self) -> (r: JobAction)
        requires
            old(self).wf(),
        ensures
            same_setup(*final(self), *old(self)),
            final(self).fallback == old(self).fallback,
            final(self).version == old(self).version,
            final(self).wf(),
            final(self).docs_page == old(self).docs_page,
            !(r matches JobAction::Finish(SyncOutcome::Cached(_))),
            fetch_start(*old(self), old(self).version, r),
            final(self).phase == phase_after(r),
            remembers_repo(*final(self), r),
    {
        if self.mode == SyncMode::Lockfile {
            self.begin_source()
        } else {
            self.phase = JobPhase::AwaitDocsPage;
            JobAction::FetchDocsPage { version: self.version.clone() }
        }
    }

    /// The version is known: check the cache unless forced, else start fetching.
    fn with_version(&mut self, version: String) -> (r: JobAction)
        requires
            old(self).wf(),
        ensures
            same_setup(*final(self), *old(self)),
            final(self).version == version,
            final(self).wf(),
            final(self).docs_page == old(self).docs_page,
            final(self).fallback == old(self).fallback,
            !old(self).force ==> (r matches JobAction::ReadCache { dir_name } && dir_name@ == dir_name_of(
                old(self).crate_name@,
                version@,
            )),
            old(self).force ==> fetch_start(*old(self), version, r),
            final(self).phase == phase_after(r),
            remembers_repo(*final(self), r),
    {
        self.version = version;
        if !self.force {
            self.phase = JobPhase::AwaitCache;
            JobAction::ReadCache { dir_name: crate_dir_name(self.crate_name.as_str(), self.version.as_str()) }
        } else {
            self.begin_fetch()
        }
    }

    /// The source kind recorded for files fetched from the source host.
    fn source_kind(&self) -> (r: &'static str)
        ensures
            r@ == source_kind_of(*self),
    {
        if self.mode == SyncMode::Hybrid {
            "hybrid_docsrs_github"
        } else if self.fallback {
            "github_fallback"
        } else {
            "github"
        }
    }

    /// Advances the job with the answer to its last action.
    pub fn step(&mut self, event: JobEvent) -> (r: JobAction)
        requires
            old(self).wf(),
        ensures
            final(self).wf(),
            old(self).phase == JobPhase::Start && old(self).mode != SyncMode::LatestDocs
                ==> (event matches JobEvent::Started { lock_version: None } ==> r == JobAction::Finish(SyncOutcome::Skipped)),
            old(self).phase == JobPhase::Start && old(self).mode == SyncMode::LatestDocs ==> (event is Started ==> r is LookUpLatest),
            old(self).phase == JobPhase::AwaitLatest ==> (event matches JobEvent::Latest(Err(e)) ==> finishes_with_error(r, kind_of(e))),
            old(self).phase == JobPhase::AwaitCache && old(self).mode != SyncMode::LatestDocs ==> (event matches JobEvent::CacheRead { meta, .. } ==> (cached(meta, old(self).version@) ==> r matches JobAction::Finish(SyncOutcome::Cached(_)))),
            old(self).phase == JobPhase::AwaitCache ==> (event matches JobEvent::CacheRead { meta, .. } ==> (!cached(meta, old(self).version@) ==> !(r matches JobAction::Finish(SyncOutcome::Cached(_))))),
            old(self).phase == JobPhase::AwaitDocsPage && old(self).mode == SyncMode::LatestDocs ==> (event matches JobEvent::DocsPage(Err(e)) ==> (!fallback_eligible(e) ==> finishes_with_error(r, kind_of(e)))),
            old(self).phase == JobPhase::AwaitDocsPage && old(self).mode == SyncMode::LatestDocs ==> (event matches JobEvent::DocsPage(Err(e)) ==> (fallback_eligible(e) ==> r is ResolveRef || finishes_with_error(r, SyncErrorKind::Other))),
            old(self).phase == JobPhase::AwaitDocsPage && old(self).mode == SyncMode::LatestDocs ==> (event matches JobEvent::DocsPage(Ok(_)) ==> r is Save),
            old(self).phase == JobPhase::AwaitRef ==> (event matches JobEvent::RefResolved(Err(e)) ==> finishes_with_error(r, kind_of(e))),
            old(self).phase == JobPhase::AwaitRef ==> (event matches JobEvent::RefResolved(Ok(_)) ==> r is FetchFiles),
            old(self).phase == JobPhase::AwaitFiles && old(self).docs_page is None ==> (event matches JobEvent::FilesFetched(rs) ==> (fetched_files_of(rs@).len() == 0 <==> finishes_with_error(r, SyncErrorKind::NotFound))),
            old(self).phase == JobPhase::AwaitFiles && old(self).docs_page is None ==> (event matches JobEvent::FilesFetched(rs) ==> (fetched_files_of(rs@).len() > 0 ==> (r matches JobAction::Save(p) && p.files@.len() == fetched_files_of(rs@).len()))),
            old(self).phase == JobPhase::AwaitSave ==> (event matches JobEvent::Saved(Err(e)) ==> finishes_with_error(r, kind_of(e))),
            old(self).phase == JobPhase::AwaitSave && old(self).pending is Some ==> (event matches JobEvent::Saved(Ok(_)) ==> r == JobAction::Finish(SyncOutcome::Synced(old(self).pending->0))),
            old(self).phase == JobPhase::Start && old(self).mode != SyncMode::LatestDocs && !old(self).force
                ==> (event matches JobEvent::Started { lock_version: Some(v) } ==> (r matches JobAction::ReadCache { dir_name } && dir_name@ == dir_name_of(old(self).crate_name@, v@))),
            old(self).phase == JobPhase::AwaitRef && !(old(self).mode == SyncMode::Hybrid && old(self).docs_page is Some)
                ==> (event matches JobEvent::RefResolved(Ok(rr)) ==> (r matches JobAction::FetchFiles { repo, git_ref, requests } && repo == old(self).repo && git_ref == rr.git_ref
                    && requests_built(crate::status::opt_view(old(self).doc.subpath), crate::config::files_of(old(self).doc), requests@))),
            old(self).phase == JobPhase::AwaitFiles && old(self).docs_page is None ==> (event matches JobEvent::FilesFetched(rs) ==> (fetched_files_of(rs@).len() > 0 ==> (r matches JobAction::Save(p) && saves_files(p, *old(self), fetched_views(rs@))))),
            old(self).phase == JobPhase::AwaitDocsPage && old(self).mode == SyncMode::LatestDocs ==> (event matches JobEvent::DocsPage(Ok(a)) ==> (r matches JobAction::Save(p) && p.dir_name@ == dir_name_of(old(self).crate_name@, old(self).version@)
                && p.files@.len() == 1 && p.files@[0].content@ == a.markdown@)),
            old(self).phase == JobPhase::AwaitCache ==> (event matches JobEvent::CacheRead { meta, file_names } ==> (r matches JobAction::Finish(SyncOutcome::Cached(x))
                ==> (x matches Some(sc) && meta matches MetaRead::Parsed(m) && cached_info(sc, m, file_names@, old(self).crate_name@, old(self).version@, old(self).doc)))),
            old(self).phase == JobPhase::AwaitDocsPage && old(self).mode == SyncMode::Hybrid ==> (event matches JobEvent::DocsPage(Ok(a)) ==> final(self).docs_page == Some(a)),
            old(self).phase == JobPhase::AwaitDocsPage && old(self).mode == SyncMode::Hybrid ==> (event matches JobEvent::DocsPage(Err(_)) ==> final(self).docs_page is None),
            old(self).phase == JobPhase::AwaitDocsPage && old(self).mode == SyncMode::LatestDocs ==> (event matches JobEvent::DocsPage(Err(e)) ==> (fallback_eligible(e) ==> (
                (repo_of(old(self).doc) matches Some(rp) ==> (r matches JobAction::ResolveRef { repo, version } && repo@ == rp && version == old(self).version && final(self).fallback
                    && final(self).repo@ == rp && final(self).phase == JobPhase::AwaitRef && source_kind_of(*final(self)) == "github_fallback"@))
                && (repo_of(old(self).doc) is None ==> finishes_with_error(r, SyncErrorKind::Other))))),
            old(self).phase == JobPhase::AwaitRef && old(self).mode == SyncMode::Hybrid && old(self).docs_page is Some
                ==> (event matches JobEvent::RefResolved(Ok(rr)) ==> (r matches JobAction::FetchFiles { repo, git_ref, requests } && repo == old(self).repo && git_ref == rr.git_ref
                    && exists|b: Seq<FileRequest>| #[trigger] requests_built(crate::status::opt_view(old(self).doc.subpath), files_of(old(self).doc), b)
                        && same_requests(requests@, without_readme(b)))),
            old(self).phase == JobPhase::AwaitFiles && old(self).mode == SyncMode::Hybrid ==> (old(self).docs_page matches Some(a) ==> (event matches JobEvent::FilesFetched(rs) ==> (r matches JobAction::Save(p)
                && saves_files(p, *old(self), fetched_views(rs@).push(page_readme(a)))
                && source_kind_of(*old(self)) == "hybrid_docsrs_github"@))),
            old(self).phase != JobPhase::Start && old(self).phase != JobPhase::Done ==> same_setup(*final(self), *old(self)),
            final(self).phase == phase_after(r),
            remembers_repo(*final(self), r),
            old(self).phase == JobPhase::Start && old(self).mode != SyncMode::LatestDocs && old(self).force
                ==> (event matches JobEvent::Started { lock_version: Some(v) } ==> fetch_start(*old(self), v, r)),
            old(self).phase == JobPhase::AwaitLatest ==> (event matches JobEvent::Latest(Ok(v)) ==> (
                (!old(self).force ==> (r matches JobAction::ReadCache { dir_name } && dir_name@ == dir_name_of(old(self).crate_name@, v@)))
                && (old(self).force ==> fetch_start(*old(self), v, r)))),
            old(self).phase == JobPhase::AwaitCache ==> (event is CacheRead ==> (!(r matches JobAction::Finish(SyncOutcome::Cached(_)))
                ==> fetch_start(*old(self), old(self).version, r))),
            old(self).phase == JobPhase::AwaitDocsPage && old(self).mode == SyncMode::Hybrid ==> (event is DocsPage
                ==> source_start(*final(self), old(self).version, r)),
            old(self).phase == JobPhase::AwaitDocsPage && old(self).mode == SyncMode::LatestDocs ==> (event matches JobEvent::DocsPage(Ok(a))
                ==> (r matches JobAction::Save(p) && saves_page(p, *old(self), old(self).version@, a))),
            old(self).phase == JobPhase::AwaitRef ==> final(self).docs_page == old(self).docs_page,
    {
        match (self.phase, event) {
            (JobPhase::Start, JobEvent::Started { lock_version }) => {
                if self.mode == SyncMode::LatestDocs {
                    self.phase = JobPhase::AwaitLatest;
                    JobAction::LookUpLatest
                } else {
                    match lock_version {
                        None => self.finish(SyncOutcome::Skipped),
                        Some(v) => self.with_version(v),
                    }
                }
            },
            (JobPhase::AwaitLatest, JobEvent::Latest(r)) => match r {
                Ok(v) => self.with_version(v),
                Err(e) => self.finish(SyncOutcome::Error(e.sync_kind())),
            },
            (JobPhase::AwaitCache, JobEvent::CacheRead { meta, file_names }) => {
                let hit = is_cached(&meta, self.version.as_str());
                let fresh = if self.mode == SyncMode::LatestDocs {
                    match &meta {
                        MetaRead::Parsed(m) => crate::freshness::is_latest_cache_fresh(
                            m.fetched_at.as_str(),
                            self.latest_ttl_hours,
                        ),
                        _ => false,
                    }
                } else {
                    true
                };
                if hit && fresh {
                    let info = read_cached_info(
                        &meta,
                        &file_names,
                        self.crate_name.as_str(),
                        self.version.as_str(),
                        &self.doc,
                    );
                    self.finish(SyncOutcome::Cached(info))
                } else {
                    self.begin_fetch()
                }
            },
            (JobPhase::AwaitDocsPage, JobEvent::DocsPage(r)) => {
                if self.mode == SyncMode::LatestDocs {
                    match r {
                        Ok(a) => {
                            let plan = plan_docs_save(
                                self.crate_name.as_str(),
                                self.version.as_str(),
                                a.markdown.as_str(),
                                a.truncated,
                                &self.doc,
                                self.date.as_str(),
                            );
                            self.pending = Some(plan.saved.clone());
                            self.phase = JobPhase::AwaitSave;
                            JobAction::Save(plan)
                        },
                        Err(e) => {
                            if is_docsrs_fallback_eligible(&e) {
                                self.fallback = true;
                                let a = self.begin_source();
                                a
                            } else {
                                self.finish(SyncOutcome::Error(e.sync_kind()))
                            }
                        },
                    }
                } else {
                    match r {
                        Ok(a) => {
                            self.docs_page = Some(a);
                        },
                        Err(_) => {
                            self.docs_page = None;
                        },
                    }
                    self.begin_source()
                }
            },
            (JobPhase::AwaitRef, JobEvent::RefResolved(r)) => match r {
                Err(e) => self.finish(SyncOutcome::Error(e.sync_kind())),
                Ok(rr) => {
                    let subpath = match &self.doc.subpath {
                        Some(s) => Some(s.as_str()),
                        None => None,
                    };
                    let mut requests = build_requests(subpath, self.doc.effective_files());
                    if self.mode == SyncMode::Hybrid && self.docs_page.is_some() {
                        requests = drop_readme_requests(requests);
                    }
                    let git_ref = rr.git_ref.clone();
                    self.resolved = Some(rr);
                    self.phase = JobPhase::AwaitFiles;
                    JobAction::FetchFiles { repo: self.repo.clone(), git_ref, requests }
                },
            },
            (JobPhase::AwaitFiles, JobEvent::FilesFetched(results)) => {
                let collected = collect_fetched_files(
                    results,
                    self.crate_name.as_str(),
                    self.version.as_str(),
                );
                let mut files = collected.files;
                if self.mode == SyncMode::Hybrid {
                    if let Some(a) = &self.docs_page {
                        files.push(
                            FetchedFile {
                                path: copy_str("README.md"),
                                source_url: a.docsrs_input_url.clone(),
                                content: a.markdown.clone(),
                            },
                        );
                    }
                }
                if files.len() == 0 {
                    return self.finish(SyncOutcome::Error(SyncErrorKind::NotFound));
                }
                let resolved = match &self.resolved {
                    Some(r) => r,
                    None => {
                        return self.finish(SyncOutcome::Error(SyncErrorKind::Other));
                    },
                };
                let plan = plan_crate_save(
                    self.crate_name.as_str(),
                    self.version.as_str(),
                    self.repo.as_str(),
                    resolved,
                    &files,
                    &self.doc,
                    self.max_file_size_kb,
                    self.date.as_str(),
                    self.source_kind(),
                    self.mode == SyncMode::LatestDocs,
                );
                self.pending = Some(plan.saved.clone());
                self.phase = JobPhase::AwaitSave;
                JobAction::Save(plan)
            },
            (JobPhase::AwaitSave, JobEvent::Saved(r)) => match r {
                Err(e) => self.finish(SyncOutcome::Error(e.sync_kind())),
                Ok(()) => match self.pending.take() {
                    Some(saved) => self.finish(SyncOutcome::Synced(saved)),
                    None => self.finish(SyncOutcome::Error(SyncErrorKind::Other)),
                },
            },
            _ => self.finish(SyncOutcome::Error(SyncErrorKind::Other)),
        }
    }
}

} // verus!
verus! {

/// The newest version a registry answer names: the latest stable version unless it is blank,
/// else the latest version.
pub open spec fn newest_of(stable: Option<Seq<char>>, latest: Option<Seq<char>>) -> Option<Seq<char>> {
    match stable {
        Some(s) if crate::strings::trim_by(s, crate::strings::ws()).len() > 0 => Some(s),
        _ => latest,
    }
}

/// Picks the version to document from a registry answer for `crate_name`.
pub fn pick_latest_version(crate_name: &str, max_stable_version: Option<String>, max_version: Option<String>) -> (r: Result<String, AiDocsError>)
    ensures
        match newest_of(crate::status::opt_view(max_stable_version), crate::status::opt_view(max_version)) {
            Some(v) => r matches Ok(x) && x@ == v,
            None => r matches Err(AiDocsError::Other(m)) && m@ == "crates.io response for '"@ + crate_name@ + "' has no max version"@,
        },
{
    if let Some(s) = &max_stable_version {
        let cs = crate::strings::chars_of(s.as_str());
        let t = crate::strings::trim_range(&cs, 0, cs.len(), false);
        assert(cs@.subrange(0, cs@.len() as int) =~= s@);
        if t.len() > 0 {
            return Ok(s.clone());
        }
    }
    match max_version {
        Some(v) => Ok(v),
        None => {
            let mut m = copy_str("crates.io response for '");
            crate::strings::push_str(&mut m, crate_name);
            crate::strings::push_str(&mut m, "' has no max version");
            Err(AiDocsError::Other(m))
        },
    }
}

/// The address of a package's documentation page.
pub open spec fn docs_page_url(name: Seq<char>, version: Seq<char>) -> Seq<char> {
    "https://docs.rs/crate/"@ + name + "/"@ + version
}

/// The documentation page address of a package version.
pub fn docsrs_input_url(crate_name: &str, version: &str) -> (r: String)
    ensures
        r@ == docs_page_url(crate_name@, version@),
{
    let mut u = copy_str("https://docs.rs/crate/");
    crate::strings::push_str(&mut u, crate_name);
    crate::strings::push_str(&mut u, "/");
    crate::strings::push_str(&mut u, version);
    u
}

/// The artifact of a fetched documentation page: rendered to markdown, then limited to
/// `max_file_size_kb` KiB, with whether it was cut.
pub fn docs_artifact(crate_name: &str, version: &str, html: &str, max_file_size_kb: usize) -> (r: DocsRsArtifact)
    ensures
        r.docsrs_input_url@ == docs_page_url(crate_name@, version@),
        r.markdown@ == crate::text::limited_text(
            crate::html::page_markdown(crate_name@, version@, html@),
            max_file_size_kb as nat,
        ),
        r.truncated == crate::text::over_limit(
            (vstd::utf8::encode_utf8(crate::html::page_markdown(crate_name@, version@, html@)).len() as usize) as nat,
            max_file_size_kb as nat,
        ),
{
    let md = crate::html::render_docsrs_markdown(crate_name, version, html);
    let (markdown, truncated) = crate::text::truncate_markdown(md.as_str(), max_file_size_kb);
    DocsRsArtifact { markdown, docsrs_input_url: docsrs_input_url(crate_name, version), truncated }
}

} // verus!
