//! Decisions of the upstream fetchers. The HTTP exchanges themselves happen outside the
//! library: the caller performs each request the decisions ask for and hands back what came
//! back (a status code, a body, or a transport failure).
use vstd::prelude::*;
use crate::config::clone_strings;
use crate::error::AiDocsError;
use crate::strings::{chars_of, copy_str, lemma_trim_end_take, push_str, slash, string_of, trim_end_by};

verus! {

/// How many times one request is sent at most.
pub const MAX_RETRY_ATTEMPTS: usize = 3;

/// The wait before the first retry, in milliseconds; it doubles for each further retry.
pub const RETRY_BASE_BACKOFF_MS: u64 = 500;

/// Where a retried request stands: the attempt about to be judged (from 1) and the wait
/// before the next one.
#[derive(Debug, Clone, Copy, PartialEq, Eq, Structural)]
pub struct RetryState {
    pub attempt: usize,
    pub backoff_ms: u64,
}

/// What one attempt of a request gave.
#[derive(Debug, Clone)]
pub enum AttemptOutcome {
    /// A response arrived with this status.
    Response(u16),
    /// No response: `retryable` holds for timeouts, connection and request-building failures.
    Transport { retryable: bool, message: String },
}

/// What to do after one attempt.
#[derive(Debug, Clone)]
pub enum RetryAction {
    /// Hand the response with this status to the caller.
    Deliver(u16),
    /// Sleep this many milliseconds, then send the request again.
    Retry(u64),
    /// Give up with this error.
    Fail(AiDocsError),
}

/// The wait after attempt `attempt` (from 1) fails: 500 ms, doubled for each earlier retry.
pub open spec fn backoff_for(attempt: nat) -> u64 {
    if attempt <= 1 {
        500
    } else if attempt == 2 {
        1000
    } else {
        2000
    }
}

impl RetryState {
    pub open spec fn wf(self) -> bool {
        &&& 1 <= self.attempt <= 3
        &&& self.backoff_ms == backoff_for(self.attempt as nat)
    }

    /// The state before the first attempt.
    pub fn start() -> (r: RetryState)
        ensures
            r.attempt == 1,
            r.backoff_ms == 500,
            r.wf(),
    {
        RetryState { attempt: 1, backoff_ms: RETRY_BASE_BACKOFF_MS }
    }
}

pub open spec fn is_server_error(status: u16) -> bool {
    500 <= status <= 599
}

pub open spec fn is_success(status: u16) -> bool {
    200 <= status <= 299
}

impl RetryState {
    /// The state after a retry: one attempt further, with the wait doubled.
    pub open spec fn advanced(self) -> RetryState {
        RetryState { attempt: (self.attempt + 1) as usize, backoff_ms: (self.backoff_ms * 2) as u64 }
    }
}

/// Retry policy of the source-hosting client: 401 fails as an authentication error, 403 and
/// 429 as rate limiting, both at once; 5xx responses and retryable transport failures are
/// retried with a doubling wait while fewer than three attempts were made; any other
/// response is delivered as it is.
pub open spec fn github_retry(s: RetryState, url: Seq<char>, o: AttemptOutcome, r: (RetryState, RetryAction)) -> bool {
    match o {
        AttemptOutcome::Response(status) => if status == 401 {
            r.1 matches RetryAction::Fail(AiDocsError::GitHubAuth { url: u, status: st }) && u@ == url
                && st == status
        } else if status == 403 || status == 429 {
            r.1 matches RetryAction::Fail(AiDocsError::GitHubRateLimit { url: u, status: st }) && u@
                == url && st == status
        } else if is_server_error(status) && s.attempt < 3 {
            r.1 == RetryAction::Retry(s.backoff_ms) && r.0 == s.advanced()
        } else {
            r.1 == RetryAction::Deliver(status)
        },
        AttemptOutcome::Transport { retryable, message } => if retryable && s.attempt < 3 {
            r.1 == RetryAction::Retry(s.backoff_ms) && r.0 == s.advanced()
        } else {
            r.1 matches RetryAction::Fail(AiDocsError::Fetch { url: u, message: m }) && u@ == url
                && m@ == message@
        },
    }
}

/// Retry policy of the registry and documentation-page client: 429 and 5xx responses and
/// retryable transport failures are retried with a doubling wait while fewer than three
/// attempts were made; other responses are delivered, other failures are HTTP errors.
pub open spec fn docs_retry(s: RetryState, o: AttemptOutcome, r: (RetryState, RetryAction)) -> bool {
    match o {
        AttemptOutcome::Response(status) => if (status == 429 || is_server_error(status))
            && s.attempt < 3 {
            r.1 == RetryAction::Retry(s.backoff_ms) && r.0 == s.advanced()
        } else {
            r.1 == RetryAction::Deliver(status)
        },
        AttemptOutcome::Transport { retryable, message } => if retryable && s.attempt < 3 {
            r.1 == RetryAction::Retry(s.backoff_ms) && r.0 == s.advanced()
        } else {
            r.1 matches RetryAction::Fail(AiDocsError::Http(m)) && m@ == message@
        },
    }
}

/// Judges one attempt of a source-hosting request.
pub fn github_retry_step(state: RetryState, url: &str, outcome: &AttemptOutcome) -> (r: (
    RetryState,
    RetryAction,
))
    requires
        state.wf(),
    ensures
        github_retry(state, url@, *outcome, r),
        r.0.wf(),
{
    match outcome {
        AttemptOutcome::Response(status) => {
            let status = *status;
            if status == 401 {
                (state, RetryAction::Fail(AiDocsError::GitHubAuth { url: copy_str(url), status }))
            } else if status == 403 || status == 429 {
                (
                    state,
                    RetryAction::Fail(AiDocsError::GitHubRateLimit { url: copy_str(url), status }),
                )
            } else if status >= 500 && status <= 599 && state.attempt < MAX_RETRY_ATTEMPTS {
                (
                    RetryState { attempt: state.attempt + 1, backoff_ms: state.backoff_ms * 2 },
                    RetryAction::Retry(state.backoff_ms),
                )
            } else {
                (state, RetryAction::Deliver(status))
            }
        },
        AttemptOutcome::Transport { retryable, message } => {
            if *retryable && state.attempt < MAX_RETRY_ATTEMPTS {
                (
                    RetryState { attempt: state.attempt + 1, backoff_ms: state.backoff_ms * 2 },
                    RetryAction::Retry(state.backoff_ms),
                )
            } else {
                (
                    state,
                    RetryAction::Fail(
                        AiDocsError::Fetch { url: copy_str(url), message: message.clone() },
                    ),
                )
            }
        },
    }
}

/// Judges one attempt of a registry or documentation-page request.
pub fn docs_retry_step(state: RetryState, outcome: &AttemptOutcome) -> (r: (RetryState, RetryAction))
    requires
        state.wf(),
    ensures
        docs_retry(state, *outcome, r),
        r.0.wf(),
{
    match outcome {
        AttemptOutcome::Response(status) => {
            let status = *status;
            if (status == 429 || (status >= 500 && status <= 599)) && state.attempt
                < MAX_RETRY_ATTEMPTS {
                (
                    RetryState { attempt: state.attempt + 1, backoff_ms: state.backoff_ms * 2 },
                    RetryAction::Retry(state.backoff_ms),
                )
            } else {
                (state, RetryAction::Deliver(status))
            }
        },
        AttemptOutcome::Transport { retryable, message } => {
            if *retryable && state.attempt < MAX_RETRY_ATTEMPTS {
                (
                    RetryState { attempt: state.attempt + 1, backoff_ms: state.backoff_ms * 2 },
                    RetryAction::Retry(state.backoff_ms),
                )
            } else {
                (state, RetryAction::Fail(AiDocsError::Http(message.clone())))
            }
        },
    }
}

/// A server error is retried twice, after 500 ms and then 1000 ms, and the third response
/// is delivered as it is; a 401, 403 or 429 fails on the first attempt without a retry.
pub proof fn retry_policy_law(
    url: Seq<char>,
    status: u16,
    a1: (RetryState, RetryAction),
    a2: (RetryState, RetryAction),
    a3: (RetryState, RetryAction),
)
    requires
        github_retry(RetryState { attempt: 1, backoff_ms: 500 }, url, AttemptOutcome::Response(status), a1),
        github_retry(a1.0, url, AttemptOutcome::Response(status), a2),
        github_retry(a2.0, url, AttemptOutcome::Response(status), a3),
    ensures
        is_server_error(status) ==> a1.1 == RetryAction::Retry(500) && a2.1 == RetryAction::Retry(1000)
            && a3.1 == RetryAction::Deliver(status),
        status == 401 || status == 403 || status == 429 ==> a1.1 is Fail,
{
}

} // verus!
verus! {

/// The source-control reference content is fetched from.
#[derive(Debug, Clone)]
pub struct ResolvedRef {
    pub git_ref: String,
    /// No version tag existed and the repository's default branch was taken instead.
    pub is_fallback: bool,
}

/// A fetched file: its logical path, the URL it came from, and its text.
#[derive(Debug, Clone)]
pub struct FetchedFile {
    pub path: String,
    pub source_url: String,
    pub content: String,
}

/// A file to fetch: its logical path, the physical paths to try in order, and whether
/// missing it is an error.
#[derive(Debug, Clone)]
pub struct FileRequest {
    pub original_path: String,
    pub candidates: Vec<String>,
    pub required: bool,
}

/// Copies a fetched file.
pub fn copy_fetched(f: &FetchedFile) -> (r: FetchedFile)
    ensures
        r == *f,
{
    FetchedFile { path: f.path.clone(), source_url: f.source_url.clone(), content: f.content.clone() }
}

/// The error for a response that is neither a success nor a 404.
pub open spec fn status_error_of(url: Seq<char>, status: u16, e: AiDocsError) -> bool {
    if status == 401 {
        e matches AiDocsError::GitHubAuth { url: u, status: s } && u@ == url && s == status
    } else if status == 403 || status == 429 {
        e matches AiDocsError::GitHubRateLimit { url: u, status: s } && u@ == url && s == status
    } else {
        e matches AiDocsError::HttpStatus { url: u, status: s } && u@ == url && s == status
    }
}

/// Classifies an unexpected response status.
pub fn status_error(url: &str, status: u16) -> (r: AiDocsError)
    ensures
        status_error_of(url@, status, r),
{
    if status == 401 {
        AiDocsError::GitHubAuth { url: copy_str(url), status }
    } else if status == 403 || status == 429 {
        AiDocsError::GitHubRateLimit { url: copy_str(url), status }
    } else {
        AiDocsError::HttpStatus { url: copy_str(url), status }
    }
}

/// The tag names tried for a version, in order.
pub open spec fn tag_names(name: Seq<char>, version: Seq<char>) -> Seq<Seq<char>> {
    seq!["v"@ + version, version, name + "-v"@ + version, name + "-"@ + version]
}

/// The tag names tried for `version` of package `crate_name`: `v{version}`, `{version}`,
/// `{crate_name}-v{version}`, `{crate_name}-{version}`.
pub fn tag_candidates(crate_name: &str, version: &str) -> (r: Vec<String>)
    ensures
        r@.len() == 4,
        forall|i: int| 0 <= i < 4 ==> #[trigger] r@[i]@ == tag_names(crate_name@, version@)[i],
{
    let mut a = copy_str("v");
    push_str(&mut a, version);
    let b = copy_str(version);
    let mut c = copy_str(crate_name);
    push_str(&mut c, "-v");
    push_str(&mut c, version);
    let mut d = copy_str(crate_name);
    push_str(&mut d, "-");
    push_str(&mut d, version);
    let r = vec![a, b, c, d];
    r
}

/// Base addresses of the source-hosting API and raw-content host, without trailing `/`.
#[derive(Debug, Clone)]
pub struct Endpoints {
    pub api_base_url: String,
    pub raw_base_url: String,
}

/// `s` without trailing `/`.
pub open spec fn strip_trailing_slashes(s: Seq<char>) -> Seq<char> {
    trim_end_by(s, slash())
}

fn without_trailing_slashes(s: &str) -> (r: String)
    ensures
        r@ == strip_trailing_slashes(s@),
{
    let cs = chars_of(s);
    let mut j = cs.len();
    while j > 0 && cs[j - 1] == '/'
        invariant
            j <= cs.len(),
            forall|k: int| j <= k < cs.len() ==> slash()(#[trigger] cs@[k]),
        decreases j,
    {
        j = j - 1;
    }
    proof {
        lemma_trim_end_take(cs@, slash(), j as int);
    }
    let mut out: Vec<char> = Vec::new();
    let mut k: usize = 0;
    while k < j
        invariant
            k <= j <= cs.len(),
            out@ == cs@.take(k as int),
        decreases j - k,
    {
        out.push(cs[k]);
        k = k + 1;
        assert(out@ =~= cs@.take(k as int));
    }
    string_of(&out)
}

impl Endpoints {
    /// Endpoints at the given bases.
    pub fn with_base_urls(api_base_url: &str, raw_base_url: &str) -> (r: Endpoints)
        ensures
            r.api_base_url@ == strip_trailing_slashes(api_base_url@),
            r.raw_base_url@ == strip_trailing_slashes(raw_base_url@),
    {
        Endpoints {
            api_base_url: without_trailing_slashes(api_base_url),
            raw_base_url: without_trailing_slashes(raw_base_url),
        }
    }

    /// The public GitHub endpoints.
    pub fn github() -> (r: Endpoints)
        ensures
            r.api_base_url@ == strip_trailing_slashes("https://api.github.com"@),
            r.raw_base_url@ == strip_trailing_slashes("https://raw.githubusercontent.com"@),
    {
        Endpoints::with_base_urls("https://api.github.com", "https://raw.githubusercontent.com")
    }

    /// `{api}/repos/{owner_repo}/git/ref/tags/{tag}`: whether a tag exists.
    pub fn api_tag_url(&self, owner_repo: &str, tag: &str) -> (r: String)
        ensures
            r@ == self.api_base_url@ + "/repos/"@ + owner_repo@ + "/git/ref/tags/"@ + tag@,
    {
        let mut u = self.api_base_url.clone();
        push_str(&mut u, "/repos/");
        push_str(&mut u, owner_repo);
        push_str(&mut u, "/git/ref/tags/");
        push_str(&mut u, tag);
        u
    }

    /// `{api}/repos/{owner_repo}`: the repository's description, with its default branch.
    pub fn api_repo_url(&self, owner_repo: &str) -> (r: String)
        ensures
            r@ == self.api_base_url@ + "/repos/"@ + owner_repo@,
    {
        let mut u = self.api_base_url.clone();
        push_str(&mut u, "/repos/");
        push_str(&mut u, owner_repo);
        u
    }

    /// `{raw}/{repo}/{git_ref}/{candidate}`: a file's raw content.
    pub fn raw_file_url(&self, repo: &str, git_ref: &str, candidate: &str) -> (r: String)
        ensures
            r@ == self.raw_base_url@ + "/"@ + repo@ + "/"@ + git_ref@ + "/"@ + candidate@,
    {
        let mut u = self.raw_base_url.clone();
        push_str(&mut u, "/");
        push_str(&mut u, repo);
        push_str(&mut u, "/");
        push_str(&mut u, git_ref);
        push_str(&mut u, "/");
        push_str(&mut u, candidate);
        u
    }
}

/// What ref resolution does after the probe of tag `index` answered.
#[derive(Debug, Clone)]
pub enum TagStep {
    /// Probe the tag at this index next.
    Next(usize),
    /// No tag exists: look up the repository's default branch.
    DefaultBranch,
    /// The tag exists.
    Found(ResolvedRef),
    Fail(AiDocsError),
}

/// One step of tag probing: success takes the tag, 404 moves to the next candidate or, after
/// the last, to the default branch, and any other status aborts.
pub open spec fn tag_step_spec(tags: Seq<String>, index: int, url: Seq<char>, status: u16, r: TagStep) -> bool {
    if is_success(status) {
        r matches TagStep::Found(rr) && rr.git_ref@ == tags[index]@ && !rr.is_fallback
    } else if status == 404 {
        if index + 1 < tags.len() {
            r == TagStep::Next((index + 1) as usize)
        } else {
            r == TagStep::DefaultBranch
        }
    } else {
        r matches TagStep::Fail(e) && status_error_of(url, status, e)
    }
}

/// Judges the answer to the probe of tag `tags[index]` at `url`.
pub fn tag_step(tags: &Vec<String>, index: usize, url: &str, status: u16) -> (r: TagStep)
    requires
        index < tags.len(),
    ensures
        tag_step_spec(tags@, index as int, url@, status, r),
{
    if status >= 200 && status <= 299 {
        TagStep::Found(ResolvedRef { git_ref: tags[index].clone(), is_fallback: false })
    } else if status == 404 {
        if index + 1 < tags.len() {
            TagStep::Next(index + 1)
        } else {
            TagStep::DefaultBranch
        }
    } else {
        TagStep::Fail(status_error(url, status))
    }
}

/// The default branch taken when no tag matched: the repository lookup must succeed, and
/// its body must name the branch (`Err` holds why it could not be read).
pub fn default_branch_ref(url: &str, status: u16, default_branch: Result<String, String>) -> (r: Result<ResolvedRef, AiDocsError>)
    ensures
        !is_success(status) ==> (r matches Err(e) && status_error_of(url@, status, e)),
        is_success(status) ==> match default_branch {
            Ok(b) => r matches Ok(rr) && rr.git_ref == b && rr.is_fallback,
            Err(m) => r matches Err(AiDocsError::Http(x)) && x == m,
        },
{
    if !(status >= 200 && status <= 299) {
        return Err(status_error(url, status));
    }
    match default_branch {
        Ok(b) => Ok(ResolvedRef { git_ref: b, is_fallback: true }),
        Err(m) => Err(AiDocsError::Http(m)),
    }
}

/// How probing ends when tag `i` onwards answer with `st[i..]`.
#[derive(Debug, Clone, Copy, PartialEq, Eq, Structural)]
pub enum ProbeEnd {
    Taken(usize),
    Aborted(usize),
    DefaultBranch,
}

/// The end of tag probing from index `i` on, following `tag_step_spec` one answer at a time.
pub open spec fn probe_run(st: Seq<u16>, i: nat) -> ProbeEnd
    decreases st.len() - i,
{
    if i >= st.len() {
        ProbeEnd::DefaultBranch
    } else if is_success(st[i as int]) {
        ProbeEnd::Taken(i as usize)
    } else if st[i as int] == 404 {
        probe_run(st, i + 1)
    } else {
        ProbeEnd::Aborted(i as usize)
    }
}

/// Tag candidates are probed in order and the first that answers with success is taken;
/// when every candidate answers 404 the default branch is used; and the reference taken from
/// the default branch is marked as a fallback.
pub proof fn tag_resolution_law(
    tags: Seq<String>,
    st: Seq<u16>,
    k: int,
    url: Seq<char>,
    branch: String,
    r: Result<ResolvedRef, AiDocsError>,
)
    requires
        st.len() == tags.len(),
        st.len() <= usize::MAX,
    ensures
        (forall|j: int| 0 <= j < st.len() ==> st[j] == 404) ==> probe_run(st, 0) == ProbeEnd::DefaultBranch,
        0 <= k < st.len() && is_success(st[k]) && (forall|j: int| 0 <= j < k ==> st[j] == 404)
            ==> probe_run(st, 0) == ProbeEnd::Taken(k as usize),
        0 <= k < st.len() && (forall|j: int| 0 <= j < k ==> st[j] == 404) ==> forall|x: TagStep|
            tag_step_spec(tags, k, url, st[k], x) ==> (is_success(st[k]) <==> x is Found),
{
    lemma_probe_all_404(st, 0);
    if 0 <= k < st.len() && is_success(st[k]) && (forall|j: int| 0 <= j < k ==> st[j] == 404) {
        lemma_probe_first_success(st, 0, k);
    }
}

proof fn lemma_probe_all_404(st: Seq<u16>, i: nat)
    requires
        st.len() <= usize::MAX,
    ensures
        (forall|j: int| i <= j < st.len() ==> st[j] == 404) ==> probe_run(st, i) == ProbeEnd::DefaultBranch,
    decreases st.len() - i,
{
    if i < st.len() {
        lemma_probe_all_404(st, i + 1);
    }
}

proof fn lemma_probe_first_success(st: Seq<u16>, i: nat, k: int)
    requires
        st.len() <= usize::MAX,
        i <= k < st.len(),
        is_success(st[k]),
        forall|j: int| i <= j < k ==> st[j] == 404,
    ensures
        probe_run(st, i) == ProbeEnd::Taken(k as usize),
    decreases k - i,
{
    if i < k {
        lemma_probe_first_success(st, i + 1, k);
    }
}

} // verus!
verus! {

/// What fetching one file does after a candidate path answered.
#[derive(Debug)]
pub enum FileStep {
    /// Try the candidate at this index next.
    Next(usize),
    /// The file is settled.
    Done(Result<FetchedFile, AiDocsError>),
}

/// The error of a request whose candidates all answered 404: required requests name the
/// repository, the path and every candidate tried; optional ones only the path.
pub open spec fn exhausted_error(req: FileRequest, repo: Seq<char>, e: AiDocsError) -> bool {
    if req.required {
        e matches AiDocsError::GitHubFileNotFound { repo: r, path, tried_tags } && r@ == repo && path
            == req.original_path && tried_tags@ == req.candidates@
    } else {
        e matches AiDocsError::OptionalFileNotFound(path) && path == req.original_path
    }
}

/// The error for a request whose candidates were all missing.
pub fn exhausted(req: &FileRequest, repo: &str) -> (r: AiDocsError)
    ensures
        exhausted_error(*req, repo@, r),
{
    if req.required {
        AiDocsError::GitHubFileNotFound {
            repo: copy_str(repo),
            path: req.original_path.clone(),
            tried_tags: clone_strings(&req.candidates),
        }
    } else {
        AiDocsError::OptionalFileNotFound(req.original_path.clone())
    }
}

/// Where fetching a file starts: the first candidate, or at once the not-found error when
/// there is none.
pub fn file_start(req: &FileRequest, repo: &str) -> (r: FileStep)
    ensures
        req.candidates.len() > 0 ==> r == FileStep::Next(0),
        req.candidates.len() == 0 ==> (r matches FileStep::Done(Err(e)) && exhausted_error(*req, repo@, e)),
{
    if req.candidates.len() > 0 {
        FileStep::Next(0)
    } else {
        FileStep::Done(Err(exhausted(req, repo)))
    }
}

/// One step of fetching a file: success takes the body with the URL it came from, 404 moves
/// to the next candidate or, after the last, ends in the not-found error, and any other
/// status fails.
pub open spec fn file_step_spec(
    req: FileRequest,
    index: int,
    repo: Seq<char>,
    url: Seq<char>,
    status: u16,
    body: Seq<char>,
    r: FileStep,
) -> bool {
    if status == 404 {
        if index + 1 < req.candidates.len() {
            r == FileStep::Next((index + 1) as usize)
        } else {
            r matches FileStep::Done(Err(e)) && exhausted_error(req, repo, e)
        }
    } else if !is_success(status) {
        r matches FileStep::Done(Err(e)) && status_error_of(url, status, e)
    } else {
        r matches FileStep::Done(Ok(f)) && f.path == req.original_path && f.source_url@ == url
            && f.content@ == body
    }
}

/// Judges the answer for candidate `req.candidates[index]`, fetched from `url`.
pub fn file_step(
    req: &FileRequest,
    index: usize,
    repo: &str,
    url: &str,
    status: u16,
    body: String,
) -> (r: FileStep)
    requires
        index < req.candidates.len(),
    ensures
        file_step_spec(*req, index as int, repo@, url@, status, body@, r),
{
    if status == 404 {
        if index + 1 < req.candidates.len() {
            FileStep::Next(index + 1)
        } else {
            FileStep::Done(Err(exhausted(req, repo)))
        }
    } else if !(status >= 200 && status <= 299) {
        FileStep::Done(Err(status_error(url, status)))
    } else {
        FileStep::Done(
            Ok(FetchedFile { path: req.original_path.clone(), source_url: copy_str(url), content: body }),
        )
    }
}

/// The successfully fetched files of a batch of results, in order.
pub open spec fn fetched_files_of(rs: Seq<Result<FetchedFile, AiDocsError>>) -> Seq<FetchedFile>
    decreases rs.len(),
{
    if rs.len() == 0 {
        Seq::empty()
    } else {
        let init = fetched_files_of(rs.drop_last());
        match rs.last() {
            Ok(f) => init.push(f),
            Err(_) => init,
        }
    }
}

/// Whether a failed fetch counts as an error: a missing optional file does not.
pub open spec fn counts_as_error(r: Result<FetchedFile, AiDocsError>) -> bool {
    match r {
        Ok(_) => false,
        Err(AiDocsError::OptionalFileNotFound(_)) => false,
        Err(_) => true,
    }
}

/// How many results of a batch count as errors.
pub open spec fn error_count(rs: Seq<Result<FetchedFile, AiDocsError>>) -> nat
    decreases rs.len(),
{
    if rs.len() == 0 {
        0
    } else {
        error_count(rs.drop_last()) + if counts_as_error(rs.last()) {
            1nat
        } else {
            0nat
        }
    }
}

pub proof fn lemma_error_count_bound(rs: Seq<Result<FetchedFile, AiDocsError>>)
    ensures
        error_count(rs) <= rs.len(),
    decreases rs.len(),
{
    if rs.len() > 0 {
        lemma_error_count_bound(rs.drop_last());
    }
}

/// The files a batch of fetches produced, and how many real errors it had.
#[derive(Debug, Clone)]
pub struct FetchCollection {
    pub files: Vec<FetchedFile>,
    pub non_optional_errors: usize,
}

/// Keeps the fetched files of a batch and counts its failures, leaving out missing optional
/// files.
pub fn collect_fetched_files(
    results: Vec<Result<FetchedFile, AiDocsError>>,
    crate_name: &str,
    version: &str,
) -> (r: FetchCollection)
    ensures
        r.files@ == fetched_files_of(results@),
        r.non_optional_errors == error_count(results@),
{
    let mut files: Vec<FetchedFile> = Vec::new();
    let mut errors: usize = 0;
    let mut i: usize = 0;
    while i < results.len()
        invariant
            i <= results.len(),
            files@ == fetched_files_of(results@.take(i as int)),
            errors == error_count(results@.take(i as int)),
        decreases results.len() - i,
    {
        proof {
            assert(results@.take(i + 1).drop_last() =~= results@.take(i as int));
            lemma_error_count_bound(results@.take(i as int));
        }
        match &results[i] {
            Ok(f) => {
                files.push(copy_fetched(f));
            },
            Err(AiDocsError::OptionalFileNotFound(_)) => {},
            Err(_) => {
                errors = errors + 1;
            },
        }
        i = i + 1;
    }
    assert(results@.take(results.len() as int) =~= results@);
    FetchCollection { files, non_optional_errors: errors }
}

/// A request that exhausts its candidates never counts as an error when it is optional; a
/// required one does, and its error lists every candidate tried.
pub proof fn missing_file_law(req: FileRequest, repo: Seq<char>, e: AiDocsError)
    requires
        exhausted_error(req, repo, e),
    ensures
        !req.required ==> !counts_as_error(Err(e)),
        req.required ==> counts_as_error(Err(e)) && (e matches AiDocsError::GitHubFileNotFound {
            tried_tags,
            ..
        } && tried_tags@ == req.candidates@),
{
}

} // verus!
