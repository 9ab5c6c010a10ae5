use ai_fdocs::error::{is_docsrs_fallback_eligible, AiDocsError, SyncErrorKind};
use ai_fdocs::fetch::{
    collect_fetched_files, default_branch_ref, docs_retry_step, file_start, file_step,
    github_retry_step, status_error, tag_candidates, tag_step, AttemptOutcome, Endpoints,
    FetchedFile, FileRequest, FileStep, RetryAction, RetryState, TagStep,
};

#[test]
fn latest_marks_fallback_eligible_statuses() {
    let e = |status| AiDocsError::HttpStatus { url: "u".to_string(), status };
    assert!(is_docsrs_fallback_eligible(&e(404)));
    assert!(is_docsrs_fallback_eligible(&e(429)));
    assert!(is_docsrs_fallback_eligible(&e(503)));
    assert!(!is_docsrs_fallback_eligible(&e(401)));
}

#[test]
fn maps_error_kinds_for_sync_summary() {
    assert_eq!(
        AiDocsError::GitHubAuth { url: "u".to_string(), status: 401 }.sync_kind(),
        SyncErrorKind::Auth
    );
    assert_eq!(
        AiDocsError::GitHubRateLimit { url: "u".to_string(), status: 429 }.sync_kind(),
        SyncErrorKind::RateLimit
    );
    assert_eq!(
        AiDocsError::HttpStatus { url: "u".to_string(), status: 404 }.sync_kind(),
        SyncErrorKind::NotFound
    );
    assert_eq!(AiDocsError::Other("x".to_string()).sync_kind(), SyncErrorKind::Other);
    assert_eq!(
        AiDocsError::HttpStatus { url: "u".to_string(), status: 502 }.sync_kind(),
        SyncErrorKind::Network
    );
}

#[test]
fn server_errors_are_retried_twice_with_doubling_backoff() {
    let mut s = RetryState::start();
    let mut waits = Vec::new();
    let delivered = loop {
        let (next, action) = github_retry_step(s, "http://x", &AttemptOutcome::Response(500));
        s = next;
        match action {
            RetryAction::Retry(ms) => waits.push(ms),
            RetryAction::Deliver(status) => break status,
            RetryAction::Fail(_) => panic!("500 must not fail"),
        }
    };
    assert_eq!(waits, vec![500, 1000]);
    assert_eq!(delivered, 500);
}

#[test]
fn auth_and_rate_limit_fail_at_once() {
    let s = RetryState::start();
    for status in [401u16, 403, 429] {
        let (_, action) = github_retry_step(s, "http://x", &AttemptOutcome::Response(status));
        match action {
            RetryAction::Fail(e) => {
                let kind = e.sync_kind();
                if status == 401 {
                    assert_eq!(kind, SyncErrorKind::Auth);
                } else {
                    assert_eq!(kind, SyncErrorKind::RateLimit);
                }
            }
            _ => panic!("must fail without retry"),
        }
    }
    let (_, a) = github_retry_step(s, "http://x", &AttemptOutcome::Response(404));
    assert!(matches!(a, RetryAction::Deliver(404)));
}

#[test]
fn transport_failures_retry_then_fail() {
    let t = AttemptOutcome::Transport { retryable: true, message: "timeout".to_string() };
    let (s2, a1) = github_retry_step(RetryState::start(), "http://x", &t);
    assert!(matches!(a1, RetryAction::Retry(500)));
    let (s3, a2) = github_retry_step(s2, "http://x", &t);
    assert!(matches!(a2, RetryAction::Retry(1000)));
    let (_, a3) = github_retry_step(s3, "http://x", &t);
    assert!(matches!(a3, RetryAction::Fail(AiDocsError::Fetch { .. })));
    let hard = AttemptOutcome::Transport { retryable: false, message: "bad".to_string() };
    let (_, a4) = docs_retry_step(RetryState::start(), &hard);
    assert!(matches!(a4, RetryAction::Fail(AiDocsError::Http(_))));
    let (_, a5) = docs_retry_step(RetryState::start(), &AttemptOutcome::Response(429));
    assert!(matches!(a5, RetryAction::Retry(500)));
}

#[test]
fn resolves_fallback_to_default_branch_when_tags_missing() {
    let tags = tag_candidates("demo", "1.2.3");
    assert_eq!(tags, vec!["v1.2.3", "1.2.3", "demo-v1.2.3", "demo-1.2.3"]);
    let api = Endpoints::with_base_urls("http://api.test/", "http://raw.invalid");
    assert_eq!(
        api.api_tag_url("owner/repo", &tags[0]),
        "http://api.test/repos/owner/repo/git/ref/tags/v1.2.3"
    );
    let mut index = 0;
    loop {
        let url = api.api_tag_url("owner/repo", &tags[index]);
        match tag_step(&tags, index, &url, 404) {
            TagStep::Next(i) => index = i,
            TagStep::DefaultBranch => break,
            _ => panic!("404 must move on"),
        }
    }
    assert_eq!(index, 3);
    let repo_url = api.api_repo_url("owner/repo");
    let resolved = default_branch_ref(&repo_url, 200, Ok("main".to_string())).expect("resolve fallback ref");
    assert_eq!(resolved.git_ref, "main");
    assert!(resolved.is_fallback);
}

#[test]
fn first_existing_tag_wins() {
    let tags = tag_candidates("demo", "1.2.3");
    assert!(matches!(tag_step(&tags, 0, "u", 404), TagStep::Next(1)));
    match tag_step(&tags, 1, "u", 200) {
        TagStep::Found(r) => {
            assert_eq!(r.git_ref, "1.2.3");
            assert!(!r.is_fallback);
        }
        _ => panic!("success must take the tag"),
    }
    assert!(matches!(tag_step(&tags, 0, "u", 500), TagStep::Fail(AiDocsError::HttpStatus { status: 500, .. })));
    assert!(matches!(status_error("u", 403), AiDocsError::GitHubRateLimit { status: 403, .. }));
    assert!(default_branch_ref("u", 404, Ok("main".to_string())).is_err());
}

fn request(path: &str, required: bool) -> FileRequest {
    FileRequest { original_path: path.to_string(), candidates: vec![path.to_string()], required }
}

fn fetch_one(req: &FileRequest, answers: &[(u16, &str)]) -> Result<FetchedFile, AiDocsError> {
    let api = Endpoints::with_base_urls("http://api.invalid", "http://raw.test");
    let mut step = file_start(req, "owner/repo");
    let mut answers = answers.iter();
    loop {
        match step {
            FileStep::Done(r) => return r,
            FileStep::Next(i) => {
                let url = api.raw_file_url("owner/repo", "main", &req.candidates[i]);
                let (status, body) = answers.next().expect("an answer per probe");
                step = file_step(req, i, "owner/repo", &url, *status, body.to_string());
            }
        }
    }
}

#[test]
fn fetch_files_reports_partial_failures_and_optional_miss() {
    let readme = fetch_one(&request("README.md", true), &[(200, "doc")]);
    let changelog = fetch_one(&request("CHANGELOG.md", true), &[(404, "")]);
    let license = fetch_one(&request("LICENSE", false), &[(404, "")]);
    let f = readme.as_ref().unwrap();
    assert_eq!(f.content, "doc");
    assert_eq!(f.source_url, "http://raw.test/owner/repo/main/README.md");
    assert!(matches!(&changelog, Err(AiDocsError::GitHubFileNotFound { tried_tags, .. }) if tried_tags == &vec!["CHANGELOG.md".to_string()]));
    assert!(matches!(&license, Err(AiDocsError::OptionalFileNotFound(path)) if path == "LICENSE"));
    let kept = collect_fetched_files(vec![readme, changelog, license], "demo", "1.0.0");
    assert_eq!(kept.files.len(), 1);
    assert_eq!(kept.non_optional_errors, 1);
}

#[test]
fn main_collect_fetched_files_keeps_successes_on_partial_failures() {
    let results = vec![
        Ok(FetchedFile {
            path: "README.md".to_string(),
            source_url: "https://example.invalid/readme".to_string(),
            content: "hello".to_string(),
        }),
        Err(AiDocsError::OptionalFileNotFound("CHANGELOG.md".to_string())),
        Err(AiDocsError::GitHubFileNotFound {
            repo: "owner/repo".to_string(),
            path: "docs/guide.md".to_string(),
            tried_tags: vec!["v1.0.0".to_string()],
        }),
    ];
    let kept = collect_fetched_files(results, "demo", "1.0.0");
    assert_eq!(kept.files.len(), 1);
    assert_eq!(kept.files[0].path, "README.md");
    assert_eq!(kept.non_optional_errors, 1);
}

#[test]
fn main_collect_fetched_files_counts_only_non_optional_errors() {
    let results = vec![
        Err(AiDocsError::OptionalFileNotFound("README.md".to_string())),
        Err(AiDocsError::OptionalFileNotFound("CHANGELOG.md".to_string())),
    ];
    let kept = collect_fetched_files(results, "demo", "1.0.0");
    assert!(kept.files.is_empty());
    assert_eq!(kept.non_optional_errors, 0);
}

#[test]
fn request_without_candidates_is_missing_at_once() {
    let req = FileRequest { original_path: "X".to_string(), candidates: vec![], required: false };
    assert!(matches!(file_start(&req, "o/r"), FileStep::Done(Err(AiDocsError::OptionalFileNotFound(_)))));
}
