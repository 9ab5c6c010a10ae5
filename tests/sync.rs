use ai_fdocs::config::{CrateDoc, SyncMode};
use ai_fdocs::error::{AiDocsError, SyncErrorKind};
use ai_fdocs::fetch::{FetchedFile, ResolvedRef};
use ai_fdocs::job::{DocsRsArtifact, JobAction, JobEvent, SyncJob, SyncOutcome};
use ai_fdocs::storage::{CrateMeta, MetaRead};
use ai_fdocs::sync::{
    build_requests, drop_readme_requests, is_readme_request, resolve_sync_mode,
    should_emit_plain_check_errors, OutputFormat, SyncModeArg, SyncStats,
};

#[test]
fn main_emits_plain_errors_only_for_table_outside_gha() {
    assert!(should_emit_plain_check_errors(OutputFormat::Table, false));
    assert!(!should_emit_plain_check_errors(OutputFormat::Json, false));
}

#[test]
fn main_never_emits_plain_errors_in_github_actions() {
    assert!(!should_emit_plain_check_errors(OutputFormat::Table, true));
    assert!(!should_emit_plain_check_errors(OutputFormat::Json, true));
}

#[test]
fn main_build_requests_prefers_explicit_files_and_marks_them_required() {
    let requests = build_requests(
        Some("docs"),
        Some(vec!["README.md".to_string(), "guide/intro.md".to_string()]),
    );
    assert_eq!(requests.len(), 2);
    assert!(requests.iter().all(|r| r.required));
    assert_eq!(requests[0].candidates, vec!["README.md"]);
    assert_eq!(requests[1].candidates, vec!["guide/intro.md"]);
}

#[test]
fn default_requests_use_trimmed_subpath() {
    let requests = build_requests(Some("/crates/core/"), None);
    assert_eq!(requests.len(), 2);
    assert_eq!(requests[0].original_path, "crates/core/README.md");
    assert_eq!(
        requests[0].candidates,
        vec!["crates/core/README.md", "crates/core/Readme.md", "crates/core/readme.md"]
    );
    assert!(!requests[1].required);
    assert_eq!(requests[1].original_path, "crates/core/CHANGELOG.md");
    let plain = build_requests(Some("//"), None);
    assert_eq!(plain[0].original_path, "README.md");
}

#[test]
fn readme_requests_are_dropped_for_rendered_pages() {
    assert!(is_readme_request("readme.MD"));
    assert!(!is_readme_request("docs/README.md"));
    let kept = drop_readme_requests(build_requests(None, None));
    assert_eq!(kept.len(), 1);
    assert_eq!(kept[0].original_path, "CHANGELOG.md");
}

#[test]
fn resolve_sync_mode_prefers_cli_override() {
    let mode = resolve_sync_mode(Some(SyncModeArg::LatestDocs), SyncMode::Lockfile);
    assert_eq!(mode, SyncMode::LatestDocs);
}

#[test]
fn resolve_sync_mode_uses_settings_when_cli_not_set() {
    let mode = resolve_sync_mode(None, SyncMode::Lockfile);
    assert_eq!(mode, SyncMode::Lockfile);
}

#[test]
fn stats_count_errors_by_kind() {
    let mut stats = SyncStats::new();
    stats.record_error(SyncErrorKind::Auth);
    stats.record_error(SyncErrorKind::NotFound);
    stats.record_error(SyncErrorKind::NotFound);
    assert_eq!(stats.errors, 3);
    assert_eq!(stats.auth_errors, 1);
    assert_eq!(stats.not_found_errors, 2);
    assert_eq!(stats.network_errors, 0);
}

fn doc() -> CrateDoc {
    CrateDoc { repo: Some("o/r".to_string()), subpath: None, files: None, sources: None, ai_notes: String::new() }
}

fn job(mode: SyncMode, force: bool) -> SyncJob {
    SyncJob::new(mode, "demo".to_string(), doc(), force, 200, 24, "2024-05-06".to_string())
}

#[test]
fn lockfile_job_skips_unlocked_and_uses_cache() {
    let mut j = job(SyncMode::Lockfile, false);
    assert!(matches!(j.step(JobEvent::Started { lock_version: None }), JobAction::Finish(SyncOutcome::Skipped)));
    let mut j = job(SyncMode::Lockfile, false);
    match j.step(JobEvent::Started { lock_version: Some("1.0.0".to_string()) }) {
        JobAction::ReadCache { dir_name } => assert_eq!(dir_name, "demo@1.0.0"),
        other => panic!("unexpected {other:?}"),
    }
    let meta = MetaRead::Parsed(CrateMeta {
        schema_version: 1,
        version: "1.0.0".to_string(),
        git_ref: "v1.0.0".to_string(),
        fetched_at: "2024-01-01".to_string(),
        is_fallback: false,
        source_kind: None,
        upstream_checked_at: None,
        truncated: None,
    });
    let a = j.step(JobEvent::CacheRead { meta, file_names: vec!["README.md".to_string()] });
    assert!(matches!(a, JobAction::Finish(SyncOutcome::Cached(Some(_)))));
}

#[test]
fn lockfile_job_fetches_and_saves() {
    let mut j = job(SyncMode::Lockfile, true);
    assert!(matches!(j.step(JobEvent::Started { lock_version: Some("1.0.0".to_string()) }), JobAction::ResolveRef { .. }));
    let a = j.step(JobEvent::RefResolved(Ok(ResolvedRef { git_ref: "v1.0.0".to_string(), is_fallback: false })));
    match &a {
        JobAction::FetchFiles { repo, git_ref, requests } => {
            assert_eq!(repo, "o/r");
            assert_eq!(git_ref, "v1.0.0");
            assert_eq!(requests.len(), 2);
        }
        other => panic!("unexpected {other:?}"),
    }
    let a = j.step(JobEvent::FilesFetched(vec![
        Ok(FetchedFile { path: "README.md".to_string(), source_url: "u".to_string(), content: "hi".to_string() }),
        Err(AiDocsError::OptionalFileNotFound("CHANGELOG.md".to_string())),
    ]));
    match &a {
        JobAction::Save(plan) => assert_eq!(plan.dir_name, "demo@1.0.0"),
        other => panic!("unexpected {other:?}"),
    }
    assert!(matches!(j.step(JobEvent::Saved(Ok(()))), JobAction::Finish(SyncOutcome::Synced(_))));
}

#[test]
fn job_without_files_is_not_found() {
    let mut j = job(SyncMode::Lockfile, true);
    j.step(JobEvent::Started { lock_version: Some("1.0.0".to_string()) });
    j.step(JobEvent::RefResolved(Ok(ResolvedRef { git_ref: "main".to_string(), is_fallback: true })));
    let a = j.step(JobEvent::FilesFetched(vec![Err(AiDocsError::OptionalFileNotFound("README.md".to_string()))]));
    assert!(matches!(a, JobAction::Finish(SyncOutcome::Error(SyncErrorKind::NotFound))));
    let mut k = job(SyncMode::Lockfile, true);
    k.step(JobEvent::Started { lock_version: Some("1.0.0".to_string()) });
    let a = k.step(JobEvent::RefResolved(Err(AiDocsError::GitHubAuth { url: "u".to_string(), status: 401 })));
    assert!(matches!(a, JobAction::Finish(SyncOutcome::Error(SyncErrorKind::Auth))));
}

#[test]
fn latest_job_falls_back_to_source_on_eligible_failure() {
    let mut j = job(SyncMode::LatestDocs, true);
    assert!(matches!(j.step(JobEvent::Started { lock_version: None }), JobAction::LookUpLatest));
    assert!(matches!(j.step(JobEvent::Latest(Ok("2.0.0".to_string()))), JobAction::FetchDocsPage { .. }));
    let a = j.step(JobEvent::DocsPage(Err(AiDocsError::HttpStatus { url: "u".to_string(), status: 503 })));
    assert!(matches!(a, JobAction::ResolveRef { .. }));
    let mut k = job(SyncMode::LatestDocs, true);
    k.step(JobEvent::Started { lock_version: None });
    k.step(JobEvent::Latest(Ok("2.0.0".to_string())));
    let a = k.step(JobEvent::DocsPage(Err(AiDocsError::Other("x".to_string()))));
    assert!(matches!(a, JobAction::Finish(SyncOutcome::Error(SyncErrorKind::Other))));
}

#[test]
fn hybrid_job_substitutes_rendered_readme() {
    let mut j = job(SyncMode::Hybrid, true);
    assert!(matches!(j.step(JobEvent::Started { lock_version: Some("1.0.0".to_string()) }), JobAction::FetchDocsPage { .. }));
    let art = DocsRsArtifact { markdown: "# page".to_string(), docsrs_input_url: "https://docs.rs/crate/demo/1.0.0".to_string(), truncated: false };
    assert!(matches!(j.step(JobEvent::DocsPage(Ok(art))), JobAction::ResolveRef { .. }));
    match j.step(JobEvent::RefResolved(Ok(ResolvedRef { git_ref: "v1.0.0".to_string(), is_fallback: false }))) {
        JobAction::FetchFiles { requests, .. } => {
            assert_eq!(requests.len(), 1);
            assert_eq!(requests[0].original_path, "CHANGELOG.md");
        }
        other => panic!("unexpected {other:?}"),
    }
    match j.step(JobEvent::FilesFetched(vec![Err(AiDocsError::OptionalFileNotFound("CHANGELOG.md".to_string()))])) {
        JobAction::Save(plan) => {
            assert_eq!(plan.files.len(), 1);
            assert_eq!(plan.files[0].name, "README.md");
            assert!(plan.files[0].content.ends_with("# page"));
            assert_eq!(plan.meta.source_kind.as_deref(), Some("hybrid_docsrs_github"));
        }
        other => panic!("unexpected {other:?}"),
    }
}

#[test]
fn emits_plain_errors_only_for_table_outside_gha() {
    assert!(should_emit_plain_check_errors(OutputFormat::Table, false));
    assert!(!should_emit_plain_check_errors(OutputFormat::Json, false));
}

#[test]
fn never_emits_plain_errors_in_github_actions() {
    assert!(!should_emit_plain_check_errors(OutputFormat::Table, true));
    assert!(!should_emit_plain_check_errors(OutputFormat::Json, true));
}

#[test]
fn build_requests_prefers_explicit_files_and_marks_them_required() {
    let requests = build_requests(
        Some("docs"),
        Some(vec!["README.md".to_string(), "guide/intro.md".to_string()]),
    );
    assert_eq!(requests.len(), 2);
    assert!(requests.iter().all(|r| r.required));
    assert_eq!(requests[0].candidates, vec!["README.md"]);
    assert_eq!(requests[1].candidates, vec!["guide/intro.md"]);
}

#[test]
fn outcomes_are_tallied() {
    let mut stats = SyncStats::new();
    stats.record_outcome(&SyncOutcome::Skipped);
    stats.record_outcome(&SyncOutcome::Cached(None));
    stats.record_outcome(&SyncOutcome::Error(SyncErrorKind::Network));
    assert_eq!((stats.synced, stats.cached, stats.skipped, stats.errors, stats.network_errors), (0, 1, 1, 1, 1));
}

#[test]
fn latest_fallback_resolves_the_same_version_and_tags_the_save() {
    let mut j = job(SyncMode::LatestDocs, true);
    j.step(JobEvent::Started { lock_version: None });
    j.step(JobEvent::Latest(Ok("2.0.0".to_string())));
    match j.step(JobEvent::DocsPage(Err(AiDocsError::HttpStatus { url: "u".to_string(), status: 404 }))) {
        JobAction::ResolveRef { repo, version } => {
            assert_eq!(repo, "o/r");
            assert_eq!(version, "2.0.0");
        }
        other => panic!("unexpected {other:?}"),
    }
    j.step(JobEvent::RefResolved(Ok(ResolvedRef { git_ref: "v2.0.0".to_string(), is_fallback: false })));
    match j.step(JobEvent::FilesFetched(vec![Ok(FetchedFile { path: "README.md".to_string(), source_url: "u".to_string(), content: "x".to_string() })])) {
        JobAction::Save(plan) => assert_eq!(plan.meta.source_kind.as_deref(), Some("github_fallback")),
        other => panic!("unexpected {other:?}"),
    }
}

#[test]
fn lockfile_cache_miss_resolves_the_reference() {
    let mut j = job(SyncMode::Lockfile, false);
    j.step(JobEvent::Started { lock_version: Some("1.0.0".to_string()) });
    match j.step(JobEvent::CacheRead { meta: MetaRead::Unreadable, file_names: vec![] }) {
        JobAction::ResolveRef { repo, version } => {
            assert_eq!(repo, "o/r");
            assert_eq!(version, "1.0.0");
        }
        other => panic!("unexpected {other:?}"),
    }
}

#[test]
fn hybrid_without_repository_saves_or_skips() {
    let no_repo = CrateDoc { repo: None, subpath: None, files: None, sources: None, ai_notes: String::new() };
    let mut j = SyncJob::new(SyncMode::Hybrid, "demo".to_string(), no_repo.clone(), true, 200, 24, "2024-05-06".to_string());
    j.step(JobEvent::Started { lock_version: Some("1.0.0".to_string()) });
    let art = DocsRsArtifact { markdown: "# page".to_string(), docsrs_input_url: "u".to_string(), truncated: true };
    match j.step(JobEvent::DocsPage(Ok(art))) {
        JobAction::Save(plan) => {
            assert_eq!(plan.files[0].name, "API.md");
            assert_eq!(plan.meta.git_ref, "docs.rs");
            assert_eq!(plan.meta.fetched_at, "2024-05-06");
            assert_eq!(plan.meta.truncated, Some(true));
            assert_eq!(plan.meta.source_kind.as_deref(), Some("docsrs"));
        }
        other => panic!("unexpected {other:?}"),
    }
    let mut k = SyncJob::new(SyncMode::Hybrid, "demo".to_string(), no_repo, true, 200, 24, "2024-05-06".to_string());
    k.step(JobEvent::Started { lock_version: Some("1.0.0".to_string()) });
    let a = k.step(JobEvent::DocsPage(Err(AiDocsError::Http("down".to_string()))));
    assert!(matches!(a, JobAction::Finish(SyncOutcome::Skipped)));
}
