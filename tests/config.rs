use ai_fdocs::freshness::{is_fresh_at, is_latest_cache_fresh};
use ai_fdocs::job::pick_latest_version;
use ai_fdocs::config::{parse_docs_source, parse_sync_mode, Config, CrateDoc, DocsSource, Settings, Source, SyncMode};
use ai_fdocs::error::AiDocsError;
use ai_fdocs::versions::{is_version_better, parse_minor, resolve_versions, LockPackage, VersionMap};

fn with_settings(f: impl FnOnce(&mut Settings)) -> Config {
    let mut settings = Settings::default();
    f(&mut settings);
    let doc = CrateDoc { repo: Some("serde-rs/serde".to_string()), subpath: None, files: None, sources: None, ai_notes: String::new() };
    Config { settings, crates: vec![("serde".to_string(), doc)] }
}

fn invalid(c: &Config) -> String {
    match c.validate() {
        Err(AiDocsError::InvalidConfig(m)) => m,
        other => panic!("expected invalid config, got {other:?}"),
    }
}

#[test]
fn settings_defaults() {
    let s = Settings::default();
    assert_eq!(s.output_dir, "fdocs");
    assert_eq!(s.max_file_size_kb, 200);
    assert_eq!(s.sync_concurrency, 8);
    assert_eq!(s.latest_ttl_hours, 24);
    assert_eq!(s.sync_mode, SyncMode::Lockfile);
    assert_eq!(s.docs_source, DocsSource::GitHub);
    assert!(with_settings(|_| {}).validate().is_ok());
}

#[test]
fn validation_rejects_bad_settings() {
    assert_eq!(invalid(&with_settings(|s| s.max_file_size_kb = 0)), "settings.max_file_size_kb must be greater than 0");
    assert_eq!(invalid(&with_settings(|s| s.sync_concurrency = 0)), "settings.sync_concurrency must be greater than 0");
    assert!(invalid(&with_settings(|s| s.sync_concurrency = 51)).contains("must not exceed 50"));
    assert_eq!(invalid(&with_settings(|s| s.latest_ttl_hours = 0)), "settings.latest_ttl_hours must be greater than 0");
    assert_eq!(
        invalid(&with_settings(|s| s.docsrs_single_page = false)),
        "settings.docsrs_single_page=false is not supported yet; use true"
    );
}

#[test]
fn repo_is_required_only_in_lockfile_mode() {
    let doc = CrateDoc { repo: None, subpath: None, files: None, sources: None, ai_notes: "x".to_string() };
    let mut c = Config { settings: Settings::default(), crates: vec![("serde".to_string(), doc)] };
    assert!(invalid(&c).contains("must define `repo` or legacy `sources` with GitHub for lockfile mode"));
    c.settings.sync_mode = SyncMode::LatestDocs;
    assert!(c.validate().is_ok());
}

#[test]
fn legacy_sources_give_repo_and_files() {
    let doc = CrateDoc {
        repo: None,
        subpath: None,
        files: None,
        sources: Some(vec![
            Source::DocsRs,
            Source::GitHub { repo: "a/b".to_string(), files: vec![] },
            Source::GitHub { repo: "c/d".to_string(), files: vec!["X.md".to_string()] },
        ]),
        ai_notes: String::new(),
    };
    assert_eq!(doc.github_repo(), Some("a/b"));
    assert_eq!(doc.effective_files(), Some(vec!["X.md".to_string()]));
}

#[test]
fn settings_sync_mode_accepts_latest_docs_aliases() {
    assert_eq!(parse_sync_mode("latest-docs").unwrap(), SyncMode::LatestDocs);
    assert_eq!(parse_sync_mode("latest_docs").unwrap(), SyncMode::LatestDocs);
    assert_eq!(parse_sync_mode("hybrid").unwrap(), SyncMode::Hybrid);
    assert_eq!(
        parse_sync_mode("weekly").unwrap_err(),
        "settings.sync_mode must be \"lockfile\", \"latest_docs\", or \"hybrid\", got: weekly"
    );
    assert_eq!(SyncMode::LatestDocs.as_str(), "latest_docs");
}

#[test]
fn config_with_invalid_docs_source_fails_parse() {
    assert_eq!(parse_docs_source("npm_tarball").unwrap_err(), "settings.docs_source must be \"github\", got: npm_tarball");
    assert_eq!(parse_docs_source("github").unwrap(), DocsSource::GitHub);
}

#[test]
fn parses_lockfile_packages_into_map() {
    let pkg = |n: &str, v: &str| LockPackage { name: Some(n.to_string()), version: Some(v.to_string()) };
    let packages = vec![pkg("serde", "1.0.0"), pkg("tokio", "1.44.0"), pkg("serde", "1.0.210"), LockPackage { name: None, version: Some("9".to_string()) }];
    let map: VersionMap = resolve_versions(Some(&packages)).unwrap();
    assert_eq!(map.get("serde").map(String::as_str), Some("1.0.210"));
    assert_eq!(map.get("tokio").map(String::as_str), Some("1.44.0"));
    assert_eq!(map.get("rand"), None);
    assert!(matches!(resolve_versions(None), Err(AiDocsError::CargoLockParse(m)) if m == "`package` array is missing"));
}

#[test]
fn versions_compare_numerically_then_textually() {
    assert!(is_version_better("1.10.0", Some("1.9.0")));
    assert!(!is_version_better("1.9.0", Some("1.10.0")));
    assert!(is_version_better("1.0.0", None));
    assert!(!is_version_better("1.0.0", Some("1.0.0")));
    assert!(is_version_better("1.0.1", Some("1.0")));
    assert!(is_version_better("1.0.0", Some("1.0.0-beta")));
    assert!(is_version_better("1.0.b", Some("1.0.a")));
    assert_eq!(parse_minor("0.13.1"), Some((0, 13)));
    assert_eq!(parse_minor("x.1"), None);
    assert_eq!(parse_minor("7"), None);
}

#[test]
fn config_hash_digests_the_configuration_text() {
    let doc = CrateDoc { repo: Some("a/b".to_string()), subpath: None, files: None, sources: None, ai_notes: String::new() };
    assert_eq!(doc.config_hash(), "6e38c66ac00fb7398fa7fe472d4c997c1f741a8b4f0a8d84d9470157746fc113");
    let legacy = CrateDoc {
        repo: None,
        subpath: None,
        files: Some(vec!["A.md".to_string(), "B.md".to_string()]),
        sources: Some(vec![Source::GitHub { repo: "x/y".to_string(), files: vec!["A.md".to_string()] }, Source::DocsRs]),
        ai_notes: "hi".to_string(),
    };
    assert_eq!(legacy.config_hash(), "c093cb44ce2b5b4759d6a7e46a54de3b79d1f0959ba65c921ee122ed560de044");
}

#[test]
fn latest_version_prefers_stable() {
    assert_eq!(pick_latest_version("a", Some("1.0.0".to_string()), Some("2.0.0-rc".to_string())).unwrap(), "1.0.0");
    assert_eq!(pick_latest_version("a", Some("  ".to_string()), Some("2.0.0-rc".to_string())).unwrap(), "2.0.0-rc");
    assert!(matches!(pick_latest_version("a", None, None), Err(AiDocsError::Other(m)) if m == "crates.io response for 'a' has no max version"));
}

#[test]
fn latest_cache_freshness_respects_ttl_hours() {
    let today = chrono::Utc::now().format("%Y-%m-%d").to_string();
    assert!(is_latest_cache_fresh(&today, 24));
    assert!(!is_latest_cache_fresh("1970-01-01", 24));
    assert!(!is_latest_cache_fresh("invalid-date", 24));
    assert!(is_fresh_at(Some(0), 3599, 1));
    assert!(!is_fresh_at(Some(0), 3600, 1));
    assert!(!is_fresh_at(None, 0, 24));
}

#[test]
fn bytes_are_written_as_lowercase_hex() {
    assert_eq!(ai_fdocs::config::to_lower_hex(&vec![0x0f, 0xa0, 0x00, 0xff]), "0fa000ff");
    assert_eq!(ai_fdocs::config::to_lower_hex(&vec![]), "");
}
