use ai_fdocs::config::{Config, CrateDoc, Settings, SyncMode};
use ai_fdocs::status::{
    classify_lockfile, collect_status, collect_status_latest, format_status_table, summarize,
    CacheDir, CrateStatus, DocsStatus, StatusMode,
};
use ai_fdocs::storage::{CrateMeta, MetaRead};
use ai_fdocs::versions::VersionMap;

fn meta(version: &str, fallback: bool, kind: Option<&str>) -> MetaRead {
    MetaRead::Parsed(CrateMeta {
        schema_version: 1,
        version: version.to_string(),
        git_ref: "v".to_string(),
        fetched_at: "2024-01-01".to_string(),
        is_fallback: fallback,
        source_kind: kind.map(str::to_string),
        upstream_checked_at: None,
        truncated: None,
    })
}

fn doc(repo: Option<&str>) -> CrateDoc {
    CrateDoc {
        repo: repo.map(str::to_string),
        subpath: None,
        files: None,
        sources: None,
        ai_notes: String::new(),
    }
}

fn config(names: &[&str]) -> Config {
    Config {
        settings: Settings::default(),
        crates: names.iter().map(|n| (n.to_string(), doc(Some("o/r")))).collect(),
    }
}

#[test]
fn status_formats_empty_status_table_with_zero_summary() {
    let table = format_status_table(&vec![]);
    assert!(table.contains("Crate"));
    assert!(table.contains("Lock Version"));
    assert!(table.contains("Docs Version"));
    assert!(table.contains("Status"));
    assert!(table.contains("Total: 0 | Synced: 0 | Missing: 0 | Outdated: 0 | Corrupted: 0"));
    assert!(!table.contains("Hint: run `cargo ai-fdocs sync`"));
}

#[test]
fn status_formats_missing_lock_version_and_shows_hints_and_problem_details() {
    let statuses = vec![CrateStatus {
        crate_name: "serde".to_string(),
        lock_version: None,
        docs_version: None,
        status: DocsStatus::Missing,
        reason: "crate missing in Cargo.lock".to_string(),
        reason_code: "lockfile_missing_crate".to_string(),
        mode: StatusMode::Lockfile.as_str().to_string(),
        source_kind: None,
    }];
    let table = format_status_table(&statuses);
    assert!(table.contains("serde"));
    assert!(table.contains("Missing"));
    assert!(table.contains("crate missing in Cargo.lock"));
    assert!(table.contains("Hint: run `cargo ai-fdocs sync`"));
    assert!(table.contains("CI hint: run `cargo ai-fdocs check`"));
    assert!(table.contains("Problem details:"));
}

#[test]
fn table_rows_are_padded() {
    let table = format_status_table(&vec![]);
    let first = table.lines().next().unwrap();
    assert_eq!(first, format!("{:<24} {:<16} {:<16} {:<14}", "Crate", "Lock Version", "Docs Version", "Status"));
    assert_eq!(table.lines().nth(1).unwrap(), format!("{} {} {} {}", "-".repeat(24), "-".repeat(16), "-".repeat(16), "-".repeat(14)));
}

#[test]
fn lockfile_classification_covers_every_state() {
    let missing = classify_lockfile("a", Some("1.0.0"), None, None);
    assert_eq!(missing.status, DocsStatus::Missing);
    assert_eq!(missing.reason_code, "lockfile_missing_artifacts");
    let outdated_dir = classify_lockfile("a", Some("1.0.0"), None, Some("0.9.0"));
    assert_eq!(outdated_dir.status, DocsStatus::Outdated);
    assert_eq!(outdated_dir.reason, "cached docs version 0.9.0 differs from lock version 1.0.0");
    let corrupt = classify_lockfile("a", Some("1.0.0"), Some(&MetaRead::Unreadable), None);
    assert_eq!(corrupt.status, DocsStatus::Corrupted);
    assert_eq!(corrupt.reason_code, "meta_unreadable");
    let invalid = classify_lockfile("a", Some("1.0.0"), Some(&MetaRead::Invalid), None);
    assert_eq!(invalid.reason_code, "meta_invalid_toml");
    let mismatch = classify_lockfile("a", Some("1.0.0"), Some(&meta("0.9.0", false, None)), None);
    assert_eq!(mismatch.status, DocsStatus::Outdated);
    assert_eq!(mismatch.docs_version.as_deref(), Some("0.9.0"));
    let fallback = classify_lockfile("a", Some("1.0.0"), Some(&meta("1.0.0", true, None)), None);
    assert_eq!(fallback.status, DocsStatus::SyncedFallback);
    assert_eq!(fallback.source_kind.as_deref(), Some("github_fallback"));
    let ok = classify_lockfile("a", Some("1.0.0"), Some(&meta("1.0.0", false, None)), None);
    assert_eq!(ok.status, DocsStatus::Synced);
    assert_eq!(ok.reason_code, "lockfile_ok");
    assert_eq!(ok.mode, "lockfile");
    let mut newer = meta("1.0.0", false, Some("github"));
    if let MetaRead::Parsed(m) = &mut newer {
        m.schema_version = 2;
    }
    let schema = classify_lockfile("a", Some("1.0.0"), Some(&newer), None);
    assert_eq!(schema.status, DocsStatus::Corrupted);
    assert_eq!(schema.reason, ".aifd-meta.toml schema version 2 is newer than supported version 1");
    let absent = classify_lockfile("a", None, None, None);
    assert_eq!(absent.status, DocsStatus::Missing);
    assert_eq!(absent.reason, "crate missing in Cargo.lock");
}

#[test]
fn collect_status_reads_the_listing() {
    let mut lock = VersionMap::new();
    lock.insert("a".to_string(), "1.0.0".to_string());
    lock.insert("b".to_string(), "2.0.0".to_string());
    let listing = vec![
        CacheDir { name: "a@1.0.0".to_string(), meta: meta("1.0.0", false, None) },
        CacheDir { name: "b@1.9.0".to_string(), meta: meta("1.9.0", false, None) },
        CacheDir { name: "b@1.10.0".to_string(), meta: meta("1.10.0", false, None) },
    ];
    let statuses = collect_status(&config(&["a", "b", "c"]), &lock, &listing);
    assert_eq!(statuses.len(), 3);
    assert_eq!(statuses[0].status, DocsStatus::Synced);
    assert_eq!(statuses[1].status, DocsStatus::Outdated);
    assert_eq!(statuses[1].docs_version.as_deref(), Some("1.10.0"));
    assert_eq!(statuses[2].status, DocsStatus::Missing);
    let s = summarize(&statuses);
    assert_eq!((s.total, s.synced, s.missing, s.outdated, s.corrupted), (3, 1, 1, 1, 0));
    assert!(s.has_problems());
}

#[test]
fn collect_status_latest_marks_github_fallback_as_synced_fallback() {
    let listing = vec![CacheDir {
        name: "serde@1.0.0".to_string(),
        meta: meta("1.0.0", false, Some("github_fallback")),
    }];
    let mut config = config(&["serde"]);
    config.settings.sync_mode = SyncMode::LatestDocs;
    let statuses = collect_status_latest(&config, &listing, &vec![None]);
    assert_eq!(statuses.len(), 1);
    assert_eq!(statuses[0].status, DocsStatus::SyncedFallback);
    assert_eq!(statuses[0].reason_code, "latest_ok_fallback");
    assert_eq!(statuses[0].mode, "latest_docs");
    assert_eq!(statuses[0].source_kind.as_deref(), Some("github_fallback"));
}

#[test]
fn latest_status_flags_newer_published_version() {
    let listing = vec![CacheDir { name: "serde@1.0.0".to_string(), meta: meta("1.0.0", false, None) }];
    let config = config(&["serde", "tokio"]);
    let statuses = collect_status_latest(&config, &listing, &vec![Some("1.1.0".to_string()), None]);
    assert_eq!(statuses[0].status, DocsStatus::Outdated);
    assert_eq!(statuses[0].reason, "latest version 1.1.0 is newer than cached 1.0.0");
    assert_eq!(statuses[0].source_kind.as_deref(), Some("docsrs"));
    assert_eq!(statuses[1].status, DocsStatus::Missing);
    assert_eq!(statuses[1].reason_code, "latest_missing_artifacts");
}

#[test]
fn formats_empty_status_table_with_zero_summary() {
    let table = format_status_table(&vec![]);
    assert!(table.contains("Crate"));
    assert!(table.contains("Lock Version"));
    assert!(table.contains("Docs Version"));
    assert!(table.contains("Status"));
    assert!(table.contains("Total: 0 | Synced: 0 | Missing: 0 | Outdated: 0 | Corrupted: 0"));
    assert!(!table.contains("Hint: run `cargo ai-fdocs sync`"));
}

#[test]
fn formats_missing_lock_version_and_shows_hints_and_problem_details() {
    let statuses = vec![CrateStatus {
        crate_name: "serde".to_string(),
        lock_version: None,
        docs_version: None,
        status: DocsStatus::Missing,
        reason: "crate missing in Cargo.lock".to_string(),
        reason_code: "lockfile_missing_crate".to_string(),
        mode: StatusMode::Lockfile.as_str().to_string(),
        source_kind: None,
    }];
    let table = format_status_table(&statuses);
    assert!(table.contains("serde"));
    assert!(table.contains("Missing"));
    assert!(table.contains("crate missing in Cargo.lock"));
    assert!(table.contains("Hint: run `cargo ai-fdocs sync`"));
    assert!(table.contains("CI hint: run `cargo ai-fdocs check`"));
    assert!(table.contains("Problem details:"));
}

#[test]
fn check_due_without_readable_record() {
    let mut m = meta("1.0.0", false, None);
    assert!(ai_fdocs::status::upstream_check_due(&m, 24));
    if let MetaRead::Parsed(x) = &mut m {
        x.upstream_checked_at = Some("not a date".to_string());
    }
    assert!(ai_fdocs::status::upstream_check_due(&m, 24));
    if let MetaRead::Parsed(x) = &mut m {
        x.upstream_checked_at = Some("2024-01-01".to_string());
    }
    assert!(!ai_fdocs::status::upstream_check_due_at(&m, 1_704_067_200 + 3600, 24));
    assert!(ai_fdocs::status::upstream_check_due_at(&m, 1_704_067_200 + 24 * 3600, 24));
    assert!(!ai_fdocs::status::upstream_check_due(&MetaRead::Invalid, 24));
    let listing = vec![CacheDir { name: "serde@1.0.0".to_string(), meta: meta("1.0.0", false, None) }];
    assert_eq!(ai_fdocs::status::latest_checks_due(&config(&["serde", "tokio"]), &listing), vec![true, false]);
}

#[test]
fn config_names_must_be_sorted() {
    assert!(config(&["a", "b"]).has_sorted_names());
    assert!(!config(&["b", "a"]).has_sorted_names());
    assert!(!config(&["a", "a"]).has_sorted_names());
}
