use ai_fdocs::config::{Config, CrateDoc, Settings};
use ai_fdocs::fetch::{FetchedFile, ResolvedRef};
use ai_fdocs::storage::{
    flatten_filename, inject_header, is_cached, plan_crate_save, prune_targets, read_cached_info,
    rust_output_dir, should_inject_header, CrateMeta, MetaRead,
};
use ai_fdocs::versions::{split_name_version, VersionMap};

fn doc() -> CrateDoc {
    CrateDoc { repo: Some("o/r".to_string()), subpath: None, files: None, sources: None, ai_notes: "notes".to_string() }
}

fn meta(version: &str) -> MetaRead {
    MetaRead::Parsed(CrateMeta {
        schema_version: 1,
        version: version.to_string(),
        git_ref: "v1".to_string(),
        fetched_at: "2024-01-01".to_string(),
        is_fallback: false,
        source_kind: None,
        upstream_checked_at: None,
        truncated: None,
    })
}

#[test]
fn test_flatten_root_file() {
    assert_eq!(flatten_filename("README.md"), "README.md");
}

#[test]
fn test_flatten_nested_file() {
    assert_eq!(flatten_filename("docs/guides/overview.md"), "docs__guides__overview.md");
}

#[test]
fn test_should_inject_header() {
    assert!(should_inject_header("README.md"));
    assert!(should_inject_header("guide.html"));
    assert!(!should_inject_header("example.rs"));
}

#[test]
fn test_split_name_version() {
    assert_eq!(split_name_version("serde@1.0.0"), Some(("serde", "1.0.0")));
    assert_eq!(split_name_version("serde"), None);
    assert_eq!(split_name_version("@1.0.0"), None);
    assert_eq!(split_name_version("a@b@2"), Some(("a@b", "2")));
}

#[test]
fn is_cached_requires_matching_recorded_version() {
    assert!(is_cached(&meta("1.0.0"), "1.0.0"));
    assert!(!is_cached(&meta("0.9.0"), "1.0.0"));
    assert!(!is_cached(&MetaRead::Invalid, "1.0.0"));
    assert!(!is_cached(&MetaRead::Unreadable, "1.0.0"));
}

#[test]
fn pruning_removes_stale_and_unconfigured_dirs() {
    let config = Config {
        settings: Settings::default(),
        crates: vec![("serde".to_string(), doc()), ("tokio".to_string(), doc())],
    };
    let mut lock = VersionMap::new();
    lock.insert("serde".to_string(), "1.0.1".to_string());
    lock.insert("tokio".to_string(), "1.44.0".to_string());
    let dirs = vec![
        "serde@1.0.0".to_string(),
        "serde@1.0.1".to_string(),
        "tokio@1.44.0".to_string(),
        "gone@0.1.0".to_string(),
        "not-a-cache-dir".to_string(),
    ];
    let removed = prune_targets(&dirs, &config, &lock);
    assert_eq!(removed, vec!["serde@1.0.0".to_string(), "gone@0.1.0".to_string()]);
}

#[test]
fn header_marks_fallback_content() {
    let h = inject_header("body", "o/r", "main", "README.md", true, "1.0.0", "https://x/README.md", "2024-05-06");
    assert_eq!(
        h,
        "<!-- AI-FDOCS: source=github.com/o/r ref=main path=README.md fetched=2024-05-06 -->\n<!-- AI-FDOCS: url=https://x/README.md -->\n<!-- AI-FDOCS WARNING: No tag found for version 1.0.0. Fetched from 'main' branch. Content may not match installed version. -->\n\nbody"
    );
}

#[test]
fn save_plan_processes_each_file() {
    let resolved = ResolvedRef { git_ref: "v1.0.0".to_string(), is_fallback: false };
    let files = vec![
        FetchedFile { path: "docs/a.md".to_string(), source_url: "u1".to_string(), content: "A".to_string() },
        FetchedFile { path: "src/lib.rs".to_string(), source_url: "u2".to_string(), content: "B".to_string() },
    ];
    let plan = plan_crate_save("demo", "1.0.0", "o/r", &resolved, &files, &doc(), 200, "2024-05-06", "github", false);
    assert_eq!(plan.dir_name, "demo@1.0.0");
    assert_eq!(plan.files[0].name, "docs__a.md");
    assert!(plan.files[0].content.starts_with("<!-- AI-FDOCS: source=github.com/o/r ref=v1.0.0 path=docs/a.md"));
    assert!(plan.files[0].content.ends_with("\n\nA"));
    assert_eq!(plan.files[1].name, "src__lib.rs");
    assert_eq!(plan.files[1].content, "B");
    assert_eq!(plan.meta.version, "1.0.0");
    assert_eq!(plan.meta.schema_version, 1);
    assert_eq!(plan.meta.source_kind.as_deref(), Some("github"));
    assert_eq!(plan.saved.files, vec!["docs__a.md".to_string(), "src__lib.rs".to_string()]);
    assert_eq!(plan.saved.ai_notes, "notes");
}

#[test]
fn cached_info_lists_visible_files() {
    let names = vec![".aifd-meta.toml".to_string(), "README.md".to_string()];
    let info = read_cached_info(&meta("1.0.0"), &names, "demo", "1.0.0", &doc()).unwrap();
    assert_eq!(info.files, vec!["README.md".to_string()]);
    assert_eq!(info.git_ref, "v1");
    assert!(read_cached_info(&MetaRead::Invalid, &names, "demo", "1.0.0", &doc()).is_none());
}

#[test]
fn output_dir_gets_rust_subdirectory() {
    assert_eq!(rust_output_dir("fdocs"), "fdocs/rust");
    assert_eq!(rust_output_dir("fdocs/rust"), "fdocs/rust");
    assert_eq!(rust_output_dir("fdocs/"), "fdocs/rust");
    assert_eq!(rust_output_dir(""), "rust");
}
