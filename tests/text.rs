use ai_fdocs::changelog::truncate_changelog;
use ai_fdocs::text::{floor_char_boundary, truncate_if_needed, truncate_markdown};

#[test]
fn latest_truncates_when_limit_exceeded() {
    let content = "x".repeat(5000);
    let (truncated, is_truncated) = truncate_markdown(&content, 1);
    assert!(is_truncated);
    assert!(truncated.contains("[TRUNCATED by ai-fdocs at 1KB]"));
}

#[test]
fn test_truncate_large_file() {
    let content = "x".repeat(300 * 1024);
    let result = truncate_if_needed(&content, 200);
    assert!(result.contains("[TRUNCATED by ai-fdocs at 200KB]"));
}

#[test]
fn truncation_keeps_limit_plus_marker() {
    let content = "x".repeat(5000);
    let (out, cut) = truncate_markdown(&content, 1);
    let marker = "\n\n[TRUNCATED by ai-fdocs at 1KB]\n";
    assert!(cut);
    assert_eq!(out, format!("{}{}", "x".repeat(1024), marker));
    assert!(out.len() <= 1024 + marker.len());
}

#[test]
fn truncation_never_splits_a_character() {
    let content = "é".repeat(1000);
    let (out, cut) = truncate_markdown(&content, 1);
    assert!(cut);
    let kept = out.strip_suffix("\n\n[TRUNCATED by ai-fdocs at 1KB]\n").unwrap();
    assert_eq!(kept, "é".repeat(512));
    let odd = format!("x{}", "é".repeat(1000));
    let (out2, _) = truncate_markdown(&odd, 1);
    let kept2 = out2.strip_suffix("\n\n[TRUNCATED by ai-fdocs at 1KB]\n").unwrap();
    assert_eq!(kept2.len(), 1023);
}

#[test]
fn content_within_limit_is_unchanged() {
    let (out, cut) = truncate_markdown("short", 1);
    assert!(!cut);
    assert_eq!(out, "short");
    assert_eq!(truncate_if_needed(&"y".repeat(1024), 1), "y".repeat(1024));
}

#[test]
fn floor_boundary_rounds_down() {
    assert_eq!(floor_char_boundary("aé", 2), 1);
    assert_eq!(floor_char_boundary("aé", 3), 3);
    assert_eq!(floor_char_boundary("abc", 10), 3);
    assert_eq!(floor_char_boundary("", 0), 0);
}

#[test]
fn test_truncate_keeps_current_and_previous() {
    let changelog = r#"# Changelog

## 0.13.1 - 2024-01-15
- Fix bug

## 0.13.0 - 2024-01-01
- New feature

## 0.12.0 - 2023-12-01
- Old feature

## 0.11.0 - 2023-11-01
- Ancient feature
"#;
    let result = truncate_changelog(changelog, "0.13.1");
    assert!(result.contains("0.13.1"));
    assert!(result.contains("0.13.0"));
    assert!(result.contains("0.12.0"));
    assert!(!result.contains("0.11.0"));
    assert!(result.contains("[Earlier entries truncated by ai-fdocs]"));
}

#[test]
fn test_no_version_headings_returns_as_is() {
    let content = "Just some text without versions.";
    let result = truncate_changelog(content, "1.0.0");
    assert_eq!(result, content);
}

#[test]
fn changelog_cut_is_exact() {
    let changelog = "## 2.1.0\nnew\n\n## 2.0.0\nold\n\n## 1.9.0\nolder\n";
    let result = truncate_changelog(changelog, "2.1.0");
    assert_eq!(
        result,
        "## 2.1.0\nnew\n\n## 2.0.0\nold\n---\n\n*[Earlier entries truncated by ai-fdocs]*\n"
    );
}

#[test]
fn changelog_without_current_cuts_after_third_heading() {
    let changelog = "## 3.0.0\na\n## 2.0.0\nb\n## 1.0.0\nc\n## 0.9.0\nd\n";
    let result = truncate_changelog(changelog, "9.9.9");
    assert_eq!(
        result,
        "## 3.0.0\na\n## 2.0.0\nb\n---\n\n*[Earlier entries truncated by ai-fdocs]*\n"
    );
}

#[test]
fn truncates_when_limit_exceeded() {
    let content = "x".repeat(5000);
    let (truncated, is_truncated) = truncate_markdown(&content, 1);
    assert!(is_truncated);
    assert!(truncated.contains("[TRUNCATED by ai-fdocs at 1KB]"));
}

#[test]
fn changelog_keeps_whole_older_series() {
    let changelog = "## 1.2.0\na\n## 1.1.1\nb\n## 1.1.0\nc\n## 1.0.0\nd\n";
    let result = truncate_changelog(changelog, "1.2.0");
    assert_eq!(
        result,
        "## 1.2.0\na\n## 1.1.1\nb\n## 1.1.0\nc\n---\n\n*[Earlier entries truncated by ai-fdocs]*\n"
    );
    let same_series = "## 1.2.1\na\n## 1.2.0\nb\n## 1.1.0\nc\n## 1.0.5\nd\n## 0.9.0\ne\n";
    let r2 = truncate_changelog(same_series, "1.2.1");
    assert!(r2.contains("1.1.0"));
    assert!(!r2.contains("1.0.5"));
}
