use ai_fdocs::html::{
    clean_markdown_whitespace, extract_docs_links, extract_github_owner_repo, extract_href,
    extract_main_content, extract_title, render_docsrs_markdown, strip_html_tags,
};

#[test]
fn latest_extracts_title() {
    let html = "<html><head><title>serde - Rust</title></head></html>";
    assert_eq!(extract_title(html).as_deref(), Some("serde - Rust"));
}

#[test]
fn latest_extracts_unique_docs_links() {
    let html = r#"<a href="/serde/1.0.0/serde/">A</a><a href="/serde/1.0.0/serde/">B</a>"#;
    let links = extract_docs_links("serde", "1.0.0", html);
    assert_eq!(links, vec!["/serde/1.0.0/serde/"]);
}

#[test]
fn test_extract_main_content_simple() {
    let html = r#"<div id="main-content"><h1>Hello</h1><p>World</p></div>"#;
    assert_eq!(extract_main_content("test", "0.1.0", html), "Hello\n\nWorld");
}

#[test]
fn test_extract_main_content_with_code() {
    let html = r#"<div class="docblock"><pre>pub fn test() {}</pre></div>"#;
    let content = extract_main_content("test", "0.1.0", html);
    assert!(content.contains("```rust"));
    assert!(content.contains("pub fn test() {}"));
    assert!(content.contains("```"));
}

#[test]
fn test_strip_html_tags_with_links_and_spacing() {
    let html = r#"<div class="docblock"><h1>Title</h1><p>Para with <a href="/serde/1.0.0/serde/index.html">link</a>.</p><ul><li>Item 1</li><li>Item 2</li></ul></div>"#;
    let content = strip_html_tags("serde", "1.0.0", html);
    assert!(content.contains("Title"));
    assert!(content.contains("Para with  (https://docs.rs/serde/1.0.0/serde/index.html)link."));
    assert!(content.contains("Item 1"));
    assert!(content.contains("Item 2"));
}

#[test]
fn test_clean_markdown_whitespace() {
    let input = "Line 1\n\n\nLine 2\n   \nLine 3\n";
    let expected = "Line 1\n\nLine 2\n\nLine 3";
    assert_eq!(clean_markdown_whitespace(input), expected);
}

#[test]
fn extracts_repo_from_https_url() {
    assert_eq!(
        extract_github_owner_repo("https://github.com/tokio-rs/axum").as_deref(),
        Some("tokio-rs/axum")
    );
}

#[test]
fn extracts_repo_from_git_suffix() {
    assert_eq!(
        extract_github_owner_repo("https://github.com/serde-rs/serde.git").as_deref(),
        Some("serde-rs/serde")
    );
}

#[test]
fn repo_url_without_github_is_rejected() {
    assert_eq!(extract_github_owner_repo("https://gitlab.com/a/b"), None);
    assert_eq!(extract_github_owner_repo("https://github.com/only-owner/"), None);
    assert_eq!(
        extract_github_owner_repo("  https://github.com/a/b/tree/main/ ").as_deref(),
        Some("a/b")
    );
}

#[test]
fn link_tags_are_annotated_with_absolute_targets() {
    let out = strip_html_tags("x", "1", r#"<p>see <a href="/x/1/x/">docs</a></p>"#);
    assert_eq!(out, "see  (https://docs.rs/x/1/x/)docs");
    assert_eq!(extract_href("a href='http://e.org/p'").as_deref(), Some("http://e.org/p"));
    assert_eq!(extract_href("A HREF=rel/x.html>").as_deref(), Some("rel/x.html"));
    assert_eq!(extract_href("a href=\"unclosed"), None);
    assert_eq!(extract_href("span class=x"), None);
}

#[test]
fn entities_are_decoded_twice() {
    let out = strip_html_tags("x", "1", "<p>a &lt;b&gt; &amp;lt; &quot;q&quot;&nbsp;&#39;s</p>");
    assert_eq!(out, "a <b> < \"q\" 's");
}

#[test]
fn nested_divs_are_matched() {
    let html = r#"<div id="main-content"><div>inner</div><p>after</p></div><p>outside</p>"#;
    assert_eq!(extract_main_content("x", "1", html), "inner\n\nafter");
    assert_eq!(extract_main_content("x", "1", "<p>no container</p>"), "");
}

#[test]
fn page_render_has_sections_and_capped_links() {
    let mut html = String::from("<title> demo - Rust </title>");
    for i in 0..25 {
        html.push_str(&format!("<a href=\"/demo/2.0.0/demo/m{i}/\">m</a>"));
    }
    let md = render_docsrs_markdown("demo", "2.0.0", &html);
    assert!(md.starts_with("# demo@2.0.0\n\n## Overview\n\n"));
    assert!(md.contains("Generated from docs.rs page **demo - Rust** for `demo` `2.0.0`."));
    assert!(md.contains("- [crate page](https://docs.rs/crate/demo/2.0.0)\n"));
    assert!(md.contains("- [rustdoc root](https://docs.rs/demo/2.0.0/demo/)\n"));
    assert!(md.contains("/demo/2.0.0/demo/m19/"));
    assert!(!md.contains("/demo/2.0.0/demo/m20/"));
    assert!(!md.contains("## Documentation"));
    assert!(md.ends_with("Source: https://docs.rs/crate/demo/2.0.0\n"));
}

#[test]
fn extracts_title() {
    let html = "<html><head><title>serde - Rust</title></head></html>";
    assert_eq!(extract_title(html).as_deref(), Some("serde - Rust"));
}

#[test]
fn extracts_unique_docs_links() {
    let html = r#"<a href="/serde/1.0.0/serde/">A</a><a href="/serde/1.0.0/serde/">B</a>"#;
    let links = extract_docs_links("serde", "1.0.0", html);
    assert_eq!(links, vec!["/serde/1.0.0/serde/"]);
}

#[test]
fn non_ascii_text_is_kept_whole() {
    assert_eq!(strip_html_tags("x", "1", "<p>café – naïve</p>"), "café – naïve");
    let html = "<div id=\"main-content\"><p>Grüße</p></div>";
    assert_eq!(extract_main_content("x", "1", html), "Grüße");
}

#[test]
fn docs_artifact_records_truncation() {
    let big = format!("<title>t</title><div id=\"main-content\"><p>{}</p></div>", "y".repeat(3000));
    let a = ai_fdocs::job::docs_artifact("demo", "1.0.0", &big, 1);
    assert!(a.truncated);
    assert_eq!(a.docsrs_input_url, "https://docs.rs/crate/demo/1.0.0");
    assert!(a.markdown.ends_with("[TRUNCATED by ai-fdocs at 1KB]\n"));
    let small = ai_fdocs::job::docs_artifact("demo", "1.0.0", "<title>t</title>", 10);
    assert!(!small.truncated);
}
