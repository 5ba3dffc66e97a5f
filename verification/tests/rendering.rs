//! The full rendering pipeline, with the real parsers and highlighter.

use haystack::highlight::highlight_code;
use haystack::markdown::convert_markdown_to_html;
use haystack::org::{convert_org_to_html, highlight_code_blocks_in_html};
use haystack::themes::ThemeRegistry;
use haystack::ThemeConfig;

fn no_themes() -> ThemeConfig {
    ThemeConfig {
        light: None,
        dark: None,
    }
}

fn registry() -> ThemeRegistry {
    ThemeRegistry::load()
}

#[test]
fn highlight_wraps_with_language_class() {
    let out = highlight_code("let x = 1;\n", Some("rust"));
    assert!(out.starts_with("<pre><code class=\"hl language-rust\">"));
    assert!(out.ends_with("</code></pre>"));
    assert!(out.contains("<span"));
}

#[test]
fn highlight_without_language_uses_text() {
    let out = highlight_code("plain words\n", None);
    assert!(out.starts_with("<pre><code class=\"hl language-text\">"));
    assert!(out.contains("plain words"));
}

#[test]
fn markdown_fenced_block_is_replaced() {
    let reg = registry();
    let page = convert_markdown_to_html(
        "# T\n\n```rust\nlet answer = 42;\n```\n",
        &no_themes(),
        &reg,
        "",
    );
    assert_eq!(
        page.matches("<pre><code class=\"hl language-rust\">").count(),
        1
    );
    // the parser's native, unhighlighted form must not survive
    assert!(!page.contains("<code class=\"language-rust\">"));
    assert!(!page.contains("<code>let answer = 42;"));
}

#[test]
fn markdown_indented_block_is_replaced() {
    let reg = registry();
    let page = convert_markdown_to_html("para\n\n    indented code\n", &no_themes(), &reg, "");
    assert_eq!(
        page.matches("<pre><code class=\"hl language-text\">").count(),
        1
    );
}

#[test]
fn markdown_render_is_deterministic() {
    let reg = registry();
    let cfg = ThemeConfig {
        light: Some("github".to_string()),
        dark: Some("ocean-dark".to_string()),
    };
    let input = "# A\n\nsome *text*\n\n```py\nprint(1)\n```\n";
    let a = convert_markdown_to_html(input, &cfg, &reg, "<meta name=\"x\">");
    let b = convert_markdown_to_html(input, &cfg, &reg, "<meta name=\"x\">");
    assert_eq!(a, b);
}

#[test]
fn markdown_page_holds_title_and_scoped_css() {
    let reg = registry();
    let page = convert_markdown_to_html("# My Page\n\nbody text\n", &no_themes(), &reg, "");
    assert!(page.contains("<title>My Page</title>"));
    assert!(page.contains("html[data-theme='light']"));
    assert!(page.contains("html[data-theme='dark']"));
    assert!(page.contains("@media (prefers-color-scheme: dark)"));
    assert!(page.contains("html[data-theme='auto']"));
    assert!(page.starts_with("<!DOCTYPE html>"));
    assert!(page.ends_with("</html>"));
}

#[test]
fn markdown_page_without_heading_uses_fallback_title() {
    let reg = registry();
    let page = convert_markdown_to_html("only a paragraph\n", &no_themes(), &reg, "");
    assert!(page.contains("<title>haystack</title>"));
}

#[test]
fn head_snippet_is_embedded() {
    let reg = registry();
    let page = convert_markdown_to_html(
        "# T\n",
        &no_themes(),
        &reg,
        "<link rel=\"icon\" href=\"i.png\">",
    );
    assert!(page.contains("<link rel=\"icon\" href=\"i.png\">"));
}

#[test]
fn org_render_is_deterministic() {
    let reg = registry();
    let input = "#+TITLE: Doc\n\n* One\n\nText here.\n";
    let a = convert_org_to_html(input, &no_themes(), &reg, "");
    let b = convert_org_to_html(input, &no_themes(), &reg, "");
    assert_eq!(a, b);
}

#[test]
fn org_page_holds_directive_title() {
    let reg = registry();
    let page = convert_org_to_html("#+TITLE: Doc\n\n* One\n", &no_themes(), &reg, "");
    assert!(page.contains("<title>Doc</title>"));
}

#[test]
fn org_source_block_is_rewritten() {
    let reg = registry();
    let page = convert_org_to_html(
        "#+TITLE: T\n\n#+BEGIN_SRC rust\nlet x = 1;\n#+END_SRC\n",
        &no_themes(),
        &reg,
        "",
    );
    assert_eq!(
        page.matches("<pre><code class=\"hl language-rust\">").count(),
        1
    );
}

#[test]
fn serialized_tree_rewrite_unescapes_entities() {
    let out = highlight_code_blocks_in_html(
        "<p>x</p><pre><code class=\"language-rust\">let a = b &lt; c &amp;&amp; d;\n</code></pre>",
    );
    assert!(out.contains("<pre><code class=\"hl language-rust\">"));
    assert!(!out.contains("language-rust\">let"));
    // the rewritten block went through the highlighter, not back verbatim
    assert!(out.contains("<span"));
    assert!(out.starts_with("<p>x</p>"));
}

#[test]
fn unmatched_html_is_left_alone() {
    let input = "<p>no code here</p>";
    assert_eq!(highlight_code_blocks_in_html(input), input);
}
