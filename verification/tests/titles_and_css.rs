//! Title extraction, CSS scoping and name normalization.

use haystack::css::scope_syntect_css;
use haystack::markdown::extract_title_from_markdown;
use haystack::org::extract_title_from_org;
use haystack::themes::normalize_name;

#[test]
fn md_title_first_heading() {
    assert_eq!(
        extract_title_from_markdown("# Hello\n\nbody"),
        Some("Hello".to_string())
    );
}

#[test]
fn md_title_empty_heading_continues() {
    assert_eq!(
        extract_title_from_markdown("#   \n\n## Real\n\ntext"),
        Some("Real".to_string())
    );
}

#[test]
fn md_title_inline_code_concatenated() {
    // the spans "Using ", "foo" and " here" concatenate without
    // inserted separators
    assert_eq!(
        extract_title_from_markdown("# Using `foo` here\n"),
        Some("Using foo here".to_string())
    );
}

#[test]
fn md_title_none_without_heading() {
    assert_eq!(extract_title_from_markdown("just a paragraph\n"), None);
}

#[test]
fn org_title_directive_wins_over_headline() {
    assert_eq!(
        extract_title_from_org("#+TITLE: My Doc\n* Ignored\n"),
        Some("My Doc".to_string())
    );
}

#[test]
fn org_title_directive_anywhere_wins() {
    assert_eq!(
        extract_title_from_org("* Head\n#+title: Doc\n"),
        Some("Doc".to_string())
    );
}

#[test]
fn org_title_first_headline() {
    assert_eq!(
        extract_title_from_org("** Sub Heading\n"),
        Some("Sub Heading".to_string())
    );
}

#[test]
fn org_title_case_insensitive_key() {
    assert_eq!(
        extract_title_from_org("#+TiTlE:  Spaced Out  \n"),
        Some("Spaced Out".to_string())
    );
}

#[test]
fn org_title_empty_directive_skipped() {
    assert_eq!(
        extract_title_from_org("#+TITLE:\n* Fallback\n"),
        Some("Fallback".to_string())
    );
}

#[test]
fn org_title_none() {
    assert_eq!(extract_title_from_org("plain text\nmore text\n"), None);
}

#[test]
fn org_headline_needs_space_after_stars() {
    assert_eq!(extract_title_from_org("**NoSpace\n"), None);
}

#[test]
fn scope_css_basic_rule() {
    assert_eq!(
        scope_syntect_css(".a, .b { color: red; }", "html[data-theme='dark']"),
        "html[data-theme='dark'] .a, html[data-theme='dark'] .b { color: red; }"
    );
}

#[test]
fn scope_css_drops_malformed_chunk() {
    assert_eq!(scope_syntect_css("no brace here", "X"), "");
}

#[test]
fn scope_css_drops_empty_selectors() {
    assert_eq!(
        scope_syntect_css(".a, , .b { x }", "P"),
        "P .a, P .b { x }"
    );
}

#[test]
fn scope_css_two_rules() {
    assert_eq!(
        scope_syntect_css(".a { x } .b { y }", "P"),
        "P .a { x }P .b { y }"
    );
}

#[test]
fn normalize_name_strips_and_lowers() {
    assert_eq!(normalize_name("Base16-Ocean.Dark"), "base16oceandark");
    assert_eq!(normalize_name("Git Hub 2"), "github2");
    assert_eq!(normalize_name("***"), "");
}
