//! Theme resolution against the real registry, and request-path
//! classification.

use haystack::resolver::{
    classify_request_path, format_of_extension, html_output_rel, pick_page_source, RequestPath,
    SourceFormat,
};
use haystack::themes::{
    has_default_themes, resolve_theme, sorted_theme_names, syntax_css, ThemeRegistry,
};

#[test]
fn registry_has_defaults() {
    let reg = ThemeRegistry::load();
    assert!(has_default_themes(&reg));
}

#[test]
fn resolve_exact_name() {
    let reg = ThemeRegistry::load();
    let i = resolve_theme(&reg, Some("InspiredGitHub")).expect("bundled theme");
    assert_eq!(reg.entries[i].name, "InspiredGitHub");
}

#[test]
fn resolve_case_insensitive() {
    let reg = ThemeRegistry::load();
    let i = resolve_theme(&reg, Some("inspiredgithub")).expect("case-insensitive tier");
    assert_eq!(reg.entries[i].name, "InspiredGitHub");
}

#[test]
fn resolve_normalized() {
    let reg = ThemeRegistry::load();
    let i = resolve_theme(&reg, Some("base16 ocean dark")).expect("normalized tier");
    assert_eq!(reg.entries[i].name, "base16-ocean.dark");
}

#[test]
fn resolve_alias() {
    let reg = ThemeRegistry::load();
    let i = resolve_theme(&reg, Some("github")).expect("alias tier");
    assert_eq!(reg.entries[i].name, "InspiredGitHub");
    let j = resolve_theme(&reg, Some("solarized-dark")).expect("alias tier");
    assert_eq!(reg.entries[j].name, "Solarized (dark)");
}

#[test]
fn resolve_alias_after_normalization() {
    let reg = ThemeRegistry::load();
    let i = resolve_theme(&reg, Some("Git Hub")).expect("normalized alias tier");
    assert_eq!(reg.entries[i].name, "InspiredGitHub");
    let j = resolve_theme(&reg, Some("Ocean Dark")).expect("normalized alias tier");
    assert_eq!(reg.entries[j].name, "base16-ocean.dark");
}

#[test]
fn resolve_empty_and_unknown() {
    let reg = ThemeRegistry::load();
    assert_eq!(resolve_theme(&reg, None), None);
    assert_eq!(resolve_theme(&reg, Some("   ")), None);
    assert_eq!(resolve_theme(&reg, Some("no-such-theme")), None);
}

#[test]
fn github_spellings_select_the_same_theme() {
    let reg = ThemeRegistry::load();
    let a = resolve_theme(&reg, Some("GitHub"));
    let b = resolve_theme(&reg, Some("github"));
    let c = resolve_theme(&reg, Some("Git Hub"));
    assert!(a.is_some());
    assert_eq!(a, b);
    assert_eq!(b, c);
    // the same holds through CSS selection, for either mode
    let d = syntax_css(&reg, Some("GitHub"), Some("Git Hub"));
    let e = syntax_css(&reg, Some("Git Hub"), Some("github"));
    assert_eq!(d.0, e.0);
    assert_eq!(d.1, e.1);
}

#[test]
fn unknown_theme_falls_back_to_default() {
    let reg = ThemeRegistry::load();
    let picked = syntax_css(&reg, Some("no-such-theme"), Some("also-missing"));
    let fallback = syntax_css(&reg, None, None);
    assert_eq!(picked.0, fallback.0);
    assert_eq!(picked.1, fallback.1);
}

#[test]
fn theme_names_sorted_case_insensitively() {
    let reg = ThemeRegistry::load();
    let names = sorted_theme_names(&reg);
    assert_eq!(names.len(), reg.entries.len());
    assert!(names.iter().any(|n| n == "InspiredGitHub"));
    for w in names.windows(2) {
        assert!(w[0].to_ascii_lowercase() <= w[1].to_ascii_lowercase());
    }
}

#[test]
fn path_html_asks_for_a_page() {
    match classify_request_path("/foo.html") {
        RequestPath::Page { base } => assert_eq!(base, "foo"),
        _ => panic!("expected a page request"),
    }
}

#[test]
fn path_markdown_wins_over_org() {
    assert!(matches!(
        pick_page_source(true, true),
        Some(SourceFormat::Markdown)
    ));
    assert!(matches!(
        pick_page_source(true, false),
        Some(SourceFormat::Markdown)
    ));
    assert!(matches!(pick_page_source(false, true), Some(SourceFormat::Org)));
    assert!(pick_page_source(false, false).is_none());
}

#[test]
fn path_traversal_is_rejected() {
    assert!(matches!(
        classify_request_path("/../etc/passwd"),
        RequestPath::BadRequest
    ));
    assert!(matches!(
        classify_request_path("/a/..%5c/b".replace("%5c", "\\").as_str()),
        RequestPath::BadRequest
    ));
}

#[test]
fn path_empty_means_index() {
    match classify_request_path("/") {
        RequestPath::Page { base } => assert_eq!(base, "index"),
        _ => panic!("expected the index page"),
    }
}

#[test]
fn path_query_string_is_stripped() {
    match classify_request_path("/a/b.css?version=3") {
        RequestPath::Static { rel } => assert_eq!(rel, "a/b.css"),
        _ => panic!("expected a static file"),
    }
}

#[test]
fn extension_names_format() {
    assert!(matches!(
        format_of_extension("md"),
        Some(SourceFormat::Markdown)
    ));
    assert!(matches!(format_of_extension("org"), Some(SourceFormat::Org)));
    assert!(format_of_extension("png").is_none());
}

#[test]
fn output_path_replaces_extension() {
    assert_eq!(
        html_output_rel("docs/a.md"),
        Some("docs/a.html".to_string())
    );
    assert_eq!(
        html_output_rel("notes/b.org"),
        Some("notes/b.html".to_string())
    );
    assert_eq!(html_output_rel("img/logo.png"), None);
}
