//! Highlighting one code snippet into classed HTML.
//!
//! The highlighting engine is a black box mapping `(code, language)` to
//! classed HTML; its output is named, not restated. The wrapping into the
//! `<pre><code class="hl language-…">` shape — the convention the page CSS
//! and the serialized-HTML rewriting both depend on — is verified here.

use crate::text::{chars_string, push_str_chars, replace_chars, spec_replace, str_chars};
use crate::themes::opt_str_view;
use vstd::prelude::*;

verus! {

/// What syntect's classed highlighter returns for a code snippet and an
/// optional language token; a function of its arguments alone.
pub uninterp spec fn highlighted_of(code: Seq<char>, lang: Option<Seq<char>>) -> Seq<char>;

/// Relies on syntect: `SyntaxSet::load_defaults_newlines`,
/// `find_syntax_by_token` (absent or unknown tokens fall back to
/// `find_syntax_plain_text`), and `ClassedHTMLGenerator` with spaced
/// classes, fed line by line through `LinesWithEndings` as syntect's
/// documentation shows.
///
/// The fragment's text content is deliberately left unstated: a line
/// whose tokenization fails is skipped (each line's `Result` is
/// discarded), so syntect's source does not show that every character of
/// `code` reaches the output, only that the output is a function of
/// `code` and `lang`.
#[verifier::external_body]
fn syntect_highlight(code: &str, lang: Option<&str>) -> (r: String)
    ensures
        r@ == highlighted_of(code@, opt_str_view(lang)),
{
    let ss = syntect::parsing::SyntaxSet::load_defaults_newlines();
    let syntax = match lang {
        Some(l) => ss.find_syntax_by_token(l).unwrap_or_else(|| ss.find_syntax_plain_text()),
        None => ss.find_syntax_plain_text(),
    };
    let style = syntect::html::ClassStyle::Spaced;
    let mut generator = syntect::html::ClassedHTMLGenerator::new_with_class_style(syntax, &ss, style);
    for line in syntect::util::LinesWithEndings::from(code) {
        let _ = generator.parse_html_for_line_which_includes_newline(line);
    }
    generator.finalize()
}

/// The class-attribute token for a code block: its language tag, or `text`.
pub open spec fn spec_lang_class(lang: Option<Seq<char>>) -> Seq<char> {
    match lang {
        Some(l) => l,
        None => "text"@,
    }
}

/// The full replacement fragment for one code block.
pub open spec fn spec_code_block_html(code: Seq<char>, lang: Option<Seq<char>>) -> Seq<char> {
    "<pre><code class=\"hl language-"@ + spec_lang_class(lang) + "\">"@ + highlighted_of(
        code,
        lang,
    ) + "</code></pre>"@
}

/// Highlights `code` (with the optional language token `lang`) and wraps
/// the result as `<pre><code class="hl language-…">…</code></pre>`.
pub fn highlight_code(code: &str, lang: Option<&str>) -> (r: String)
    ensures
        r@ == spec_code_block_html(code@, opt_str_view(lang)),
{
    let highlighted = syntect_highlight(code, lang);
    let mut acc: Vec<char> = Vec::new();
    push_str_chars(&mut acc, "<pre><code class=\"hl language-");
    match lang {
        Some(l) => push_str_chars(&mut acc, l),
        None => push_str_chars(&mut acc, "text"),
    }
    push_str_chars(&mut acc, "\">");
    push_str_chars(&mut acc, highlighted.as_str());
    push_str_chars(&mut acc, "</code></pre>");
    chars_string(&acc)
}

/// The five HTML entities the serialized tree escapes, undone in the same
/// order the rewrite applies them.
pub open spec fn spec_unescape(s: Seq<char>) -> Seq<char> {
    spec_replace(
        spec_replace(
            spec_replace(spec_replace(spec_replace(s, "&lt;"@, "<"@), "&gt;"@, ">"@), "&amp;"@, "&"@),
            "&quot;"@,
            "\""@,
        ),
        "&#39;"@,
        "'"@,
    )
}

/// Undoes the HTML escaping of a captured code-block body.
pub fn html_unescape(v: &Vec<char>) -> (r: Vec<char>)
    ensures
        r@ == spec_unescape(v@),
{
    proof {
        reveal_strlit("&lt;");
        reveal_strlit("&gt;");
        reveal_strlit("&amp;");
        reveal_strlit("&quot;");
        reveal_strlit("&#39;");
    }
    let s1 = replace_chars(v, &str_chars("&lt;"), &str_chars("<"));
    let s2 = replace_chars(&s1, &str_chars("&gt;"), &str_chars(">"));
    let s3 = replace_chars(&s2, &str_chars("&amp;"), &str_chars("&"));
    let s4 = replace_chars(&s3, &str_chars("&quot;"), &str_chars("\""));
    let s5 = replace_chars(&s4, &str_chars("&#39;"), &str_chars("'"));
    s5
}

/// Rewrites one captured code block of a serialized HTML tree: the body is
/// HTML-unescaped and highlighted under the captured language token.
pub fn rewrite_code_capture(lang: &str, escaped: &str) -> (r: String)
    ensures
        r@ == spec_code_block_html(spec_unescape(escaped@), Some(lang@)),
{
    let code = html_unescape(&str_chars(escaped));
    let code_s = chars_string(&code);
    highlight_code(code_s.as_str(), Some(lang))
}

} // verus!
