//! Rendering Org-mode documents.
//!
//! The Org parser serializes the whole document to an HTML tree, so code
//! blocks are located after the fact by pattern-matching the two known
//! serialized shapes (`<pre><code class="language-…">…</code></pre>` and
//! `<pre class="src src-…">…</pre>`), HTML-unescaping their bodies and
//! substituting the highlighter's output. This is a best-effort textual
//! rewrite: unmatched pieces are left as they are.
//!
//! The title comes from the raw text: a `#+TITLE:` directive with a
//! non-empty value anywhere in the document wins; otherwise the first
//! headline (`*`-run, a space, a non-empty remainder) supplies it.

use crate::page::{spec_wrap_html_page, wrap_html_page};
use crate::text::{
    chars_string, lines_chars, lower_chars, spec_eq_ignore_ascii_case, spec_lines,
    spec_split_once, spec_starts_with, spec_trim, split_once_chars, starts_with_chars, str_chars,
    subvec, trim_chars, views,
};
use crate::themes::{reg_names, spec_dark_css, spec_dark_fallback, spec_light_css, spec_light_fallback, ThemeRegistry};
use crate::ThemeConfig;
use vstd::prelude::*;

verus! {

// ---------------------------------------------------------------------------
// Title extraction
// ---------------------------------------------------------------------------

/// The title a `#+KEY: value` directive line supplies: the trimmed value,
/// when the key is `title` (ASCII-case-insensitively) and the trimmed
/// value is non-empty.
pub open spec fn spec_line_directive_title(line: Seq<char>) -> Option<Seq<char>> {
    let t = spec_trim(line);
    if spec_starts_with(t, "#+"@) {
        match spec_split_once(t.skip(2), ':') {
            Some(kv) => if spec_eq_ignore_ascii_case(kv.0, "title"@) && spec_trim(kv.1).len() > 0 {
                Some(spec_trim(kv.1))
            } else {
                None
            },
            None => None,
        }
    } else {
        None
    }
}

/// `t` without its leading run of `'*'` characters.
pub open spec fn spec_skip_stars(t: Seq<char>) -> Seq<char>
    decreases t.len(),
{
    if t.len() > 0 && t[0] == '*' {
        spec_skip_stars(t.drop_first())
    } else {
        t
    }
}

/// The title a headline supplies: the line's trimmed form must begin with
/// one or more `'*'`, followed by a single space and a non-empty
/// (trimmed) remainder.
pub open spec fn spec_line_headline_title(line: Seq<char>) -> Option<Seq<char>> {
    let t = spec_trim(line);
    if t.len() > 0 && t[0] == '*' {
        let after = spec_skip_stars(t);
        if after.len() > 0 && after[0] == ' ' {
            let rest = spec_trim(after.drop_first());
            if rest.len() > 0 {
                Some(rest)
            } else {
                None
            }
        } else {
            None
        }
    } else {
        None
    }
}

/// The first directive title among the lines.
pub open spec fn spec_org_directive_title(ls: Seq<Seq<char>>) -> Option<Seq<char>>
    decreases ls.len(),
{
    if ls.len() == 0 {
        None
    } else {
        match spec_line_directive_title(ls[0]) {
            Some(t) => Some(t),
            None => spec_org_directive_title(ls.drop_first()),
        }
    }
}

/// The first headline title among the lines.
pub open spec fn spec_org_headline_title(ls: Seq<Seq<char>>) -> Option<Seq<char>>
    decreases ls.len(),
{
    if ls.len() == 0 {
        None
    } else {
        match spec_line_headline_title(ls[0]) {
            Some(t) => Some(t),
            None => spec_org_headline_title(ls.drop_first()),
        }
    }
}

/// The title of an Org document: a `#+TITLE:` directive with a non-empty
/// value anywhere wins; otherwise the first headline; otherwise nothing.
pub open spec fn spec_extract_title_from_org(s: Seq<char>) -> Option<Seq<char>> {
    let ls = spec_lines(s);
    match spec_org_directive_title(ls) {
        Some(t) => Some(t),
        None => spec_org_headline_title(ls),
    }
}

proof fn lemma_skip_stars_at(t: Seq<char>, i: int)
    requires
        0 <= i <= t.len(),
        forall|j: int| 0 <= j < i ==> t[j] == '*',
        i == t.len() || t[i] != '*',
    ensures
        spec_skip_stars(t) == t.skip(i),
    decreases i,
{
    if i == 0 {
        assert(t.skip(0) =~= t);
    } else {
        lemma_skip_stars_at(t.drop_first(), i - 1);
        assert(t.drop_first().skip(i - 1) =~= t.skip(i));
    }
}

proof fn lemma_org_directive_first(ls: Seq<Seq<char>>, i: int)
    requires
        0 <= i <= ls.len(),
        forall|j: int| 0 <= j < i ==> spec_line_directive_title(#[trigger] ls[j]) is None,
        i == ls.len() || spec_line_directive_title(ls[i]) is Some,
    ensures
        spec_org_directive_title(ls) == (if i == ls.len() {
            Option::<Seq<char>>::None
        } else {
            spec_line_directive_title(ls[i])
        }),
    decreases ls.len(),
{
    if ls.len() == 0 {
    } else if spec_line_directive_title(ls[0]) is Some {
        assert(i == 0);
    } else {
        lemma_org_directive_first(ls.drop_first(), i - 1);
    }
}

proof fn lemma_org_headline_first(ls: Seq<Seq<char>>, i: int)
    requires
        0 <= i <= ls.len(),
        forall|j: int| 0 <= j < i ==> spec_line_headline_title(#[trigger] ls[j]) is None,
        i == ls.len() || spec_line_headline_title(ls[i]) is Some,
    ensures
        spec_org_headline_title(ls) == (if i == ls.len() {
            Option::<Seq<char>>::None
        } else {
            spec_line_headline_title(ls[i])
        }),
    decreases ls.len(),
{
    if ls.len() == 0 {
    } else if spec_line_headline_title(ls[0]) is Some {
        assert(i == 0);
    } else {
        lemma_org_headline_first(ls.drop_first(), i - 1);
    }
}

/// The directive title of one line, if any.
fn line_directive_title(line: &Vec<char>) -> (r: Option<Vec<char>>)
    ensures
        match r {
            Some(t) => spec_line_directive_title(line@) == Some(t@),
            None => spec_line_directive_title(line@) is None,
        },
{
    proof {
        reveal_strlit("#+");
        reveal_strlit("title");
    }
    let t = trim_chars(line);
    let hp = str_chars("#+");
    if !starts_with_chars(&t, &hp) {
        return None;
    }
    let rest = subvec(&t, 2, t.len());
    proof {
        assert(rest@ =~= t@.skip(2));
    }
    match split_once_chars(&rest, ':') {
        Some(kv) => {
            let (key, val) = kv;
            let kl = lower_chars(&key);
            let tl = lower_chars(&str_chars("title"));
            if !crate::text::chars_eq(&kl, &tl) {
                return None;
            }
            let v = trim_chars(&val);
            if v.len() > 0 {
                Some(v)
            } else {
                None
            }
        },
        None => None,
    }
}

/// The headline title of one line, if any.
fn line_headline_title(line: &Vec<char>) -> (r: Option<Vec<char>>)
    ensures
        match r {
            Some(t) => spec_line_headline_title(line@) == Some(t@),
            None => spec_line_headline_title(line@) is None,
        },
{
    let t = trim_chars(line);
    if t.len() == 0 || t[0] != '*' {
        return None;
    }
    let mut i: usize = 0;
    while i < t.len() && t[i] == '*'
        invariant
            i <= t@.len(),
            forall|j: int| 0 <= j < i ==> t@[j] == '*',
        decreases t.len() - i,
    {
        i = i + 1;
    }
    proof {
        lemma_skip_stars_at(t@, i as int);
    }
    if i < t.len() && t[i] == ' ' {
        let rest = trim_chars(&subvec(&t, i + 1, t.len()));
        proof {
            assert(t@.subrange(i + 1, t@.len() as int) =~= t@.skip(i as int).drop_first());
        }
        if rest.len() > 0 {
            Some(rest)
        } else {
            None
        }
    } else {
        None
    }
}

/// Derives the title of an Org document from its raw text: a `#+TITLE:`
/// directive with a non-empty value anywhere in the document wins over
/// any headline; otherwise the first headline supplies the title.
pub fn extract_title_from_org(input: &str) -> (r: Option<String>)
    ensures
        match r {
            Some(t) => spec_extract_title_from_org(input@) == Some(t@),
            None => spec_extract_title_from_org(input@) is None,
        },
{
    let chars = str_chars(input);
    let ls = lines_chars(&chars);
    let mut i: usize = 0;
    while i < ls.len()
        invariant
            i <= ls@.len(),
            views(ls@) == spec_lines(input@),
            forall|j: int|
                0 <= j < i ==> spec_line_directive_title(#[trigger] views(ls@)[j]) is None,
        decreases ls.len() - i,
    {
        match line_directive_title(&ls[i]) {
            Some(t) => {
                proof {
                    lemma_org_directive_first(views(ls@), i as int);
                }
                return Some(chars_string(&t));
            },
            None => {
                proof {
                    assert(views(ls@)[i as int] == ls@[i as int]@);
                }
            },
        }
        i = i + 1;
    }
    proof {
        lemma_org_directive_first(views(ls@), ls@.len() as int);
    }
    let mut k: usize = 0;
    while k < ls.len()
        invariant
            k <= ls@.len(),
            views(ls@) == spec_lines(input@),
            spec_org_directive_title(views(ls@)) is None,
            forall|j: int|
                0 <= j < k ==> spec_line_headline_title(#[trigger] views(ls@)[j]) is None,
        decreases ls.len() - k,
    {
        match line_headline_title(&ls[k]) {
            Some(t) => {
                proof {
                    lemma_org_headline_first(views(ls@), k as int);
                }
                return Some(chars_string(&t));
            },
            None => {
                proof {
                    assert(views(ls@)[k as int] == ls@[k as int]@);
                }
            },
        }
        k = k + 1;
    }
    proof {
        lemma_org_headline_first(views(ls@), ls@.len() as int);
    }
    None
}

// ---------------------------------------------------------------------------
// Serialization and code-block rewriting
// ---------------------------------------------------------------------------

/// What orgize serializes the document to; a function of the text alone.
pub uninterp spec fn org_html_of(s: Seq<char>) -> Seq<char>;

/// Relies on orgize: `Org::parse` followed by `write_html` serializes the
/// document body to HTML; a serialization failure yields an empty body.
#[verifier::external_body]
fn org_body_html(input: &str) -> (r: String)
    ensures
        r@ == org_html_of(input@),
{
    let org = orgize::Org::parse(input);
    let mut bytes: Vec<u8> = Vec::new();
    let _ = org.write_html(&mut bytes);
    String::from_utf8(bytes).unwrap_or_default()
}

/// The serialized tree with every `<pre><code class="language-…">` block
/// rewritten by `rewrite_code_capture`; a function of the text alone.
pub uninterp spec fn md_shape_rewritten(html: Seq<char>) -> Seq<char>;

/// The serialized tree with every `<pre class="src src-…">` block
/// rewritten by `rewrite_code_capture`; a function of the text alone.
pub uninterp spec fn org_shape_rewritten(html: Seq<char>) -> Seq<char>;

/// Relies on `regex::Regex::replace_all` with a fixed pattern for the
/// serialized shape `<pre><code class="language-…">…</code></pre>`; each
/// match is rewritten by the verified `rewrite_code_capture`.
#[verifier::external_body]
fn replace_md_shape(html: &str) -> (r: String)
    ensures
        r@ == md_shape_rewritten(html@),
{
    let re = regex::Regex::new(
        "(?s)<pre><code class=\"language-([A-Za-z0-9_+\\-.#]+)\">(.*?)</code></pre>",
    ).unwrap();
    re.replace_all(html, |caps: &regex::Captures| {
        crate::highlight::rewrite_code_capture(&caps[1], &caps[2])
    }).into_owned()
}

/// Relies on `regex::Regex::replace_all` with a fixed pattern for the
/// serialized shape `<pre class="src src-…">…</pre>`; each match is
/// rewritten by the verified `rewrite_code_capture`.
#[verifier::external_body]
fn replace_org_shape(html: &str) -> (r: String)
    ensures
        r@ == org_shape_rewritten(html@),
{
    let re = regex::Regex::new("(?s)<pre class=\"src src-([A-Za-z0-9_+\\-.#]+)\">(.*?)</pre>")
        .unwrap();
    re.replace_all(html, |caps: &regex::Captures| {
        crate::highlight::rewrite_code_capture(&caps[1], &caps[2])
    }).into_owned()
}

/// Rewrites both known serialized code-block shapes of an HTML tree
/// through the highlighter, first the `language-` form, then the
/// `src src-` form.
pub fn highlight_code_blocks_in_html(input_html: &str) -> (r: String)
    ensures
        r@ == org_shape_rewritten(md_shape_rewritten(input_html@)),
{
    let tmp = replace_md_shape(input_html);
    replace_org_shape(tmp.as_str())
}

// ---------------------------------------------------------------------------
// The Org render pipeline
// ---------------------------------------------------------------------------

/// The complete page an Org document renders to.
pub open spec fn spec_convert_org_to_html(
    s: Seq<char>,
    light: Option<Seq<char>>,
    dark: Option<Seq<char>>,
    reg: &ThemeRegistry,
    head: Seq<char>,
) -> Seq<char> {
    spec_wrap_html_page(
        org_shape_rewritten(md_shape_rewritten(org_html_of(s))),
        spec_extract_title_from_org(s),
        spec_light_css(reg, light),
        spec_dark_css(reg, dark),
        head,
    )
}

/// Renders one Org document to a complete page: serialize the body,
/// rewrite its code blocks through the highlighter, extract the title
/// from the raw text, and wrap everything with the themed stylesheets.
pub fn convert_org_to_html(
    input: &str,
    theme: &ThemeConfig,
    reg: &ThemeRegistry,
    head_extra: &str,
) -> (r: String)
    requires
        spec_light_fallback(reg_names(reg)) is Some,
        spec_dark_fallback(reg_names(reg)) is Some,
    ensures
        r@ == spec_convert_org_to_html(
            input@,
            theme.light_view(),
            theme.dark_view(),
            reg,
            head_extra@,
        ),
{
    let body = org_body_html(input);
    let body = highlight_code_blocks_in_html(body.as_str());
    let title = extract_title_from_org(input);
    wrap_html_page(body, title, theme, reg, head_extra)
}

} // verus!

verus! {

/// Rendering Org is a pure function of the text, the requested theme
/// names, the registry and the head snippet: equal inputs yield
/// byte-identical pages, with no hidden clock or random dependency.
pub proof fn lemma_convert_org_pure(
    s1: Seq<char>,
    s2: Seq<char>,
    light1: Option<Seq<char>>,
    light2: Option<Seq<char>>,
    dark1: Option<Seq<char>>,
    dark2: Option<Seq<char>>,
    reg1: &ThemeRegistry,
    reg2: &ThemeRegistry,
    head1: Seq<char>,
    head2: Seq<char>,
)
    requires
        s1 == s2,
        light1 == light2,
        dark1 == dark2,
        reg1.entries == reg2.entries,
        head1 == head2,
    ensures
        spec_convert_org_to_html(s1, light1, dark1, reg1, head1) == spec_convert_org_to_html(
            s2,
            light2,
            dark2,
            reg2,
            head2,
        ),
{
}

} // verus!
