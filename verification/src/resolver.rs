//! Resolving a request path to an action.
//!
//! A URL path is stripped of its query string and leading slashes; an
//! empty path means `index.html`. A path with a `..` segment or a
//! backslash is rejected outright — the sole defense against path
//! traversal. A path ending in `.html` asks for a rendered document: the
//! caller probes for a same-named `.md` file, then a same-named `.org`
//! file, and the first hit wins. Any other path names a literal file
//! under the source root, served as a static asset.

use crate::text::{
    chars_eq_str, chars_string, contains_char, spec_ends_with, spec_find_idx, spec_split,
    split_chars, str_chars, subvec, views,
};
use vstd::prelude::*;

verus! {

/// The format of a source document.
pub enum SourceFormat {
    Markdown,
    Org,
}

/// What a request path asks for.
pub enum RequestPath {
    BadRequest,
    Page { base: String },
    Static { rel: String },
}

/// The spec-level form of a classified request path.
pub enum RequestPathView {
    BadRequest,
    Page { base: Seq<char> },
    Static { rel: Seq<char> },
}

impl View for RequestPath {
    type V = RequestPathView;

    open spec fn view(&self) -> RequestPathView {
        match self {
            RequestPath::BadRequest => RequestPathView::BadRequest,
            RequestPath::Page { base } => (RequestPathView::Page { base: base@ }),
            RequestPath::Static { rel } => (RequestPathView::Static { rel: rel@ }),
        }
    }
}

/// `s` without its leading run of `'/'` characters.
pub open spec fn spec_skip_slashes(s: Seq<char>) -> Seq<char>
    decreases s.len(),
{
    if s.len() > 0 && s[0] == '/' {
        spec_skip_slashes(s.drop_first())
    } else {
        s
    }
}

proof fn lemma_skip_slashes_at(s: Seq<char>, i: int)
    requires
        0 <= i <= s.len(),
        forall|j: int| 0 <= j < i ==> s[j] == '/',
        i == s.len() || s[i] != '/',
    ensures
        spec_skip_slashes(s) == s.skip(i),
    decreases i,
{
    if i == 0 {
        assert(s.skip(0) =~= s);
    } else {
        lemma_skip_slashes_at(s.drop_first(), i - 1);
        assert(s.drop_first().skip(i - 1) =~= s.skip(i));
    }
}

/// Whether `s` holds `c` anywhere.
pub open spec fn spec_contains(s: Seq<char>, c: char) -> bool {
    exists|j: int| 0 <= j < s.len() && s[j] == c
}

/// Whether a path attempts traversal: some `/`-separated segment is `..`
/// or holds a backslash.
pub open spec fn spec_is_traversal(p: Seq<char>) -> bool {
    exists|i: int|
        0 <= i < spec_split(p, '/').len() && ((#[trigger] spec_split(p, '/')[i]) == ".."@
            || spec_contains(spec_split(p, '/')[i], '\\'))
}

/// The path part of a request: everything before the first `'?'`, without
/// leading slashes, with the empty path standing for `index.html`.
pub open spec fn spec_request_rel_path(url: Seq<char>) -> Seq<char> {
    let q = url.take(spec_find_idx(url, '?'));
    let p = spec_skip_slashes(q);
    if p.len() == 0 {
        "index.html"@
    } else {
        p
    }
}

/// What a request path asks for: rejection, a rendered page (named by its
/// base path without the `.html` suffix), or a static file.
pub open spec fn spec_classify_request_path(url: Seq<char>) -> RequestPathView {
    let p = spec_request_rel_path(url);
    if spec_is_traversal(p) {
        RequestPathView::BadRequest
    } else if spec_ends_with(p, ".html"@) {
        RequestPathView::Page { base: p.take(p.len() - 5) }
    } else {
        RequestPathView::Static { rel: p }
    }
}

/// Whether some segment of `p` is `..` or holds a backslash.
fn is_traversal(p: &Vec<char>) -> (r: bool)
    ensures
        r == spec_is_traversal(p@),
{
    let segs = split_chars(p, '/');
    let mut i: usize = 0;
    while i < segs.len()
        invariant
            i <= segs@.len(),
            views(segs@) == spec_split(p@, '/'),
            forall|j: int|
                0 <= j < i ==> !((#[trigger] spec_split(p@, '/')[j]) == ".."@ || spec_contains(
                    spec_split(p@, '/')[j],
                    '\\',
                )),
        decreases segs.len() - i,
    {
        let dots = chars_eq_str(&segs[i], "..");
        let bs = contains_char(&segs[i], '\\');
        proof {
            assert(views(segs@)[i as int] == segs@[i as int]@);
        }
        if dots || bs {
            return true;
        }
        i = i + 1;
    }
    false
}

/// Classifies a request path: strips the query string and leading
/// slashes, treats the empty path as `index.html`, rejects traversal
/// attempts, and tells rendered pages (`.html`) from static files.
pub fn classify_request_path(url: &str) -> (r: RequestPath)
    ensures
        r@ == spec_classify_request_path(url@),
{
    let u = str_chars(url);
    let mut q: usize = 0;
    while q < u.len() && u[q] != '?'
        invariant
            q <= u@.len(),
            forall|j: int| 0 <= j < q ==> u@[j] != '?',
        decreases u.len() - q,
    {
        q = q + 1;
    }
    proof {
        crate::text::lemma_find_idx_witness(u@, '?', q as int);
    }
    let before = subvec(&u, 0, q);
    let mut a: usize = 0;
    while a < before.len() && before[a] == '/'
        invariant
            a <= before@.len(),
            forall|j: int| 0 <= j < a ==> before@[j] == '/',
        decreases before.len() - a,
    {
        a = a + 1;
    }
    proof {
        lemma_skip_slashes_at(before@, a as int);
    }
    let stripped = subvec(&before, a, before.len());
    proof {
        assert(before@ =~= u@.take(q as int));
        assert(stripped@ =~= before@.skip(a as int));
    }
    let p = if stripped.len() == 0 {
        str_chars("index.html")
    } else {
        stripped
    };
    proof {
        assert(p@ == spec_request_rel_path(url@));
    }
    if is_traversal(&p) {
        return RequestPath::BadRequest;
    }
    let suffix = str_chars(".html");
    proof {
        reveal_strlit(".html");
    }
    if crate::text::ends_with_chars(&p, &suffix) {
        let base = subvec(&p, 0, p.len() - 5);
        proof {
            assert(base@ =~= p@.take(p@.len() - 5));
        }
        RequestPath::Page { base: chars_string(&base) }
    } else {
        RequestPath::Static { rel: chars_string(&p) }
    }
}

/// The source a rendered page comes from, given which candidate files
/// exist: the Markdown file wins over the Org file; neither existing
/// means the page is not found.
pub fn pick_page_source(md_exists: bool, org_exists: bool) -> (r: Option<SourceFormat>)
    ensures
        r == (if md_exists {
            Some(SourceFormat::Markdown)
        } else if org_exists {
            Some(SourceFormat::Org)
        } else {
            None::<SourceFormat>
        }),
{
    if md_exists {
        Some(SourceFormat::Markdown)
    } else if org_exists {
        Some(SourceFormat::Org)
    } else {
        None
    }
}

/// The format a file extension names, for the two renderable formats.
pub fn format_of_extension(ext: &str) -> (r: Option<SourceFormat>)
    ensures
        r == (if ext@ == "md"@ {
            Some(SourceFormat::Markdown)
        } else if ext@ == "org"@ {
            Some(SourceFormat::Org)
        } else {
            None::<SourceFormat>
        }),
{
    let e = str_chars(ext);
    if chars_eq_str(&e, "md") {
        Some(SourceFormat::Markdown)
    } else if chars_eq_str(&e, "org") {
        Some(SourceFormat::Org)
    } else {
        None
    }
}

/// The output path a renderable source file maps to: its `.md` or `.org`
/// suffix replaced by `.html`. Any other name maps to nothing and is
/// copied verbatim by the build driver.
pub open spec fn spec_html_output_rel(rel: Seq<char>) -> Option<Seq<char>> {
    if spec_ends_with(rel, ".md"@) {
        Some(rel.take(rel.len() - 3) + ".html"@)
    } else if spec_ends_with(rel, ".org"@) {
        Some(rel.take(rel.len() - 4) + ".html"@)
    } else {
        None
    }
}

/// Maps a relative source path to its output path, for the build driver.
pub fn html_output_rel(rel: &str) -> (r: Option<String>)
    ensures
        match r {
            Some(s) => spec_html_output_rel(rel@) == Some(s@),
            None => spec_html_output_rel(rel@) is None,
        },
{
    proof {
        reveal_strlit(".md");
        reveal_strlit(".org");
    }
    let v = str_chars(rel);
    let md = str_chars(".md");
    let org = str_chars(".org");
    if crate::text::ends_with_chars(&v, &md) {
        let mut base = subvec(&v, 0, v.len() - 3);
        proof {
            assert(base@ =~= v@.take(v@.len() - 3));
        }
        crate::text::push_str_chars(&mut base, ".html");
        Some(chars_string(&base))
    } else if crate::text::ends_with_chars(&v, &org) {
        let mut base = subvec(&v, 0, v.len() - 4);
        proof {
            assert(base@ =~= v@.take(v@.len() - 4));
        }
        crate::text::push_str_chars(&mut base, ".html");
        Some(chars_string(&base))
    } else {
        None
    }
}

} // verus!
