//! Rendering Markdown documents by event-stream interception.
//!
//! The Markdown parser yields a structural event stream. Events are opaque
//! values here; a trusted classifier exposes exactly the aspects the logic
//! reads (code-block delimiters with their fence info, headings, text and
//! inline code). The interception pass — buffer every text event between a
//! code-block start and end, emit exactly one raw-HTML event carrying the
//! highlighter's output in their place, and pass everything outside code
//! blocks through unchanged — is verified against a spec-level fold over
//! the event sequence. Title extraction scans the same event stream for
//! the first heading with non-empty inline text.

use crate::highlight::{highlight_code, spec_code_block_html};
use crate::page::{spec_wrap_html_page, wrap_html_page};
use crate::text::{
    chars_string, first_token, opt_string_view, push_str_chars, spec_first_token, spec_trim,
    str_chars, trim_chars,
};
use crate::themes::{
    opt_str_view, reg_names, spec_dark_css, spec_dark_fallback, spec_light_css,
    spec_light_fallback, ThemeRegistry,
};
use crate::ThemeConfig;
use pulldown_cmark::{CodeBlockKind, Event, Tag, TagEnd};
use vstd::prelude::*;

verus! {

/// The parser's event type, opaque to the verified logic.
#[verifier::external_type_specification]
#[verifier::external_body]
pub struct ExEvent<'a>(Event<'a>);

/// The aspects of one parser event that the rendering logic reads.
pub enum MdEventClass {
    CodeStart { fenced: bool, info: String },
    CodeEnd,
    HeadingStart,
    HeadingEnd,
    Text { text: String },
    InlineCode { text: String },
    Other,
}

/// The spec-level form of an event class.
pub enum MdEventView {
    CodeStart { fenced: bool, info: Seq<char> },
    CodeEnd,
    HeadingStart,
    HeadingEnd,
    Text { text: Seq<char> },
    InlineCode { text: Seq<char> },
    Other,
}

impl View for MdEventClass {
    type V = MdEventView;

    open spec fn view(&self) -> MdEventView {
        match self {
            MdEventClass::CodeStart { fenced, info } => (MdEventView::CodeStart {
                fenced: *fenced,
                info: info@,
            }),
            MdEventClass::CodeEnd => MdEventView::CodeEnd,
            MdEventClass::HeadingStart => MdEventView::HeadingStart,
            MdEventClass::HeadingEnd => MdEventView::HeadingEnd,
            MdEventClass::Text { text } => (MdEventView::Text { text: text@ }),
            MdEventClass::InlineCode { text } => (MdEventView::InlineCode { text: text@ }),
            MdEventClass::Other => MdEventView::Other,
        }
    }
}

// ---------------------------------------------------------------------------
// Trusted boundary to the parser
// ---------------------------------------------------------------------------

/// The event stream the parser yields for a document; a function of the
/// text alone.
pub uninterp spec fn md_events_of(s: Seq<char>) -> Seq<Event<'static>>;

/// The class of one event.
pub uninterp spec fn ev_class_of(e: Event<'static>) -> MdEventView;

/// The raw-HTML event carrying a string.
pub uninterp spec fn html_event_of(s: Seq<char>) -> Event<'static>;

/// The HTML serialization of an event stream; a function of the events
/// alone.
pub uninterp spec fn pushed_html_of(evs: Seq<Event<'static>>) -> Seq<char>;

/// Relies on pulldown_cmark's `Parser::new_ext` (tables, footnotes,
/// strikethrough and tasklists enabled) and `Event::into_static`: the
/// event stream of the document.
#[verifier::external_body]
fn parse_markdown_events(input: &str) -> (r: Vec<Event<'static>>)
    ensures
        r@ == md_events_of(input@),
{
    let mut options = pulldown_cmark::Options::empty();
    options.insert(pulldown_cmark::Options::ENABLE_TABLES);
    options.insert(pulldown_cmark::Options::ENABLE_FOOTNOTES);
    options.insert(pulldown_cmark::Options::ENABLE_STRIKETHROUGH);
    options.insert(pulldown_cmark::Options::ENABLE_TASKLISTS);
    let parser = pulldown_cmark::Parser::new_ext(input, options);
    parser.map(|ev| ev.into_static()).collect()
}

/// Relies on matching `pulldown_cmark::Event`'s variants, one arm each:
/// code-block delimiters (with the fence info string carried over),
/// headings, text and inline code map to their class; everything else,
/// raw-HTML events included, is `Other`.
#[verifier::external_body]
fn classify_event(e: &Event<'static>) -> (r: MdEventClass)
    ensures
        r@ == ev_class_of(*e),
{
    match e {
        Event::Start(Tag::CodeBlock(CodeBlockKind::Fenced(i))) => MdEventClass::CodeStart { fenced: true, info: i.to_string() },
        Event::Start(Tag::CodeBlock(CodeBlockKind::Indented)) => MdEventClass::CodeStart { fenced: false, info: String::new() },
        Event::End(TagEnd::CodeBlock) => MdEventClass::CodeEnd,
        Event::Start(Tag::Heading { .. }) => MdEventClass::HeadingStart,
        Event::End(TagEnd::Heading(_)) => MdEventClass::HeadingEnd,
        Event::Text(t) => (MdEventClass::Text { text: t.to_string() }),
        Event::Code(t) => (MdEventClass::InlineCode { text: t.to_string() }),
        _ => MdEventClass::Other,
    }
}

/// Relies on `pulldown_cmark::CowStr::from` and the `Event::Html`
/// constructor: wraps an owned string as a raw-HTML event. Such an event
/// falls under the classifier's catch-all arm.
#[verifier::external_body]
fn make_html_event(s: String) -> (r: Event<'static>)
    ensures
        r == html_event_of(s@),
        ev_class_of(r) is Other,
{
    Event::Html(pulldown_cmark::CowStr::from(s))
}

/// Relies on `pulldown_cmark::html::push_html`: the HTML serialization of
/// an event stream.
#[verifier::external_body]
fn events_to_html(events: Vec<Event<'static>>) -> (r: String)
    ensures
        r@ == pushed_html_of(events@),
{
    let mut out = String::new();
    pulldown_cmark::html::push_html(&mut out, events.into_iter());
    out
}

// ---------------------------------------------------------------------------
// Code-block interception
// ---------------------------------------------------------------------------

/// The language token of a fence info string: its first
/// whitespace-delimited token, or nothing if the info is empty or the
/// block is indented.
pub open spec fn spec_fence_lang(fenced: bool, info: Seq<char>) -> Option<Seq<char>> {
    if fenced {
        let tok = spec_first_token(info);
        if tok.len() == 0 {
            None
        } else {
            Some(tok)
        }
    } else {
        None
    }
}

/// The interception state: inside a code block or not, the pending
/// language token, the buffered code text, and the events emitted so far.
pub struct MdScanState {
    pub in_code: bool,
    pub lang: Option<Seq<char>>,
    pub buf: Seq<char>,
    pub out: Seq<Event<'static>>,
}

/// The initial interception state.
pub open spec fn spec_md_init() -> MdScanState {
    MdScanState { in_code: false, lang: None, buf: Seq::empty(), out: Seq::empty() }
}

/// One interception step: a code-block start opens a fresh buffer; text
/// inside a code block is buffered, never emitted; a code-block end emits
/// exactly one raw-HTML event carrying the highlighted block; every other
/// event is passed through when outside a code block and dropped inside
/// one.
pub open spec fn spec_md_step(st: MdScanState, e: Event<'static>) -> MdScanState {
    match ev_class_of(e) {
        MdEventView::CodeStart { fenced, info } => (MdScanState {
            in_code: true,
            lang: spec_fence_lang(fenced, info),
            buf: Seq::empty(),
            out: st.out,
        }),
        MdEventView::CodeEnd => (MdScanState {
            in_code: false,
            lang: None,
            buf: st.buf,
            out: st.out.push(html_event_of(spec_code_block_html(st.buf, st.lang))),
        }),
        MdEventView::Text { text } => if st.in_code {
            MdScanState { in_code: st.in_code, lang: st.lang, buf: st.buf + text, out: st.out }
        } else {
            MdScanState { in_code: st.in_code, lang: st.lang, buf: st.buf, out: st.out.push(e) }
        },
        _ => if st.in_code {
            st
        } else {
            MdScanState { in_code: st.in_code, lang: st.lang, buf: st.buf, out: st.out.push(e) }
        },
    }
}

/// The interception state after the first `n` events.
pub open spec fn spec_md_fold(evs: Seq<Event<'static>>, n: int) -> MdScanState
    decreases n,
{
    if n <= 0 {
        spec_md_init()
    } else {
        spec_md_step(spec_md_fold(evs, n - 1), evs[n - 1])
    }
}

/// The full event stream after interception.
pub open spec fn spec_intercept(evs: Seq<Event<'static>>) -> Seq<Event<'static>> {
    spec_md_fold(evs, evs.len() as int).out
}

/// Replaces every code block of the event stream by one raw-HTML event
/// carrying the highlighted block; events outside code blocks pass
/// through unchanged, and nothing from inside a code block is emitted as
/// ordinary text.
pub fn intercept_code_blocks(events: Vec<Event<'static>>) -> (r: Vec<Event<'static>>)
    ensures
        r@ == spec_intercept(events@),
{
    let ghost orig = events@;
    let mut events = events;
    let mut out: Vec<Event<'static>> = Vec::new();
    let mut in_code: bool = false;
    let mut lang: Option<String> = None;
    let mut buf: Vec<char> = Vec::new();
    while events.len() > 0
        invariant
            events@.len() <= orig.len(),
            events@ == orig.skip(orig.len() - events@.len()),
            ({
                let st = spec_md_fold(orig, orig.len() - events@.len());
                &&& st.in_code == in_code
                &&& st.lang == opt_string_view(lang)
                &&& st.buf == buf@
                &&& st.out == out@
            }),
        decreases events@.len(),
    {
        let ghost i = orig.len() - events@.len();
        let ghost st = spec_md_fold(orig, i as int);
        let e = events.remove(0);
        proof {
            assert(orig.skip(i as int)[0] == orig[i as int]);
            assert(orig.skip(i as int).remove(0) =~= orig.skip(i + 1));
            assert(spec_md_fold(orig, i + 1) == spec_md_step(st, orig[i as int]));
        }
        let c = classify_event(&e);
        match c {
            MdEventClass::CodeStart { fenced, info } => {
                in_code = true;
                buf = Vec::new();
                if fenced {
                    let tok = first_token(&str_chars(info.as_str()));
                    if tok.len() == 0 {
                        lang = None;
                    } else {
                        lang = Some(chars_string(&tok));
                    }
                } else {
                    lang = None;
                }
            },
            MdEventClass::CodeEnd => {
                let code_s = chars_string(&buf);
                let lref: Option<&str> = match &lang {
                    Some(s) => Some(s.as_str()),
                    None => None,
                };
                proof {
                    assert(opt_str_view(lref) == opt_string_view(lang));
                }
                let snippet = highlight_code(code_s.as_str(), lref);
                out.push(make_html_event(snippet));
                in_code = false;
                lang = None;
            },
            MdEventClass::Text { text } => {
                if in_code {
                    push_str_chars(&mut buf, text.as_str());
                } else {
                    out.push(e);
                }
            },
            MdEventClass::HeadingStart => {
                if !in_code {
                    out.push(e);
                }
            },
            MdEventClass::HeadingEnd => {
                if !in_code {
                    out.push(e);
                }
            },
            MdEventClass::InlineCode { text: _ } => {
                if !in_code {
                    out.push(e);
                }
            },
            MdEventClass::Other => {
                if !in_code {
                    out.push(e);
                }
            },
        }
    }
    proof {
        assert(orig.len() - events@.len() == orig.len());
    }
    out
}

// ---------------------------------------------------------------------------
// Title extraction
// ---------------------------------------------------------------------------

/// The title-scan state: inside a heading or not, the inline text
/// collected so far, and the title once one is found.
pub struct TitleScanState {
    pub in_heading: bool,
    pub acc: Seq<char>,
    pub found: Option<Seq<char>>,
}

/// The initial title-scan state.
pub open spec fn spec_title_init() -> TitleScanState {
    TitleScanState { in_heading: false, acc: Seq::empty(), found: None }
}

/// One title-scan step: a heading start opens collection; a heading end
/// yields the trimmed collected text when non-empty, else collection
/// closes (the collected text is kept); text and inline code inside a
/// heading are appended.
pub open spec fn spec_title_step(st: TitleScanState, e: Event<'static>) -> TitleScanState {
    if st.found is Some {
        st
    } else {
        match ev_class_of(e) {
            MdEventView::HeadingStart => (TitleScanState {
                in_heading: true,
                acc: st.acc,
                found: st.found,
            }),
            MdEventView::HeadingEnd => if spec_trim(st.acc).len() > 0 {
                TitleScanState { in_heading: st.in_heading, acc: st.acc, found: Some(spec_trim(st.acc)) }
            } else {
                TitleScanState { in_heading: false, acc: st.acc, found: st.found }
            },
            MdEventView::Text { text } => if st.in_heading {
                TitleScanState { in_heading: st.in_heading, acc: st.acc + text, found: st.found }
            } else {
                st
            },
            MdEventView::InlineCode { text } => if st.in_heading {
                TitleScanState { in_heading: st.in_heading, acc: st.acc + text, found: st.found }
            } else {
                st
            },
            _ => st,
        }
    }
}

/// The title-scan state after the first `n` events.
pub open spec fn spec_title_fold(evs: Seq<Event<'static>>, n: int) -> TitleScanState
    decreases n,
{
    if n <= 0 {
        spec_title_init()
    } else {
        spec_title_step(spec_title_fold(evs, n - 1), evs[n - 1])
    }
}

/// The title of a Markdown event stream: the concatenated inline text of
/// the first heading whose text is non-empty, trimmed.
pub open spec fn spec_md_title(evs: Seq<Event<'static>>) -> Option<Seq<char>> {
    spec_title_fold(evs, evs.len() as int).found
}

proof fn lemma_title_found_stable(evs: Seq<Event<'static>>, m: int, n: int)
    requires
        0 <= m <= n,
        spec_title_fold(evs, m).found is Some,
    ensures
        spec_title_fold(evs, n).found == spec_title_fold(evs, m).found,
    decreases n - m,
{
    if n > m {
        lemma_title_found_stable(evs, m, n - 1);
    }
}

/// Derives the title of a Markdown document from its raw text: the
/// concatenated inline text (plain text and inline code) of the first
/// heading, trimmed; an empty heading does not stop the scan.
pub fn extract_title_from_markdown(input: &str) -> (r: Option<String>)
    ensures
        match r {
            Some(t) => spec_md_title(md_events_of(input@)) == Some(t@),
            None => spec_md_title(md_events_of(input@)) is None,
        },
{
    let events = parse_markdown_events(input);
    let ghost evs = events@;
    let mut in_heading: bool = false;
    let mut acc: Vec<char> = Vec::new();
    let mut i: usize = 0;
    while i < events.len()
        invariant
            i <= evs.len(),
            events@ == evs,
            evs == md_events_of(input@),
            ({
                let st = spec_title_fold(evs, i as int);
                &&& st.in_heading == in_heading
                &&& st.acc == acc@
                &&& st.found is None
            }),
        decreases events.len() - i,
    {
        let ghost st = spec_title_fold(evs, i as int);
        proof {
            assert(spec_title_fold(evs, i + 1) == spec_title_step(st, evs[i as int]));
        }
        let c = classify_event(&events[i]);
        match c {
            MdEventClass::HeadingStart => {
                in_heading = true;
            },
            MdEventClass::HeadingEnd => {
                let trimmed = trim_chars(&acc);
                if trimmed.len() > 0 {
                    proof {
                        lemma_title_found_stable(evs, i + 1, evs.len() as int);
                    }
                    return Some(chars_string(&trimmed));
                } else {
                    in_heading = false;
                }
            },
            MdEventClass::Text { text } => {
                if in_heading {
                    push_str_chars(&mut acc, text.as_str());
                }
            },
            MdEventClass::InlineCode { text } => {
                if in_heading {
                    push_str_chars(&mut acc, text.as_str());
                }
            },
            MdEventClass::CodeStart { fenced: _, info: _ } => {},
            MdEventClass::CodeEnd => {},
            MdEventClass::Other => {},
        }
        i = i + 1;
    }
    None
}

// ---------------------------------------------------------------------------
// The Markdown render pipeline
// ---------------------------------------------------------------------------

/// The complete page a Markdown document renders to.
pub open spec fn spec_convert_markdown_to_html(
    s: Seq<char>,
    light: Option<Seq<char>>,
    dark: Option<Seq<char>>,
    reg: &ThemeRegistry,
    head: Seq<char>,
) -> Seq<char> {
    spec_wrap_html_page(
        pushed_html_of(spec_intercept(md_events_of(s))),
        spec_md_title(md_events_of(s)),
        spec_light_css(reg, light),
        spec_dark_css(reg, dark),
        head,
    )
}

/// Renders one Markdown document to a complete page: parse the event
/// stream, replace every code block by its highlighted form, serialize,
/// extract the title from the raw text, and wrap everything with the
/// themed stylesheets.
pub fn convert_markdown_to_html(
    input: &str,
    theme: &ThemeConfig,
    reg: &ThemeRegistry,
    head_extra: &str,
) -> (r: String)
    requires
        spec_light_fallback(reg_names(reg)) is Some,
        spec_dark_fallback(reg_names(reg)) is Some,
    ensures
        r@ == spec_convert_markdown_to_html(
            input@,
            theme.light_view(),
            theme.dark_view(),
            reg,
            head_extra@,
        ),
{
    let events = parse_markdown_events(input);
    let intercepted = intercept_code_blocks(events);
    let body = events_to_html(intercepted);
    let title = extract_title_from_markdown(input);
    wrap_html_page(body, title, theme, reg, head_extra)
}

} // verus!

verus! {

// ---------------------------------------------------------------------------
// What interception guarantees
// ---------------------------------------------------------------------------

/// `e` is an input event that stood outside any code block and is no
/// code-block delimiter.
pub open spec fn spec_kept_event(evs: Seq<Event<'static>>, e: Event<'static>) -> bool {
    exists|j: int|
        0 <= j < evs.len() && evs[j] == e && !spec_md_fold(evs, j).in_code && !((
        #[trigger] ev_class_of(evs[j])) is CodeStart) && !(ev_class_of(evs[j]) is CodeEnd)
}

/// `e` is the replacement fragment of the code block that ends at some
/// code-block-end event of the input.
pub open spec fn spec_block_fragment(evs: Seq<Event<'static>>, e: Event<'static>) -> bool {
    exists|j: int|
        0 <= j < evs.len() && (#[trigger] ev_class_of(evs[j])) is CodeEnd && e == html_event_of(
            spec_code_block_html(spec_md_fold(evs, j).buf, spec_md_fold(evs, j).lang),
        )
}

proof fn lemma_intercept_sources_upto(evs: Seq<Event<'static>>, n: int)
    requires
        0 <= n <= evs.len(),
    ensures
        forall|k: int|
            0 <= k < spec_md_fold(evs, n).out.len() ==> spec_kept_event(
                evs,
                #[trigger] spec_md_fold(evs, n).out[k],
            ) || spec_block_fragment(evs, spec_md_fold(evs, n).out[k]),
    decreases n,
{
    if n > 0 {
        lemma_intercept_sources_upto(evs, n - 1);
        let st = spec_md_fold(evs, n - 1);
        let st2 = spec_md_fold(evs, n);
        assert(st2 == spec_md_step(st, evs[n - 1]));
        assert forall|k: int| 0 <= k < st2.out.len() implies spec_kept_event(
            evs,
            #[trigger] st2.out[k],
        ) || spec_block_fragment(evs, st2.out[k]) by {
            if k < st.out.len() {
                assert(st2.out[k] == st.out[k]);
            } else {
                let c = ev_class_of(evs[n - 1]);
                if c is CodeEnd {
                    assert(st2.out[k] == html_event_of(spec_code_block_html(st.buf, st.lang)));
                    assert(spec_block_fragment(evs, st2.out[k]));
                } else {
                    assert(st2.out[k] == evs[n - 1]);
                    assert(!st.in_code);
                    assert(spec_kept_event(evs, st2.out[k]));
                }
            }
        }
    }
}

/// No code-block content leaks into the intercepted stream: every event
/// it holds is either an input event from outside any code block — never
/// a code-block delimiter, never buffered code text — or the single
/// replacement fragment of one of the input's code blocks.
pub proof fn lemma_intercept_no_code_leak(evs: Seq<Event<'static>>)
    ensures
        forall|k: int|
            0 <= k < spec_intercept(evs).len() ==> spec_kept_event(
                evs,
                #[trigger] spec_intercept(evs)[k],
            ) || spec_block_fragment(evs, spec_intercept(evs)[k]),
{
    lemma_intercept_sources_upto(evs, evs.len() as int);
}

/// How many of the first `n` events end a code block.
pub open spec fn spec_code_end_count(evs: Seq<Event<'static>>, n: int) -> int
    decreases n,
{
    if n <= 0 {
        0
    } else {
        spec_code_end_count(evs, n - 1) + if ev_class_of(evs[n - 1]) is CodeEnd {
            1int
        } else {
            0int
        }
    }
}

/// How many of the first `n` events pass through interception unchanged.
pub open spec fn spec_kept_count(evs: Seq<Event<'static>>, n: int) -> int
    decreases n,
{
    if n <= 0 {
        0
    } else {
        spec_kept_count(evs, n - 1) + if spec_md_fold(evs, n - 1).in_code || ev_class_of(
            evs[n - 1],
        ) is CodeStart || ev_class_of(evs[n - 1]) is CodeEnd {
            0int
        } else {
            1int
        }
    }
}

proof fn lemma_intercept_count_upto(evs: Seq<Event<'static>>, n: int)
    requires
        0 <= n <= evs.len(),
    ensures
        spec_md_fold(evs, n).out.len() == spec_kept_count(evs, n) + spec_code_end_count(evs, n),
    decreases n,
{
    if n > 0 {
        lemma_intercept_count_upto(evs, n - 1);
    }
}

/// Interception replaces each code block by exactly one event: the
/// intercepted stream holds one event per code-block end of the input,
/// plus the events passed through from outside code blocks.
pub proof fn lemma_intercept_one_fragment_per_block(evs: Seq<Event<'static>>)
    ensures
        spec_intercept(evs).len() == spec_kept_count(evs, evs.len() as int) + spec_code_end_count(
            evs,
            evs.len() as int,
        ),
{
    lemma_intercept_count_upto(evs, evs.len() as int);
}

/// Rendering Markdown is a pure function of the text, the requested theme
/// names, the registry and the head snippet: equal inputs yield
/// byte-identical pages, with no hidden clock or random dependency.
pub proof fn lemma_convert_markdown_pure(
    s1: Seq<char>,
    s2: Seq<char>,
    light1: Option<Seq<char>>,
    light2: Option<Seq<char>>,
    dark1: Option<Seq<char>>,
    dark2: Option<Seq<char>>,
    reg1: &ThemeRegistry,
    reg2: &ThemeRegistry,
    head1: Seq<char>,
    head2: Seq<char>,
)
    requires
        s1 == s2,
        light1 == light2,
        dark1 == dark2,
        reg1.entries == reg2.entries,
        head1 == head2,
    ensures
        spec_convert_markdown_to_html(s1, light1, dark1, reg1, head1)
            == spec_convert_markdown_to_html(s2, light2, dark2, reg2, head2),
{
}

} // verus!
