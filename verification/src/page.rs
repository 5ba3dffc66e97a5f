//! Assembling a rendered document body into a complete HTML page.
//!
//! Every rendered page is a single self-contained document: the base
//! stylesheet, the light and dark syntax stylesheets scoped under
//! `data-theme` attribute selectors (and duplicated under
//! `prefers-color-scheme` media queries for the `auto` mode), a
//! wrap-override stylesheet, an optional operator-supplied head snippet,
//! a bootstrap script that applies the persisted theme preference before
//! first paint, the body, and a theme-toggle control with its scripts.

use crate::ThemeConfig;
use crate::css::{scope_syntect_css, spec_scope_css};
use crate::text::{chars_string, push_str_chars};
use crate::themes::{
    opt_str_view, reg_names, spec_dark_css, spec_dark_fallback, spec_light_css,
    spec_light_fallback, syntax_css, ThemeRegistry,
};
use vstd::prelude::*;

verus! {

/// The base stylesheet embedded in every page, as a spec-level sequence.
pub open spec fn spec_default_css() -> Seq<char> {
    (r#":root {
  --fg: #222222;
  --bg: #f7f4e9; /* retro paper */
  --muted: #6b665e;
  --link: #2f6f6f; /* teal-ish retro */
  --border: #d9d4c7;
  --code-bg: #efe9d6;
  --shadow: rgba(0,0,0,0.04);
}
[data-theme='dark'] {
  --fg: #e6e1cf;
  --bg: #0e0f13;
  --muted: #9a968a;
  --link: #7fd1b9;
  --border: #2a2c33;
  --code-bg: #151821;
  --shadow: rgba(0,0,0,0.25);
}
@media (prefers-color-scheme: dark) {
  [data-theme='auto'] {
    --fg: #e6e1cf;
    --bg: #0e0f13;
    --muted: #9a968a;
    --link: #7fd1b9;
    --border: #2a2c33;
    --code-bg: #151821;
    --shadow: rgba(0,0,0,0.25);
  }
}
html, body { padding: 0; margin: 0; background: var(--bg); color: var(--fg); }
body {
  font-family: ui-serif, Georgia, Times, \"Noto Serif\", serif;
  font-size: 17px;
  line-height: 1.7;
  text-rendering: optimizeLegibility;
  -webkit-font-smoothing: antialiased;
  -moz-osx-font-smoothing: grayscale;
}
.container { max-width: 70ch; margin: 0 auto; padding: 28px 18px 48px; }

.theme-controls { position: sticky; top: 0; display: flex; justify-content: flex-end; padding: 10px 18px 0; }
.theme-controls button {
  border: 1px solid var(--fg);
  background: transparent;
  color: var(--fg);
  border-radius: 999px;
  padding: 4px 10px;
  cursor: pointer;
  font-family: ui-monospace, SFMono-Regular, Menlo, Monaco, Consolas, \"Liberation Mono\", \"Courier New\", monospace;
  font-size: 0.9rem;
}
.theme-controls button[data-mode='auto'] {
  border-style: dashed;
  letter-spacing: 0.06em;
}
.theme-controls button:hover { background: var(--code-bg); }

h1, h2, h3, h4, h5, h6 { line-height: 1.2; margin: 1.6em 0 0.7em; font-weight: 700; letter-spacing: 0.02em; }
h1 { font-size: 2.1rem; }
h2 { font-size: 1.6rem; }
h3 { font-size: 1.25rem; }
h4 { font-size: 1.1rem; }
p { margin: 1em 0; }
a { color: var(--link); text-decoration: underline; text-decoration-thickness: 1px; text-underline-offset: 2px; text-decoration-skip-ink: auto; }
a:hover { opacity: 0.9; }
::selection { background: color-mix(in srgb, var(--link) 25%, transparent); }
img, video { max-width: 100%; height: auto; border-radius: 2px; box-shadow: 0 1px 0 var(--shadow); }
hr { border: 0; border-top: 1px dashed var(--border); margin: 2.2rem 0; }
ul, ol { padding-left: 1.2rem; }
li { margin: 0.35rem 0; }
blockquote {
  margin: 1.2rem 0; padding: 0.75rem 1rem; border-left: 3px solid var(--border);
  color: var(--muted); background: color-mix(in srgb, var(--code-bg) 65%, transparent);
  font-style: italic;
}
code, pre {
  font-family: ui-monospace, SFMono-Regular, Menlo, Monaco, Consolas, \"Liberation Mono\", \"Courier New\", monospace;
  font-size: 0.95em;
}
pre {
  background: var(--code-bg);
  padding: 0.9rem; border-radius: 6px; overflow: auto; border: 1px solid var(--border);
}
code { background: var(--code-bg); padding: 0.1rem 0.35rem; border-radius: 4px; }
pre code { padding: 0; background: transparent; }
table { width: 100%; border-collapse: collapse; margin: 1.2rem 0; }
th, td { padding: 0.5rem 0.6rem; border: 1px solid var(--border); text-align: left; }
thead th { background: color-mix(in srgb, var(--code-bg) 85%, transparent); }
details { border: 1px solid var(--border); border-radius: 6px; padding: 0.6rem 0.9rem; background: color-mix(in srgb, var(--code-bg) 75%, transparent); }
summary { cursor: pointer; font-weight: 600; }
kbd { font-family: inherit; background: var(--code-bg); border: 1px solid var(--border); border-bottom-width: 2px; padding: 0 0.35rem; border-radius: 4px; }
@media (min-width: 900px) { body { font-size: 18px; } .container { padding: 36px 22px 56px; } }
"#)@
}

/// The base stylesheet embedded in every page.
pub fn default_css() -> (r: &'static str)
    ensures
        r@ == spec_default_css(),
{
    r#":root {
  --fg: #222222;
  --bg: #f7f4e9; /* retro paper */
  --muted: #6b665e;
  --link: #2f6f6f; /* teal-ish retro */
  --border: #d9d4c7;
  --code-bg: #efe9d6;
  --shadow: rgba(0,0,0,0.04);
}
[data-theme='dark'] {
  --fg: #e6e1cf;
  --bg: #0e0f13;
  --muted: #9a968a;
  --link: #7fd1b9;
  --border: #2a2c33;
  --code-bg: #151821;
  --shadow: rgba(0,0,0,0.25);
}
@media (prefers-color-scheme: dark) {
  [data-theme='auto'] {
    --fg: #e6e1cf;
    --bg: #0e0f13;
    --muted: #9a968a;
    --link: #7fd1b9;
    --border: #2a2c33;
    --code-bg: #151821;
    --shadow: rgba(0,0,0,0.25);
  }
}
html, body { padding: 0; margin: 0; background: var(--bg); color: var(--fg); }
body {
  font-family: ui-serif, Georgia, Times, \"Noto Serif\", serif;
  font-size: 17px;
  line-height: 1.7;
  text-rendering: optimizeLegibility;
  -webkit-font-smoothing: antialiased;
  -moz-osx-font-smoothing: grayscale;
}
.container { max-width: 70ch; margin: 0 auto; padding: 28px 18px 48px; }

.theme-controls { position: sticky; top: 0; display: flex; justify-content: flex-end; padding: 10px 18px 0; }
.theme-controls button {
  border: 1px solid var(--fg);
  background: transparent;
  color: var(--fg);
  border-radius: 999px;
  padding: 4px 10px;
  cursor: pointer;
  font-family: ui-monospace, SFMono-Regular, Menlo, Monaco, Consolas, \"Liberation Mono\", \"Courier New\", monospace;
  font-size: 0.9rem;
}
.theme-controls button[data-mode='auto'] {
  border-style: dashed;
  letter-spacing: 0.06em;
}
.theme-controls button:hover { background: var(--code-bg); }

h1, h2, h3, h4, h5, h6 { line-height: 1.2; margin: 1.6em 0 0.7em; font-weight: 700; letter-spacing: 0.02em; }
h1 { font-size: 2.1rem; }
h2 { font-size: 1.6rem; }
h3 { font-size: 1.25rem; }
h4 { font-size: 1.1rem; }
p { margin: 1em 0; }
a { color: var(--link); text-decoration: underline; text-decoration-thickness: 1px; text-underline-offset: 2px; text-decoration-skip-ink: auto; }
a:hover { opacity: 0.9; }
::selection { background: color-mix(in srgb, var(--link) 25%, transparent); }
img, video { max-width: 100%; height: auto; border-radius: 2px; box-shadow: 0 1px 0 var(--shadow); }
hr { border: 0; border-top: 1px dashed var(--border); margin: 2.2rem 0; }
ul, ol { padding-left: 1.2rem; }
li { margin: 0.35rem 0; }
blockquote {
  margin: 1.2rem 0; padding: 0.75rem 1rem; border-left: 3px solid var(--border);
  color: var(--muted); background: color-mix(in srgb, var(--code-bg) 65%, transparent);
  font-style: italic;
}
code, pre {
  font-family: ui-monospace, SFMono-Regular, Menlo, Monaco, Consolas, \"Liberation Mono\", \"Courier New\", monospace;
  font-size: 0.95em;
}
pre {
  background: var(--code-bg);
  padding: 0.9rem; border-radius: 6px; overflow: auto; border: 1px solid var(--border);
}
code { background: var(--code-bg); padding: 0.1rem 0.35rem; border-radius: 4px; }
pre code { padding: 0; background: transparent; }
table { width: 100%; border-collapse: collapse; margin: 1.2rem 0; }
th, td { padding: 0.5rem 0.6rem; border: 1px solid var(--border); text-align: left; }
thead th { background: color-mix(in srgb, var(--code-bg) 85%, transparent); }
details { border: 1px solid var(--border); border-radius: 6px; padding: 0.6rem 0.9rem; background: color-mix(in srgb, var(--code-bg) 75%, transparent); }
summary { cursor: pointer; font-weight: 600; }
kbd { font-family: inherit; background: var(--code-bg); border: 1px solid var(--border); border-bottom-width: 2px; padding: 0 0.35rem; border-radius: 4px; }
@media (min-width: 900px) { body { font-size: 18px; } .container { padding: 36px 22px 56px; } }
"#
}

/// The script that applies the persisted theme preference before first paint, as a spec-level sequence.
pub open spec fn spec_theme_bootstrap_js() -> Seq<char> {
    (r#"(function(){
  try {
    document.documentElement.setAttribute('data-theme', localStorage.getItem('haystack-theme') || 'auto');
  } catch(e) {}
})();"#)@
}

/// The script that applies the persisted theme preference before first paint.
pub fn theme_bootstrap_js() -> (r: &'static str)
    ensures
        r@ == spec_theme_bootstrap_js(),
{
    r#"(function(){
  try {
    document.documentElement.setAttribute('data-theme', localStorage.getItem('haystack-theme') || 'auto');
  } catch(e) {}
})();"#
}

/// The theme-toggle control, as a spec-level sequence.
pub open spec fn spec_theme_controls_html() -> Seq<char> {
    ("<div class=\"theme-controls\"><button id=\"themeToggle\" aria-label=\"Toggle theme\">\u{1F313}</button></div>")@
}

/// The theme-toggle control.
pub fn theme_controls_html() -> (r: &'static str)
    ensures
        r@ == spec_theme_controls_html(),
{
    "<div class=\"theme-controls\"><button id=\"themeToggle\" aria-label=\"Toggle theme\">\u{1F313}</button></div>"
}

/// The click handler cycling light, dark and auto modes, as a spec-level sequence.
pub open spec fn spec_theme_toggle_js() -> Seq<char> {
    (r#"(function(){
  function setTheme(t){ document.documentElement.setAttribute('data-theme', t); try{ localStorage.setItem('haystack-theme', t); }catch(e){} }
  const btn = document.getElementById('themeToggle');
  if(btn){ btn.addEventListener('click', function(){
    const cur = document.documentElement.getAttribute('data-theme')||'auto';
    const next = (cur==='light') ? 'dark' : (cur==='dark' ? 'auto' : 'light');
    setTheme(next);
  }); }
})();"#)@
}

/// The click handler cycling light, dark and auto modes.
pub fn theme_toggle_js() -> (r: &'static str)
    ensures
        r@ == spec_theme_toggle_js(),
{
    r#"(function(){
  function setTheme(t){ document.documentElement.setAttribute('data-theme', t); try{ localStorage.setItem('haystack-theme', t); }catch(e){} }
  const btn = document.getElementById('themeToggle');
  if(btn){ btn.addEventListener('click', function(){
    const cur = document.documentElement.getAttribute('data-theme')||'auto';
    const next = (cur==='light') ? 'dark' : (cur==='dark' ? 'auto' : 'light');
    setTheme(next);
  }); }
})();"#
}

/// The script that keeps the toggle control labelled with the current mode, as a spec-level sequence.
pub open spec fn spec_theme_indicator_js() -> Seq<char> {
    (r#"(function(){
  function render(){
    var btn = document.getElementById('themeToggle'); if(!btn) return;
    var mode = document.documentElement.getAttribute('data-theme')||'auto';
    btn.setAttribute('data-mode', mode);
    var label = (mode==='light'?'Light':(mode==='dark'?'Dark':'Auto'));
    btn.setAttribute('aria-label', 'Toggle theme (current: '+label+')');
    btn.title = 'Theme: '+label+' (click to switch)';
    btn.textContent = (mode==='light'?'\u2600':(mode==='dark'?'\u263D':'A'));
  }
  render();
  var btn = document.getElementById('themeToggle'); if(btn){ btn.addEventListener('click', function(){ setTimeout(render,0); }); }
  var obs = new MutationObserver(render); obs.observe(document.documentElement, { attributes:true, attributeFilter:['data-theme']});
})();"#)@
}

/// The script that keeps the toggle control labelled with the current mode.
pub fn theme_indicator_js() -> (r: &'static str)
    ensures
        r@ == spec_theme_indicator_js(),
{
    r#"(function(){
  function render(){
    var btn = document.getElementById('themeToggle'); if(!btn) return;
    var mode = document.documentElement.getAttribute('data-theme')||'auto';
    btn.setAttribute('data-mode', mode);
    var label = (mode==='light'?'Light':(mode==='dark'?'Dark':'Auto'));
    btn.setAttribute('aria-label', 'Toggle theme (current: '+label+')');
    btn.title = 'Theme: '+label+' (click to switch)';
    btn.textContent = (mode==='light'?'\u2600':(mode==='dark'?'\u263D':'A'));
  }
  render();
  var btn = document.getElementById('themeToggle'); if(btn){ btn.addEventListener('click', function(){ setTimeout(render,0); }); }
  var obs = new MutationObserver(render); obs.observe(document.documentElement, { attributes:true, attributeFilter:['data-theme']});
})();"#
}

/// The stylesheet forcing code blocks to soft-wrap, as a spec-level sequence.
pub open spec fn spec_wrap_overrides_css() -> Seq<char> {
    ("\n/* Force code wrapping */\n.container pre, .container pre code, .container code.hl, .container pre .hl {\n  white-space: pre-wrap;\n  overflow-wrap: anywhere;\n  word-break: break-word;\n}\n")@
}

/// The stylesheet forcing code blocks to soft-wrap.
pub fn wrap_overrides_css() -> (r: &'static str)
    ensures
        r@ == spec_wrap_overrides_css(),
{
    "\n/* Force code wrapping */\n.container pre, .container pre code, .container code.hl, .container pre .hl {\n  white-space: pre-wrap;\n  overflow-wrap: anywhere;\n  word-break: break-word;\n}\n"
}

/// The page title: the extracted one, or the fixed fallback name.
pub open spec fn spec_page_title(title: Option<Seq<char>>) -> Seq<char> {
    match title {
        Some(t) => t,
        None => "haystack"@,
    }
}

/// The complete page built around `body`, with the given title, the raw
/// (unscoped) light and dark syntax stylesheets, and the head snippet.
pub open spec fn spec_wrap_html_page(
    body: Seq<char>,
    title: Option<Seq<char>>,
    light_css: Seq<char>,
    dark_css: Seq<char>,
    head: Seq<char>,
) -> Seq<char> {
    "<!DOCTYPE html>\n<html lang=\"en\">\n<head>\n<meta charset=\"utf-8\">\n<meta name=\"viewport\" content=\"width=device-width, initial-scale=1\">\n<title>"@
        + spec_page_title(title) + "</title>\n<script>"@ + spec_theme_bootstrap_js()
        + "</script>\n<style>\n"@ + spec_default_css() + "\n"@ + spec_scope_css(
        light_css,
        "html[data-theme='light']"@,
    ) + "\n"@ + spec_scope_css(dark_css, "html[data-theme='dark']"@)
        + "\n@media (prefers-color-scheme: light) {\n"@ + spec_scope_css(
        light_css,
        "html[data-theme='auto']"@,
    ) + "\n}\n@media (prefers-color-scheme: dark) {\n"@ + spec_scope_css(
        dark_css,
        "html[data-theme='auto']"@,
    ) + "\n}\n"@ + spec_wrap_overrides_css() + "\n</style>\n"@ + head
        + "\n</head>\n<body>\n"@ + spec_theme_controls_html()
        + "\n<main class=\"container\">\n"@ + body + "\n</main>\n<script>"@
        + spec_theme_toggle_js() + "</script>\n<script>"@ + spec_theme_indicator_js()
        + "</script>\n</body>\n</html>"@
}

/// Wraps a rendered body into a complete page: title (with fallback), base
/// stylesheet, scoped light/dark/auto syntax CSS for the configured themes,
/// wrap overrides, head snippet and theme-toggle scripts.
pub fn wrap_html_page(
    body: String,
    title: Option<String>,
    theme: &ThemeConfig,
    reg: &ThemeRegistry,
    head_extra: &str,
) -> (r: String)
    requires
        spec_light_fallback(reg_names(reg)) is Some,
        spec_dark_fallback(reg_names(reg)) is Some,
    ensures
        r@ == spec_wrap_html_page(
            body@,
            crate::text::opt_string_view(title),
            spec_light_css(reg, theme.light_view()),
            spec_dark_css(reg, theme.dark_view()),
            head_extra@,
        ),
{
    let light_req: Option<&str> = match &theme.light {
        Some(s) => Some(s.as_str()),
        None => None,
    };
    let dark_req: Option<&str> = match &theme.dark {
        Some(s) => Some(s.as_str()),
        None => None,
    };
    proof {
        assert(opt_str_view(light_req) == theme.light_view());
        assert(opt_str_view(dark_req) == theme.dark_view());
    }
    let css_pair = syntax_css(reg, light_req, dark_req);
    let lcss = css_pair.0;
    let dcss = css_pair.1;
    let syn_light_scoped = scope_syntect_css(lcss.as_str(), "html[data-theme='light']");
    let syn_dark_scoped = scope_syntect_css(dcss.as_str(), "html[data-theme='dark']");
    let syn_auto_light = scope_syntect_css(lcss.as_str(), "html[data-theme='auto']");
    let syn_auto_dark = scope_syntect_css(dcss.as_str(), "html[data-theme='auto']");
    let mut acc: Vec<char> = Vec::new();
    push_str_chars(
        &mut acc,
        "<!DOCTYPE html>\n<html lang=\"en\">\n<head>\n<meta charset=\"utf-8\">\n<meta name=\"viewport\" content=\"width=device-width, initial-scale=1\">\n<title>",
    );
    match &title {
        Some(t) => push_str_chars(&mut acc, t.as_str()),
        None => push_str_chars(&mut acc, "haystack"),
    }
    push_str_chars(&mut acc, "</title>\n<script>");
    push_str_chars(&mut acc, theme_bootstrap_js());
    push_str_chars(&mut acc, "</script>\n<style>\n");
    push_str_chars(&mut acc, default_css());
    push_str_chars(&mut acc, "\n");
    push_str_chars(&mut acc, syn_light_scoped.as_str());
    push_str_chars(&mut acc, "\n");
    push_str_chars(&mut acc, syn_dark_scoped.as_str());
    push_str_chars(&mut acc, "\n@media (prefers-color-scheme: light) {\n");
    push_str_chars(&mut acc, syn_auto_light.as_str());
    push_str_chars(&mut acc, "\n}\n@media (prefers-color-scheme: dark) {\n");
    push_str_chars(&mut acc, syn_auto_dark.as_str());
    push_str_chars(&mut acc, "\n}\n");
    push_str_chars(&mut acc, wrap_overrides_css());
    push_str_chars(&mut acc, "\n</style>\n");
    push_str_chars(&mut acc, head_extra);
    push_str_chars(&mut acc, "\n</head>\n<body>\n");
    push_str_chars(&mut acc, theme_controls_html());
    push_str_chars(&mut acc, "\n<main class=\"container\">\n");
    push_str_chars(&mut acc, body.as_str());
    push_str_chars(&mut acc, "\n</main>\n<script>");
    push_str_chars(&mut acc, theme_toggle_js());
    push_str_chars(&mut acc, "</script>\n<script>");
    push_str_chars(&mut acc, theme_indicator_js());
    push_str_chars(&mut acc, "</script>\n</body>\n</html>");
    chars_string(&acc)
}

} // verus!
