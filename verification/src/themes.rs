//! The theme registry and theme-name resolution.
//!
//! The registry holds every bundled highlighting theme as a pair of its
//! canonical name and the CSS generated for it. A requested name is
//! resolved against the registry through a tiered, first-match-wins
//! strategy: exact match, ASCII-case-insensitive match, match after
//! normalizing both sides (ASCII letters and digits only, lower-cased),
//! and finally a fixed alias table of common human-friendly spellings,
//! looked up under the lower-cased and then the normalized request.

use crate::text::{
    chars_eq, chars_eq_str, chars_string, lower_chars, normalize_chars, spec_lower, spec_normalize,
    spec_trim, str_chars, trim_chars,
};
use vstd::prelude::*;

verus! {

/// One registered highlighting theme: its canonical name and the
/// stylesheet generated for it.
pub struct ThemeEntry {
    pub name: String,
    pub css: String,
}

/// The read-only universe of named highlighting themes, constructed once
/// at startup and passed by reference into every render.
pub struct ThemeRegistry {
    pub entries: Vec<ThemeEntry>,
}

/// The canonical names of the registry's themes, in registry order.
pub open spec fn reg_names(reg: &ThemeRegistry) -> Seq<Seq<char>> {
    reg.entries@.map_values(|e: ThemeEntry| e.name@)
}

impl ThemeRegistry {
    /// Constructs the registry of bundled themes. Done once at startup;
    /// the registry is read-only afterwards.
    pub fn load() -> ThemeRegistry {
        load_bundled_themes()
    }
}

/// Loads the bundled theme set.
/// Relies on `syntect::highlighting::ThemeSet::load_defaults` for the
/// themes and on `syntect::html::css_for_theme_with_class_style` (spaced
/// class style) for each theme's stylesheet; a theme whose CSS cannot be
/// generated gets an empty stylesheet.
#[verifier::external_body]
fn load_bundled_themes() -> ThemeRegistry {
    let ts = syntect::highlighting::ThemeSet::load_defaults();
    let style = syntect::html::ClassStyle::Spaced;
    let mut entries: Vec<ThemeEntry> = Vec::new();
    for (name, theme) in ts.themes.iter() {
        let css = syntect::html::css_for_theme_with_class_style(theme, style).unwrap_or_default();
        entries.push(ThemeEntry { name: name.clone(), css });
    }
    ThemeRegistry { entries }
}

// ---------------------------------------------------------------------------
// Tiered name matching
// ---------------------------------------------------------------------------

/// How a requested name is compared against a registry name.
#[derive(Clone, Copy)]
pub enum MatchMode {
    Exact,
    IgnoreCase,
    Normalized,
}

/// Whether the registry name `key` matches the requested `name` under `mode`.
pub open spec fn spec_name_matches(mode: MatchMode, key: Seq<char>, name: Seq<char>) -> bool {
    match mode {
        MatchMode::Exact => key == name,
        MatchMode::IgnoreCase => spec_lower(key) == spec_lower(name),
        MatchMode::Normalized => spec_normalize(key) == spec_normalize(name),
    }
}

/// Index of the first name of `names` matching `name` under `mode`.
pub open spec fn spec_first_match(names: Seq<Seq<char>>, name: Seq<char>, mode: MatchMode) -> Option<
    int,
>
    decreases names.len(),
{
    if names.len() == 0 {
        None
    } else if spec_name_matches(mode, names[0], name) {
        Some(0)
    } else {
        match spec_first_match(names.drop_first(), name, mode) {
            None => None,
            Some(i) => Some(i + 1),
        }
    }
}

proof fn lemma_first_match_witness(names: Seq<Seq<char>>, name: Seq<char>, mode: MatchMode, i: int)
    requires
        0 <= i <= names.len(),
        forall|j: int| 0 <= j < i ==> !spec_name_matches(mode, names[j], name),
        i == names.len() || spec_name_matches(mode, names[i], name),
    ensures
        spec_first_match(names, name, mode) == (if i == names.len() {
            Option::<int>::None
        } else {
            Option::<int>::Some(i)
        }),
    decreases names.len(),
{
    if names.len() == 0 {
    } else if spec_name_matches(mode, names[0], name) {
        assert(i == 0);
    } else {
        lemma_first_match_witness(names.drop_first(), name, mode, i - 1);
    }
}

/// Whether the entry name at `i` matches `name` under `mode`.
fn entry_matches(key: &String, name: &Vec<char>, mode: MatchMode) -> (r: bool)
    ensures
        r == spec_name_matches(mode, key@, name@),
{
    match mode {
        MatchMode::Exact => chars_eq_str(name, key.as_str()),
        MatchMode::IgnoreCase => {
            let k = lower_chars(&str_chars(key.as_str()));
            let n = lower_chars(name);
            chars_eq(&k, &n)
        },
        MatchMode::Normalized => {
            let k = normalize_chars(&str_chars(key.as_str()));
            let n = normalize_chars(name);
            chars_eq(&k, &n)
        },
    }
}

/// Index of the first registry entry matching `name` under `mode`.
fn first_match(reg: &ThemeRegistry, name: &Vec<char>, mode: MatchMode) -> (r: Option<usize>)
    ensures
        match r {
            Some(i) => i < reg.entries@.len() && spec_first_match(reg_names(reg), name@, mode)
                == Some(i as int),
            None => spec_first_match(reg_names(reg), name@, mode) is None,
        },
{
    let mut i: usize = 0;
    while i < reg.entries.len()
        invariant
            i <= reg.entries@.len(),
            forall|j: int|
                0 <= j < i ==> !spec_name_matches(mode, #[trigger] reg_names(reg)[j], name@),
        decreases reg.entries.len() - i,
    {
        if entry_matches(&reg.entries[i].name, name, mode) {
            proof {
                assert(reg_names(reg)[i as int] == reg.entries@[i as int].name@);
                lemma_first_match_witness(reg_names(reg), name@, mode, i as int);
            }
            return Some(i);
        }
        proof {
            assert(reg_names(reg)[i as int] == reg.entries@[i as int].name@);
        }
        i = i + 1;
    }
    proof {
        lemma_first_match_witness(reg_names(reg), name@, mode, i as int);
    }
    None
}

// ---------------------------------------------------------------------------
// The alias table
// ---------------------------------------------------------------------------

/// The fixed alias table: common spellings of the bundled themes' names,
/// matched against the lower-cased request.
pub open spec fn spec_alias(lower: Seq<char>) -> Option<Seq<char>> {
    if lower == "github"@ || lower == "inspiredgithub"@ {
        Some("InspiredGitHub"@)
    } else if lower == "solarized-dark"@ || lower == "solarized(dark)"@ {
        Some("Solarized (dark)"@)
    } else if lower == "solarized-light"@ || lower == "solarized(light)"@ {
        Some("Solarized (light)"@)
    } else if lower == "ocean-dark"@ || lower == "base16-ocean-dark"@ {
        Some("base16-ocean.dark"@)
    } else if lower == "ocean-light"@ || lower == "base16-ocean-light"@ {
        Some("base16-ocean.light"@)
    } else {
        None
    }
}

/// The alias table under normalized keys: the same aliases, with each
/// spelling reduced to its normal form, matched against the normalized
/// request.
pub open spec fn spec_alias_normalized(norm: Seq<char>) -> Option<Seq<char>> {
    if norm == "github"@ || norm == "inspiredgithub"@ {
        Some("InspiredGitHub"@)
    } else if norm == "solarizeddark"@ {
        Some("Solarized (dark)"@)
    } else if norm == "solarizedlight"@ {
        Some("Solarized (light)"@)
    } else if norm == "oceandark"@ || norm == "base16oceandark"@ {
        Some("base16-ocean.dark"@)
    } else if norm == "oceanlight"@ || norm == "base16oceanlight"@ {
        Some("base16-ocean.light"@)
    } else {
        None
    }
}

/// Looks `lower` up in the alias table.
fn alias_lookup(lower: &Vec<char>) -> (r: Option<Vec<char>>)
    ensures
        match r {
            Some(canon) => spec_alias(lower@) == Some(canon@),
            None => spec_alias(lower@) is None,
        },
{
    if chars_eq_str(lower, "github") || chars_eq_str(lower, "inspiredgithub") {
        Some(str_chars("InspiredGitHub"))
    } else if chars_eq_str(lower, "solarized-dark") || chars_eq_str(lower, "solarized(dark)") {
        Some(str_chars("Solarized (dark)"))
    } else if chars_eq_str(lower, "solarized-light") || chars_eq_str(lower, "solarized(light)") {
        Some(str_chars("Solarized (light)"))
    } else if chars_eq_str(lower, "ocean-dark") || chars_eq_str(lower, "base16-ocean-dark") {
        Some(str_chars("base16-ocean.dark"))
    } else if chars_eq_str(lower, "ocean-light") || chars_eq_str(lower, "base16-ocean-light") {
        Some(str_chars("base16-ocean.light"))
    } else {
        None
    }
}

/// Looks `norm` up in the normalized alias table.
fn alias_lookup_normalized(norm: &Vec<char>) -> (r: Option<Vec<char>>)
    ensures
        match r {
            Some(canon) => spec_alias_normalized(norm@) == Some(canon@),
            None => spec_alias_normalized(norm@) is None,
        },
{
    if chars_eq_str(norm, "github") || chars_eq_str(norm, "inspiredgithub") {
        Some(str_chars("InspiredGitHub"))
    } else if chars_eq_str(norm, "solarizeddark") {
        Some(str_chars("Solarized (dark)"))
    } else if chars_eq_str(norm, "solarizedlight") {
        Some(str_chars("Solarized (light)"))
    } else if chars_eq_str(norm, "oceandark") || chars_eq_str(norm, "base16oceandark") {
        Some(str_chars("base16-ocean.dark"))
    } else if chars_eq_str(norm, "oceanlight") || chars_eq_str(norm, "base16oceanlight") {
        Some(str_chars("base16-ocean.light"))
    } else {
        None
    }
}

// ---------------------------------------------------------------------------
// Resolution
// ---------------------------------------------------------------------------

/// The entry the alias table selects for `key`: the first registry entry
/// bearing the alias's canonical name, if `key` has an alias at all.
pub open spec fn spec_alias_match(names: Seq<Seq<char>>, key: Seq<char>) -> Option<int> {
    match spec_alias(key) {
        Some(canon) => spec_first_match(names, canon, MatchMode::Exact),
        None => None,
    }
}

/// The entry the normalized alias table selects for `key`.
pub open spec fn spec_alias_norm_match(names: Seq<Seq<char>>, key: Seq<char>) -> Option<int> {
    match spec_alias_normalized(key) {
        Some(canon) => spec_first_match(names, canon, MatchMode::Exact),
        None => None,
    }
}

/// The index of the theme that a requested name resolves to, through the
/// tiers: exact, case-insensitive, normalized, alias table under the
/// lower-cased name, alias table under the normalized name. An absent or
/// all-whitespace request resolves to nothing.
pub open spec fn spec_resolve_theme(names: Seq<Seq<char>>, req: Option<Seq<char>>) -> Option<int> {
    match req {
        None => None,
        Some(raw) => {
            let name = spec_trim(raw);
            if name.len() == 0 {
                None
            } else {
                match spec_first_match(names, name, MatchMode::Exact) {
                    Some(i) => Some(i),
                    None => match spec_first_match(names, name, MatchMode::IgnoreCase) {
                        Some(i) => Some(i),
                        None => match spec_first_match(names, name, MatchMode::Normalized) {
                            Some(i) => Some(i),
                            None => match spec_alias_match(names, spec_lower(name)) {
                                Some(i) => Some(i),
                                None => spec_alias_norm_match(names, spec_normalize(name)),
                            },
                        },
                    },
                }
            }
        },
    }
}

/// The registry entry the alias table selects for `key`, if any.
fn alias_match(reg: &ThemeRegistry, key: &Vec<char>) -> (r: Option<usize>)
    ensures
        match r {
            Some(i) => i < reg.entries@.len() && spec_alias_match(reg_names(reg), key@) == Some(
                i as int,
            ),
            None => spec_alias_match(reg_names(reg), key@) is None,
        },
{
    match alias_lookup(key) {
        Some(canon) => first_match(reg, &canon, MatchMode::Exact),
        None => None,
    }
}

/// The registry entry the normalized alias table selects for `key`.
fn alias_norm_match(reg: &ThemeRegistry, key: &Vec<char>) -> (r: Option<usize>)
    ensures
        match r {
            Some(i) => i < reg.entries@.len() && spec_alias_norm_match(reg_names(reg), key@)
                == Some(i as int),
            None => spec_alias_norm_match(reg_names(reg), key@) is None,
        },
{
    match alias_lookup_normalized(key) {
        Some(canon) => first_match(reg, &canon, MatchMode::Exact),
        None => None,
    }
}

/// The spec-level view of an optional string slice.
pub open spec fn opt_str_view(s: Option<&str>) -> Option<Seq<char>> {
    match s {
        Some(x) => Some(x@),
        None => None,
    }
}

/// Resolves a requested theme name to the index of a registry entry —
/// by exact, case-insensitive or normalized match, or through the alias
/// table under the lower-cased and then the normalized name — or to
/// `None` if every tier fails, the request is absent, or the trimmed
/// request is empty.
pub fn resolve_theme(reg: &ThemeRegistry, name: Option<&str>) -> (r: Option<usize>)
    ensures
        match r {
            Some(i) => i < reg.entries@.len() && spec_resolve_theme(reg_names(reg), opt_str_view(name))
                == Some(i as int),
            None => spec_resolve_theme(reg_names(reg), opt_str_view(name)) is None,
        },
{
    let raw = match name {
        Some(s) => s,
        None => {
            return None;
        },
    };
    let trimmed = trim_chars(&str_chars(raw));
    if trimmed.len() == 0 {
        return None;
    }
    match first_match(reg, &trimmed, MatchMode::Exact) {
        Some(i) => Some(i),
        None => match first_match(reg, &trimmed, MatchMode::IgnoreCase) {
            Some(i) => Some(i),
            None => match first_match(reg, &trimmed, MatchMode::Normalized) {
                Some(i) => Some(i),
                None => {
                    let lower = lower_chars(&trimmed);
                    match alias_match(reg, &lower) {
                        Some(i) => Some(i),
                        None => {
                            let norm = normalize_chars(&trimmed);
                            alias_norm_match(reg, &norm)
                        },
                    }
                },
            },
        },
    }
}

/// Normalizes a theme name for fuzzy comparison: ASCII letters and digits
/// only, lower-cased.
pub fn normalize_name(s: &str) -> (r: String)
    ensures
        r@ == spec_normalize(s@),
{
    let chars = str_chars(s);
    let norm = normalize_chars(&chars);
    chars_string(&norm)
}

} // verus!

verus! {

// ---------------------------------------------------------------------------
// Per-mode CSS selection with fallback
// ---------------------------------------------------------------------------

/// Index of the first registry entry named `a`, else of the first named `b`.
pub open spec fn spec_fallback_idx(names: Seq<Seq<char>>, a: Seq<char>, b: Seq<char>) -> Option<
    int,
> {
    match spec_first_match(names, a, MatchMode::Exact) {
        Some(i) => Some(i),
        None => spec_first_match(names, b, MatchMode::Exact),
    }
}

/// The fixed fallback for the light mode.
pub open spec fn spec_light_fallback(names: Seq<Seq<char>>) -> Option<int> {
    spec_fallback_idx(names, "InspiredGitHub"@, "base16-ocean.light"@)
}

/// The fixed fallback for the dark mode.
pub open spec fn spec_dark_fallback(names: Seq<Seq<char>>) -> Option<int> {
    spec_fallback_idx(names, "base16-ocean.dark"@, "Solarized (dark)"@)
}

/// The entry a request selects: its resolution, or the mode's fallback.
pub open spec fn spec_theme_choice(
    names: Seq<Seq<char>>,
    req: Option<Seq<char>>,
    fb: Option<int>,
) -> Option<int> {
    match spec_resolve_theme(names, req) {
        Some(i) => Some(i),
        None => fb,
    }
}

/// The stylesheet the light request selects from `reg`.
pub open spec fn spec_light_css(reg: &ThemeRegistry, req: Option<Seq<char>>) -> Seq<char> {
    match spec_theme_choice(reg_names(reg), req, spec_light_fallback(reg_names(reg))) {
        Some(i) => reg.entries@[i].css@,
        None => Seq::empty(),
    }
}

/// The stylesheet the dark request selects from `reg`.
pub open spec fn spec_dark_css(reg: &ThemeRegistry, req: Option<Seq<char>>) -> Seq<char> {
    match spec_theme_choice(reg_names(reg), req, spec_dark_fallback(reg_names(reg))) {
        Some(i) => reg.entries@[i].css@,
        None => Seq::empty(),
    }
}

/// Index of the first entry named `a`, else of the first named `b`.
fn fallback_idx(reg: &ThemeRegistry, a: &str, b: &str) -> (r: Option<usize>)
    ensures
        match r {
            Some(i) => i < reg.entries@.len() && spec_fallback_idx(reg_names(reg), a@, b@)
                == Some(i as int),
            None => spec_fallback_idx(reg_names(reg), a@, b@) is None,
        },
{
    let av = str_chars(a);
    match first_match(reg, &av, MatchMode::Exact) {
        Some(i) => Some(i),
        None => {
            let bv = str_chars(b);
            first_match(reg, &bv, MatchMode::Exact)
        },
    }
}

/// Whether the registry holds a fallback theme for both modes. Total
/// absence of a fallback is a fatal startup condition that the caller
/// must rule out before rendering.
pub fn has_default_themes(reg: &ThemeRegistry) -> (r: bool)
    ensures
        r == (spec_light_fallback(reg_names(reg)) is Some && spec_dark_fallback(reg_names(reg))
            is Some),
{
    let l = fallback_idx(reg, "InspiredGitHub", "base16-ocean.light");
    let d = fallback_idx(reg, "base16-ocean.dark", "Solarized (dark)");
    l.is_some() && d.is_some()
}

/// The light and dark stylesheets selected by the requested theme names:
/// each name is independently resolved, and an unresolved or absent name
/// falls back to the mode's fixed default theme.
pub fn syntax_css(reg: &ThemeRegistry, light: Option<&str>, dark: Option<&str>) -> (r: (
    String,
    String,
))
    requires
        spec_light_fallback(reg_names(reg)) is Some,
        spec_dark_fallback(reg_names(reg)) is Some,
    ensures
        r.0@ == spec_light_css(reg, opt_str_view(light)),
        r.1@ == spec_dark_css(reg, opt_str_view(dark)),
{
    let li: usize = match resolve_theme(reg, light) {
        Some(i) => i,
        None => {
            match fallback_idx(reg, "InspiredGitHub", "base16-ocean.light") {
                Some(i) => i,
                None => {
                    proof {
                        assert(false);
                    }
                    0
                },
            }
        },
    };
    let di: usize = match resolve_theme(reg, dark) {
        Some(i) => i,
        None => {
            match fallback_idx(reg, "base16-ocean.dark", "Solarized (dark)") {
                Some(i) => i,
                None => {
                    proof {
                        assert(false);
                    }
                    0
                },
            }
        },
    };
    let lcss = reg.entries[li].css.clone();
    let dcss = reg.entries[di].css.clone();
    (lcss, dcss)
}

} // verus!

verus! {

// ---------------------------------------------------------------------------
// Listing the theme names
// ---------------------------------------------------------------------------

/// Lexicographic order on character sequences by code point.
pub open spec fn spec_lex_le(a: Seq<char>, b: Seq<char>) -> bool
    decreases a.len(),
{
    if a.len() == 0 {
        true
    } else if b.len() == 0 {
        false
    } else if (a[0] as u32) < (b[0] as u32) {
        true
    } else if (a[0] as u32) > (b[0] as u32) {
        false
    } else {
        spec_lex_le(a.drop_first(), b.drop_first())
    }
}

/// The case-insensitive order the theme listing is sorted by.
pub open spec fn spec_ci_le(a: Seq<char>, b: Seq<char>) -> bool {
    spec_lex_le(spec_lower(a), spec_lower(b))
}

proof fn lemma_lex_le_total(a: Seq<char>, b: Seq<char>)
    ensures
        spec_lex_le(a, b) || spec_lex_le(b, a),
    decreases a.len(),
{
    if a.len() > 0 && b.len() > 0 && (a[0] as u32) == (b[0] as u32) {
        lemma_lex_le_total(a.drop_first(), b.drop_first());
    }
}

proof fn lemma_lex_le_trans(a: Seq<char>, b: Seq<char>, c: Seq<char>)
    requires
        spec_lex_le(a, b),
        spec_lex_le(b, c),
    ensures
        spec_lex_le(a, c),
    decreases a.len(),
{
    if a.len() > 0 && b.len() > 0 && c.len() > 0 && (a[0] as u32) == (b[0] as u32) && (
    b[0] as u32) == (c[0] as u32) {
        lemma_lex_le_trans(a.drop_first(), b.drop_first(), c.drop_first());
    }
}

proof fn lemma_ci_le_total(a: Seq<char>, b: Seq<char>)
    ensures
        spec_ci_le(a, b) || spec_ci_le(b, a),
{
    lemma_lex_le_total(spec_lower(a), spec_lower(b));
}

proof fn lemma_ci_le_trans(a: Seq<char>, b: Seq<char>, c: Seq<char>)
    requires
        spec_ci_le(a, b),
        spec_ci_le(b, c),
    ensures
        spec_ci_le(a, c),
{
    lemma_lex_le_trans(spec_lower(a), spec_lower(b), spec_lower(c));
}

proof fn lemma_lex_le_at(a: Seq<char>, b: Seq<char>, i: int)
    requires
        0 <= i <= a.len(),
        i <= b.len(),
        forall|j: int| 0 <= j < i ==> (a[j] as u32) == (b[j] as u32),
        i == a.len() || i == b.len() || (a[i] as u32) != (b[i] as u32),
    ensures
        spec_lex_le(a, b) == (i == a.len() || (i < a.len() && i < b.len() && (a[i] as u32) < (
        b[i] as u32))),
    decreases i,
{
    if i == 0 {
    } else {
        assert forall|j: int| 0 <= j < i - 1 implies (a.drop_first()[j] as u32) == (
        b.drop_first()[j] as u32) by {
            assert(a.drop_first()[j] == a[j + 1]);
            assert(b.drop_first()[j] == b[j + 1]);
        }
        lemma_lex_le_at(a.drop_first(), b.drop_first(), i - 1);
    }
}

/// Whether `a` is at or before `b` in code-point order.
fn lex_le_chars(a: &Vec<char>, b: &Vec<char>) -> (r: bool)
    ensures
        r == spec_lex_le(a@, b@),
{
    let mut i: usize = 0;
    while i < a.len() && i < b.len() && (a[i] as u32) == (b[i] as u32)
        invariant
            i <= a@.len(),
            i <= b@.len(),
            forall|j: int| 0 <= j < i ==> (a@[j] as u32) == (b@[j] as u32),
        decreases a.len() - i,
    {
        i = i + 1;
    }
    proof {
        lemma_lex_le_at(a@, b@, i as int);
    }
    if i == a.len() {
        true
    } else if i == b.len() {
        false
    } else {
        (a[i] as u32) < (b[i] as u32)
    }
}

/// Whether `a` sorts at or before `b`, comparing ASCII-lower-cased forms.
fn ci_le_strings(a: &String, b: &String) -> (r: bool)
    ensures
        r == spec_ci_le(a@, b@),
{
    let la = lower_chars(&str_chars(a.as_str()));
    let lb = lower_chars(&str_chars(b.as_str()));
    lex_le_chars(&la, &lb)
}

/// The registry's theme names as owned strings, in registry order.
pub open spec fn reg_name_strings(reg: &ThemeRegistry) -> Seq<String> {
    reg.entries@.map_values(|e: ThemeEntry| e.name)
}

/// All registered theme names, sorted case-insensitively: the same names
/// the registry holds, in an order where each name sorts at or before
/// every later one by its ASCII-lower-cased form.
pub fn sorted_theme_names(reg: &ThemeRegistry) -> (r: Vec<String>)
    ensures
        r@.to_multiset() == reg_name_strings(reg).to_multiset(),
        forall|p: int, q: int| 0 <= p < q < r@.len() ==> spec_ci_le(r@[p]@, r@[q]@),
{
    broadcast use vstd::seq_lib::group_to_multiset_ensures;

    let mut out: Vec<String> = Vec::new();
    let mut i: usize = 0;
    proof {
        assert(reg_name_strings(reg).take(0) =~= Seq::<String>::empty());
        assert(Seq::<String>::empty().to_multiset() =~= out@.to_multiset());
    }
    while i < reg.entries.len()
        invariant
            i <= reg.entries@.len(),
            out@.to_multiset() == reg_name_strings(reg).take(i as int).to_multiset(),
            forall|p: int, q: int| 0 <= p < q < out@.len() ==> spec_ci_le(out@[p]@, out@[q]@),
        decreases reg.entries.len() - i,
    {
        let x = reg.entries[i].name.clone();
        let ghost pre = out@;
        let mut k: usize = 0;
        while k < out.len() && ci_le_strings(&out[k], &x)
            invariant
                k <= out@.len(),
                forall|j: int| 0 <= j < k ==> spec_ci_le(#[trigger] out@[j]@, x@),
            decreases out.len() - k,
        {
            k = k + 1;
        }
        proof {
            if k < out@.len() {
                lemma_ci_le_total(out@[k as int]@, x@);
                assert(spec_ci_le(x@, out@[k as int]@));
            }
        }
        out.insert(k, x);
        proof {
            // the inserted element keeps the order: earlier ones are at or
            // before it, and it is at or before everything from position k on
            assert forall|p: int, q: int| 0 <= p < q < out@.len() implies spec_ci_le(
                out@[p]@,
                out@[q]@,
            ) by {
                if q < k {
                } else if q == k {
                    assert(out@[q] == x);
                } else {
                    assert(out@[q] == pre[q - 1]);
                    if p < k {
                        assert(out@[p] == pre[p]);
                    } else if p == k {
                        assert(out@[p] == x);
                        if q - 1 > k {
                            lemma_ci_le_trans(x@, pre[k as int]@, pre[q - 1]@);
                        }
                    } else {
                        assert(out@[p] == pre[p - 1]);
                    }
                }
            }
            assert(out@ =~= pre.insert(k as int, x));
            vstd::seq_lib::to_multiset_insert(pre, k as int, x);
            let names = reg_name_strings(reg);
            assert(names[i as int] == reg.entries@[i as int].name);
            assert(x == names[i as int]);
            assert(names.take(i + 1) =~= names.take(i as int).push(x));
            vstd::seq_lib::to_multiset_build(names.take(i as int), x);
        }
        i = i + 1;
    }
    proof {
        assert(reg_name_strings(reg).take(reg.entries@.len() as int) =~= reg_name_strings(reg));
    }
    out
}

} // verus!

verus! {

// ---------------------------------------------------------------------------
// What resolution guarantees
// ---------------------------------------------------------------------------

proof fn lemma_first_match_in_range(names: Seq<Seq<char>>, name: Seq<char>, mode: MatchMode)
    ensures
        spec_first_match(names, name, mode) is Some ==> 0 <= spec_first_match(names, name, mode)->0
            < names.len(),
    decreases names.len(),
{
    if names.len() > 0 && !spec_name_matches(mode, names[0], name) {
        lemma_first_match_in_range(names.drop_first(), name, mode);
    }
}

/// Resolution never invents a theme: a resolved index always names a
/// registry entry.
pub proof fn lemma_resolve_theme_in_range(names: Seq<Seq<char>>, req: Option<Seq<char>>)
    ensures
        spec_resolve_theme(names, req) is Some ==> 0 <= spec_resolve_theme(names, req)->0
            < names.len(),
{
    if req is Some {
        let name = spec_trim(req->0);
        lemma_first_match_in_range(names, name, MatchMode::Exact);
        lemma_first_match_in_range(names, name, MatchMode::IgnoreCase);
        lemma_first_match_in_range(names, name, MatchMode::Normalized);
        if spec_alias(spec_lower(name)) is Some {
            lemma_first_match_in_range(names, spec_alias(spec_lower(name))->0, MatchMode::Exact);
        }
        if spec_alias_normalized(spec_normalize(name)) is Some {
            lemma_first_match_in_range(
                names,
                spec_alias_normalized(spec_normalize(name))->0,
                MatchMode::Exact,
            );
        }
    }
}

proof fn lemma_first_match_congruent(
    names: Seq<Seq<char>>,
    a: Seq<char>,
    b: Seq<char>,
    mode: MatchMode,
)
    requires
        forall|j: int|
            0 <= j < names.len() ==> spec_name_matches(mode, #[trigger] names[j], a)
                == spec_name_matches(mode, names[j], b),
    ensures
        spec_first_match(names, a, mode) == spec_first_match(names, b, mode),
    decreases names.len(),
{
    if names.len() > 0 && !spec_name_matches(mode, names[0], a) {
        assert forall|j: int| 0 <= j < names.drop_first().len() implies spec_name_matches(
            mode,
            #[trigger] names.drop_first()[j],
            a,
        ) == spec_name_matches(mode, names.drop_first()[j], b) by {
            assert(names.drop_first()[j] == names[j + 1]);
        }
        lemma_first_match_congruent(names.drop_first(), a, b, mode);
    }
}

/// Below the exact tier, resolution is ASCII-case-insensitive: two
/// requests whose trimmed forms lower-case to the same sequence, and
/// neither of which matches a registry name exactly, resolve to the same
/// entry — the case-insensitive, normalized and both alias tiers all
/// look only at the lower-cased form.
pub proof fn lemma_resolve_theme_case_insensitive(
    names: Seq<Seq<char>>,
    a: Seq<char>,
    b: Seq<char>,
)
    requires
        crate::text::spec_lower(spec_trim(a)) == crate::text::spec_lower(spec_trim(b)),
        spec_first_match(names, spec_trim(a), MatchMode::Exact) is None,
        spec_first_match(names, spec_trim(b), MatchMode::Exact) is None,
    ensures
        spec_resolve_theme(names, Some(a)) == spec_resolve_theme(names, Some(b)),
{
    let ta = spec_trim(a);
    let tb = spec_trim(b);
    assert(spec_lower(ta).len() == ta.len());
    assert(spec_lower(tb).len() == tb.len());
    if ta.len() > 0 {
        assert forall|j: int| 0 <= j < names.len() implies spec_name_matches(
            MatchMode::IgnoreCase,
            #[trigger] names[j],
            ta,
        ) == spec_name_matches(MatchMode::IgnoreCase, names[j], tb) by {}
        lemma_first_match_congruent(names, ta, tb, MatchMode::IgnoreCase);
        crate::text::lemma_normalize_of_lower(ta, tb);
        assert forall|j: int| 0 <= j < names.len() implies spec_name_matches(
            MatchMode::Normalized,
            #[trigger] names[j],
            ta,
        ) == spec_name_matches(MatchMode::Normalized, names[j], tb) by {}
        lemma_first_match_congruent(names, ta, tb, MatchMode::Normalized);
        assert(spec_alias(spec_lower(ta)) == spec_alias(spec_lower(tb)));
        assert(spec_alias_normalized(spec_normalize(ta)) == spec_alias_normalized(
            spec_normalize(tb),
        ));
    }
}

} // verus!
