//! Character-sequence utilities shared by the rendering pipeline.
//!
//! All executable functions work on `Vec<char>` / `&str` values and carry
//! contracts phrased over `Seq<char>` spec functions defined here.

use vstd::prelude::*;
use vstd::std_specs::iter::IteratorSpec;

verus! {

broadcast use vstd::string::group_string_axioms;

// ---------------------------------------------------------------------------
// Character classes and case mapping
// ---------------------------------------------------------------------------

/// The Unicode `White_Space` code points, as `char::is_whitespace` counts them.
pub open spec fn spec_is_ws(c: char) -> bool {
    let u = c as u32;
    (9 <= u && u <= 13) || u == 32 || u == 0x85 || u == 0xA0 || u == 0x1680 || (0x2000 <= u
        && u <= 0x200A) || u == 0x2028 || u == 0x2029 || u == 0x202F || u == 0x205F || u == 0x3000
}

/// Executable whitespace test, mirroring `spec_is_ws`.
pub fn is_ws(c: char) -> (r: bool)
    ensures
        r == spec_is_ws(c),
{
    let u = c as u32;
    (9 <= u && u <= 13) || u == 32 || u == 0x85 || u == 0xA0 || u == 0x1680 || (0x2000 <= u
        && u <= 0x200A) || u == 0x2028 || u == 0x2029 || u == 0x202F || u == 0x205F || u == 0x3000
}

/// ASCII letters and digits.
pub open spec fn spec_is_ascii_alnum(c: char) -> bool {
    let u = c as u32;
    (48 <= u && u <= 57) || (65 <= u && u <= 90) || (97 <= u && u <= 122)
}

/// Executable test for ASCII letters and digits.
pub fn is_ascii_alnum(c: char) -> (r: bool)
    ensures
        r == spec_is_ascii_alnum(c),
{
    let u = c as u32;
    (48 <= u && u <= 57) || (65 <= u && u <= 90) || (97 <= u && u <= 122)
}

/// ASCII lower-casing of a single character; other characters are unchanged.
pub open spec fn spec_lower_char(c: char) -> char {
    if 65 <= c as u32 && c as u32 <= 90 {
        (((c as u32) + 32) as u8) as char
    } else {
        c
    }
}

/// Executable ASCII lower-casing, mirroring `spec_lower_char`.
pub fn lower_char(c: char) -> (r: char)
    ensures
        r == spec_lower_char(c),
{
    let u = c as u32;
    if 65 <= u && u <= 90 {
        ((u + 32) as u8) as char
    } else {
        c
    }
}

/// ASCII lower-casing of a whole sequence.
pub open spec fn spec_lower(s: Seq<char>) -> Seq<char> {
    s.map_values(|c: char| spec_lower_char(c))
}

/// Lower-case every character of `v` (ASCII case folding only).
pub fn lower_chars(v: &Vec<char>) -> (r: Vec<char>)
    ensures
        r@ == spec_lower(v@),
{
    let mut out: Vec<char> = Vec::new();
    let mut i: usize = 0;
    while i < v.len()
        invariant
            i <= v.len(),
            out@ == spec_lower(v@.take(i as int)),
        decreases v.len() - i,
    {
        out.push(lower_char(v[i]));
        proof {
            assert(v@.take(i + 1).drop_last() =~= v@.take(i as int));
            assert(spec_lower(v@.take(i + 1)) =~= spec_lower(v@.take(i as int)).push(
                spec_lower_char(v@[i as int]),
            ));
        }
        i = i + 1;
    }
    proof {
        assert(v@.take(v@.len() as int) =~= v@);
    }
    out
}

/// Case-insensitive (ASCII) equality of two sequences.
pub open spec fn spec_eq_ignore_ascii_case(a: Seq<char>, b: Seq<char>) -> bool {
    spec_lower(a) == spec_lower(b)
}

// ---------------------------------------------------------------------------
// Conversions between `str` / `String` and `Vec<char>`
// ---------------------------------------------------------------------------

/// The characters of `s`, in order, as a vector.
pub fn str_chars(s: &str) -> (r: Vec<char>)
    ensures
        r@ == s@,
{
    broadcast use vstd::std_specs::iter::group_iter_axioms;

    let mut it = s.chars();
    let mut out: Vec<char> = Vec::new();
    loop
        invariant
            it.decrease() is Some,
            out@ + it.remaining() == s@,
        ensures
            out@ == s@,
        decreases it.decrease()->0,
    {
        match it.next() {
            Some(c) => {
                out.push(c);
            },
            None => {
                break ;
            },
        }
    }
    out
}

/// Appends one character to a string.
/// Relies on `String::push`, which vstd gives no specification.
#[verifier::external_body]
fn push_char(s: &mut String, c: char)
    ensures
        final(s)@ == old(s)@.push(c),
{
    s.push(c);
}

/// The string holding exactly the characters of `v`, in order.
pub fn chars_string(v: &Vec<char>) -> (r: String)
    ensures
        r@ == v@,
{
    let mut out = String::new();
    let mut i: usize = 0;
    while i < v.len()
        invariant
            i <= v.len(),
            out@ == v@.take(i as int),
        decreases v.len() - i,
    {
        push_char(&mut out, v[i]);
        proof {
            assert(v@.take(i + 1) =~= v@.take(i as int).push(v@[i as int]));
        }
        i = i + 1;
    }
    proof {
        assert(v@.take(v@.len() as int) =~= v@);
    }
    out
}

// ---------------------------------------------------------------------------
// Basic vector operations
// ---------------------------------------------------------------------------

/// The sub-vector of `v` from index `from` (inclusive) to `to` (exclusive).
pub fn subvec(v: &Vec<char>, from: usize, to: usize) -> (r: Vec<char>)
    requires
        from <= to <= v@.len(),
    ensures
        r@ == v@.subrange(from as int, to as int),
{
    let mut out: Vec<char> = Vec::new();
    let mut i: usize = from;
    while i < to
        invariant
            from <= i <= to <= v@.len(),
            out@ == v@.subrange(from as int, i as int),
        decreases to - i,
    {
        out.push(v[i]);
        proof {
            assert(v@.subrange(from as int, i + 1) =~= v@.subrange(from as int, i as int).push(
                v@[i as int],
            ));
        }
        i = i + 1;
    }
    out
}

/// Appends all characters of `src` to `dst`.
pub fn push_all(dst: &mut Vec<char>, src: &Vec<char>)
    ensures
        final(dst)@ == old(dst)@ + src@,
{
    let mut i: usize = 0;
    while i < src.len()
        invariant
            i <= src.len(),
            dst@ == old(dst)@ + src@.take(i as int),
        decreases src.len() - i,
    {
        dst.push(src[i]);
        proof {
            assert(old(dst)@ + src@.take(i + 1) =~= (old(dst)@ + src@.take(i as int)).push(
                src@[i as int],
            ));
        }
        i = i + 1;
    }
    proof {
        assert(old(dst)@ + src@.take(src@.len() as int) =~= old(dst)@ + src@);
    }
}

/// Appends the characters of the string slice `src` to `dst`.
pub fn push_str_chars(dst: &mut Vec<char>, src: &str)
    ensures
        final(dst)@ == old(dst)@ + src@,
{
    let chars = str_chars(src);
    push_all(dst, &chars);
}

/// Whether two character vectors hold the same sequence.
pub fn chars_eq(a: &Vec<char>, b: &Vec<char>) -> (r: bool)
    ensures
        r == (a@ == b@),
{
    if a.len() != b.len() {
        proof {
            assert(a@ != b@);
        }
        return false;
    }
    let mut i: usize = 0;
    while i < a.len()
        invariant
            i <= a.len(),
            a@.len() == b@.len(),
            forall|j: int| 0 <= j < i ==> a@[j] == b@[j],
        decreases a.len() - i,
    {
        if a[i] != b[i] {
            proof {
                assert(a@[i as int] != b@[i as int]);
            }
            return false;
        }
        i = i + 1;
    }
    proof {
        assert(a@ =~= b@);
    }
    true
}

/// Whether `v` equals the string slice `s`, character for character.
pub fn chars_eq_str(v: &Vec<char>, s: &str) -> (r: bool)
    ensures
        r == (v@ == s@),
{
    let sv = str_chars(s);
    chars_eq(v, &sv)
}

} // verus!

verus! {

// ---------------------------------------------------------------------------
// Trimming
// ---------------------------------------------------------------------------

/// `s` without its leading whitespace.
pub open spec fn spec_trim_start(s: Seq<char>) -> Seq<char>
    decreases s.len(),
{
    if s.len() > 0 && spec_is_ws(s[0]) {
        spec_trim_start(s.drop_first())
    } else {
        s
    }
}

/// `s` without its trailing whitespace.
pub open spec fn spec_trim_end(s: Seq<char>) -> Seq<char>
    decreases s.len(),
{
    if s.len() > 0 && spec_is_ws(s.last()) {
        spec_trim_end(s.drop_last())
    } else {
        s
    }
}

/// `s` without leading and trailing whitespace, as `str::trim` yields it.
pub open spec fn spec_trim(s: Seq<char>) -> Seq<char> {
    spec_trim_end(spec_trim_start(s))
}

proof fn lemma_trim_start_at(s: Seq<char>, i: int)
    requires
        0 <= i <= s.len(),
        forall|j: int| 0 <= j < i ==> spec_is_ws(s[j]),
        i == s.len() || !spec_is_ws(s[i]),
    ensures
        spec_trim_start(s) == s.skip(i),
    decreases i,
{
    if i == 0 {
        assert(s.skip(0) =~= s);
    } else {
        lemma_trim_start_at(s.drop_first(), i - 1);
        assert(s.drop_first().skip(i - 1) =~= s.skip(i));
    }
}

proof fn lemma_trim_end_at(s: Seq<char>, i: int)
    requires
        0 <= i <= s.len(),
        forall|j: int| i <= j < s.len() ==> spec_is_ws(s[j]),
        i == 0 || !spec_is_ws(s[i - 1]),
    ensures
        spec_trim_end(s) == s.take(i),
    decreases s.len() - i,
{
    if i == s.len() {
        assert(s.take(i) =~= s);
    } else {
        lemma_trim_end_at(s.drop_last(), i);
        assert(s.drop_last().take(i) =~= s.take(i));
    }
}

/// `v` without leading and trailing whitespace.
pub fn trim_chars(v: &Vec<char>) -> (r: Vec<char>)
    ensures
        r@ == spec_trim(v@),
{
    let n = v.len();
    let mut a: usize = 0;
    while a < n && is_ws(v[a])
        invariant
            a <= n == v@.len(),
            forall|j: int| 0 <= j < a ==> spec_is_ws(v@[j]),
        decreases n - a,
    {
        a = a + 1;
    }
    let mut b: usize = n;
    while b > a && is_ws(v[b - 1])
        invariant
            a <= b <= n == v@.len(),
            forall|j: int| b <= j < n ==> spec_is_ws(v@[j]),
        decreases b,
    {
        b = b - 1;
    }
    let r = subvec(v, a, b);
    proof {
        lemma_trim_start_at(v@, a as int);
        lemma_trim_end_at(v@.skip(a as int), b - a);
        assert(v@.skip(a as int).take(b - a) =~= v@.subrange(a as int, b as int));
    }
    r
}

// ---------------------------------------------------------------------------
// Finding a character
// ---------------------------------------------------------------------------

/// Index of the first occurrence of `c` in `s`, or `s.len()` if absent.
pub open spec fn spec_find_idx(s: Seq<char>, c: char) -> int
    decreases s.len(),
{
    if s.len() == 0 {
        0
    } else if s[0] == c {
        0
    } else {
        1 + spec_find_idx(s.drop_first(), c)
    }
}

pub proof fn lemma_find_idx_witness(s: Seq<char>, c: char, i: int)
    requires
        0 <= i <= s.len(),
        forall|j: int| 0 <= j < i ==> s[j] != c,
        i == s.len() || s[i] == c,
    ensures
        spec_find_idx(s, c) == i,
    decreases s.len(),
{
    if s.len() == 0 {
    } else if s[0] == c {
        assert(i == 0);
    } else {
        lemma_find_idx_witness(s.drop_first(), c, i - 1);
    }
}

/// Whether `c` occurs anywhere in `v`.
pub fn contains_char(v: &Vec<char>, c: char) -> (r: bool)
    ensures
        r == (exists|j: int| 0 <= j < v@.len() && v@[j] == c),
{
    let mut i: usize = 0;
    while i < v.len()
        invariant
            i <= v@.len(),
            forall|j: int| 0 <= j < i ==> v@[j] != c,
        decreases v.len() - i,
    {
        if v[i] == c {
            proof {
                assert(v@[i as int] == c);
            }
            return true;
        }
        i = i + 1;
    }
    false
}

// ---------------------------------------------------------------------------
// Splitting and joining
// ---------------------------------------------------------------------------

/// The views of a sequence of character vectors.
pub open spec fn views(ps: Seq<Vec<char>>) -> Seq<Seq<char>> {
    ps.map_values(|p: Vec<char>| p@)
}

/// The pieces of `s` between occurrences of `sep`, as `str::split` yields
/// them: always at least one piece, and empty pieces are kept.
pub open spec fn spec_split(s: Seq<char>, sep: char) -> Seq<Seq<char>>
    decreases s.len(),
{
    let i = spec_find_idx(s, sep);
    if 0 <= i && i < s.len() {
        seq![s.take(i)] + spec_split(s.skip(i + 1), sep)
    } else {
        seq![s]
    }
}

/// Splits `v` on the separator character `sep`.
pub fn split_chars(v: &Vec<char>, sep: char) -> (r: Vec<Vec<char>>)
    ensures
        views(r@) == spec_split(v@, sep),
{
    let mut out: Vec<Vec<char>> = Vec::new();
    let mut start: usize = 0;
    proof {
        assert(v@.skip(0) =~= v@);
        assert(views(out@) =~= Seq::<Seq<char>>::empty());
        assert(views(out@) + spec_split(v@, sep) =~= spec_split(v@, sep));
    }
    loop
        invariant_except_break
            spec_split(v@, sep) == views(out@) + spec_split(v@.skip(start as int), sep),
        invariant
            start <= v@.len(),
        ensures
            views(out@) == spec_split(v@, sep),
        decreases v@.len() - start,
    {
        let ghost pre = out@;
        let mut i: usize = start;
        while i < v.len() && v[i] != sep
            invariant
                start <= i <= v@.len(),
                forall|j: int| start <= j < i ==> v@[j] != sep,
            decreases v.len() - i,
    {
            i = i + 1;
        }
        proof {
            assert forall|j: int| 0 <= j < i - start implies v@.skip(start as int)[j] != sep by {
                assert(v@.skip(start as int)[j] == v@[j + start]);
            }
            lemma_find_idx_witness(v@.skip(start as int), sep, i - start);
        }
        if i < v.len() {
            let piece = subvec(v, start, i);
            out.push(piece);
            proof {
                assert(v@.skip(start as int).take(i - start) =~= v@.subrange(
                    start as int,
                    i as int,
                ));
                assert(v@.skip(start as int).skip(i - start + 1) =~= v@.skip(i + 1));
                assert(views(out@) =~= views(pre).push(piece@));
                assert(views(pre) + (seq![piece@] + spec_split(v@.skip(i + 1), sep)) =~= views(out@)
                    + spec_split(v@.skip(i + 1), sep));
            }
            start = i + 1;
        } else {
            let piece = subvec(v, start, v.len());
            out.push(piece);
            proof {
                assert(v@.skip(start as int) =~= v@.subrange(start as int, v@.len() as int));
                assert(views(out@) =~= views(pre).push(piece@));
                assert(views(pre) + seq![piece@] =~= views(out@));
            }
            break ;
        }
    }
    out
}

/// The part of `s` before the first `sep` and the part after it, if `sep`
/// occurs, as `str::split_once` yields them.
pub open spec fn spec_split_once(s: Seq<char>, sep: char) -> Option<(Seq<char>, Seq<char>)> {
    let i = spec_find_idx(s, sep);
    if i < s.len() {
        Some((s.take(i), s.skip(i + 1)))
    } else {
        None
    }
}

/// Splits `v` at the first occurrence of `sep`.
pub fn split_once_chars(v: &Vec<char>, sep: char) -> (r: Option<(Vec<char>, Vec<char>)>)
    ensures
        match r {
            Some(p) => spec_split_once(v@, sep) == Some((p.0@, p.1@)),
            None => spec_split_once(v@, sep) is None,
        },
{
    let mut i: usize = 0;
    while i < v.len() && v[i] != sep
        invariant
            i <= v@.len(),
            forall|j: int| 0 <= j < i ==> v@[j] != sep,
        decreases v.len() - i,
    {
        i = i + 1;
    }
    proof {
        lemma_find_idx_witness(v@, sep, i as int);
    }
    if i < v.len() {
        let before = subvec(v, 0, i);
        let after = subvec(v, i + 1, v.len());
        proof {
            assert(v@.take(i as int) =~= v@.subrange(0, i as int));
            assert(v@.skip(i + 1) =~= v@.subrange(i + 1, v@.len() as int));
        }
        Some((before, after))
    } else {
        None
    }
}

/// The pieces joined with `sep` between consecutive pieces.
pub open spec fn spec_join(ps: Seq<Seq<char>>, sep: Seq<char>) -> Seq<char>
    decreases ps.len(),
{
    if ps.len() == 0 {
        Seq::empty()
    } else if ps.len() == 1 {
        ps[0]
    } else {
        spec_join(ps.drop_last(), sep) + sep + ps.last()
    }
}

/// Joins the pieces of `ps` with the separator `sep`.
pub fn join_chars(ps: &Vec<Vec<char>>, sep: &Vec<char>) -> (r: Vec<char>)
    ensures
        r@ == spec_join(views(ps@), sep@),
{
    let mut out: Vec<char> = Vec::new();
    let mut i: usize = 0;
    while i < ps.len()
        invariant
            i <= ps@.len(),
            out@ == spec_join(views(ps@).take(i as int), sep@),
        decreases ps.len() - i,
    {
        let ghost pre = out@;
        if i > 0 {
            push_all(&mut out, sep);
        }
        push_all(&mut out, &ps[i]);
        proof {
            let vs = views(ps@);
            assert(vs.take(i + 1).drop_last() =~= vs.take(i as int));
            assert(vs.take(i + 1).last() == ps@[i as int]@);
            if i == 0 {
                assert(spec_join(vs.take(1), sep@) == vs.take(1)[0]);
                assert(vs.take(1)[0] == ps@[0]@);
                assert(out@ =~= ps@[0]@);
            } else {
                assert(spec_join(vs.take(i + 1), sep@) == spec_join(vs.take(i as int), sep@) + sep@
                    + ps@[i as int]@);
            }
        }
        i = i + 1;
    }
    proof {
        assert(views(ps@).take(ps@.len() as int) =~= views(ps@));
    }
    out
}

} // verus!

verus! {

// ---------------------------------------------------------------------------
// Substring matching
// ---------------------------------------------------------------------------

/// Whether `p` occurs in `s` starting at index `i`.
pub open spec fn spec_match_at(s: Seq<char>, p: Seq<char>, i: int) -> bool {
    0 <= i && i + p.len() <= s.len() && s.subrange(i, i + p.len()) == p
}

/// Whether `s` begins with `p`.
pub open spec fn spec_starts_with(s: Seq<char>, p: Seq<char>) -> bool {
    spec_match_at(s, p, 0)
}

/// Whether `s` ends with `p`.
pub open spec fn spec_ends_with(s: Seq<char>, p: Seq<char>) -> bool {
    spec_match_at(s, p, s.len() - p.len())
}

/// Whether `p` occurs in `v` at index `i`.
pub fn match_at(v: &Vec<char>, p: &Vec<char>, i: usize) -> (r: bool)
    requires
        i + p@.len() <= v@.len(),
    ensures
        r == spec_match_at(v@, p@, i as int),
{
    let n = v.len();
    let m = p.len();
    let mut k: usize = 0;
    while k < m
        invariant
            k <= m == p@.len(),
            n == v@.len(),
            i + m <= n,
            forall|j: int| 0 <= j < k ==> v@[i + j] == p@[j],
        decreases m - k,
    {
        if v[i + k] != p[k] {
            proof {
                assert(v@.subrange(i as int, i + p@.len())[k as int] == v@[i + k]);
            }
            return false;
        }
        k = k + 1;
    }
    proof {
        assert(v@.subrange(i as int, i + p@.len()) =~= p@);
    }
    true
}

/// Whether `v` begins with the characters of `p`.
pub fn starts_with_chars(v: &Vec<char>, p: &Vec<char>) -> (r: bool)
    ensures
        r == spec_starts_with(v@, p@),
{
    if p.len() > v.len() {
        return false;
    }
    match_at(v, p, 0)
}

/// Whether `v` ends with the characters of `p`.
pub fn ends_with_chars(v: &Vec<char>, p: &Vec<char>) -> (r: bool)
    ensures
        r == spec_ends_with(v@, p@),
{
    if p.len() > v.len() {
        return false;
    }
    match_at(v, p, v.len() - p.len())
}

// ---------------------------------------------------------------------------
// Finding and replacing a substring
// ---------------------------------------------------------------------------

/// Index of the first occurrence of `p` in `s`; `s.len() + 1` if `p` does
/// not occur (for non-empty `p`).
pub open spec fn spec_find_sub_idx(s: Seq<char>, p: Seq<char>) -> int
    decreases s.len(),
{
    if spec_match_at(s, p, 0) {
        0
    } else if s.len() == 0 {
        1
    } else {
        1 + spec_find_sub_idx(s.drop_first(), p)
    }
}

proof fn lemma_match_at_shift(s: Seq<char>, p: Seq<char>, i: int)
    requires
        s.len() > 0,
        1 <= i,
    ensures
        spec_match_at(s, p, i) == spec_match_at(s.drop_first(), p, i - 1),
{
    if spec_match_at(s, p, i) {
        assert(s.drop_first().subrange(i - 1, i - 1 + p.len()) =~= s.subrange(i, i + p.len()));
    } else if spec_match_at(s.drop_first(), p, i - 1) {
        assert(s.subrange(i, i + p.len()) =~= s.drop_first().subrange(i - 1, i - 1 + p.len()));
    }
}

pub proof fn lemma_find_sub_witness(s: Seq<char>, p: Seq<char>, i: int)
    requires
        p.len() > 0,
        spec_match_at(s, p, i),
        forall|j: int| 0 <= j < i ==> !spec_match_at(s, p, j),
    ensures
        spec_find_sub_idx(s, p) == i,
    decreases s.len(),
{
    if i == 0 {
    } else {
        assert(!spec_match_at(s, p, 0));
        assert(s.len() > 0);
        lemma_match_at_shift(s, p, i);
        assert forall|j: int| 0 <= j < i - 1 implies !spec_match_at(s.drop_first(), p, j) by {
            lemma_match_at_shift(s, p, j + 1);
        }
        lemma_find_sub_witness(s.drop_first(), p, i - 1);
    }
}

/// `s` with every (leftmost, non-overlapping) occurrence of `p` replaced by
/// `t`, as `str::replace` yields it.
pub open spec fn spec_replace(s: Seq<char>, p: Seq<char>, t: Seq<char>) -> Seq<char>
    decreases s.len(),
{
    if p.len() == 0 {
        s
    } else {
        let i = spec_find_sub_idx(s, p);
        if 0 <= i && i + p.len() <= s.len() {
            s.take(i) + t + spec_replace(s.skip(i + p.len()), p, t)
        } else {
            s
        }
    }
}

proof fn lemma_replace_skip_match(s: Seq<char>, p: Seq<char>, t: Seq<char>)
    requires
        p.len() > 0,
        spec_match_at(s, p, 0),
    ensures
        spec_replace(s, p, t) == t + spec_replace(s.skip(p.len() as int), p, t),
{
    lemma_find_sub_witness(s, p, 0);
    assert(s.take(0) =~= Seq::<char>::empty());
    assert(s.take(0) + t =~= t);
}

proof fn lemma_replace_skip_nomatch(s: Seq<char>, p: Seq<char>, t: Seq<char>)
    requires
        p.len() > 0,
        s.len() > 0,
        !spec_match_at(s, p, 0),
    ensures
        spec_replace(s, p, t) == seq![s[0]] + spec_replace(s.drop_first(), p, t),
{
    let i = spec_find_sub_idx(s, p);
    let d = s.drop_first();
    assert(i == 1 + spec_find_sub_idx(d, p));
    let g = spec_find_sub_idx(d, p);
    if 0 <= g && g + p.len() <= d.len() {
        assert(i + p.len() <= s.len());
        assert(spec_replace(s, p, t) == s.take(i) + t + spec_replace(s.skip(i + p.len()), p, t));
        assert(spec_replace(d, p, t) == d.take(g) + t + spec_replace(d.skip(g + p.len()), p, t));
        assert(s.take(i) =~= seq![s[0]] + d.take(g));
        assert(s.skip(i + p.len()) =~= d.skip(g + p.len()));
        assert(seq![s[0]] + (d.take(g) + t + spec_replace(d.skip(g + p.len()), p, t)) =~= (
        seq![s[0]] + d.take(g)) + t + spec_replace(d.skip(g + p.len()), p, t));
    } else {
        // no occurrence anywhere: both sides are unchanged
        assert(g >= 0) by {
            lemma_find_sub_bounds(d, p);
        }
        assert(!(i + p.len() <= s.len()));
        assert(spec_replace(s, p, t) == s);
        assert(!(g + p.len() <= d.len()));
        assert(spec_replace(d, p, t) == d);
        assert(seq![s[0]] + d =~= s);
    }
}

proof fn lemma_find_sub_bounds(s: Seq<char>, p: Seq<char>)
    ensures
        spec_find_sub_idx(s, p) >= 0,
    decreases s.len(),
{
    if !spec_match_at(s, p, 0) && s.len() > 0 {
        lemma_find_sub_bounds(s.drop_first(), p);
    }
}

/// `v` with every occurrence of `p` replaced by `t`.
pub fn replace_chars(v: &Vec<char>, p: &Vec<char>, t: &Vec<char>) -> (r: Vec<char>)
    requires
        p@.len() > 0,
    ensures
        r@ == spec_replace(v@, p@, t@),
{
    let mut out: Vec<char> = Vec::new();
    let mut i: usize = 0;
    proof {
        assert(v@.skip(0) =~= v@);
        assert(out@ + spec_replace(v@, p@, t@) =~= spec_replace(v@, p@, t@));
    }
    while i < v.len()
        invariant
            i <= v@.len(),
            p@.len() > 0,
            spec_replace(v@, p@, t@) == out@ + spec_replace(v@.skip(i as int), p@, t@),
        decreases v.len() - i,
    {
        let rest = v.len() - i;
        let matched = if p.len() <= rest {
            match_at(v, p, i)
        } else {
            false
        };
        proof {
            if p@.len() <= rest {
                assert(v@.skip(i as int).subrange(0, p@.len() as int) =~= v@.subrange(
                    i as int,
                    i + p@.len(),
                ));
            }
            assert(matched == spec_match_at(v@.skip(i as int), p@, 0));
        }
        if matched {
            push_all(&mut out, t);
            proof {
                lemma_replace_skip_match(v@.skip(i as int), p@, t@);
                assert(v@.skip(i as int).skip(p@.len() as int) =~= v@.skip(i + p@.len()));
            }
            i = i + p.len();
        } else {
            out.push(v[i]);
            proof {
                lemma_replace_skip_nomatch(v@.skip(i as int), p@, t@);
                assert(v@.skip(i as int).drop_first() =~= v@.skip(i + 1));
                assert(v@.skip(i as int)[0] == v@[i as int]);
                assert(out@ =~= (out@.drop_last() + seq![v@[i as int]]));
                assert(out@.drop_last() + (seq![v@[i as int]] + spec_replace(
                    v@.skip(i + 1),
                    p@,
                    t@,
                )) =~= out@ + spec_replace(v@.skip(i + 1), p@, t@));
            }
            i = i + 1;
        }
    }
    proof {
        assert(v@.skip(v@.len() as int) =~= Seq::<char>::empty());
        assert(spec_replace(Seq::<char>::empty(), p@, t@) == Seq::<char>::empty());
        assert(out@ + Seq::<char>::empty() =~= out@);
    }
    out
}

} // verus!

verus! {

// ---------------------------------------------------------------------------
// Lines
// ---------------------------------------------------------------------------

/// A line piece with a trailing carriage return removed.
pub open spec fn spec_strip_cr(p: Seq<char>) -> Seq<char> {
    if p.len() > 0 && p.last() == '\r' {
        p.drop_last()
    } else {
        p
    }
}

/// The lines of `s`, as `str::lines` yields them: split at `'\n'`, each
/// piece that ended at a `'\n'` loses a trailing `'\r'`, and a final empty
/// piece after a trailing `'\n'` is dropped.
pub open spec fn spec_lines(s: Seq<char>) -> Seq<Seq<char>>
    decreases s.len(),
{
    if s.len() == 0 {
        Seq::empty()
    } else {
        let i = spec_find_idx(s, '\n');
        if 0 <= i && i < s.len() {
            seq![spec_strip_cr(s.take(i))] + spec_lines(s.skip(i + 1))
        } else {
            seq![s]
        }
    }
}

/// The lines of `v`.
pub fn lines_chars(v: &Vec<char>) -> (r: Vec<Vec<char>>)
    ensures
        views(r@) == spec_lines(v@),
{
    let mut out: Vec<Vec<char>> = Vec::new();
    let mut start: usize = 0;
    proof {
        assert(v@.skip(0) =~= v@);
        assert(views(out@) =~= Seq::<Seq<char>>::empty());
        assert(views(out@) + spec_lines(v@) =~= spec_lines(v@));
    }
    loop
        invariant_except_break
            spec_lines(v@) == views(out@) + spec_lines(v@.skip(start as int)),
        invariant
            start <= v@.len(),
        ensures
            views(out@) == spec_lines(v@),
        decreases v@.len() - start,
    {
        if start >= v.len() {
            proof {
                assert(v@.skip(start as int) =~= Seq::<char>::empty());
                assert(views(out@) + spec_lines(Seq::<char>::empty()) =~= views(out@));
            }
            break ;
        }
        let ghost pre = out@;
        let mut i: usize = start;
        while i < v.len() && v[i] != '\n'
            invariant
                start <= i <= v@.len(),
                forall|j: int| start <= j < i ==> v@[j] != '\n',
            decreases v.len() - i,
        {
            i = i + 1;
        }
        proof {
            assert forall|j: int| 0 <= j < i - start implies v@.skip(start as int)[j] != '\n' by {
                assert(v@.skip(start as int)[j] == v@[j + start]);
            }
            lemma_find_idx_witness(v@.skip(start as int), '\n', i - start);
        }
        if i < v.len() {
            let piece = if i > start && v[i - 1] == '\r' {
                subvec(v, start, i - 1)
            } else {
                subvec(v, start, i)
            };
            out.push(piece);
            proof {
                let su = v@.skip(start as int);
                assert(su.take(i - start) =~= v@.subrange(start as int, i as int));
                if i > start && v@[i - 1] == '\r' {
                    assert(su.take(i - start).drop_last() =~= v@.subrange(start as int, i - 1));
                }
                assert(piece@ == spec_strip_cr(su.take(i - start)));
                assert(su.skip(i - start + 1) =~= v@.skip(i + 1));
                assert(views(out@) =~= views(pre).push(piece@));
                assert(views(pre) + (seq![piece@] + spec_lines(v@.skip(i + 1))) =~= views(out@)
                    + spec_lines(v@.skip(i + 1)));
            }
            start = i + 1;
        } else {
            let piece = subvec(v, start, v.len());
            out.push(piece);
            proof {
                assert(v@.skip(start as int) =~= v@.subrange(start as int, v@.len() as int));
                assert(views(out@) =~= views(pre).push(piece@));
                assert(views(pre) + seq![piece@] =~= views(out@));
            }
            break ;
        }
    }
    out
}

// ---------------------------------------------------------------------------
// Whitespace tokens and normalization
// ---------------------------------------------------------------------------

/// Index of the first whitespace character of `s`, or `s.len()` if none.
pub open spec fn spec_find_ws_idx(s: Seq<char>) -> int
    decreases s.len(),
{
    if s.len() == 0 {
        0
    } else if spec_is_ws(s[0]) {
        0
    } else {
        1 + spec_find_ws_idx(s.drop_first())
    }
}

proof fn lemma_find_ws_idx_witness(s: Seq<char>, i: int)
    requires
        0 <= i <= s.len(),
        forall|j: int| 0 <= j < i ==> !spec_is_ws(s[j]),
        i == s.len() || spec_is_ws(s[i]),
    ensures
        spec_find_ws_idx(s) == i,
    decreases s.len(),
{
    if s.len() == 0 {
    } else if spec_is_ws(s[0]) {
        assert(i == 0);
    } else {
        lemma_find_ws_idx_witness(s.drop_first(), i - 1);
    }
}

/// The first whitespace-delimited token of `s`, or the empty sequence if
/// `s` is all whitespace — what `str::split_whitespace` yields first.
pub open spec fn spec_first_token(s: Seq<char>) -> Seq<char> {
    let t = spec_trim_start(s);
    t.take(spec_find_ws_idx(t))
}

/// The first whitespace-delimited token of `v`.
pub fn first_token(v: &Vec<char>) -> (r: Vec<char>)
    ensures
        r@ == spec_first_token(v@),
{
    let n = v.len();
    let mut a: usize = 0;
    while a < n && is_ws(v[a])
        invariant
            a <= n == v@.len(),
            forall|j: int| 0 <= j < a ==> spec_is_ws(v@[j]),
        decreases n - a,
    {
        a = a + 1;
    }
    let mut e: usize = a;
    while e < n && !is_ws(v[e])
        invariant
            a <= e <= n == v@.len(),
            forall|j: int| a <= j < e ==> !spec_is_ws(v@[j]),
        decreases n - e,
    {
        e = e + 1;
    }
    let r = subvec(v, a, e);
    proof {
        lemma_trim_start_at(v@, a as int);
        let t = v@.skip(a as int);
        assert forall|j: int| 0 <= j < e - a implies !spec_is_ws(t[j]) by {
            assert(t[j] == v@[j + a]);
        }
        lemma_find_ws_idx_witness(t, e - a);
        assert(t.take(e - a) =~= v@.subrange(a as int, e as int));
    }
    r
}

/// `s` restricted to ASCII letters and digits, lower-cased: the normal form
/// used for fuzzy theme-name comparison.
pub open spec fn spec_normalize(s: Seq<char>) -> Seq<char>
    decreases s.len(),
{
    if s.len() == 0 {
        Seq::empty()
    } else {
        let rest = spec_normalize(s.drop_last());
        if spec_is_ascii_alnum(s.last()) {
            rest.push(spec_lower_char(s.last()))
        } else {
            rest
        }
    }
}

/// Normalizes `v` for fuzzy comparison: keep ASCII letters and digits only,
/// lower-cased.
pub fn normalize_chars(v: &Vec<char>) -> (r: Vec<char>)
    ensures
        r@ == spec_normalize(v@),
{
    let mut out: Vec<char> = Vec::new();
    let mut i: usize = 0;
    while i < v.len()
        invariant
            i <= v@.len(),
            out@ == spec_normalize(v@.take(i as int)),
        decreases v.len() - i,
    {
        if is_ascii_alnum(v[i]) {
            out.push(lower_char(v[i]));
        }
        proof {
            assert(v@.take(i + 1).drop_last() =~= v@.take(i as int));
            assert(v@.take(i + 1).last() == v@[i as int]);
        }
        i = i + 1;
    }
    proof {
        assert(v@.take(v@.len() as int) =~= v@);
    }
    out
}

} // verus!

verus! {

/// The spec-level view of an optional owned string.
pub open spec fn opt_string_view(s: Option<String>) -> Option<Seq<char>> {
    match s {
        Some(x) => Some(x@),
        None => None,
    }
}

} // verus!

verus! {

/// ASCII lower-casing shifts an upper-case letter down by 32 code points
/// and keeps every other character.
pub proof fn lemma_lower_char_shift(c: char)
    ensures
        65 <= c as u32 && c as u32 <= 90 ==> spec_lower_char(c) as u32 == c as u32 + 32,
        !(65 <= c as u32 && c as u32 <= 90) ==> spec_lower_char(c) == c,
{
    if 65 <= c as u32 && c as u32 <= 90 {
        let u = c as u32;
        assert((((u + 32) as u8) as u32) == u + 32) by (bit_vector)
            requires
                65 <= u && u <= 90,
        ;
    }
}

/// Characters with the same lower-cased form agree on being an ASCII
/// letter or digit.
pub proof fn lemma_lower_alnum_eq(c1: char, c2: char)
    requires
        spec_lower_char(c1) == spec_lower_char(c2),
    ensures
        spec_is_ascii_alnum(c1) == spec_is_ascii_alnum(c2),
{
    broadcast use vstd::utf8::char_u32_cast;

    lemma_lower_char_shift(c1);
    lemma_lower_char_shift(c2);
}

/// Sequences with the same lower-cased form normalize identically.
pub proof fn lemma_normalize_of_lower(a: Seq<char>, b: Seq<char>)
    requires
        spec_lower(a) == spec_lower(b),
    ensures
        spec_normalize(a) == spec_normalize(b),
    decreases a.len(),
{
    assert(spec_lower(a).len() == a.len());
    assert(spec_lower(b).len() == b.len());
    if a.len() > 0 {
        assert(spec_lower(a.drop_last()) =~= spec_lower(a).drop_last());
        assert(spec_lower(b.drop_last()) =~= spec_lower(b).drop_last());
        lemma_normalize_of_lower(a.drop_last(), b.drop_last());
        assert(spec_lower(a)[a.len() - 1] == spec_lower_char(a.last()));
        assert(spec_lower(b)[b.len() - 1] == spec_lower_char(b.last()));
        lemma_lower_alnum_eq(a.last(), b.last());
    }
}

} // verus!
