//! Scoping a flat stylesheet under a selector prefix.
//!
//! A highlighting stylesheet is rewritten so that every rule only applies
//! inside the subtree matched by a prefix selector (for example
//! `html[data-theme='dark']`). The stylesheet is treated as a flat sequence
//! of `selector-list { body }` rules: chunks are split on `'}'`, the
//! selector list of each chunk is split on `','`, each selector is trimmed
//! and prefixed, and empty selectors are dropped. A chunk without a `'{'`
//! is dropped silently: the input is machine-generated, so malformed pieces
//! are not worth failing over.

use crate::text::{
    chars_string, join_chars, push_all, spec_join, spec_split, spec_split_once, spec_trim,
    split_chars, split_once_chars, str_chars, trim_chars, views,
};
use vstd::prelude::*;

verus! {

/// The selectors of `pieces`, trimmed, with empty ones dropped and the
/// rest prefixed by `prefix` and a space.
pub open spec fn spec_scoped_selectors(pieces: Seq<Seq<char>>, prefix: Seq<char>) -> Seq<Seq<char>>
    decreases pieces.len(),
{
    if pieces.len() == 0 {
        Seq::empty()
    } else {
        let rest = spec_scoped_selectors(pieces.drop_last(), prefix);
        let t = spec_trim(pieces.last());
        if t.len() > 0 {
            rest.push(prefix + seq![' '] + t)
        } else {
            rest
        }
    }
}

/// One `selector-list { body }` chunk, scoped under `prefix`; a chunk
/// without an opening brace contributes nothing.
pub open spec fn spec_scope_rule(chunk: Seq<char>, prefix: Seq<char>) -> Seq<char> {
    match spec_split_once(chunk, '{') {
        Some(sb) => spec_join(
            spec_scoped_selectors(spec_split(sb.0, ','), prefix),
            seq![',', ' '],
        ) + seq![' ', '{'] + sb.1 + seq!['}'],
        None => Seq::empty(),
    }
}

/// All chunks of the stylesheet, scoped and concatenated.
pub open spec fn spec_scope_chunks(chunks: Seq<Seq<char>>, prefix: Seq<char>) -> Seq<char>
    decreases chunks.len(),
{
    if chunks.len() == 0 {
        Seq::empty()
    } else {
        spec_scope_chunks(chunks.drop_last(), prefix) + spec_scope_rule(chunks.last(), prefix)
    }
}

/// The stylesheet `css` with every rule's selectors scoped under `prefix`.
pub open spec fn spec_scope_css(css: Seq<char>, prefix: Seq<char>) -> Seq<char> {
    spec_scope_chunks(spec_split(css, '}'), prefix)
}

/// Rewrites the flat stylesheet `css` so every rule applies only under the
/// selector `scope`: each selector of each rule is trimmed and prefixed
/// with `scope` and a space; empty selectors are dropped; chunks without a
/// rule-opening brace are dropped.
pub fn scope_syntect_css(css: &str, scope: &str) -> (r: String)
    ensures
        r@ == spec_scope_css(css@, scope@),
{
    let cssv = str_chars(css);
    let prefix = str_chars(scope);
    let sep = str_chars(", ");
    proof {
        reveal_strlit(", ");
        assert(sep@ =~= seq![',', ' ']);
    }
    let chunks = split_chars(&cssv, '}');
    let mut acc: Vec<char> = Vec::new();
    let mut i: usize = 0;
    while i < chunks.len()
        invariant
            i <= chunks@.len(),
            views(chunks@) == spec_split(css@, '}'),
            sep@ == seq![',', ' '],
            prefix@ == scope@,
            acc@ == spec_scope_chunks(views(chunks@).take(i as int), prefix@),
        decreases chunks.len() - i,
    {
        let ghost pre = acc@;
        match split_once_chars(&chunks[i], '{') {
            Some(sel_body) => {
                let (sel, body) = sel_body;
                let pieces = split_chars(&sel, ',');
                let mut kept: Vec<Vec<char>> = Vec::new();
                let mut j: usize = 0;
                while j < pieces.len()
                    invariant
                        j <= pieces@.len(),
                        prefix@ == scope@,
                        views(kept@) == spec_scoped_selectors(
                            views(pieces@).take(j as int),
                            prefix@,
                        ),
                    decreases pieces.len() - j,
                {
                    let ghost kpre = kept@;
                    let t = trim_chars(&pieces[j]);
                    if t.len() > 0 {
                        let mut scoped: Vec<char> = Vec::new();
                        push_all(&mut scoped, &prefix);
                        scoped.push(' ');
                        push_all(&mut scoped, &t);
                        proof {
                            assert(scoped@ =~= prefix@ + seq![' '] + t@);
                        }
                        kept.push(scoped);
                    }
                    proof {
                        let ps = views(pieces@);
                        assert(ps.take(j + 1).drop_last() =~= ps.take(j as int));
                        assert(ps.take(j + 1).last() == pieces@[j as int]@);
                        if t@.len() > 0 {
                            assert(views(kept@) =~= views(kpre).push(
                                prefix@ + seq![' '] + spec_trim(pieces@[j as int]@),
                            ));
                        }
                    }
                    j = j + 1;
                }
                proof {
                    assert(views(pieces@).take(pieces@.len() as int) =~= views(pieces@));
                }
                let joined = join_chars(&kept, &sep);
                push_all(&mut acc, &joined);
                acc.push(' ');
                acc.push('{');
                push_all(&mut acc, &body);
                acc.push('}');
                proof {
                    assert(acc@ =~= pre + (joined@ + seq![' ', '{'] + body@ + seq!['}']));
                }
            },
            None => {
                proof {
                    assert(acc@ =~= pre + Seq::<char>::empty());
                }
            },
        }
        proof {
            let cs = views(chunks@);
            assert(cs.take(i + 1).drop_last() =~= cs.take(i as int));
            assert(cs.take(i + 1).last() == chunks@[i as int]@);
        }
        i = i + 1;
    }
    proof {
        assert(views(chunks@).take(chunks@.len() as int) =~= views(chunks@));
    }
    chars_string(&acc)
}

} // verus!
