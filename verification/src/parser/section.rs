//! Pieces shared by the markdown parsers: the value of a `## Section`
//! (its trimmed non-blank lines joined by newlines), bullet lists, and
//! `filter_map`-style collection over lines.

use vstd::prelude::*;

use crate::text::{
    chars_of, push_all, str_views, string_of, strip_prefix, strip_prefix_chars, trim, trimmed,
    views,
};

verus! {

broadcast use vstd::seq_lib::group_seq_properties;

/// The trimmed lines of a section that are not blank, in order.
pub open spec fn kept_lines(lines: Seq<Seq<char>>) -> Seq<Seq<char>>
    decreases lines.len(),
{
    if lines.len() == 0 {
        Seq::empty()
    } else {
        let p = kept_lines(lines.drop_last());
        let t = trim(lines.last());
        if t.len() > 0 {
            p.push(t)
        } else {
            p
        }
    }
}

/// Pieces joined by `'\n'`.
pub open spec fn join_lines(parts: Seq<Seq<char>>) -> Seq<char>
    decreases parts.len(),
{
    if parts.len() == 0 {
        Seq::empty()
    } else if parts.len() == 1 {
        parts[0]
    } else {
        join_lines(parts.drop_last()) + seq!['\n'] + parts.last()
    }
}

/// The value of a section: its non-blank lines, trimmed, one per line.
pub open spec fn section_value(lines: Seq<Seq<char>>) -> Seq<char> {
    join_lines(kept_lines(lines))
}

/// The items `f` keeps, in order (`Iterator::filter_map`).
pub open spec fn collect_some<A, B>(s: Seq<A>, f: spec_fn(A) -> Option<B>) -> Seq<B>
    decreases s.len(),
{
    if s.len() == 0 {
        Seq::empty()
    } else {
        let p = collect_some(s.drop_last(), f);
        match f(s.last()) {
            Some(b) => p.push(b),
            None => p,
        }
    }
}

/// A kept line without its leading `"- "`, if it has one.
pub open spec fn unbullet(t: Seq<char>) -> Seq<char> {
    match strip_prefix(t, "- "@) {
        Some(r) => r,
        None => t,
    }
}

/// A bullet list section: each non-blank line, trimmed, with any leading `"- "` removed.
pub open spec fn bullet_list(lines: Seq<Seq<char>>) -> Seq<Seq<char>> {
    kept_lines(lines).map_values(|t: Seq<char>| unbullet(t))
}

proof fn lemma_join_push(p: Seq<Seq<char>>, t: Seq<char>)
    ensures
        join_lines(p.push(t)) == if p.len() == 0 {
            t
        } else {
            join_lines(p) + seq!['\n'] + t
        },
{
    assert(p.push(t).drop_last() =~= p);
    if p.len() == 0 {
        assert(p.push(t)[0] == t);
    }
}

/// The value of a section (see `section_value`).
pub fn section_value_of(lines: &Vec<Vec<char>>) -> (r: Vec<char>)
    ensures
        r@ == section_value(views(lines@)),
{
    let ghost ls = views(lines@);
    let mut acc: Vec<char> = Vec::new();
    let mut empty = true;
    let mut i: usize = 0;
    while i < lines.len()
        invariant
            i <= lines@.len(),
            ls == views(lines@),
            acc@ == join_lines(kept_lines(ls.take(i as int))),
            empty == (kept_lines(ls.take(i as int)).len() == 0),
        decreases lines.len() - i,
    {
        proof {
            assert(ls.take(i + 1).drop_last() =~= ls.take(i as int));
        }
        let t = trimmed(&lines[i]);
        if t.len() > 0 {
            proof {
                lemma_join_push(kept_lines(ls.take(i as int)), t@);
            }
            if !empty {
                acc.push('\n');
            }
            push_all(&mut acc, &t);
            empty = false;
        }
        i = i + 1;
    }
    proof {
        assert(ls.take(i as int) =~= ls);
    }
    acc
}

/// A bullet list section (see `bullet_list`).
pub fn bullet_list_of(lines: &Vec<Vec<char>>) -> (r: Vec<String>)
    ensures
        str_views(r@) == bullet_list(views(lines@)),
{
    let ghost ls = views(lines@);
    let mut out: Vec<String> = Vec::new();
    let mut i: usize = 0;
    let dash = chars_of("- ");
    while i < lines.len()
        invariant
            i <= lines@.len(),
            ls == views(lines@),
            dash@ == "- "@,
            str_views(out@) == bullet_list(ls.take(i as int)),
        decreases lines.len() - i,
    {
        let ghost prev = ls.take(i as int);
        proof {
            assert(ls.take(i + 1).drop_last() =~= prev);
        }
        let t = trimmed(&lines[i]);
        if t.len() > 0 {
            let item = match strip_prefix_chars(&t, &dash) {
                Some(r) => r,
                None => t,
            };
            let ghost before = str_views(out@);
            out.push(string_of(&item));
            proof {
                assert(str_views(out@) =~= before.push(item@));
                assert(kept_lines(ls.take(i + 1)) == kept_lines(prev).push(trim(ls[i as int])));
                assert(bullet_list(ls.take(i + 1)) =~= bullet_list(prev).push(unbullet(trim(ls[i as int]))));
            }
        } else {
            proof {
                assert(kept_lines(ls.take(i + 1)) == kept_lines(prev));
            }
        }
        i = i + 1;
    }
    proof {
        assert(ls.take(i as int) =~= ls);
    }
    out
}

} // verus!
