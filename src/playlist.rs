//! The fragment list of a playlist: one path per line, comment and tag
//! lines (any line holding `#`) left out.

use vstd::prelude::*;
use crate::text::{push_char, views};

verus! {

broadcast use vstd::string::group_string_axioms;

/// The pieces of `s` between occurrences of `sep`, in order. There is always
/// at least one piece; text ending in `sep` ends with an empty piece.
pub open spec fn split_on(s: Seq<char>, sep: char) -> Seq<Seq<char>>
    decreases s.len(),
{
    if s.len() == 0 {
        seq![Seq::empty()]
    } else {
        let r = split_on(s.drop_last(), sep);
        if s.last() == sep {
            r.push(Seq::empty())
        } else {
            r.update(r.len() - 1, r.last().push(s.last()))
        }
    }
}

/// Whether a playlist line names a fragment: it holds no `#`.
pub open spec fn is_fragment_line(line: Seq<char>) -> bool {
    !line.contains('#')
}

/// The lines of `lines` that name fragments, in order.
pub open spec fn fragment_lines(lines: Seq<Seq<char>>) -> Seq<Seq<char>>
    decreases lines.len(),
{
    if lines.len() == 0 {
        Seq::empty()
    } else {
        let r = fragment_lines(lines.drop_last());
        if is_fragment_line(lines.last()) {
            r.push(lines.last())
        } else {
            r
        }
    }
}

/// The fragment paths that playlist text lists, in order.
pub open spec fn playlist_fragments(text: Seq<char>) -> Seq<Seq<char>> {
    fragment_lines(split_on(text, '\n'))
}

/// The fragment paths listed by playlist text: its lines, split at `\n`,
/// without those that hold a `#`.
pub fn fragment_paths(playlist: &str) -> (paths: Vec<String>)
    ensures
        views(paths@) == playlist_fragments(playlist@),
{
    let mut paths: Vec<String> = Vec::new();
    let mut cur = String::new();
    let mut hash = false;
    let ghost mut done: Seq<Seq<char>> = Seq::empty();
    let ghost mut seen: Seq<char> = Seq::empty();
    assert(split_on(seen, '\n') =~= done.push(cur@));
    for c in it: playlist.chars()
        invariant
            seen == it.seq().take(it.index() as int),
            split_on(seen, '\n') == done.push(cur@),
            views(paths@) == fragment_lines(done),
            hash == cur@.contains('#'),
    {
        let ghost t2 = seen.push(c);
        assert(t2.drop_last() =~= seen);
        if c == '\n' {
            assert(split_on(t2, '\n') =~= done.push(cur@).push(Seq::empty()));
            assert(done.push(cur@).drop_last() =~= done);
            if !hash {
                assert(views(paths@.push(cur)) =~= views(paths@).push(cur@));
                paths.push(cur);
            }
            proof {
                done = done.push(cur@);
            }
            cur = String::new();
            hash = false;
        } else {
            let ghost before = cur@;
            push_char(&mut cur, c);
            assert(split_on(t2, '\n') =~= done.push(cur@));
            assert(cur@[before.len() as int] == c);
            assert(forall|k: int| 0 <= k < before.len() ==> cur@[k] == before[k]);
            if c == '#' {
                hash = true;
            }
        }
        proof {
            seen = t2;
        }
    }
    assert(seen =~= playlist@);
    assert(done.push(cur@).drop_last() =~= done);
    if !hash {
        assert(views(paths@.push(cur)) =~= views(paths@).push(cur@));
        paths.push(cur);
    }
    paths
}

} // verus!
