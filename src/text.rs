//! Character-level text handling: searching for and removing patterns, over
//! the characters of a string.

use vstd::prelude::*;

verus! {

broadcast use vstd::string::group_string_axioms;

/// Whether `s` begins with `p`.
pub open spec fn starts_with(s: Seq<char>, p: Seq<char>) -> bool {
    p.len() <= s.len() && s.take(p.len() as int) == p
}

/// The part of `s` before the first occurrence of `p`, or all of `s` where
/// `p` does not occur. This is the first piece of splitting `s` at `p`.
pub open spec fn before(s: Seq<char>, p: Seq<char>) -> Seq<char>
    decreases s.len(),
{
    if s.len() == 0 || starts_with(s, p) {
        Seq::empty()
    } else {
        seq![s[0]] + before(s.drop_first(), p)
    }
}

/// `s` with every occurrence of the non-empty pattern `p` removed, scanning
/// from the left, one occurrence after another without overlap.
pub open spec fn removed(s: Seq<char>, p: Seq<char>) -> Seq<char>
    decreases s.len(),
{
    if s.len() == 0 {
        Seq::empty()
    } else if p.len() > 0 && starts_with(s, p) {
        removed(s.skip(p.len() as int), p)
    } else {
        seq![s[0]] + removed(s.drop_first(), p)
    }
}

/// The characters of each string.
pub open spec fn views(v: Seq<String>) -> Seq<Seq<char>> {
    v.map_values(|x: String| x@)
}

/// Relies on String::push: appends one character to the string.
#[verifier::external_body]
pub(crate) fn push_char(s: &mut String, c: char)
    ensures
        final(s)@ == old(s)@.push(c),
{
    s.push(c);
}

/// The characters of `s`, in order.
pub fn chars_of(s: &str) -> (v: Vec<char>)
    ensures
        v@ == s@,
{
    let mut v: Vec<char> = Vec::new();
    for c in it: s.chars()
        invariant
            v@ == it.seq().take(it.index() as int),
    {
        v.push(c);
    }
    assert(v@ =~= s@);
    v
}

/// Whether `p` occurs in `s` at position `i`.
pub fn matches_at(s: &Vec<char>, p: &Vec<char>, i: usize) -> (b: bool)
    requires
        i <= s@.len(),
    ensures
        b == starts_with(s@.skip(i as int), p@),
{
    if p.len() > s.len() - i {
        return false;
    }
    let mut j: usize = 0;
    while j < p.len()
        invariant
            i + p@.len() <= s@.len(),
            s@.len() <= usize::MAX,
            j <= p@.len(),
            forall|k: int| 0 <= k < j ==> s@[i + k] == p@[k],
        decreases p@.len() - j,
    {
        if s[i + j] != p[j] {
            assert(s@.skip(i as int).take(p@.len() as int)[j as int] != p@[j as int]);
            return false;
        }
        j = j + 1;
    }
    assert(s@.skip(i as int).take(p@.len() as int) =~= p@);
    true
}

/// The part of `s` before the first occurrence of `p` (all of `s` where `p`
/// does not occur).
pub fn prefix_before(s: &str, p: &str) -> (r: String)
    ensures
        r@ == before(s@, p@),
{
    let sv = chars_of(s);
    let pv = chars_of(p);
    let mut out = String::new();
    let mut i: usize = 0;
    assert(sv@.skip(0) =~= sv@);
    assert(out@ + before(sv@, pv@) =~= before(sv@, pv@));
    while i < sv.len() && !matches_at(&sv, &pv, i)
        invariant
            i <= sv@.len(),
            out@ + before(sv@.skip(i as int), pv@) == before(sv@, pv@),
        decreases sv@.len() - i,
    {
        let ghost rest = sv@.skip(i as int);
        assert(rest.drop_first() =~= sv@.skip(i + 1));
        assert(out@.push(sv@[i as int]) + before(rest.drop_first(), pv@) =~= out@ + before(
            rest,
            pv@,
        ));
        push_char(&mut out, sv[i]);
        i = i + 1;
    }
    assert(before(sv@.skip(i as int), pv@) =~= Seq::<char>::empty());
    assert(out@ + Seq::<char>::empty() =~= out@);
    out
}

/// `s` with every occurrence of the non-empty pattern `p` removed, as
/// replacing `p` by the empty string does.
pub fn remove_all(s: &str, p: &str) -> (r: String)
    requires
        p@.len() > 0,
    ensures
        r@ == removed(s@, p@),
{
    let sv = chars_of(s);
    let pv = chars_of(p);
    let mut out = String::new();
    let mut i: usize = 0;
    assert(sv@.skip(0) =~= sv@);
    assert(out@ + removed(sv@, pv@) =~= removed(sv@, pv@));
    while i < sv.len()
        invariant
            i <= sv@.len(),
            pv@.len() > 0,
            out@ + removed(sv@.skip(i as int), pv@) == removed(sv@, pv@),
        decreases sv@.len() - i,
    {
        let ghost rest = sv@.skip(i as int);
        if matches_at(&sv, &pv, i) {
            assert(rest.skip(pv@.len() as int) =~= sv@.skip(i + pv@.len()));
            i = i + pv.len();
        } else {
            assert(rest.drop_first() =~= sv@.skip(i + 1));
            assert(out@.push(sv@[i as int]) + removed(rest.drop_first(), pv@) =~= out@
                + removed(rest, pv@));
            push_char(&mut out, sv[i]);
            i = i + 1;
        }
    }
    assert(removed(sv@.skip(i as int), pv@) =~= Seq::<char>::empty());
    assert(out@ + Seq::<char>::empty() =~= out@);
    out
}

} // verus!
