//! Character sequences: strings as vectors of characters, and trimming.

use vstd::prelude::*;
use crate::bindings::push_char;

verus! {

/// `s` without the occurrences of `c` at its start.
pub open spec fn trim_start(s: Seq<char>, c: char) -> Seq<char>
    decreases s.len(),
{
    if s.len() > 0 && s.first() == c {
        trim_start(s.drop_first(), c)
    } else {
        s
    }
}

/// Position of the first `c` in `s`, or the length of `s` where there is
/// none.
pub open spec fn first_index_of(s: Seq<char>, c: char) -> int
    decreases s.len(),
{
    if s.len() == 0 || s.first() == c {
        0
    } else {
        1 + first_index_of(s.drop_first(), c)
    }
}

/// The view of an optional string.
pub open spec fn text_of(o: Option<String>) -> Option<Seq<char>> {
    match o {
        Some(s) => Some(s@),
        None => None,
    }
}

/// The first `c` in `s` lies within `s` or at its end, and nothing before
/// it is `c`.
pub proof fn lemma_first_index_of(s: Seq<char>, c: char)
    ensures
        0 <= first_index_of(s, c) <= s.len(),
        first_index_of(s, c) < s.len() ==> s[first_index_of(s, c)] == c,
        forall|i: int| 0 <= i < first_index_of(s, c) ==> s[i] != c,
    decreases s.len(),
{
    if s.len() > 0 && s.first() != c {
        let t = s.drop_first();
        lemma_first_index_of(t, c);
        assert forall|i: int| 0 <= i < first_index_of(s, c) implies s[i] != c by {
            if i > 0 {
                assert(t[i - 1] == s[i]);
            }
        }
        if first_index_of(s, c) < s.len() {
            assert(t[first_index_of(t, c)] == s[first_index_of(s, c)]);
        }
    }
}

/// The characters of a string slice, in order.
pub fn chars_of(s: &str) -> (v: Vec<char>)
    ensures
        v@ == s@,
{
    let mut v: Vec<char> = Vec::new();
    for c in it: s.chars()
        invariant
            it.seq() == s@,
            v@ == s@.take(it.index()),
    {
        v.push(c);
    }
    v
}

/// The string made of the characters of `cs`, in order.
pub fn string_of(cs: &Vec<char>) -> (s: String)
    ensures
        s@ == cs@,
{
    assert(cs@.subrange(0, cs.len() as int) == cs@);
    string_between(cs, 0, cs.len())
}

/// The string made of the characters of `cs` from `from` up to `to`.
pub(crate) fn string_between(cs: &Vec<char>, from: usize, to: usize) -> (s: String)
    requires
        from <= to <= cs.len(),
    ensures
        s@ == cs@.subrange(from as int, to as int),
{
    let mut s = String::new();
    let mut i: usize = from;
    while i < to
        invariant
            from <= i <= to <= cs.len(),
            s@ == cs@.subrange(from as int, i as int),
        decreases to - i,
    {
        push_char(&mut s, cs[i]);
        assert(cs@.subrange(from as int, i + 1) == cs@.subrange(from as int, i as int).push(
            cs@[i as int],
        ));
        i = i + 1;
    }
    s
}

/// First position from `from` on that does not hold `c`.
pub(crate) fn skip_while(cs: &Vec<char>, from: usize, c: char) -> (at: usize)
    requires
        from <= cs.len(),
    ensures
        from <= at <= cs.len(),
        cs@.skip(at as int) == trim_start(cs@.skip(from as int), c),
{
    let mut at: usize = from;
    while at < cs.len() && cs[at] == c
        invariant
            from <= at <= cs.len(),
            trim_start(cs@.skip(from as int), c) == trim_start(cs@.skip(at as int), c),
        decreases cs.len() - at,
    {
        assert(cs@.skip(at as int).drop_first() == cs@.skip(at + 1));
        at = at + 1;
    }
    at
}

/// First position from `from` on that holds `c`, or the length.
pub(crate) fn find_first(cs: &Vec<char>, from: usize, c: char) -> (at: usize)
    requires
        from <= cs.len(),
    ensures
        from <= at <= cs.len(),
        at == from + first_index_of(cs@.skip(from as int), c),
{
    let mut at: usize = from;
    while at < cs.len() && cs[at] != c
        invariant
            from <= at <= cs.len(),
            from + first_index_of(cs@.skip(from as int), c) == at + first_index_of(
                cs@.skip(at as int),
                c,
            ),
        decreases cs.len() - at,
    {
        assert(cs@.skip(at as int).drop_first() == cs@.skip(at + 1));
        at = at + 1;
    }
    at
}

} // verus!
