//! Searching a character sequence for another one.

use vstd::prelude::*;

verus! {

/// Whether `needle` stands in `hay` at position `at`.
pub open spec fn occurs_at(hay: Seq<char>, needle: Seq<char>, at: int) -> bool {
    &&& 0 <= at
    &&& at + needle.len() <= hay.len()
    &&& hay.subrange(at, at + needle.len()) == needle
}

/// Whether `at` is the leftmost position at which `needle` stands in `hay`.
pub open spec fn is_first_occurrence(hay: Seq<char>, needle: Seq<char>, at: int) -> bool {
    &&& occurs_at(hay, needle, at)
    &&& forall|j: int| 0 <= j < at ==> !occurs_at(hay, needle, j)
}

/// Whether `needle` stands somewhere in `hay`.
pub open spec fn contains(hay: Seq<char>, needle: Seq<char>) -> bool {
    exists|at: int| occurs_at(hay, needle, at)
}

/// The leftmost position at which `needle` stands in `hay`, if there is one.
pub open spec fn first_occurrence(hay: Seq<char>, needle: Seq<char>) -> Option<int> {
    if contains(hay, needle) {
        Some(choose|at: int| is_first_occurrence(hay, needle, at))
    } else {
        None
    }
}

proof fn lemma_leftmost_exists(hay: Seq<char>, needle: Seq<char>, at: int)
    requires
        occurs_at(hay, needle, at),
    ensures
        exists|first: int| is_first_occurrence(hay, needle, first),
    decreases at,
{
    if exists|j: int| 0 <= j < at && occurs_at(hay, needle, j) {
        let j = choose|j: int| 0 <= j < at && occurs_at(hay, needle, j);
        lemma_leftmost_exists(hay, needle, j);
    } else {
        assert(is_first_occurrence(hay, needle, at));
    }
}

/// A position that is the leftmost occurrence is the one that
/// `first_occurrence` names.
pub proof fn lemma_first_occurrence_is(hay: Seq<char>, needle: Seq<char>, at: int)
    requires
        is_first_occurrence(hay, needle, at),
    ensures
        first_occurrence(hay, needle) == Some(at),
{
    let chosen = choose|first: int| is_first_occurrence(hay, needle, first);
    assert(is_first_occurrence(hay, needle, chosen));
    if chosen < at {
        assert(!occurs_at(hay, needle, chosen));
    } else if at < chosen {
        assert(!occurs_at(hay, needle, at));
    }
}

/// What `first_occurrence` names is the leftmost occurrence, and it names
/// none only where `needle` stands nowhere in `hay`.
pub proof fn lemma_first_occurrence(hay: Seq<char>, needle: Seq<char>)
    ensures
        match first_occurrence(hay, needle) {
            Some(at) => is_first_occurrence(hay, needle, at),
            None => forall|at: int| !occurs_at(hay, needle, at),
        },
{
    if contains(hay, needle) {
        let at = choose|at: int| occurs_at(hay, needle, at);
        lemma_leftmost_exists(hay, needle, at);
    }
}

/// Tests whether `needle` stands in `hay` at position `at`.
pub fn matches_at(hay: &[char], needle: &[char], at: usize) -> (b: bool)
    ensures
        b == occurs_at(hay@, needle@, at as int),
{
    if at > hay.len() || needle.len() > hay.len() - at {
        return false;
    }
    let mut k: usize = 0;
    while k < needle.len()
        invariant
            k <= needle.len(),
            at + needle.len() <= hay.len(),
            forall|j: int| 0 <= j < k ==> hay@[at + j] == needle@[j],
        decreases needle.len() - k,
    {
        if hay[at + k] != needle[k] {
            assert(hay@.subrange(at as int, at + needle.len())[k as int] == hay@[at + k]);
            return false;
        }
        k += 1;
    }
    assert(hay@.subrange(at as int, at + needle.len()) =~= needle@);
    true
}

/// Finds the leftmost position at which `needle` stands in `hay`.
pub fn find(hay: &[char], needle: &[char]) -> (r: Option<usize>)
    ensures
        match r {
            Some(at) => first_occurrence(hay@, needle@) == Some(at as int) && at + needle.len()
                <= hay.len(),
            None => first_occurrence(hay@, needle@) is None,
        },
{
    if needle.len() > hay.len() {
        return None;
    }
    let last: usize = hay.len() - needle.len();
    let mut at: usize = 0;
    loop
        invariant
            at <= last,
            last == hay.len() - needle.len(),
            forall|j: int| 0 <= j < at ==> !occurs_at(hay@, needle@, j),
        decreases last - at,
    {
        if matches_at(hay, needle, at) {
            proof {
                lemma_first_occurrence_is(hay@, needle@, at as int);
            }
            return Some(at);
        }
        if at == last {
            return None;
        }
        at += 1;
    }
}

/// Tests whether `needle` stands somewhere in `hay`.
pub fn contains_chars(hay: &[char], needle: &[char]) -> (b: bool)
    ensures
        b == contains(hay@, needle@),
{
    find(hay, needle).is_some()
}

/// `s` with every occurrence of `pattern` taken out, the occurrences found
/// from left to right and none overlapping another. An empty pattern takes
/// nothing out.
pub open spec fn remove_all(s: Seq<char>, pattern: Seq<char>) -> Seq<char>
    decreases s.len(),
{
    if s.len() == 0 || pattern.len() == 0 {
        s
    } else if occurs_at(s, pattern, 0) {
        remove_all(s.skip(pattern.len() as int), pattern)
    } else {
        seq![s[0]] + remove_all(s.skip(1), pattern)
    }
}

/// `needle` stands in `s` without its first character at `at` exactly where
/// it stands in `s` at `at + 1`.
pub proof fn lemma_occurs_after_first(s: Seq<char>, needle: Seq<char>, at: int)
    requires
        s.len() > 0,
        0 <= at,
    ensures
        occurs_at(s.skip(1), needle, at) == occurs_at(s, needle, at + 1),
{
    if at + 1 + needle.len() <= s.len() {
        assert(s.skip(1).subrange(at, at + needle.len()) == s.subrange(
            at + 1,
            at + 1 + needle.len(),
        ));
    }
}

/// Taking out goes from left to right: what stands before the leftmost
/// occurrence of the pattern stays, the occurrence goes, and the rest is
/// treated in the same way. Without an occurrence nothing changes.
pub proof fn lemma_remove_all_leftmost(s: Seq<char>, pattern: Seq<char>)
    requires
        pattern.len() > 0,
    ensures
        remove_all(s, pattern) == match first_occurrence(s, pattern) {
            Some(at) => s.take(at) + remove_all(s.skip(at + pattern.len()), pattern),
            None => s,
        },
    decreases s.len(),
{
    lemma_first_occurrence(s, pattern);
    if s.len() == 0 {
    } else if occurs_at(s, pattern, 0) {
        lemma_first_occurrence_is(s, pattern, 0);
        assert(s.take(0) + remove_all(s.skip(pattern.len() as int), pattern) == remove_all(
            s.skip(pattern.len() as int),
            pattern,
        ));
    } else {
        let tail = s.skip(1);
        lemma_remove_all_leftmost(tail, pattern);
        lemma_first_occurrence(tail, pattern);
        assert forall|j: int| 0 <= j implies occurs_at(tail, pattern, j) == occurs_at(
            s,
            pattern,
            j + 1,
        ) by {
            lemma_occurs_after_first(s, pattern, j);
        }
        match first_occurrence(s, pattern) {
            Some(at) => {
                assert(at > 0);
                assert(occurs_at(tail, pattern, at - 1));
                assert forall|j: int| 0 <= j < at - 1 implies !occurs_at(tail, pattern, j) by {
                    assert(!occurs_at(s, pattern, j + 1));
                }
                lemma_first_occurrence_is(tail, pattern, at - 1);
                assert(tail.skip(at - 1 + pattern.len()) == s.skip(at + pattern.len()));
                assert(seq![s[0]] + tail.take(at - 1) == s.take(at));
            },
            None => {
                assert forall|j: int| !occurs_at(tail, pattern, j) by {
                    if 0 <= j {
                        assert(!occurs_at(s, pattern, j + 1));
                    }
                }
                assert(first_occurrence(tail, pattern) is None);
                assert(seq![s[0]] + tail == s);
            },
        }
    }
}

/// Takes every occurrence of `pattern` out of `s`.
pub fn without(s: &[char], pattern: &[char]) -> (out: Vec<char>)
    ensures
        out@ == remove_all(s@, pattern@),
{
    let mut out: Vec<char> = Vec::new();
    if pattern.len() == 0 {
        crate::text::append_chars(&mut out, s);
        return out;
    }
    let mut i: usize = 0;
    assert(s@.skip(0) == s@);
    assert(out@ + remove_all(s@, pattern@) == remove_all(s@, pattern@));
    while i < s.len()
        invariant
            i <= s.len(),
            pattern.len() > 0,
            remove_all(s@, pattern@) == out@ + remove_all(s@.skip(i as int), pattern@),
        decreases s.len() - i,
    {
        let ghost rest = s@.skip(i as int);
        let ghost before = out@;
        if matches_at(s, pattern, i) {
            assert(rest.subrange(0, pattern.len() as int) == s@.subrange(
                i as int,
                i + pattern.len(),
            ));
            assert(rest.skip(pattern.len() as int) == s@.skip(i + pattern.len()));
            i += pattern.len();
        } else {
            proof {
                if i + pattern.len() <= s.len() {
                    assert(rest.subrange(0, pattern.len() as int) == s@.subrange(
                        i as int,
                        i + pattern.len(),
                    ));
                }
            }
            assert(rest.skip(1) == s@.skip(i + 1));
            out.push(s[i]);
            assert(out@ == before + seq![rest[0]]);
            i += 1;
        }
    }
    assert(out@ + s@.skip(s.len() as int) == out@);
    out
}

} // verus!
