//! Splitting a character sequence at separators and trimming white space.

use vstd::prelude::*;
use crate::text::{
    CharClass,
    gap_len,
    lemma_gap_len,
    lemma_gap_len_bounds,
    run_len,
    scan_gap,
    scan_run,
    string_of,
};

verus! {

/// The pieces of `s` between the characters of `seps`, in order. There is one
/// piece more than there are separators in `s`; a piece may be empty.
pub open spec fn split(s: Seq<char>, seps: CharClass) -> Seq<Seq<char>>
    decreases s.len(),
{
    let n = gap_len(s, seps) as int;
    if n >= s.len() {
        seq![s]
    } else {
        seq![s.take(n)] + split(s.skip(n + 1), seps)
    }
}

/// Length of the longest suffix of `s` whose characters all belong to `class`.
pub open spec fn trailing_len(s: Seq<char>, class: CharClass) -> nat
    decreases s.len(),
{
    if s.len() > 0 && class.has(s.last()) {
        1 + trailing_len(s.drop_last(), class)
    } else {
        0
    }
}

/// `s` without the white space at its start and at its end.
pub open spec fn trim(s: Seq<char>) -> Seq<char> {
    let t = s.skip(run_len(s, CharClass::Space) as int);
    t.take(t.len() - trailing_len(t, CharClass::Space))
}

/// The view of a list of strings: the character sequence of each.
pub open spec fn texts(list: Seq<String>) -> Seq<Seq<char>> {
    list.map_values(|s: String| s@)
}

/// The trimmed pieces of `s` between the characters of `seps`, without the
/// pieces that are empty after trimming.
pub open spec fn names(s: Seq<char>, seps: CharClass) -> Seq<Seq<char>> {
    split(s, seps).map_values(|piece: Seq<char>| trim(piece)).filter(
        |piece: Seq<char>| piece.len() > 0,
    )
}

/// The names of a sequence with the first piece `head` followed by a
/// separator and `tail`: the trimmed `head`, if anything is left of it, before
/// the names of `tail`.
pub open spec fn names_after(head: Seq<char>, tail: Seq<Seq<char>>) -> Seq<Seq<char>> {
    if trim(head).len() > 0 {
        seq![trim(head)] + tail
    } else {
        tail
    }
}

/// A suffix of `n` characters of the class, preceded by the start of `s` or
/// by a character outside the class, is what `trailing_len` measures.
pub proof fn lemma_trailing_len(s: Seq<char>, class: CharClass, n: int)
    requires
        0 <= n <= s.len(),
        forall|i: int| s.len() - n <= i < s.len() ==> class.has(#[trigger] s[i]),
        n < s.len() ==> !class.has(s[s.len() - n - 1]),
    ensures
        trailing_len(s, class) == n,
    decreases n,
{
    if n > 0 {
        let t = s.drop_last();
        assert forall|i: int| t.len() - (n - 1) <= i < t.len() implies class.has(
            #[trigger] t[i],
        ) by {
            assert(t[i] == s[i]);
        }
        lemma_trailing_len(t, class, n - 1);
    }
}

/// The pieces of `s` between the characters `first`, each cut again at the
/// characters `second`, all in one sequence.
pub open spec fn split_twice(s: Seq<char>, first: char, second: char) -> Seq<Seq<char>> {
    split(s, CharClass::Is(first)).flat_map(
        |piece: Seq<char>| split(piece, CharClass::Is(second)),
    )
}

/// Two classes that agree on every character of `s` cut it into the same
/// pieces.
pub proof fn lemma_split_agree(s: Seq<char>, one: CharClass, other: CharClass)
    requires
        forall|i: int| 0 <= i < s.len() ==> one.has(#[trigger] s[i]) == other.has(s[i]),
    ensures
        split(s, one) == split(s, other),
    decreases s.len(),
{
    lemma_gap_len_bounds(s, one);
    let n = gap_len(s, one) as int;
    lemma_gap_len(s, other, n);
    if n < s.len() {
        let rest = s.skip(n + 1);
        assert forall|i: int| 0 <= i < rest.len() implies one.has(#[trigger] rest[i])
            == other.has(rest[i]) by {
            assert(rest[i] == s[n + 1 + i]);
        }
        lemma_split_agree(rest, one, other);
    }
}

/// The pieces of `s` are those of what stands before a separator, followed
/// by those of what stands after it.
pub proof fn lemma_split_at_separator(s: Seq<char>, seps: CharClass, n: int)
    requires
        0 <= n < s.len(),
        seps.has(s[n]),
    ensures
        split(s, seps) == split(s.take(n), seps) + split(s.skip(n + 1), seps),
    decreases s.len(),
{
    lemma_gap_len_bounds(s, seps);
    let g = gap_len(s, seps) as int;
    let head = s.take(n);
    if g == n {
        lemma_gap_len(head, seps, n);
        assert(head.take(n) == head);
    } else {
        assert(g < n);
        assert forall|i: int| 0 <= i < g implies !seps.has(#[trigger] head[i]) by {
            assert(head[i] == s[i]);
        }
        assert(head[g] == s[g]);
        lemma_gap_len(head, seps, g);
        let rest = s.skip(g + 1);
        assert(rest[n - g - 1] == s[n]);
        lemma_split_at_separator(rest, seps, n - g - 1);
        assert(rest.take(n - g - 1) == head.skip(g + 1));
        assert(rest.skip(n - g) == s.skip(n + 1));
        assert(head.take(g) == s.take(g));
    }
}

/// Cutting at either of two characters gives the pieces that cutting at the
/// first and then cutting each piece at the second gives.
pub proof fn lemma_split_either(s: Seq<char>, first: char, second: char)
    ensures
        split(s, CharClass::Either(first, second)) == split_twice(s, first, second),
    decreases s.len(),
{
    let both = CharClass::Either(first, second);
    let again = |piece: Seq<char>| split(piece, CharClass::Is(second));
    lemma_gap_len_bounds(s, CharClass::Is(first));
    let n = gap_len(s, CharClass::Is(first)) as int;
    if n >= s.len() {
        lemma_split_agree(s, both, CharClass::Is(second));
        assert(split(s, CharClass::Is(first)) == seq![s]);
        seq![s].lemma_flat_map_singleton(again);
    } else {
        let head = s.take(n);
        let rest = s.skip(n + 1);
        lemma_split_at_separator(s, both, n);
        assert forall|i: int| 0 <= i < head.len() implies both.has(#[trigger] head[i])
            == CharClass::Is(second).has(head[i]) by {
            assert(head[i] == s[i]);
        }
        lemma_split_agree(head, both, CharClass::Is(second));
        lemma_split_either(rest, first, second);
        let pieces = split(rest, CharClass::Is(first));
        assert(split(s, CharClass::Is(first)) == seq![head] + pieces);
        assert((seq![head] + pieces).map_values(again) == seq![again(head)] + pieces.map_values(
            again,
        ));
        vstd::seq_lib::lemma_flatten_concat(seq![again(head)], pieces.map_values(again));
        seq![head].lemma_flat_map_singleton(again);
        assert(seq![head].map_values(again) == seq![again(head)]);
    }
}

/// Unfolds `names` once, at the first separator of `s`.
pub proof fn lemma_names_unfold(s: Seq<char>, seps: CharClass)
    ensures
        ({
            let n = gap_len(s, seps) as int;
            names(s, seps) == if n >= s.len() {
                names_after(s, Seq::empty())
            } else {
                names_after(s.take(n), names(s.skip(n + 1), seps))
            }
        }),
{
    let n = gap_len(s, seps) as int;
    let trimmed = |piece: Seq<char>| trim(piece);
    let kept = |piece: Seq<char>| piece.len() > 0;
    let head = if n >= s.len() {
        s
    } else {
        s.take(n)
    };
    let rest = if n >= s.len() {
        Seq::<Seq<char>>::empty()
    } else {
        split(s.skip(n + 1), seps)
    };
    assert(split(s, seps) == seq![head] + rest);
    assert((seq![head] + rest).map_values(trimmed) == seq![trim(head)] + rest.map_values(
        trimmed,
    ));
    Seq::filter_distributes_over_add(seq![trim(head)], rest.map_values(trimmed), kept);
    assert(seq![trim(head)].filter(kept) == if trim(head).len() > 0 {
        seq![trim(head)]
    } else {
        Seq::<Seq<char>>::empty()
    }) by {
        reveal_with_fuel(Seq::filter, 2);
        assert(seq![trim(head)].drop_last() == Seq::<Seq<char>>::empty());
    }
    assert(Seq::<Seq<char>>::empty().map_values(trimmed).filter(kept) == Seq::<
        Seq<char>,
    >::empty()) by {
        reveal_with_fuel(Seq::filter, 1);
    }
}

/// Trims the white space from both ends of `s`.
pub fn trimmed(s: &[char]) -> (t: &[char])
    ensures
        t@ == trim(s@),
{
    let start: usize = scan_run(s, 0, CharClass::Space);
    assert(s@.skip(0) == s@);
    let mut end: usize = s.len();
    while end > start && CharClass::Space.contains(s[end - 1])
        invariant
            start <= end <= s.len(),
            forall|i: int| end <= i < s.len() ==> CharClass::Space.has(#[trigger] s@[i]),
        decreases end,
    {
        end -= 1;
    }
    proof {
        let t = s@.skip(start as int);
        crate::text::lemma_run_len_bounds(s@, CharClass::Space);
        lemma_trailing_len(t, CharClass::Space, s.len() - end);
        assert(t.take(t.len() - (s.len() - end)) == s@.subrange(start as int, end as int));
    }
    &s[start..end]
}

/// Splits `s` at the characters of `seps`, trims each piece and keeps those
/// of which anything is left.
pub fn name_list(s: &[char], seps: CharClass) -> (list: Vec<String>)
    ensures
        texts(list@) == names(s@, seps),
{
    let mut list: Vec<String> = Vec::new();
    let mut start: usize = 0;
    assert(s@.skip(0) == s@);
    assert(texts(list@) == Seq::<Seq<char>>::empty());
    loop
        invariant
            start <= s.len(),
            names(s@, seps) == texts(list@) + names(s@.skip(start as int), seps),
        decreases s.len() - start,
    {
        let ghost rest = s@.skip(start as int);
        let ghost before = texts(list@);
        let end: usize = scan_gap(s, start, seps);
        let piece = trimmed(&s[start..end]);
        proof {
            lemma_names_unfold(rest, seps);
            assert(rest.take(end - start) == s@.subrange(start as int, end as int));
        }
        if piece.len() > 0 {
            let name = string_of(piece);
            list.push(name);
            assert(texts(list@) == before + seq![piece@]);
        }
        if end >= s.len() {
            assert(rest.take(end - start) == rest);
            return list;
        }
        proof {
            assert(rest.skip(end - start + 1) == s@.skip(end + 1));
        }
        start = end + 1;
    }
}

} // verus!
