//! Character sequences: conversion between strings and character vectors,
//! character classes, searching, splitting and trimming.
//!
//! Every function here is stated over `Seq<char>`, the view that strings,
//! character slices and character vectors share.

use vstd::prelude::*;

verus! {

/// `String::push` appends one character to the end of the string and leaves
/// the characters before it as they were.
pub assume_specification[ String::push ](s: &mut String, c: char)
    ensures
        final(s)@ == old(s)@.push(c),
;

/// The characters of `s`, in order.
pub fn chars_of(s: &str) -> (v: Vec<char>)
    ensures
        v@ == s@,
{
    let mut v: Vec<char> = Vec::new();
    for c in it: s.chars()
        invariant
            v@ == it.seq().take(it.index() as int),
            it.seq() == s@,
    {
        v.push(c);
    }
    v
}

/// A string made of the characters of `chars`, in order.
pub fn string_of(chars: &[char]) -> (s: String)
    ensures
        s@ == chars@,
{
    let mut s = String::new();
    let mut i: usize = 0;
    while i < chars.len()
        invariant
            i <= chars.len(),
            s@ == chars@.take(i as int),
        decreases chars.len() - i,
    {
        s.push(chars[i]);
        i += 1;
        assert(chars@.take(i as int) == chars@.take(i - 1).push(chars@[i - 1]));
    }
    assert(chars@.take(chars.len() as int) == chars@);
    s
}

/// The view of a string that may be absent.
pub open spec fn opt_text(s: Option<String>) -> Option<Seq<char>> {
    match s {
        Some(s) => Some(s@),
        None => None,
    }
}

/// A copy of a string that may be absent.
pub fn copy_opt(s: &Option<String>) -> (copy: Option<String>)
    ensures
        opt_text(copy) == opt_text(*s),
{
    match s {
        Some(s) => Some(s.clone()),
        None => None,
    }
}

/// Appends the characters of `tail` to `buf`.
pub fn append_chars(buf: &mut Vec<char>, tail: &[char])
    ensures
        final(buf)@ == old(buf)@ + tail@,
{
    let mut i: usize = 0;
    while i < tail.len()
        invariant
            i <= tail.len(),
            buf@ == old(buf)@ + tail@.take(i as int),
        decreases tail.len() - i,
    {
        buf.push(tail[i]);
        i += 1;
        assert(tail@.take(i as int) == tail@.take(i - 1).push(tail@[i - 1]));
    }
    assert(tail@.take(tail.len() as int) == tail@);
}

/// Appends the characters of the string `tail` to `buf`.
pub fn append_text(buf: &mut Vec<char>, tail: &str)
    ensures
        final(buf)@ == old(buf)@ + tail@,
{
    let chars = chars_of(tail);
    append_chars(buf, chars.as_slice());
}

/// Whether two slices hold the same characters.
pub fn same_chars(a: &[char], b: &[char]) -> (same: bool)
    ensures
        same == (a@ == b@),
{
    if a.len() != b.len() {
        return false;
    }
    let mut i: usize = 0;
    while i < a.len()
        invariant
            i <= a.len(),
            a.len() == b.len(),
            a@.take(i as int) == b@.take(i as int),
        decreases a.len() - i,
    {
        if a[i] != b[i] {
            return false;
        }
        i += 1;
        assert(a@.take(i as int) == a@.take(i - 1).push(a@[i - 1]));
        assert(b@.take(i as int) == b@.take(i - 1).push(b@[i - 1]));
    }
    assert(a@.take(a.len() as int) == a@);
    assert(b@.take(b.len() as int) == b@);
    true
}

/// Whether `chars` holds the characters of `text`.
pub fn is_text(chars: &[char], text: &str) -> (same: bool)
    ensures
        same == (chars@ == text@),
{
    let other = chars_of(text);
    same_chars(chars, other.as_slice())
}

/// A set of characters that the scanners below can test for.
#[derive(Clone, Copy, Debug)]
pub enum CharClass {
    /// One character.
    Is(char),
    /// Either of two characters.
    Either(char, char),
    /// The decimal digits `0` to `9`.
    Digit,
    /// A decimal digit or the minus sign.
    Numeric,
    /// The characters with the Unicode property `White_Space`.
    Space,
}

/// Whether `c` is one of the decimal digits `0` to `9`.
pub open spec fn is_digit(c: char) -> bool {
    '0' <= c <= '9'
}

/// Whether `c` has the Unicode property `White_Space`.
pub open spec fn is_space(c: char) -> bool {
    let n = c as u32;
    ||| 0x09 <= n <= 0x0d
    ||| n == 0x20
    ||| n == 0x85
    ||| n == 0xa0
    ||| n == 0x1680
    ||| 0x2000 <= n <= 0x200a
    ||| n == 0x2028
    ||| n == 0x2029
    ||| n == 0x202f
    ||| n == 0x205f
    ||| n == 0x3000
}

impl CharClass {
    /// Whether `c` belongs to the class.
    pub open spec fn has(self, c: char) -> bool {
        match self {
            CharClass::Is(a) => c == a,
            CharClass::Either(a, b) => c == a || c == b,
            CharClass::Digit => is_digit(c),
            CharClass::Numeric => is_digit(c) || c == '-',
            CharClass::Space => is_space(c),
        }
    }

    /// Tests whether `c` belongs to the class.
    pub fn contains(&self, c: char) -> (b: bool)
        ensures
            b == self.has(c),
    {
        match self {
            CharClass::Is(a) => c == *a,
            CharClass::Either(a, b) => c == *a || c == *b,
            CharClass::Digit => '0' <= c && c <= '9',
            CharClass::Numeric => ('0' <= c && c <= '9') || c == '-',
            CharClass::Space => {
                let n: u32 = c as u32;
                (0x09 <= n && n <= 0x0d) || n == 0x20 || n == 0x85 || n == 0xa0 || n == 0x1680
                    || (0x2000 <= n && n <= 0x200a) || n == 0x2028 || n == 0x2029 || n == 0x202f
                    || n == 0x205f || n == 0x3000
            },
        }
    }
}

/// Length of the longest prefix of `s` whose characters all belong to `class`.
pub open spec fn run_len(s: Seq<char>, class: CharClass) -> nat
    decreases s.len(),
{
    if s.len() > 0 && class.has(s[0]) {
        1 + run_len(s.skip(1), class)
    } else {
        0
    }
}

/// Length of the longest prefix of `s` that holds no character of `class`.
pub open spec fn gap_len(s: Seq<char>, class: CharClass) -> nat
    decreases s.len(),
{
    if s.len() > 0 && !class.has(s[0]) {
        1 + gap_len(s.skip(1), class)
    } else {
        0
    }
}

/// A prefix of `n` characters of the class, followed by the end of `s` or by
/// a character outside the class, is the run that `run_len` measures.
pub proof fn lemma_run_len(s: Seq<char>, class: CharClass, n: int)
    requires
        0 <= n <= s.len(),
        forall|i: int| 0 <= i < n ==> class.has(#[trigger] s[i]),
        n < s.len() ==> !class.has(s[n]),
    ensures
        run_len(s, class) == n,
    decreases n,
{
    if n > 0 {
        let t = s.skip(1);
        assert forall|i: int| 0 <= i < n - 1 implies class.has(#[trigger] t[i]) by {
            assert(t[i] == s[i + 1]);
        }
        lemma_run_len(t, class, n - 1);
    }
}

/// A prefix of `n` characters outside the class, followed by the end of `s`
/// or by a character of the class, is the gap that `gap_len` measures.
pub proof fn lemma_gap_len(s: Seq<char>, class: CharClass, n: int)
    requires
        0 <= n <= s.len(),
        forall|i: int| 0 <= i < n ==> !class.has(#[trigger] s[i]),
        n < s.len() ==> class.has(s[n]),
    ensures
        gap_len(s, class) == n,
    decreases n,
{
    if n > 0 {
        let t = s.skip(1);
        assert forall|i: int| 0 <= i < n - 1 implies !class.has(#[trigger] t[i]) by {
            assert(t[i] == s[i + 1]);
        }
        lemma_gap_len(t, class, n - 1);
    }
}

/// What `run_len` measures: it stays inside `s`, covers characters of the
/// class only, and stops at the end or before a character outside the class.
pub proof fn lemma_run_len_bounds(s: Seq<char>, class: CharClass)
    ensures
        run_len(s, class) <= s.len(),
        forall|i: int| 0 <= i < run_len(s, class) ==> class.has(#[trigger] s[i]),
        run_len(s, class) < s.len() ==> !class.has(s[run_len(s, class) as int]),
    decreases s.len(),
{
    if s.len() > 0 && class.has(s[0]) {
        let t = s.skip(1);
        lemma_run_len_bounds(t, class);
        assert forall|i: int| 0 <= i < run_len(s, class) implies class.has(#[trigger] s[i]) by {
            if i > 0 {
                assert(s[i] == t[i - 1]);
            }
        }
        if run_len(s, class) < s.len() {
            assert(s[run_len(s, class) as int] == t[run_len(t, class) as int]);
        }
    }
}

/// What `gap_len` measures: it stays inside `s`, covers characters outside
/// the class only, and stops at the end or before a character of the class.
pub proof fn lemma_gap_len_bounds(s: Seq<char>, class: CharClass)
    ensures
        gap_len(s, class) <= s.len(),
        forall|i: int| 0 <= i < gap_len(s, class) ==> !class.has(#[trigger] s[i]),
        gap_len(s, class) < s.len() ==> class.has(s[gap_len(s, class) as int]),
    decreases s.len(),
{
    if s.len() > 0 && !class.has(s[0]) {
        let t = s.skip(1);
        lemma_gap_len_bounds(t, class);
        assert forall|i: int| 0 <= i < gap_len(s, class) implies !class.has(#[trigger] s[i]) by {
            if i > 0 {
                assert(s[i] == t[i - 1]);
            }
        }
        if gap_len(s, class) < s.len() {
            assert(s[gap_len(s, class) as int] == t[gap_len(t, class) as int]);
        }
    }
}

/// Measures the run of characters of `class` that starts at `from`.
pub fn scan_run(s: &[char], from: usize, class: CharClass) -> (end: usize)
    requires
        from <= s.len(),
    ensures
        end == from + run_len(s@.skip(from as int), class),
        from <= end <= s.len(),
{
    let mut end: usize = from;
    while end < s.len() && class.contains(s[end])
        invariant
            from <= end <= s.len(),
            forall|i: int| from <= i < end ==> class.has(#[trigger] s@[i]),
        decreases s.len() - end,
    {
        end += 1;
    }
    proof {
        lemma_run_len(s@.skip(from as int), class, end - from);
    }
    end
}

/// Measures the gap without characters of `class` that starts at `from`.
pub fn scan_gap(s: &[char], from: usize, class: CharClass) -> (end: usize)
    requires
        from <= s.len(),
    ensures
        end == from + gap_len(s@.skip(from as int), class),
        from <= end <= s.len(),
{
    let mut end: usize = from;
    while end < s.len() && !class.contains(s[end])
        invariant
            from <= end <= s.len(),
            forall|i: int| from <= i < end ==> !class.has(#[trigger] s@[i]),
        decreases s.len() - end,
    {
        end += 1;
    }
    proof {
        lemma_gap_len(s@.skip(from as int), class, end - from);
    }
    end
}

} // verus!
