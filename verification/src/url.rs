//! Query parameters of a link.

use vstd::prelude::*;
use crate::search::{
    contains,
    find,
    first_occurrence,
    is_first_occurrence,
    lemma_first_occurrence_is,
};
use crate::text::{
    CharClass,
    chars_of,
    gap_len,
    lemma_gap_len_bounds,
    opt_text,
    scan_gap,
    string_of,
};

verus! {

/// The value that follows the leftmost occurrence of `key` in `url`: the
/// characters after the key up to the next `&`, or up to the end of `url`
/// where no `&` follows. None where `key` does not occur.
pub open spec fn param_value(url: Seq<char>, key: Seq<char>) -> Option<Seq<char>> {
    match first_occurrence(url, key) {
        Some(at) => {
            let rest = url.skip(at + key.len());
            Some(rest.take(gap_len(rest, CharClass::Is('&')) as int))
        },
        None => None,
    }
}

/// The value of the parameter `title_no` in `url`.
pub open spec fn title_no(url: Seq<char>) -> Option<Seq<char>> {
    param_value(url, "title_no="@)
}

/// The value of the parameter `episode_no` in `url`.
pub open spec fn episode_no(url: Seq<char>) -> Option<Seq<char>> {
    param_value(url, "episode_no="@)
}

/// A link in which the key does not occur gives no value.
pub proof fn lemma_absent_key(url: Seq<char>, key: Seq<char>)
    requires
        !contains(url, key),
    ensures
        param_value(url, key) is None,
{
}

/// Where the key occurs, the value is what follows its leftmost occurrence:
/// it holds no `&`, and it ends at the first `&` that follows the key or,
/// where none follows, at the end of the link.
pub proof fn lemma_value_after_key(url: Seq<char>, key: Seq<char>, at: int)
    requires
        is_first_occurrence(url, key, at),
    ensures
        param_value(url, key) is Some,
        ({
            let value = param_value(url, key)->0;
            let rest = url.skip(at + key.len());
            &&& value.is_prefix_of(rest)
            &&& !value.contains('&')
            &&& value.len() < rest.len() ==> rest[value.len() as int] == '&'
            &&& !rest.contains('&') ==> value == rest
        }),
{
    lemma_first_occurrence_is(url, key, at);
    let rest = url.skip(at + key.len());
    lemma_gap_len_bounds(rest, CharClass::Is('&'));
    let value = rest.take(gap_len(rest, CharClass::Is('&')) as int);
    assert forall|i: int| 0 <= i < value.len() implies value[i] != '&' by {
        assert(value[i] == rest[i]);
    }
    if !rest.contains('&') {
        if value.len() < rest.len() {
            assert(rest[value.len() as int] == '&');
        }
        assert(value == rest);
    }
}

/// Extracts the value that follows the leftmost occurrence of `key`.
pub fn extract_param(url: &[char], key: &[char]) -> (value: Option<String>)
    ensures
        opt_text(value) == param_value(url@, key@),
{
    match find(url, key) {
        Some(at) => {
            let start: usize = at + key.len();
            let end: usize = scan_gap(url, start, CharClass::Is('&'));
            assert(url@.skip(start as int).take(end - start) == url@.subrange(
                start as int,
                end as int,
            ));
            Some(string_of(&url[start..end]))
        },
        None => None,
    }
}

/// Extracts the title number from a link.
pub fn extract_title_no(url: &str) -> (value: Option<String>)
    ensures
        opt_text(value) == title_no(url@),
{
    let chars = chars_of(url);
    let key = chars_of("title_no=");
    extract_param(chars.as_slice(), key.as_slice())
}

/// Extracts the episode number, as it is written, from a link.
pub fn extract_episode_no(url: &str) -> (value: Option<String>)
    ensures
        opt_text(value) == episode_no(url@),
{
    let chars = chars_of(url);
    let key = chars_of("episode_no=");
    extract_param(chars.as_slice(), key.as_slice())
}

} // verus!
