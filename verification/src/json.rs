//! The episode list of the mobile interface: fields looked up by their key
//! in the text of an object, and the objects of the list carved out by
//! counting braces.

use vstd::prelude::*;
use crate::model::{Chapter, ChapterView, chapter_views};
use crate::number::{decimal_text, i64_value, parse_i64, push_decimal};
use crate::search::{find, first_occurrence};
use crate::site::{BASE_URL, THUMB_CDN};
use crate::text::{
    CharClass,
    append_chars,
    chars_of,
    gap_len,
    opt_text,
    run_len,
    scan_gap,
    scan_run,
    string_of,
};

verus! {

/// What stands before the value of a text field: the key in quotes, a colon
/// and the quote that opens the value.
pub open spec fn str_key(key: Seq<char>) -> Seq<char> {
    seq!['"'] + key + seq!['"', ':', '"']
}

/// What stands before the value of a number field: the key in quotes and a
/// colon.
pub open spec fn num_key(key: Seq<char>) -> Seq<char> {
    seq!['"'] + key + seq!['"', ':']
}

/// The value of the text field `key` in `json`: what stands between the
/// leftmost `"key":"` and the next quote. None where the key or the closing
/// quote is missing.
pub open spec fn str_field(json: Seq<char>, key: Seq<char>) -> Option<Seq<char>> {
    match first_occurrence(json, str_key(key)) {
        Some(at) => {
            let rest = json.skip(at + str_key(key).len());
            let n = gap_len(rest, CharClass::Is('"'));
            if n < rest.len() {
                Some(rest.take(n as int))
            } else {
                None
            }
        },
        None => None,
    }
}

/// The digits and minus signs that follow the leftmost `"key":` in `json`,
/// after whatever else stands before the first of them.
pub open spec fn num_text(json: Seq<char>, key: Seq<char>) -> Option<Seq<char>> {
    match first_occurrence(json, num_key(key)) {
        Some(at) => {
            let rest = json.skip(at + num_key(key).len());
            let tail = rest.skip(gap_len(rest, CharClass::Numeric) as int);
            Some(tail.take(run_len(tail, CharClass::Numeric) as int))
        },
        None => None,
    }
}

/// The value of the number field `key` in `json`. None where the key is
/// missing or where what follows it writes no integer of 64 bits.
pub open spec fn num_field(json: Seq<char>, key: Seq<char>) -> Option<i64> {
    match num_text(json, key) {
        Some(text) => i64_value(text),
        None => None,
    }
}

/// Milliseconds as whole seconds, rounded toward zero.
pub open spec fn whole_seconds(ms: i64) -> i64 {
    if ms >= 0 {
        (ms / 1000) as i64
    } else {
        (-((-ms) / 1000)) as i64
    }
}

/// `n` cut to 32 bits: the integer from -2^31 up to 2^31 - 1 that differs
/// from `n` by a multiple of 2^32.
pub open spec fn cut_to_i32(n: int) -> i32 {
    ((n + 0x8000_0000) % 0x1_0000_0000 - 0x8000_0000) as i32
}

/// `path` behind `prefix`, where there is a path.
pub open spec fn prefixed(prefix: Seq<char>, path: Option<Seq<char>>) -> Option<Seq<char>> {
    match path {
        Some(path) => Some(prefix + path),
        None => None,
    }
}

/// The episode that the text of one object of the list describes. None where
/// the object has no episode number. The number is cut to 32 bits; the
/// viewer link and the thumbnail become full addresses; the key is the
/// viewer's address, or the number where the object has no viewer link.
pub open spec fn episode(obj: Seq<char>) -> Option<ChapterView> {
    match num_field(obj, "episodeNo"@) {
        Some(n) => {
            let number = cut_to_i32(n as int);
            let url = prefixed(BASE_URL@, str_field(obj, "viewerLink"@));
            Some(
                ChapterView {
                    key: match url {
                        Some(url) => url,
                        None => decimal_text(number as int),
                    },
                    title: str_field(obj, "episodeTitle"@),
                    chapter_number: Some(number),
                    date_uploaded: match num_field(obj, "exposureDateMillis"@) {
                        Some(ms) => Some(whole_seconds(ms)),
                        None => None,
                    },
                    url,
                    thumbnail: prefixed(THUMB_CDN@, str_field(obj, "thumbnail"@)),
                    locked: false,
                },
            )
        },
        None => None,
    }
}

/// The state of carving objects out of a list: how many braces are open
/// (below zero after a closing brace too many), where the object began that
/// is open now, the objects carved so far, and whether the bracket that
/// closes the list has come.
pub struct Carving {
    pub depth: int,
    pub start: int,
    pub objects: Seq<Seq<char>>,
    pub closed: bool,
}

/// Reads the character at `i`. A brace that opens at depth 0 begins an
/// object; the brace that brings the depth back to 0 ends it, and the object
/// is all from the one to the other. A closing bracket at depth 0 closes the
/// list, and nothing after it counts.
pub open spec fn carve_step(s: Seq<char>, state: Carving, i: int) -> Carving {
    if state.closed {
        state
    } else if s[i] == '{' {
        Carving {
            depth: state.depth + 1,
            start: if state.depth == 0 {
                i
            } else {
                state.start
            },
            ..state
        }
    } else if s[i] == '}' {
        if state.depth == 1 {
            Carving {
                depth: 0,
                objects: state.objects.push(s.subrange(state.start, i + 1)),
                ..state
            }
        } else {
            Carving { depth: state.depth - 1, ..state }
        }
    } else if s[i] == ']' && state.depth == 0 {
        Carving { closed: true, ..state }
    } else {
        state
    }
}

/// The state after the first `n` characters of `s`.
pub open spec fn carve(s: Seq<char>, n: int) -> Carving
    decreases n,
{
    if n <= 0 {
        Carving { depth: 0, start: 0, objects: Seq::empty(), closed: false }
    } else {
        carve_step(s, carve(s, n - 1), n - 1)
    }
}

/// The objects of the list that `s` begins with, in order.
pub open spec fn objects(s: Seq<char>) -> Seq<Seq<char>> {
    carve(s, s.len() as int).objects
}

/// The episodes that the objects describe, in the order of the objects,
/// without the objects that describe none.
pub open spec fn episodes_of(objects: Seq<Seq<char>>) -> Seq<ChapterView> {
    objects.filter_map(|obj: Seq<char>| episode(obj))
}

/// What marks the list of episodes in the answer of the mobile interface.
pub open spec fn list_key() -> Seq<char> {
    "\"episodeList\":["@
}

/// The episodes in the answer of the mobile interface, the last of the list
/// first. The list begins at the bracket that ends the leftmost
/// `"episodeList":[`; without that there are no episodes.
pub open spec fn episodes(body: Seq<char>) -> Seq<ChapterView> {
    match first_occurrence(body, list_key()) {
        Some(at) => episodes_of(objects(body.skip(at + 14))).reverse(),
        None => Seq::empty(),
    }
}

/// One object more adds its episode, if it describes one.
pub proof fn lemma_episodes_push(objects: Seq<Seq<char>>, obj: Seq<char>)
    ensures
        episodes_of(objects.push(obj)) == match episode(obj) {
            Some(chapter) => episodes_of(objects).push(chapter),
            None => episodes_of(objects),
        },
{
    assert(objects.push(obj).drop_last() == objects);
}

/// While the list is open, the depth stays within the number of characters
/// read, and an object is open exactly where the depth is above zero; its
/// start lies in what was read.
pub proof fn lemma_carve_bounds(s: Seq<char>, n: int)
    requires
        0 <= n <= s.len(),
    ensures
        -n <= carve(s, n).depth <= n,
        carve(s, n).depth > 0 ==> 0 <= carve(s, n).start < n,
    decreases n,
{
    if n > 0 {
        lemma_carve_bounds(s, n - 1);
    }
}

/// Once the bracket that closes the list has come at position `i`, nothing
/// that follows changes the objects.
pub proof fn lemma_carve_closed(s: Seq<char>, i: int, k: int)
    requires
        0 <= i <= k <= s.len(),
        i < s.len() ==> !carve(s, i).closed && carve(s, i).depth == 0 && s[i] == ']',
    ensures
        carve(s, k).objects == carve(s, i).objects,
        k > i ==> carve(s, k).closed,
    decreases k - i,
{
    if k > i {
        lemma_carve_closed(s, i, k - 1);
    }
}

/// Where every object describes an episode, there are as many episodes as
/// objects, each the episode of the object at its place.
pub proof fn lemma_every_object_an_episode(objs: Seq<Seq<char>>)
    requires
        forall|i: int| 0 <= i < objs.len() ==> episode(#[trigger] objs[i]) is Some,
    ensures
        episodes_of(objs).len() == objs.len(),
        forall|i: int|
            0 <= i < objs.len() ==> #[trigger] episodes_of(objs)[i] == episode(objs[i])->0,
    decreases objs.len(),
{
    if objs.len() > 0 {
        let init = objs.drop_last();
        lemma_every_object_an_episode(init);
        lemma_episodes_push(init, objs.last());
        assert(init.push(objs.last()) == objs);
    }
}

/// The braces opened less the braces closed among the first `k` characters
/// of `s`.
pub open spec fn brace_depth(s: Seq<char>, k: int) -> int
    decreases k,
{
    if k <= 0 {
        0
    } else if s[k - 1] == '{' {
        brace_depth(s, k - 1) + 1
    } else if s[k - 1] == '}' {
        brace_depth(s, k - 1) - 1
    } else {
        brace_depth(s, k - 1)
    }
}

/// Whether `obj` is the text of one object: it begins with a brace, and the
/// brace that closes the first one is its last character.
pub open spec fn is_object(obj: Seq<char>) -> bool {
    &&& obj.len() >= 2
    &&& obj[0] == '{'
    &&& brace_depth(obj, obj.len() as int) == 0
    &&& forall|k: int| 0 < k < obj.len() ==> #[trigger] brace_depth(obj, k) > 0
}

/// Whether `s` can stand between two objects of a list: it holds no brace
/// and no closing bracket.
pub open spec fn is_filler(s: Seq<char>) -> bool {
    forall|i: int| 0 <= i < s.len() ==> s[i] != '{' && s[i] != '}' && #[trigger] s[i] != ']'
}

/// The objects, one after another, with `sep` between each two of them.
pub open spec fn joined(objs: Seq<Seq<char>>, sep: Seq<char>) -> Seq<char>
    decreases objs.len(),
{
    if objs.len() == 0 {
        Seq::empty()
    } else if objs.len() == 1 {
        objs[0]
    } else {
        joined(objs.drop_last(), sep) + sep + objs.last()
    }
}

/// Filler at depth 0 changes nothing but the position.
pub proof fn lemma_carve_filler(s: Seq<char>, n: int, filler: Seq<char>)
    requires
        0 <= n,
        n + filler.len() <= s.len(),
        s.subrange(n, n + filler.len()) == filler,
        is_filler(filler),
        !carve(s, n).closed,
        carve(s, n).depth == 0,
    ensures
        carve(s, n + filler.len()).depth == 0,
        !carve(s, n + filler.len()).closed,
        carve(s, n + filler.len()).objects == carve(s, n).objects,
    decreases filler.len(),
{
    if filler.len() > 0 {
        let init = filler.drop_last();
        assert(s.subrange(n, n + init.len()) == init);
        assert forall|i: int| 0 <= i < init.len() implies init[i] != '{' && init[i] != '}'
            && #[trigger] init[i] != ']' by {
            assert(init[i] == filler[i]);
        }
        lemma_carve_filler(s, n, init);
        assert(s[n + filler.len() - 1] == filler[filler.len() - 1]);
    }
}

/// Inside an object that begins at depth 0, the depth is that of the
/// object's own braces, and the object stays open.
proof fn lemma_carve_inside(s: Seq<char>, n: int, obj: Seq<char>, k: int)
    requires
        0 <= n,
        n + obj.len() <= s.len(),
        s.subrange(n, n + obj.len()) == obj,
        is_object(obj),
        !carve(s, n).closed,
        carve(s, n).depth == 0,
        0 < k < obj.len(),
    ensures
        carve(s, n + k).depth == brace_depth(obj, k),
        carve(s, n + k).start == n,
        carve(s, n + k).objects == carve(s, n).objects,
        !carve(s, n + k).closed,
    decreases k,
{
    assert(s[n + k - 1] == obj[k - 1]);
    if k == 1 {
        assert(brace_depth(obj, 0) == 0);
    } else {
        lemma_carve_inside(s, n, obj, k - 1);
        assert(brace_depth(obj, k - 1) > 0);
        assert(brace_depth(obj, k) > 0);
    }
}

/// An object that begins at depth 0 is carved out whole, whatever braces and
/// brackets it holds inside.
pub proof fn lemma_carve_object(s: Seq<char>, n: int, obj: Seq<char>)
    requires
        0 <= n,
        n + obj.len() <= s.len(),
        s.subrange(n, n + obj.len()) == obj,
        is_object(obj),
        !carve(s, n).closed,
        carve(s, n).depth == 0,
    ensures
        carve(s, n + obj.len()).depth == 0,
        !carve(s, n + obj.len()).closed,
        carve(s, n + obj.len()).objects == carve(s, n).objects.push(obj),
{
    let last = obj.len() - 1;
    lemma_carve_inside(s, n, obj, last);
    assert(s[n + last] == obj[last]);
    assert(brace_depth(obj, last) > 0);
    assert(brace_depth(obj, last + 1) == 0);
}

/// After what may stand before the first object and the objects with their
/// separators, exactly the objects are carved, and the list is still open.
pub proof fn lemma_carve_joined(s: Seq<char>, lead: Seq<char>, objs: Seq<Seq<char>>, sep: Seq<char>)
    requires
        is_filler(lead),
        is_filler(sep),
        forall|i: int| 0 <= i < objs.len() ==> is_object(#[trigger] objs[i]),
        (lead + joined(objs, sep)).is_prefix_of(s),
    ensures
        carve(s, (lead.len() + joined(objs, sep).len()) as int).depth == 0,
        !carve(s, (lead.len() + joined(objs, sep).len()) as int).closed,
        carve(s, (lead.len() + joined(objs, sep).len()) as int).objects == objs,
    decreases objs.len(),
{
    let text = lead + joined(objs, sep);
    assert(text == s.subrange(0, text.len() as int));
    if objs.len() == 0 {
        assert(s.subrange(0, lead.len() as int) == lead);
        lemma_carve_filler(s, 0, lead);
    } else if objs.len() == 1 {
        assert(s.subrange(0, lead.len() as int) == lead);
        lemma_carve_filler(s, 0, lead);
        let n = lead.len() as int;
        assert(s.subrange(n, n + objs[0].len()) == objs[0]) by {
            assert(s.subrange(n, n + objs[0].len()) == text.subrange(n, n + objs[0].len()));
        }
        lemma_carve_object(s, n, objs[0]);
        assert(Seq::<Seq<char>>::empty().push(objs[0]) == objs);
    } else {
        let init = objs.drop_last();
        let before = lead + joined(init, sep);
        assert(before == text.subrange(0, before.len() as int));
        assert(before == s.subrange(0, before.len() as int));
        lemma_carve_joined(s, lead, init, sep);
        let n = before.len() as int;
        assert(s.subrange(n, n + sep.len()) == sep) by {
            assert(s.subrange(n, n + sep.len()) == text.subrange(n, n + sep.len()));
        }
        lemma_carve_filler(s, n, sep);
        let m = n + sep.len();
        assert(s.subrange(m, m + objs.last().len()) == objs.last()) by {
            assert(s.subrange(m, m + objs.last().len()) == text.subrange(
                m,
                m + objs.last().len(),
            ));
        }
        lemma_carve_object(s, m, objs.last());
        assert(init.push(objs.last()) == objs);
    }
}

/// A list of objects with a separator between each two of them, closed by
/// its bracket, gives exactly its objects, whatever follows the bracket.
pub proof fn lemma_objects_of_list(
    lead: Seq<char>,
    objs: Seq<Seq<char>>,
    sep: Seq<char>,
    tail: Seq<char>,
)
    requires
        is_filler(lead),
        is_filler(sep),
        forall|i: int| 0 <= i < objs.len() ==> is_object(#[trigger] objs[i]),
    ensures
        objects(lead + joined(objs, sep) + seq![']'] + tail) == objs,
{
    let s = lead + joined(objs, sep) + seq![']'] + tail;
    let n = (lead.len() + joined(objs, sep).len()) as int;
    assert((lead + joined(objs, sep)).is_prefix_of(s));
    lemma_carve_joined(s, lead, objs, sep);
    assert(s[n] == ']');
    lemma_carve_closed(s, n, s.len() as int);
}

/// The answer of the mobile interface whose list holds these objects gives
/// the episodes that the objects describe, the last object's first.
pub proof fn lemma_episodes_of_list(
    body: Seq<char>,
    at: int,
    objs: Seq<Seq<char>>,
    sep: Seq<char>,
    tail: Seq<char>,
)
    requires
        first_occurrence(body, list_key()) == Some(at),
        body.skip(at + 14) == seq!['['] + joined(objs, sep) + seq![']'] + tail,
        is_filler(sep),
        forall|i: int| 0 <= i < objs.len() ==> is_object(#[trigger] objs[i]),
    ensures
        episodes(body) == episodes_of(objs).reverse(),
{
    lemma_objects_of_list(seq!['['], objs, sep, tail);
}

/// The characters `"`, `key` and `tail`, one after another.
fn quoted(key: &str, tail: &str) -> (out: Vec<char>)
    ensures
        out@ == seq!['"'] + key@ + tail@,
{
    let mut out: Vec<char> = Vec::new();
    out.push('"');
    assert(out@ == seq!['"']);
    let k = chars_of(key);
    append_chars(&mut out, k.as_slice());
    let t = chars_of(tail);
    append_chars(&mut out, t.as_slice());
    out
}

/// Looks up the text field `key` in the text of an object.
pub fn json_str_value(json: &[char], key: &str) -> (value: Option<String>)
    ensures
        opt_text(value) == str_field(json@, key@),
{
    let search = quoted(key, "\":\"");
    proof {
        reveal_strlit("\":\"");
        assert("\":\""@ == seq!['"', ':', '"']);
    }
    match find(json, search.as_slice()) {
        Some(at) => {
            let start: usize = at + search.len();
            let end: usize = scan_gap(json, start, CharClass::Is('"'));
            if end < json.len() {
                assert(json@.skip(start as int).take(end - start) == json@.subrange(
                    start as int,
                    end as int,
                ));
                Some(string_of(&json[start..end]))
            } else {
                None
            }
        },
        None => None,
    }
}

/// Looks up the number field `key` in the text of an object.
pub fn json_num_value(json: &[char], key: &str) -> (value: Option<i64>)
    ensures
        value == num_field(json@, key@),
{
    let search = quoted(key, "\":");
    proof {
        reveal_strlit("\":");
        assert("\":"@ == seq!['"', ':']);
    }
    match find(json, search.as_slice()) {
        Some(at) => {
            let start: usize = at + search.len();
            let first: usize = scan_gap(json, start, CharClass::Numeric);
            let end: usize = scan_run(json, first, CharClass::Numeric);
            proof {
                let rest = json@.skip(start as int);
                assert(rest.skip(first - start) == json@.skip(first as int));
                assert(json@.skip(first as int).take(end - first) == json@.subrange(
                    first as int,
                    end as int,
                ));
            }
            parse_i64(&json[first..end])
        },
        None => None,
    }
}

/// `path` behind `prefix`, where there is a path.
fn with_prefix(prefix: &str, path: Option<String>) -> (full: Option<String>)
    ensures
        opt_text(full) == prefixed(prefix@, opt_text(path)),
{
    match path {
        Some(path) => {
            let mut out = chars_of(prefix);
            let p = chars_of(path.as_str());
            append_chars(&mut out, p.as_slice());
            Some(string_of(out.as_slice()))
        },
        None => None,
    }
}

/// Milliseconds as whole seconds, rounded toward zero.
fn seconds_of(ms: i64) -> (s: i64)
    ensures
        s == whole_seconds(ms),
{
    ms / 1000
}

/// Cuts `n` to 32 bits.
fn cut(n: i64) -> (m: i32)
    ensures
        m == cut_to_i32(n as int),
{
    let shifted: i128 = n as i128 + 0x8000_0000_0000_0000 + 0x8000_0000;
    ((shifted % 0x1_0000_0000) - 0x8000_0000) as i32
}

/// Reads the episode that the text of one object of the list describes.
pub fn parse_single_episode(obj: &[char]) -> (r: Option<Chapter>)
    ensures
        match r {
            Some(chapter) => episode(obj@) == Some(chapter@),
            None => episode(obj@) is None,
        },
{
    let n: i64 = match json_num_value(obj, "episodeNo") {
        Some(n) => n,
        None => {
            return None;
        },
    };
    let number: i32 = cut(n);
    let title = json_str_value(obj, "episodeTitle");
    let url = with_prefix(BASE_URL, json_str_value(obj, "viewerLink"));
    let thumbnail = with_prefix(THUMB_CDN, json_str_value(obj, "thumbnail"));
    let date_uploaded = match json_num_value(obj, "exposureDateMillis") {
        Some(ms) => Some(seconds_of(ms)),
        None => None,
    };
    let key = match &url {
        Some(url) => url.clone(),
        None => {
            let mut digits: Vec<char> = Vec::new();
            push_decimal(&mut digits, number as i64);
            assert(digits@ == decimal_text(number as int));
            string_of(digits.as_slice())
        },
    };
    Some(
        Chapter {
            key,
            title,
            chapter_number: Some(number),
            date_uploaded,
            url,
            thumbnail,
            locked: false,
        },
    )
}

/// The elements of `list`, the last one first.
pub fn reversed(list: Vec<Chapter>) -> (out: Vec<Chapter>)
    ensures
        out@ == list@.reverse(),
{
    let mut list = list;
    let ghost whole = list@;
    let mut out: Vec<Chapter> = Vec::new();
    while list.len() > 0
        invariant
            list@ == whole.take(list.len() as int),
            out.len() + list.len() == whole.len(),
            forall|i: int| 0 <= i < out.len() ==> out@[i] == whole[whole.len() - 1 - i],
        decreases list.len(),
    {
        let last = list.pop().unwrap();
        out.push(last);
    }
    assert(out@ =~= whole.reverse());
    out
}

/// Reads the list of episodes out of the answer of the mobile interface and
/// puts the last of the list first.
pub fn parse_episodes_json(body: &str) -> (chapters: Vec<Chapter>)
    ensures
        chapter_views(chapters@) == episodes(body@),
{
    let chars = chars_of(body);
    let key = chars_of("\"episodeList\":[");
    proof {
        reveal_strlit("\"episodeList\":[");
    }
    let from: usize = match find(chars.as_slice(), key.as_slice()) {
        Some(at) => at + 14,
        None => {
            assert(chapter_views(Seq::<Chapter>::empty()) == Seq::<ChapterView>::empty());
            return Vec::new();
        },
    };
    let list = &chars.as_slice()[from..chars.len()];
    let mut found: Vec<Chapter> = Vec::new();
    let mut depth: i128 = 0;
    let mut start: usize = 0;
    let mut i: usize = 0;
    assert(chapter_views(found@) == episodes_of(Seq::empty()));
    while i < list.len() && !(depth == 0 && list[i] == ']')
        invariant
            i <= list.len(),
            !carve(list@, i as int).closed,
            depth == carve(list@, i as int).depth,
            depth > 0 ==> start == carve(list@, i as int).start,
            chapter_views(found@) == episodes_of(carve(list@, i as int).objects),
        decreases list.len() - i,
    {
        proof {
            lemma_carve_bounds(list@, i as int);
        }
        let c = list[i];
        if c == '{' {
            if depth == 0 {
                start = i;
            }
            depth += 1;
        } else if c == '}' {
            if depth == 1 {
                let obj = &list[start..i + 1];
                let ghost before = carve(list@, i as int).objects;
                let ghost views = chapter_views(found@);
                proof {
                    lemma_episodes_push(before, obj@);
                }
                match parse_single_episode(obj) {
                    Some(chapter) => {
                        found.push(chapter);
                        assert(chapter_views(found@) == views.push(chapter@));
                    },
                    None => {},
                }
            }
            depth -= 1;
        }
        i += 1;
    }
    proof {
        let n = list.len() as int;
        assert forall|k: int| i <= k <= n implies #[trigger] carve(list@, k).objects == carve(
            list@,
            i as int,
        ).objects && (k > i ==> carve(list@, k).closed) by {
            lemma_carve_closed(list@, i as int, k);
        }
        assert(carve(list@, n).objects == carve(list@, i as int).objects);
        assert(list@ == body@.skip(from as int));
    }
    let out = reversed(found);
    proof {
        assert(chapter_views(out@) == chapter_views(found@).reverse());
    }
    out
}

} // verus!
