use webtoon_source::number::{parse_i32, parse_i64, push_decimal, push_digits};
use webtoon_source::pieces::{name_list, trimmed};
use webtoon_source::search::{contains_chars, find, matches_at, without};
use webtoon_source::text::{
    append_chars, append_text, chars_of, copy_opt, is_text, same_chars, scan_gap, scan_run,
    string_of, CharClass,
};

fn chars(s: &str) -> Vec<char> {
    s.chars().collect()
}

const SAMPLES: [&str; 14] = [
    "",
    " ",
    "a",
    " a ",
    "\t\n leading",
    "trailing \u{3000}\u{a0}",
    "a/b/c",
    "/a//b/",
    " Kim , Lee / Park ,, ",
    "Writer Info 張三 / 李四 作家資訊",
    "WriterWriter Info Info",
    "aaa",
    "x=1&y=2&&z",
    "全知讀者視角\u{2028}",
];

#[test]
fn string_of_builds_what_chars_of_read() {
    for s in SAMPLES {
        assert_eq!(chars_of(s), chars(s));
        assert_eq!(string_of(&chars(s)), s);
    }
    assert_eq!(string_of(&['a', '愛', '\u{1F600}']), "a愛\u{1F600}");
}

#[test]
fn copy_opt_copies() {
    assert_eq!(copy_opt(&Some(String::from("語 x"))), Some(String::from("語 x")));
    assert_eq!(copy_opt(&None), None);
}

#[test]
fn append_adds_at_the_end() {
    let mut buf = chars("ab");
    append_chars(&mut buf, &chars("cd"));
    append_text(&mut buf, "語");
    append_chars(&mut buf, &[]);
    assert_eq!(buf, chars("abcd語"));
}

#[test]
fn same_chars_is_equality() {
    for a in SAMPLES {
        for b in SAMPLES {
            assert_eq!(same_chars(&chars(a), &chars(b)), a == b);
            assert_eq!(is_text(&chars(a), b), a == b);
        }
    }
}

#[test]
fn space_class_is_the_white_space_of_unicode() {
    for n in 0..=0x10ffffu32 {
        if let Some(c) = char::from_u32(n) {
            assert_eq!(CharClass::Space.contains(c), c.is_whitespace(), "{:x}", n);
            assert_eq!(CharClass::Digit.contains(c), c.is_ascii_digit(), "{:x}", n);
            assert_eq!(CharClass::Numeric.contains(c), c.is_ascii_digit() || c == '-', "{:x}", n);
        }
    }
    assert!(CharClass::Is('&').contains('&'));
    assert!(!CharClass::Is('&').contains('?'));
    assert!(CharClass::Either(',', '/').contains(','));
    assert!(CharClass::Either(',', '/').contains('/'));
    assert!(!CharClass::Either(',', '/').contains('.'));
}

#[test]
fn scan_run_and_gap_stop_where_the_class_changes() {
    let s = chars("12-3abc45");
    assert_eq!(scan_run(&s, 0, CharClass::Numeric), 4);
    assert_eq!(scan_run(&s, 0, CharClass::Digit), 2);
    assert_eq!(scan_run(&s, 4, CharClass::Digit), 4);
    assert_eq!(scan_gap(&s, 4, CharClass::Digit), 7);
    assert_eq!(scan_run(&s, 7, CharClass::Digit), 9);
    assert_eq!(scan_gap(&s, 0, CharClass::Is('z')), 9);
    assert_eq!(scan_gap(&s, 9, CharClass::Is('z')), 9);
    assert_eq!(scan_run(&s, 9, CharClass::Digit), 9);
}

#[test]
fn trimmed_is_trim() {
    for s in SAMPLES {
        assert_eq!(string_of(trimmed(&chars(s))), s.trim(), "{:?}", s);
    }
    assert_eq!(string_of(trimmed(&chars("\u{2003}\u{85}x y\u{1680}\u{205f}"))), "x y");
    assert_eq!(string_of(trimmed(&chars(" \t\r\n"))), "");
}

#[test]
fn name_list_is_split_trim_and_drop_empties() {
    for s in SAMPLES {
        let expected: Vec<String> = s
            .split('/')
            .map(|p| String::from(p.trim()))
            .filter(|p| !p.is_empty())
            .collect();
        assert_eq!(name_list(&chars(s), CharClass::Is('/')), expected, "{:?}", s);
        let expected: Vec<String> = s
            .split(',')
            .flat_map(|p| p.split('/'))
            .map(|p| String::from(p.trim()))
            .filter(|p| !p.is_empty())
            .collect();
        assert_eq!(name_list(&chars(s), CharClass::Either(',', '/')), expected, "{:?}", s);
    }
    assert_eq!(
        name_list(&chars(" Kim , Lee / Park ,, "), CharClass::Either(',', '/')),
        vec!["Kim", "Lee", "Park"]
    );
    assert_eq!(name_list(&chars("SING N SONG / UMI"), CharClass::Is('/')), vec!["SING N SONG", "UMI"]);
}

fn char_index(hay: &str, needle: &str) -> Option<usize> {
    hay.find(needle).map(|at| hay[..at].chars().count())
}

#[test]
fn find_is_the_leftmost_occurrence() {
    let needles = ["", "a", "aa", "/", "Info", "作家", "=", "&&", "zzz", " a "];
    for hay in SAMPLES {
        for needle in needles {
            assert_eq!(find(&chars(hay), &chars(needle)), char_index(hay, needle));
            assert_eq!(contains_chars(&chars(hay), &chars(needle)), hay.contains(needle));
        }
        assert_eq!(find(&chars(hay), &chars(hay)), Some(0));
    }
    assert_eq!(find(&chars("abcabc"), &chars("bc")), Some(1));
    assert_eq!(find(&chars("abcabc"), &chars("cb")), None);
    assert_eq!(find(&chars("ab"), &chars("abc")), None);
}

#[test]
fn matches_at_compares_in_place() {
    let hay = chars("abcabc");
    assert!(matches_at(&hay, &chars("abc"), 0));
    assert!(matches_at(&hay, &chars("abc"), 3));
    assert!(!matches_at(&hay, &chars("abc"), 1));
    assert!(!matches_at(&hay, &chars("abc"), 4));
    assert!(matches_at(&hay, &chars(""), 6));
    assert!(!matches_at(&hay, &chars(""), 7));
    assert!(!matches_at(&hay, &chars("c"), usize::MAX));
}

#[test]
fn without_is_replace_by_nothing() {
    let patterns = ["", "a", "aa", "/", "Writer Info", "作家資訊", "Info", " "];
    for s in SAMPLES {
        for p in patterns {
            assert_eq!(string_of(&without(&chars(s), &chars(p))), s.replace(p, ""), "{:?} {:?}", s, p);
        }
    }
    assert_eq!(string_of(&without(&chars("aaaa"), &chars("aa"))), "");
    assert_eq!(string_of(&without(&chars("aaa"), &chars("aa"))), "a");
    assert_eq!(string_of(&without(&chars("abab"), &chars("aba"))), "b");
}

const NUMBERS: [&str; 30] = [
    "",
    "0",
    "-0",
    "+0",
    "7",
    "007",
    "-",
    "+",
    "--1",
    "-+1",
    "+-1",
    "1-",
    "1-2",
    " 1",
    "1 ",
    "1a",
    "a1",
    "１２",
    "2147483647",
    "2147483648",
    "-2147483648",
    "-2147483649",
    "9223372036854775807",
    "9223372036854775808",
    "-9223372036854775808",
    "-9223372036854775809",
    "+9223372036854775807",
    "00000000000000000000000000000009",
    "99999999999999999999999999999999",
    "-99999999999999999999999999999999",
];

#[test]
fn parse_i64_is_the_parse_of_std() {
    for s in NUMBERS {
        assert_eq!(parse_i64(&chars(s)), s.parse::<i64>().ok(), "{:?}", s);
        assert_eq!(parse_i32(&chars(s)), s.parse::<i32>().ok(), "{:?}", s);
    }
}

#[test]
fn push_decimal_writes_what_parse_reads() {
    for n in [
        0i64,
        1,
        -1,
        9,
        10,
        11,
        -10,
        99,
        100,
        12345,
        -12345,
        2147483647,
        -2147483648,
        i64::MAX,
        i64::MIN,
        i64::MIN + 1,
    ] {
        let mut buf = chars("n=");
        push_decimal(&mut buf, n);
        assert_eq!(string_of(&buf), format!("n={}", n));
        assert_eq!(parse_i64(&buf[2..]), Some(n));
    }
    let mut buf = Vec::new();
    push_digits(&mut buf, u64::MAX);
    assert_eq!(string_of(&buf), "18446744073709551615");
}
