use webtoon_source::json::{json_num_value, json_str_value, reversed};
use webtoon_source::{parse_episodes_json, parse_single_episode, Chapter};

fn chars(s: &str) -> Vec<char> {
    s.chars().collect()
}

fn chapter(number: i32, title: &str, link: &str, thumb: &str, seconds: i64) -> Chapter {
    Chapter {
        key: format!("https://www.webtoons.com{}", link),
        title: Some(String::from(title)),
        chapter_number: Some(number),
        date_uploaded: Some(seconds),
        url: Some(format!("https://www.webtoons.com{}", link)),
        thumbnail: Some(format!("https://webtoon-phinf.pstatic.net{}", thumb)),
        locked: false,
    }
}

const BODY: &str = "{\"result\":{\"episodeList\":[{\"episodeNo\":1,\"episodeTitle\":\"第1話\",\"viewerLink\":\"/zh-hant/fantasy/x/ep1/viewer?title_no=2089&episode_no=1\",\"thumbnail\":\"/2089/1.jpg\",\"exposureDateMillis\":1700000000123},{\"episodeNo\":2,\"episodeTitle\":\"第2話\",\"viewerLink\":\"/zh-hant/fantasy/x/ep2/viewer?title_no=2089&episode_no=2\",\"thumbnail\":\"/2089/2.jpg\",\"exposureDateMillis\":1700600000999},{\"episodeNo\":3,\"episodeTitle\":\"第3話\",\"viewerLink\":\"/zh-hant/fantasy/x/ep3/viewer?title_no=2089&episode_no=3\",\"thumbnail\":\"/2089/3.jpg\",\"exposureDateMillis\":1701200000000}]},\"success\":true}";

#[test]
fn three_episodes_come_out_newest_first() {
    let chapters = parse_episodes_json(BODY);
    assert_eq!(
        chapters,
        vec![
            chapter(
                3,
                "第3話",
                "/zh-hant/fantasy/x/ep3/viewer?title_no=2089&episode_no=3",
                "/2089/3.jpg",
                1701200000
            ),
            chapter(
                2,
                "第2話",
                "/zh-hant/fantasy/x/ep2/viewer?title_no=2089&episode_no=2",
                "/2089/2.jpg",
                1700600000
            ),
            chapter(
                1,
                "第1話",
                "/zh-hant/fantasy/x/ep1/viewer?title_no=2089&episode_no=1",
                "/2089/1.jpg",
                1700000000
            ),
        ]
    );
}

#[test]
fn body_without_the_list_has_no_episodes() {
    assert_eq!(parse_episodes_json(""), Vec::<Chapter>::new());
    assert_eq!(parse_episodes_json("{\"success\":false}"), Vec::<Chapter>::new());
    assert_eq!(
        parse_episodes_json("{\"episodeList\": [{\"episodeNo\":1}]}"),
        Vec::<Chapter>::new()
    );
    assert_eq!(parse_episodes_json("{\"episodeList\":[]}"), Vec::<Chapter>::new());
}

#[test]
fn list_ends_at_the_first_bracket_outside_an_object() {
    let body = "\"episodeList\":[{\"episodeNo\":1},{\"episodeNo\":2}],\"other\":[{\"episodeNo\":3}]";
    let numbers: Vec<Option<i32>> =
        parse_episodes_json(body).iter().map(|c| c.chapter_number).collect();
    assert_eq!(numbers, vec![Some(2), Some(1)]);
}

#[test]
fn nested_braces_stay_inside_their_object() {
    let body = "\"episodeList\":[{\"episodeNo\":7,\"extra\":{\"a\":[1,2],\"b\":{}}},{\"episodeNo\":8}]";
    let chapters = parse_episodes_json(body);
    let numbers: Vec<Option<i32>> = chapters.iter().map(|c| c.chapter_number).collect();
    assert_eq!(numbers, vec![Some(8), Some(7)]);
    assert_eq!(chapters[1].key, "7");
    assert_eq!(chapters[1].url, None);
}

#[test]
fn object_without_a_number_is_left_out() {
    let body = "\"episodeList\":[{\"episodeNo\":1},{\"episodeTitle\":\"x\"},{\"episodeNo\":3}]";
    let numbers: Vec<Option<i32>> =
        parse_episodes_json(body).iter().map(|c| c.chapter_number).collect();
    assert_eq!(numbers, vec![Some(3), Some(1)]);
}

#[test]
fn closing_brace_too_many_hides_the_next_object() {
    let body = "\"episodeList\":[}{\"episodeNo\":1}{\"episodeNo\":2}]";
    assert_eq!(parse_episodes_json(body), Vec::<Chapter>::new());
    let body = "\"episodeList\":[}{{\"episodeNo\":1}{\"episodeNo\":2}]";
    let numbers: Vec<Option<i32>> =
        parse_episodes_json(body).iter().map(|c| c.chapter_number).collect();
    assert_eq!(numbers, vec![Some(2), Some(1)]);
}

#[test]
fn unclosed_object_yields_nothing() {
    let body = "\"episodeList\":[{\"episodeNo\":1},{\"episodeNo\":2";
    let numbers: Vec<Option<i32>> =
        parse_episodes_json(body).iter().map(|c| c.chapter_number).collect();
    assert_eq!(numbers, vec![Some(1)]);
}

#[test]
fn single_episode_with_all_fields() {
    let obj = chars("{\"episodeNo\":12,\"episodeTitle\":\"終章\",\"viewerLink\":\"/v?e=12\",\"thumbnail\":\"/t/12.png\",\"exposureDateMillis\":1999}");
    assert_eq!(parse_single_episode(&obj), Some(chapter(12, "終章", "/v?e=12", "/t/12.png", 1)));
}

#[test]
fn single_episode_with_the_number_only() {
    let obj = chars("{\"episodeNo\":-45}");
    assert_eq!(
        parse_single_episode(&obj),
        Some(Chapter {
            key: String::from("-45"),
            title: None,
            chapter_number: Some(-45),
            date_uploaded: None,
            url: None,
            thumbnail: None,
            locked: false,
        })
    );
    assert_eq!(parse_single_episode(&chars("{\"episodeNo\":0}")).unwrap().key, "0");
    assert_eq!(
        parse_single_episode(&chars("{\"episodeNo\":2147483647}")).unwrap().key,
        "2147483647"
    );
}

#[test]
fn single_episode_without_a_number_is_none() {
    assert_eq!(parse_single_episode(&chars("{}")), None);
    assert_eq!(parse_single_episode(&chars("{\"episodeNo\":\"x\"}")), None);
    assert_eq!(parse_single_episode(&chars("{\"episodeNo\":--1}")), None);
    assert_eq!(parse_single_episode(&chars("{\"episodeTitle\":\"a\",\"viewerLink\":\"/v\"}")), None);
}

#[test]
fn episode_number_is_cut_to_32_bits() {
    let c = parse_single_episode(&chars("{\"episodeNo\":4294967297}")).unwrap();
    assert_eq!(c.chapter_number, Some(1));
    assert_eq!(c.key, "1");
    let c = parse_single_episode(&chars("{\"episodeNo\":2147483648}")).unwrap();
    assert_eq!(c.chapter_number, Some(-2147483648));
    assert_eq!(c.key, "-2147483648");
}

#[test]
fn milliseconds_round_toward_zero() {
    let c = parse_single_episode(&chars("{\"episodeNo\":1,\"exposureDateMillis\":-1999}")).unwrap();
    assert_eq!(c.date_uploaded, Some(-1));
    let c = parse_single_episode(&chars("{\"episodeNo\":1,\"exposureDateMillis\":-999}")).unwrap();
    assert_eq!(c.date_uploaded, Some(0));
    let c = parse_single_episode(&chars("{\"episodeNo\":1,\"exposureDateMillis\":999}")).unwrap();
    assert_eq!(c.date_uploaded, Some(0));
    let c = parse_single_episode(&chars("{\"episodeNo\":1,\"exposureDateMillis\":1000}")).unwrap();
    assert_eq!(c.date_uploaded, Some(1));
}

#[test]
fn str_value_is_what_stands_between_the_quotes() {
    let json = chars("{\"a\":\"one\",\"b\":\"\",\"c\":\"open");
    assert_eq!(json_str_value(&json, "a"), Some(String::from("one")));
    assert_eq!(json_str_value(&json, "b"), Some(String::new()));
    assert_eq!(json_str_value(&json, "c"), None);
    assert_eq!(json_str_value(&json, "d"), None);
    assert_eq!(json_str_value(&chars("{\"a\": \"one\"}"), "a"), None);
    assert_eq!(
        json_str_value(&chars("{\"a\":\"x\",\"a\":\"y\"}"), "a"),
        Some(String::from("x"))
    );
}

#[test]
fn num_value_skips_to_the_first_digit_or_minus() {
    assert_eq!(json_num_value(&chars("{\"n\":42}"), "n"), Some(42));
    assert_eq!(json_num_value(&chars("{\"n\": 42 }"), "n"), Some(42));
    assert_eq!(json_num_value(&chars("{\"n\":\"42\"}"), "n"), Some(42));
    assert_eq!(json_num_value(&chars("{\"n\":-42,\"m\":1}"), "n"), Some(-42));
    assert_eq!(json_num_value(&chars("{\"n\":null,\"m\":17}"), "n"), Some(17));
    assert_eq!(json_num_value(&chars("{\"n\":4-2}"), "n"), None);
    assert_eq!(json_num_value(&chars("{\"n\":-}"), "n"), None);
    assert_eq!(json_num_value(&chars("{\"n\":}"), "n"), None);
    assert_eq!(json_num_value(&chars("{\"m\":1}"), "n"), None);
    assert_eq!(json_num_value(&chars("{\"n\":1.5}"), "n"), Some(1));
    assert_eq!(
        json_num_value(&chars("{\"n\":9223372036854775807}"), "n"),
        Some(i64::MAX)
    );
    assert_eq!(
        json_num_value(&chars("{\"n\":-9223372036854775808}"), "n"),
        Some(i64::MIN)
    );
    assert_eq!(json_num_value(&chars("{\"n\":9223372036854775808}"), "n"), None);
}

#[test]
fn reversed_puts_the_last_first() {
    let a = parse_single_episode(&chars("{\"episodeNo\":1}")).unwrap();
    let b = parse_single_episode(&chars("{\"episodeNo\":2}")).unwrap();
    let c = parse_single_episode(&chars("{\"episodeNo\":3}")).unwrap();
    assert_eq!(
        reversed(vec![a.clone(), b.clone(), c.clone()]),
        vec![c.clone(), b.clone(), a.clone()]
    );
    assert_eq!(reversed(vec![]), Vec::<Chapter>::new());
    assert_eq!(reversed(vec![a.clone()]), vec![a]);
}
