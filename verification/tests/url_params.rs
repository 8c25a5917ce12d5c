use webtoon_source::url::{extract_episode_no, extract_title_no};

#[test]
fn title_no_before_another_parameter() {
    assert_eq!(
        extract_title_no("https://www.webtoons.com/zh-hant/fantasy/x/list?title_no=2089&x=1"),
        Some(String::from("2089"))
    );
}

#[test]
fn title_no_absent() {
    assert_eq!(extract_title_no("https://www.webtoons.com/zh-hant/fantasy/x/list?page=2"), None);
}

#[test]
fn title_no_runs_to_the_end() {
    assert_eq!(
        extract_title_no("https://www.webtoons.com/zh-hant/x/list?page=2&title_no=77"),
        Some(String::from("77"))
    );
}

#[test]
fn episode_no_is_read_as_written() {
    assert_eq!(
        extract_episode_no("/viewer?title_no=5&episode_no=012&x"),
        Some(String::from("012"))
    );
}
