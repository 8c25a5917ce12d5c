use webtoon_source::detail::parse_authors;
use webtoon_source::{
    apply_details, detail_url, episodes_url, with_chapters, ContentRating, DetailPage, Found,
    Manga, MangaStatus, Viewer,
};

fn s(text: &str) -> Option<String> {
    Some(String::from(text))
}

fn listed() -> Manga {
    Manga {
        key: String::from("2089"),
        title: String::from("舊標題"),
        cover: s("https://cdn.example/listing.jpg"),
        authors: Some(vec![String::from("甲")]),
        description: s("舊簡介"),
        url: s("https://www.webtoons.com/zh-hant/fantasy/orv/list?title_no=2089"),
        tags: Some(vec![String::from("劇情")]),
        status: MangaStatus::Unknown,
        content_rating: ContentRating::Unknown,
        viewer: Viewer::Unknown,
        chapters: None,
    }
}

fn blank_page() -> DetailPage {
    DetailPage {
        heading: Found::Missing,
        subject: Found::Missing,
        author_area: None,
        summary_paragraph: Found::Missing,
        summary: Found::Missing,
        genre: None,
        cover: None,
        completed: false,
    }
}

fn text(t: &str) -> Found {
    Found::Text(String::from(t))
}

#[test]
fn details_replace_what_the_page_gives() {
    let page = DetailPage {
        heading: text("全知讀者視角"),
        subject: text("別的"),
        author_area: s("SING N SONG, UMI / Sleepy-C 作家資訊"),
        summary_paragraph: text("只有我知道結局"),
        summary: text("別的"),
        genre: s("奇幻冒險"),
        cover: s("https://cdn.example/og.jpg"),
        completed: true,
    };
    assert_eq!(
        apply_details(listed(), &page),
        Manga {
            key: String::from("2089"),
            title: String::from("全知讀者視角"),
            cover: s("https://cdn.example/og.jpg"),
            authors: Some(vec![
                String::from("SING N SONG"),
                String::from("UMI"),
                String::from("Sleepy-C")
            ]),
            description: s("只有我知道結局"),
            url: s("https://www.webtoons.com/zh-hant/fantasy/orv/list?title_no=2089"),
            tags: Some(vec![String::from("奇幻冒險")]),
            status: MangaStatus::Completed,
            content_rating: ContentRating::Safe,
            viewer: Viewer::Webtoon,
            chapters: None,
        }
    );
}

#[test]
fn details_of_a_blank_page_keep_the_record() {
    let after = apply_details(listed(), &blank_page());
    assert_eq!(
        after,
        Manga {
            status: MangaStatus::Ongoing,
            content_rating: ContentRating::Safe,
            viewer: Viewer::Webtoon,
            ..listed()
        }
    );
}

#[test]
fn details_title_falls_back_only_where_the_heading_is_missing() {
    let page = DetailPage { heading: Found::Missing, subject: text("次"), ..blank_page() };
    assert_eq!(apply_details(listed(), &page).title, "次");
    let page = DetailPage { heading: Found::Blank, subject: text("次"), ..blank_page() };
    assert_eq!(apply_details(listed(), &page).title, "舊標題");
    let page = DetailPage { heading: Found::Missing, subject: Found::Blank, ..blank_page() };
    assert_eq!(apply_details(listed(), &page).title, "舊標題");
    let page = DetailPage { heading: text(""), subject: text("次"), ..blank_page() };
    assert_eq!(apply_details(listed(), &page).title, "");
}

#[test]
fn details_summary_falls_back_only_where_the_paragraph_is_missing() {
    let page = DetailPage { summary: text("次"), ..blank_page() };
    assert_eq!(apply_details(listed(), &page).description, s("次"));
    let page =
        DetailPage { summary_paragraph: Found::Blank, summary: text("次"), ..blank_page() };
    assert_eq!(apply_details(listed(), &page).description, s("舊簡介"));
}

#[test]
fn details_cover_of_the_page_replaces_the_one_of_the_record() {
    let page = DetailPage { cover: s("https://cdn.example/og.jpg"), ..blank_page() };
    assert_eq!(apply_details(listed(), &page).cover, s("https://cdn.example/og.jpg"));
    let bare = Manga { cover: None, ..listed() };
    assert_eq!(apply_details(bare.clone(), &page).cover, s("https://cdn.example/og.jpg"));
    assert_eq!(apply_details(bare, &blank_page()).cover, None);
}

#[test]
fn details_cover_stays_where_the_page_names_none() {
    assert_eq!(
        apply_details(listed(), &blank_page()).cover,
        s("https://cdn.example/listing.jpg")
    );
}

#[test]
fn details_authors_stay_where_the_area_names_none() {
    let page = DetailPage { author_area: s(" Writer Info , / "), ..blank_page() };
    assert_eq!(apply_details(listed(), &page).authors, Some(vec![String::from("甲")]));
}

#[test]
fn authors_are_cut_at_commas_and_slashes() {
    assert_eq!(parse_authors("Kim, Lee / Park Writer Info"), vec!["Kim", "Lee", "Park"]);
    assert_eq!(parse_authors("作家資訊 張三"), vec!["張三"]);
    assert_eq!(parse_authors("Writer InfoWriter Info"), Vec::<String>::new());
    assert_eq!(parse_authors("WriWriter Infoter Info"), vec!["Writer Info"]);
    assert_eq!(parse_authors("a,b/c,,d//e"), vec!["a", "b", "c", "d", "e"]);
}

#[test]
fn detail_url_is_the_link_or_the_page_of_the_number() {
    assert_eq!(
        detail_url(&listed()),
        "https://www.webtoons.com/zh-hant/fantasy/orv/list?title_no=2089"
    );
    let bare = Manga { url: None, ..listed() };
    assert_eq!(
        detail_url(&bare),
        "https://www.webtoons.com/zh-hant/originals/a/list?title_no=2089"
    );
}

#[test]
fn episodes_url_asks_for_all_at_once() {
    assert_eq!(
        episodes_url("2089"),
        "https://m.webtoons.com/api/v1/webtoon/2089/episodes?pageSize=99999"
    );
}

#[test]
fn chapters_are_put_into_the_record() {
    let body = "{\"result\":{\"episodeList\":[{\"episodeNo\":1},{\"episodeNo\":2}]}}";
    let after = with_chapters(listed(), body);
    let numbers: Vec<Option<i32>> =
        after.chapters.as_ref().unwrap().iter().map(|c| c.chapter_number).collect();
    assert_eq!(numbers, vec![Some(2), Some(1)]);
    assert_eq!(Manga { chapters: None, ..after }, listed());
    assert_eq!(with_chapters(listed(), "").chapters, Some(Vec::new()));
}
