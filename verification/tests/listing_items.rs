use webtoon_source::{
    manga_page, parse_chapter_item, parse_manga_item, Chapter, ChapterItem, ContentRating,
    ListingItem, Manga, MangaStatus, Viewer,
};

fn s(text: &str) -> Option<String> {
    Some(String::from(text))
}

fn full_item() -> ListingItem {
    ListingItem {
        href: s("https://www.webtoons.com/zh-hant/fantasy/orv/list?title_no=2089"),
        title_no: s("2089"),
        title: s("全知讀者視角"),
        cover: s("https://cdn.example/cover.jpg"),
        author: s("SING N SONG / UMI / Sleepy-C"),
        genre: s("奇幻冒險"),
    }
}

#[test]
fn manga_item_with_everything() {
    assert_eq!(
        parse_manga_item(&full_item()),
        Some(Manga {
            key: String::from("2089"),
            title: String::from("全知讀者視角"),
            cover: s("https://cdn.example/cover.jpg"),
            authors: Some(vec![
                String::from("SING N SONG"),
                String::from("UMI"),
                String::from("Sleepy-C")
            ]),
            description: None,
            url: s("https://www.webtoons.com/zh-hant/fantasy/orv/list?title_no=2089"),
            tags: Some(vec![String::from("奇幻冒險")]),
            status: MangaStatus::Unknown,
            content_rating: ContentRating::Unknown,
            viewer: Viewer::Webtoon,
            chapters: None,
        })
    );
}

#[test]
fn manga_item_without_a_title_is_none() {
    let item = ListingItem { title: None, ..full_item() };
    assert_eq!(parse_manga_item(&item), None);
    let item = ListingItem { title: s(""), ..full_item() };
    assert_eq!(parse_manga_item(&item), None);
}

#[test]
fn manga_item_without_a_link_keeps_its_data_number() {
    let item = ListingItem { href: None, ..full_item() };
    let manga = parse_manga_item(&item).unwrap();
    assert_eq!(manga.key, "2089");
    assert_eq!(manga.title, "全知讀者視角");
    assert_eq!(manga.url, None);
    assert_eq!(manga, Manga { url: None, ..parse_manga_item(&full_item()).unwrap() });
}

#[test]
fn manga_item_without_a_link_and_without_a_data_number_is_none() {
    let item = ListingItem { href: None, title_no: None, ..full_item() };
    assert_eq!(parse_manga_item(&item), None);
}

#[test]
fn manga_item_data_number_goes_before_the_link() {
    let item = ListingItem {
        href: s("/list?title_no=111&x=1"),
        title_no: s("2089"),
        ..full_item()
    };
    assert_eq!(parse_manga_item(&item).unwrap().key, "2089");
}

#[test]
fn manga_item_falls_back_to_the_number_in_the_link() {
    let item = ListingItem { href: s("/list?title_no=111&x=1"), title_no: None, ..full_item() };
    let manga = parse_manga_item(&item).unwrap();
    assert_eq!(manga.key, "111");
    assert_eq!(manga.url, s("/list?title_no=111&x=1"));
}

#[test]
fn manga_item_without_any_number_is_none() {
    let item = ListingItem { href: s("/list?page=1"), title_no: None, ..full_item() };
    assert_eq!(parse_manga_item(&item), None);
}

#[test]
fn manga_item_without_authors_cover_or_genre() {
    let item = ListingItem { cover: None, author: None, genre: None, ..full_item() };
    let manga = parse_manga_item(&item).unwrap();
    assert_eq!(manga.cover, None);
    assert_eq!(manga.authors, None);
    assert_eq!(manga.tags, None);
    let item = ListingItem { author: s(" / / "), ..full_item() };
    assert_eq!(parse_manga_item(&item).unwrap().authors, None);
    let item = ListingItem { author: s(""), genre: s(""), ..full_item() };
    let manga = parse_manga_item(&item).unwrap();
    assert_eq!(manga.authors, None);
    assert_eq!(manga.tags, Some(vec![String::new()]));
}

#[test]
fn manga_page_keeps_the_items_that_show_a_title() {
    let items = vec![
        ListingItem { title_no: s("1"), ..full_item() },
        ListingItem { title: None, title_no: s("2"), ..full_item() },
        ListingItem { title_no: s("3"), ..full_item() },
        ListingItem { href: None, title_no: s("4"), ..full_item() },
        ListingItem { href: None, title_no: None, ..full_item() },
        ListingItem { href: s("/list?page=2"), title_no: None, ..full_item() },
    ];
    let page = manga_page(&items, true);
    let keys: Vec<&str> = page.entries.iter().map(|m| m.key.as_str()).collect();
    assert_eq!(keys, vec!["1", "3", "4"]);
    assert!(page.has_next_page);
    let page = manga_page(&Vec::new(), false);
    assert!(page.entries.is_empty());
    assert!(!page.has_next_page);
}

fn full_chapter_item() -> ChapterItem {
    ChapterItem {
        href: s("https://www.webtoons.com/zh-hant/x/y/ep/viewer?title_no=2089&episode_no=37"),
        title: s("第37話"),
        fallback_title: s("第37話 UP"),
        date: s("2026年2月22日"),
        thumbnail: s("https://cdn.example/37.jpg"),
        lock_marker: false,
        audio_marker: false,
    }
}

#[test]
fn chapter_item_with_everything() {
    assert_eq!(
        parse_chapter_item(&full_chapter_item()),
        Some(Chapter {
            key: String::from(
                "https://www.webtoons.com/zh-hant/x/y/ep/viewer?title_no=2089&episode_no=37"
            ),
            title: s("第37話"),
            chapter_number: Some(37),
            date_uploaded: Some(1771718400),
            url: None,
            thumbnail: s("https://cdn.example/37.jpg"),
            locked: false,
        })
    );
}

#[test]
fn chapter_item_without_a_link_is_none() {
    let item = ChapterItem { href: None, ..full_chapter_item() };
    assert_eq!(parse_chapter_item(&item), None);
}

#[test]
fn chapter_item_title_falls_back() {
    let item = ChapterItem { title: None, ..full_chapter_item() };
    assert_eq!(parse_chapter_item(&item).unwrap().title, s("第37話 UP"));
    let item = ChapterItem { title: None, fallback_title: None, ..full_chapter_item() };
    assert_eq!(parse_chapter_item(&item).unwrap().title, None);
}

#[test]
fn chapter_item_number_comes_from_the_link() {
    let item = ChapterItem { href: s("/viewer?episode_no=-4&title_no=1"), ..full_chapter_item() };
    assert_eq!(parse_chapter_item(&item).unwrap().chapter_number, Some(-4));
    let item = ChapterItem { href: s("/viewer?title_no=1"), ..full_chapter_item() };
    assert_eq!(parse_chapter_item(&item).unwrap().chapter_number, None);
    let item = ChapterItem { href: s("/viewer?episode_no=1.5"), ..full_chapter_item() };
    assert_eq!(parse_chapter_item(&item).unwrap().chapter_number, None);
    let item = ChapterItem { href: s("/viewer?episode_no=4294967297"), ..full_chapter_item() };
    assert_eq!(parse_chapter_item(&item).unwrap().chapter_number, None);
    let item = ChapterItem { href: s("/viewer?episode_no="), ..full_chapter_item() };
    assert_eq!(parse_chapter_item(&item).unwrap().chapter_number, None);
}

#[test]
fn chapter_item_date_that_is_no_date() {
    let item = ChapterItem { date: s("昨天"), ..full_chapter_item() };
    assert_eq!(parse_chapter_item(&item).unwrap().date_uploaded, None);
    let item = ChapterItem { date: None, ..full_chapter_item() };
    assert_eq!(parse_chapter_item(&item).unwrap().date_uploaded, None);
}

#[test]
fn chapter_item_is_locked_by_either_mark() {
    let item = ChapterItem { lock_marker: true, ..full_chapter_item() };
    assert!(parse_chapter_item(&item).unwrap().locked);
    let item = ChapterItem { audio_marker: true, ..full_chapter_item() };
    assert!(parse_chapter_item(&item).unwrap().locked);
    let item = ChapterItem { lock_marker: true, audio_marker: true, ..full_chapter_item() };
    assert!(parse_chapter_item(&item).unwrap().locked);
}
