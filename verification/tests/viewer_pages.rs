use webtoon_source::pages::{is_placeholder_url, page_url};
use webtoon_source::{image_selector, page_list, viewer_url, Chapter, ImageNode};

fn s(text: &str) -> Option<String> {
    Some(String::from(text))
}

fn image(data_url: Option<&str>, src: Option<&str>) -> ImageNode {
    ImageNode { data_url: data_url.map(String::from), src: src.map(String::from) }
}

#[test]
fn loading_image_is_left_out() {
    let images = vec![
        image(Some("https://cdn.example/1.jpg"), None),
        image(Some("https://cdn.example/loading.gif"), None),
        image(None, Some("https://cdn.example/2.jpg")),
    ];
    assert_eq!(page_list(&images), vec!["https://cdn.example/1.jpg", "https://cdn.example/2.jpg"]);
}

#[test]
fn data_url_goes_before_src() {
    let images = vec![image(Some("https://cdn.example/real.jpg"), Some("https://cdn.example/thumb.jpg"))];
    assert_eq!(page_list(&images), vec!["https://cdn.example/real.jpg"]);
    assert_eq!(
        page_url(&image(Some("https://cdn.example/real.jpg"), Some("https://cdn.example/loading.gif"))),
        s("https://cdn.example/real.jpg")
    );
}

#[test]
fn placeholder_in_data_url_is_not_replaced_by_src() {
    let images = vec![image(Some("https://cdn.example/loading.gif"), Some("https://cdn.example/1.jpg"))];
    assert_eq!(page_list(&images), Vec::<String>::new());
}

#[test]
fn image_without_an_address_is_left_out() {
    let images = vec![image(None, None), image(None, Some("a.png")), image(None, None)];
    assert_eq!(page_list(&images), vec!["a.png"]);
    assert_eq!(page_list(&Vec::new()), Vec::<String>::new());
}

#[test]
fn placeholders_are_known_by_three_words() {
    assert!(is_placeholder_url("https://cdn.example/bg_transparency.png"));
    assert!(is_placeholder_url("https://cdn.example/warning_18.png"));
    assert!(is_placeholder_url("https://cdn.example/img/loading"));
    assert!(is_placeholder_url("loading"));
    assert!(!is_placeholder_url("https://cdn.example/Loading.png"));
    assert!(!is_placeholder_url("https://cdn.example/loadin/g.png"));
    assert!(!is_placeholder_url(""));
}

#[test]
fn page_order_is_the_order_of_the_images() {
    let images: Vec<ImageNode> = (0..50)
        .map(|i| {
            if i % 7 == 3 {
                image(Some("x/warning.png"), None)
            } else {
                image(None, Some(&format!("p/{}.jpg", i)))
            }
        })
        .collect();
    let expected: Vec<String> =
        (0..50).filter(|i| i % 7 != 3).map(|i| format!("p/{}.jpg", i)).collect();
    assert_eq!(page_list(&images), expected);
}

#[test]
fn selector_follows_the_markup() {
    assert_eq!(image_selector(true), "#_imageList img");
    assert_eq!(image_selector(false), ".viewer_img img");
}

#[test]
fn viewer_url_is_the_link_or_the_key() {
    let mut chapter = Chapter {
        key: String::from("https://www.webtoons.com/viewer?episode_no=1"),
        title: None,
        chapter_number: None,
        date_uploaded: None,
        url: s("https://www.webtoons.com/other"),
        thumbnail: None,
        locked: false,
    };
    assert_eq!(viewer_url(&chapter), "https://www.webtoons.com/other");
    chapter.url = None;
    assert_eq!(viewer_url(&chapter), "https://www.webtoons.com/viewer?episode_no=1");
}
