use webtoon_source::genre_name_to_slug;

#[test]
fn every_genre_name_has_its_slug() {
    let table = [
        ("愛情", "romance"),
        ("歐式宮廷", "western_palace"),
        ("影視化", "adaptation"),
        ("校園", "school"),
        ("台灣原創作品", "local"),
        ("奇幻冒險", "fantasy"),
        ("驚悚", "thriller"),
        ("恐怖", "horror"),
        ("武俠", "martial_arts"),
        ("LGBTQ+", "bl_gl"),
        ("大人系", "romance_m"),
        ("劇情", "drama"),
        ("動作", "action"),
        ("生活/日常", "slice_of_life"),
        ("搞笑", "comedy"),
        ("穿越/轉生", "time_slip"),
        ("現代/職場", "city_office"),
        ("懸疑推理", "mystery"),
        ("療癒/萌系", "heartwarming"),
        ("少年", "shonen"),
        ("古代宮廷", "eastern_palace"),
        ("小說", "web_novel"),
    ];
    for (name, slug) in table {
        assert_eq!(genre_name_to_slug(name), slug, "{}", name);
    }
}

#[test]
fn unknown_genre_names_fall_back_to_romance() {
    assert_eq!(genre_name_to_slug(""), "romance");
    assert_eq!(genre_name_to_slug("romance"), "romance");
    assert_eq!(genre_name_to_slug("校"), "romance");
    assert_eq!(genre_name_to_slug("校園 "), "romance");
    assert_eq!(genre_name_to_slug("lgbtq+"), "romance");
}
