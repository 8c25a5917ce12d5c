//! Genre names, as the site shows them, and the slugs of its genre pages.

use vstd::prelude::*;
use crate::text::{chars_of, is_text};

verus! {

/// The slug of the genre page that a listing falls back to.
pub open spec fn default_slug() -> Seq<char> {
    "romance"@
}

/// Whether `name` is one of the genre names that the site shows.
pub open spec fn is_genre_name(name: Seq<char>) -> bool {
    ||| name == "愛情"@
    ||| name == "歐式宮廷"@
    ||| name == "影視化"@
    ||| name == "校園"@
    ||| name == "台灣原創作品"@
    ||| name == "奇幻冒險"@
    ||| name == "驚悚"@
    ||| name == "恐怖"@
    ||| name == "武俠"@
    ||| name == "LGBTQ+"@
    ||| name == "大人系"@
    ||| name == "劇情"@
    ||| name == "動作"@
    ||| name == "生活/日常"@
    ||| name == "搞笑"@
    ||| name == "穿越/轉生"@
    ||| name == "現代/職場"@
    ||| name == "懸疑推理"@
    ||| name == "療癒/萌系"@
    ||| name == "少年"@
    ||| name == "古代宮廷"@
    ||| name == "小說"@
}

/// The slug of the genre page for a genre name; the default slug for a name
/// that is no genre name.
pub open spec fn genre_slug(name: Seq<char>) -> Seq<char> {
    if name == "愛情"@ {
        "romance"@
    } else if name == "歐式宮廷"@ {
        "western_palace"@
    } else if name == "影視化"@ {
        "adaptation"@
    } else if name == "校園"@ {
        "school"@
    } else if name == "台灣原創作品"@ {
        "local"@
    } else if name == "奇幻冒險"@ {
        "fantasy"@
    } else if name == "驚悚"@ {
        "thriller"@
    } else if name == "恐怖"@ {
        "horror"@
    } else if name == "武俠"@ {
        "martial_arts"@
    } else if name == "LGBTQ+"@ {
        "bl_gl"@
    } else if name == "大人系"@ {
        "romance_m"@
    } else if name == "劇情"@ {
        "drama"@
    } else if name == "動作"@ {
        "action"@
    } else if name == "生活/日常"@ {
        "slice_of_life"@
    } else if name == "搞笑"@ {
        "comedy"@
    } else if name == "穿越/轉生"@ {
        "time_slip"@
    } else if name == "現代/職場"@ {
        "city_office"@
    } else if name == "懸疑推理"@ {
        "mystery"@
    } else if name == "療癒/萌系"@ {
        "heartwarming"@
    } else if name == "少年"@ {
        "shonen"@
    } else if name == "古代宮廷"@ {
        "eastern_palace"@
    } else if name == "小說"@ {
        "web_novel"@
    } else {
        default_slug()
    }
}

/// Every genre name has the slug of its own page: no name in the table hides
/// another. A name outside the table has the default slug.
pub proof fn lemma_genre_table()
    ensures
        genre_slug("愛情"@) == "romance"@,
        genre_slug("歐式宮廷"@) == "western_palace"@,
        genre_slug("影視化"@) == "adaptation"@,
        genre_slug("校園"@) == "school"@,
        genre_slug("台灣原創作品"@) == "local"@,
        genre_slug("奇幻冒險"@) == "fantasy"@,
        genre_slug("驚悚"@) == "thriller"@,
        genre_slug("恐怖"@) == "horror"@,
        genre_slug("武俠"@) == "martial_arts"@,
        genre_slug("LGBTQ+"@) == "bl_gl"@,
        genre_slug("大人系"@) == "romance_m"@,
        genre_slug("劇情"@) == "drama"@,
        genre_slug("動作"@) == "action"@,
        genre_slug("生活/日常"@) == "slice_of_life"@,
        genre_slug("搞笑"@) == "comedy"@,
        genre_slug("穿越/轉生"@) == "time_slip"@,
        genre_slug("現代/職場"@) == "city_office"@,
        genre_slug("懸疑推理"@) == "mystery"@,
        genre_slug("療癒/萌系"@) == "heartwarming"@,
        genre_slug("少年"@) == "shonen"@,
        genre_slug("古代宮廷"@) == "eastern_palace"@,
        genre_slug("小說"@) == "web_novel"@,
        forall|name: Seq<char>| !is_genre_name(name) ==> #[trigger] genre_slug(name) == default_slug(),
{
    reveal_strlit("愛情");
    reveal_strlit("歐式宮廷");
    reveal_strlit("影視化");
    reveal_strlit("校園");
    reveal_strlit("台灣原創作品");
    reveal_strlit("奇幻冒險");
    reveal_strlit("驚悚");
    reveal_strlit("恐怖");
    reveal_strlit("武俠");
    reveal_strlit("LGBTQ+");
    reveal_strlit("大人系");
    reveal_strlit("劇情");
    reveal_strlit("動作");
    reveal_strlit("生活/日常");
    reveal_strlit("搞笑");
    reveal_strlit("穿越/轉生");
    reveal_strlit("現代/職場");
    reveal_strlit("懸疑推理");
    reveal_strlit("療癒/萌系");
    reveal_strlit("少年");
    reveal_strlit("古代宮廷");
    reveal_strlit("小說");
    assert("愛情"@[0] == '愛');
    assert("歐式宮廷"@[0] == '歐');
    assert("影視化"@[0] == '影');
    assert("校園"@[0] == '校');
    assert("台灣原創作品"@[0] == '台');
    assert("奇幻冒險"@[0] == '奇');
    assert("驚悚"@[0] == '驚');
    assert("恐怖"@[0] == '恐');
    assert("武俠"@[0] == '武');
    assert("LGBTQ+"@[0] == 'L');
    assert("大人系"@[0] == '大');
    assert("劇情"@[0] == '劇');
    assert("動作"@[0] == '動');
    assert("生活/日常"@[0] == '生');
    assert("搞笑"@[0] == '搞');
    assert("穿越/轉生"@[0] == '穿');
    assert("現代/職場"@[0] == '現');
    assert("懸疑推理"@[0] == '懸');
    assert("療癒/萌系"@[0] == '療');
    assert("少年"@[0] == '少');
    assert("古代宮廷"@[0] == '古');
    assert("小說"@[0] == '小');
}

/// Maps a genre name to the slug of its genre page.
pub fn genre_name_to_slug(name: &str) -> (slug: &'static str)
    ensures
        slug@ == genre_slug(name@),
{
    let chars = chars_of(name);
    let n = chars.as_slice();
    if is_text(n, "愛情") {
        "romance"
    } else if is_text(n, "歐式宮廷") {
        "western_palace"
    } else if is_text(n, "影視化") {
        "adaptation"
    } else if is_text(n, "校園") {
        "school"
    } else if is_text(n, "台灣原創作品") {
        "local"
    } else if is_text(n, "奇幻冒險") {
        "fantasy"
    } else if is_text(n, "驚悚") {
        "thriller"
    } else if is_text(n, "恐怖") {
        "horror"
    } else if is_text(n, "武俠") {
        "martial_arts"
    } else if is_text(n, "LGBTQ+") {
        "bl_gl"
    } else if is_text(n, "大人系") {
        "romance_m"
    } else if is_text(n, "劇情") {
        "drama"
    } else if is_text(n, "動作") {
        "action"
    } else if is_text(n, "生活/日常") {
        "slice_of_life"
    } else if is_text(n, "搞笑") {
        "comedy"
    } else if is_text(n, "穿越/轉生") {
        "time_slip"
    } else if is_text(n, "現代/職場") {
        "city_office"
    } else if is_text(n, "懸疑推理") {
        "mystery"
    } else if is_text(n, "療癒/萌系") {
        "heartwarming"
    } else if is_text(n, "少年") {
        "shonen"
    } else if is_text(n, "古代宮廷") {
        "eastern_palace"
    } else if is_text(n, "小說") {
        "web_novel"
    } else {
        "romance"
    }
}

} // verus!
