//! Items of a listing page and of a title's list of episodes: what the
//! markup of one item gives, and the record that is made of it.

use vstd::prelude::*;
use crate::date::{date_seconds, parse_date};
use crate::model::{
    Chapter,
    ChapterView,
    ContentRating,
    Manga,
    MangaStatus,
    MangaView,
    Viewer,
    manga_views,
};
use crate::number::{i32_value, parse_i32};
use crate::pieces::{name_list, names, texts};
use crate::text::{CharClass, chars_of, copy_opt, opt_text};
use crate::url::{episode_no, extract_episode_no, extract_title_no, title_no};

verus! {

/// What the markup of one item of a listing gives: the attributes of its
/// link and the text or attribute of the nodes below it, each absent where
/// the markup has none.
#[derive(Clone, Debug, PartialEq, Eq)]
pub struct ListingItem {
    /// The target of the link.
    pub href: Option<String>,
    /// The title number that the link carries as data.
    pub title_no: Option<String>,
    pub title: Option<String>,
    /// The address of the cover image.
    pub cover: Option<String>,
    /// The authors in one text, a `/` between two of them.
    pub author: Option<String>,
    pub genre: Option<String>,
}

/// The key of an item: the title number that the link carries as data, else
/// the one in the link's target.
pub open spec fn item_key(item: ListingItem) -> Option<Seq<char>> {
    match (item.title_no, item.href) {
        (Some(n), _) => Some(n@),
        (None, Some(href)) => title_no(href@),
        (None, None) => None,
    }
}

/// The authors that the author text names, if it names any.
pub open spec fn item_authors(author: Option<String>) -> Option<Seq<Seq<char>>> {
    match author {
        Some(text) => if names(text@, CharClass::Is('/')).len() > 0 {
            Some(names(text@, CharClass::Is('/')))
        } else {
            None
        },
        None => None,
    }
}

/// The tags of an item: its genre, where it shows one.
pub open spec fn item_tags(genre: Option<String>) -> Option<Seq<Seq<char>>> {
    match genre {
        Some(genre) => Some(seq![genre@]),
        None => None,
    }
}

/// The title that an item of a listing shows. None where the item has no
/// key, or no title or an empty one.
pub open spec fn manga_of(item: ListingItem) -> Option<MangaView> {
    if item_key(item) is Some && item.title is Some && item.title->0@.len() > 0 {
        Some(
            MangaView {
                key: item_key(item)->0,
                title: item.title->0@,
                cover: opt_text(item.cover),
                authors: item_authors(item.author),
                description: None,
                url: opt_text(item.href),
                tags: item_tags(item.genre),
                status: MangaStatus::Unknown,
                content_rating: ContentRating::Unknown,
                viewer: Viewer::Webtoon,
                chapters: None,
            },
        )
    } else {
        None
    }
}

/// An item without a title, or with an empty one, shows no title.
pub proof fn lemma_untitled_item(item: ListingItem)
    requires
        item.title is None || item.title->0@.len() == 0,
    ensures
        manga_of(item) is None,
{
}

/// An item that carries a title number as data and has a title shows a
/// title, and that number is its key, whatever the link's target says and
/// whether or not there is one.
pub proof fn lemma_data_number_first(item: ListingItem)
    requires
        item.title_no is Some,
        item.title is Some,
        item.title->0@.len() > 0,
    ensures
        manga_of(item) is Some,
        manga_of(item)->0.key == item.title_no->0@,
        manga_of(item)->0.url == opt_text(item.href),
{
}

/// An item with neither a title number as data nor one in its link's target
/// shows no title.
pub proof fn lemma_item_without_key(item: ListingItem)
    requires
        item.title_no is None,
        item.href is None || title_no(item.href->0@) is None,
    ensures
        manga_of(item) is None,
{
}

/// The titles that the items of a listing show, in order, without the items
/// that show none.
pub open spec fn mangas_of(items: Seq<ListingItem>) -> Seq<MangaView> {
    items.filter_map(|item: ListingItem| manga_of(item))
}

/// A page of a listing: its titles, and whether another page follows.
#[derive(Clone, Debug, PartialEq, Eq)]
pub struct MangaPage {
    pub entries: Vec<Manga>,
    pub has_next_page: bool,
}

/// Makes the record of the title that an item of a listing shows.
pub fn parse_manga_item(item: &ListingItem) -> (r: Option<Manga>)
    ensures
        match r {
            Some(manga) => manga_of(*item) == Some(manga@),
            None => manga_of(*item) is None,
        },
{
    let key = match &item.title_no {
        Some(n) => n.clone(),
        None => {
            let from_link = match &item.href {
                Some(href) => extract_title_no(href.as_str()),
                None => None,
            };
            match from_link {
                Some(n) => n,
                None => {
                    return None;
                },
            }
        },
    };
    let title = match &item.title {
        Some(title) => title.clone(),
        None => {
            return None;
        },
    };
    if title.as_str().is_empty() {
        return None;
    }
    let authors = match &item.author {
        Some(text) => {
            let chars = chars_of(text.as_str());
            let list = name_list(chars.as_slice(), CharClass::Is('/'));
            if list.len() > 0 {
                Some(list)
            } else {
                None
            }
        },
        None => None,
    };
    let tags = match &item.genre {
        Some(genre) => {
            let mut list: Vec<String> = Vec::new();
            list.push(genre.clone());
            assert(texts(list@) == seq![genre@]);
            Some(list)
        },
        None => None,
    };
    Some(
        Manga {
            key,
            title,
            cover: copy_opt(&item.cover),
            authors,
            description: None,
            url: copy_opt(&item.href),
            tags,
            status: MangaStatus::Unknown,
            content_rating: ContentRating::Unknown,
            viewer: Viewer::Webtoon,
            chapters: None,
        },
    )
}

/// Makes the page of a listing out of its items: the titles that the items
/// show, and the mark of a next page as it was found.
pub fn manga_page(items: &Vec<ListingItem>, next_page_marked: bool) -> (page: MangaPage)
    ensures
        manga_views(page.entries@) == mangas_of(items@),
        page.has_next_page == next_page_marked,
{
    let mut entries: Vec<Manga> = Vec::new();
    let mut i: usize = 0;
    assert(items@.take(0) == Seq::<ListingItem>::empty());
    assert(manga_views(entries@) == Seq::<MangaView>::empty());
    while i < items.len()
        invariant
            i <= items.len(),
            manga_views(entries@) == mangas_of(items@.take(i as int)),
        decreases items.len() - i,
    {
        let ghost before = manga_views(entries@);
        proof {
            assert(items@.take(i + 1).drop_last() == items@.take(i as int));
            assert(items@.take(i + 1).last() == items@[i as int]);
        }
        match parse_manga_item(&items[i]) {
            Some(manga) => {
                entries.push(manga);
                assert(manga_views(entries@) == before.push(manga@));
            },
            None => {},
        }
        i += 1;
    }
    assert(items@.take(i as int) == items@);
    MangaPage { entries, has_next_page: next_page_marked }
}

/// What the markup of one item of a title's list of episodes gives.
#[derive(Clone, Debug, PartialEq, Eq)]
pub struct ChapterItem {
    /// The target of the link: the viewer page of the episode.
    pub href: Option<String>,
    /// The text of the inner node of the episode's title.
    pub title: Option<String>,
    /// The text of the outer node of the episode's title.
    pub fallback_title: Option<String>,
    /// The date as the page writes it.
    pub date: Option<String>,
    pub thumbnail: Option<String>,
    /// Whether the item carries the mark of a locked episode.
    pub lock_marker: bool,
    /// Whether the item carries the mark of an episode with sound.
    pub audio_marker: bool,
}

/// The title of an item: the text of the inner node, else that of the outer.
pub open spec fn item_title(item: ChapterItem) -> Option<Seq<char>> {
    match item.title {
        Some(title) => Some(title@),
        None => opt_text(item.fallback_title),
    }
}

/// The number that the link's target gives for the episode: what its
/// parameter `episode_no` writes, where that is an integer of 32 bits.
pub open spec fn item_number(href: Seq<char>) -> Option<i32> {
    match episode_no(href) {
        Some(text) => i32_value(text),
        None => None,
    }
}

/// The timestamp of the date that the item shows.
pub open spec fn item_date(date: Option<String>) -> Option<i64> {
    match date {
        Some(text) => date_seconds(text@),
        None => None,
    }
}

/// The episode that an item of the list shows; its key is the link's target.
/// None where the item has no link target.
pub open spec fn chapter_of(item: ChapterItem) -> Option<ChapterView> {
    match item.href {
        Some(href) => Some(
            ChapterView {
                key: href@,
                title: item_title(item),
                chapter_number: item_number(href@),
                date_uploaded: item_date(item.date),
                url: None,
                thumbnail: opt_text(item.thumbnail),
                locked: item.lock_marker || item.audio_marker,
            },
        ),
        None => None,
    }
}

/// Makes the record of the episode that an item of the list shows.
pub fn parse_chapter_item(item: &ChapterItem) -> (r: Option<Chapter>)
    ensures
        match r {
            Some(chapter) => chapter_of(*item) == Some(chapter@),
            None => chapter_of(*item) is None,
        },
{
    let href = match &item.href {
        Some(href) => href,
        None => {
            return None;
        },
    };
    let title = match &item.title {
        Some(title) => Some(title.clone()),
        None => copy_opt(&item.fallback_title),
    };
    let chapter_number = match extract_episode_no(href.as_str()) {
        Some(text) => {
            let digits = chars_of(text.as_str());
            parse_i32(digits.as_slice())
        },
        None => None,
    };
    let date_uploaded = match &item.date {
        Some(text) => parse_date(text.as_str()),
        None => None,
    };
    Some(
        Chapter {
            key: href.clone(),
            title,
            chapter_number,
            date_uploaded,
            url: None,
            thumbnail: copy_opt(&item.thumbnail),
            locked: item.lock_marker || item.audio_marker,
        },
    )
}

} // verus!
