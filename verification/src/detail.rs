//! The page of one title: what its markup gives, and how that changes the
//! record of the title.

use vstd::prelude::*;
use crate::json::{episodes, parse_episodes_json};
use crate::model::{ContentRating, Manga, MangaStatus, MangaView, Viewer, chapter_views};
use crate::pieces::{lemma_split_either, name_list, names, split_twice, texts, trim};
use crate::search::{remove_all, without};
use crate::site::{BASE_URL, LANG_PATH, MOBILE_API};
use crate::text::{CharClass, append_text, chars_of, opt_text, string_of};

verus! {

/// What looking for a node and for its text gave.
#[derive(Clone, Debug, PartialEq, Eq)]
pub enum Found {
    /// There is no such node.
    Missing,
    /// There is such a node, and it has no text.
    Blank,
    /// The text of the node.
    Text(String),
}

/// What the markup of a title's page gives.
#[derive(Clone, Debug, PartialEq, Eq)]
pub struct DetailPage {
    /// The heading that holds the title.
    pub heading: Found,
    /// Any node that holds the title.
    pub subject: Found,
    /// The text of the authors' area.
    pub author_area: Option<String>,
    /// The paragraph that holds the summary.
    pub summary_paragraph: Found,
    /// Any node that holds the summary.
    pub summary: Found,
    pub genre: Option<String>,
    /// The address of the image that the page names as its own.
    pub cover: Option<String>,
    /// Whether the page carries the mark of a completed title.
    pub completed: bool,
}

/// The text of the first node if there is one, else that of the second;
/// nothing where the node that counts has no text.
pub open spec fn first_text(first: Found, second: Found) -> Option<Seq<char>> {
    match first {
        Found::Text(text) => Some(text@),
        Found::Blank => None,
        Found::Missing => match second {
            Found::Text(text) => Some(text@),
            _ => None,
        },
    }
}

/// The text of the authors' area without its labels.
pub open spec fn author_text(area: Seq<char>) -> Seq<char> {
    remove_all(remove_all(area, "Writer Info"@), "作家資訊"@)
}

/// The authors that the authors' area names: the pieces of its text between
/// commas and slashes.
pub open spec fn page_authors(area: Seq<char>) -> Seq<Seq<char>> {
    names(author_text(area), CharClass::Either(',', '/'))
}

/// The authors are what is left, after trimming, of the pieces that cutting
/// the text at commas and then each piece at slashes gives.
pub proof fn lemma_authors_cut_twice(area: Seq<char>)
    ensures
        page_authors(area) == split_twice(author_text(area), ',', '/').map_values(
            |piece: Seq<char>| trim(piece),
        ).filter(|piece: Seq<char>| piece.len() > 0),
{
    lemma_split_either(author_text(area), ',', '/');
}

/// The cover that the page names replaces the one that the record has.
pub proof fn lemma_cover_replaced(manga: MangaView, page: DetailPage)
    requires
        page.cover is Some,
    ensures
        detailed(manga, page).cover == Some(page.cover->0@),
{
}

/// The record of a title after its page was read. The title, the summary,
/// the authors, the genre and the cover replace what the record had, each
/// where the page gives it; the status is read off the mark of completion.
pub open spec fn detailed(manga: MangaView, page: DetailPage) -> MangaView {
    MangaView {
        title: match first_text(page.heading, page.subject) {
            Some(title) => title,
            None => manga.title,
        },
        authors: match page.author_area {
            Some(area) => if page_authors(area@).len() > 0 {
                Some(page_authors(area@))
            } else {
                manga.authors
            },
            None => manga.authors,
        },
        description: match first_text(page.summary_paragraph, page.summary) {
            Some(text) => Some(text),
            None => manga.description,
        },
        tags: match page.genre {
            Some(genre) => Some(seq![genre@]),
            None => manga.tags,
        },
        cover: match page.cover {
            Some(cover) => Some(cover@),
            None => manga.cover,
        },
        status: if page.completed {
            MangaStatus::Completed
        } else {
            MangaStatus::Ongoing
        },
        content_rating: ContentRating::Safe,
        viewer: Viewer::Webtoon,
        ..manga
    }
}

/// The address of a title's page: the one that the record holds, else the
/// page of the title number.
pub open spec fn detail_address(manga: MangaView) -> Seq<char> {
    match manga.url {
        Some(url) => url,
        None => BASE_URL@ + LANG_PATH@ + "/originals/a/list?title_no="@ + manga.key,
    }
}

/// The address that lists all episodes of a title.
pub open spec fn episodes_address(title_no: Seq<char>) -> Seq<char> {
    MOBILE_API@ + "/"@ + title_no + "/episodes?pageSize=99999"@
}

/// Picks the text of the first node if there is one, else that of the second.
fn pick_text(first: &Found, second: &Found) -> (text: Option<String>)
    ensures
        opt_text(text) == first_text(*first, *second),
{
    match first {
        Found::Text(text) => Some(text.clone()),
        Found::Blank => None,
        Found::Missing => match second {
            Found::Text(text) => Some(text.clone()),
            _ => None,
        },
    }
}

/// Reads the authors out of the text of the authors' area.
pub fn parse_authors(area: &str) -> (list: Vec<String>)
    ensures
        texts(list@) == page_authors(area@),
{
    let chars = chars_of(area);
    let english = chars_of("Writer Info");
    let chinese = chars_of("作家資訊");
    let first = without(chars.as_slice(), english.as_slice());
    let second = without(first.as_slice(), chinese.as_slice());
    name_list(second.as_slice(), CharClass::Either(',', '/'))
}

/// Brings what the title's page gives into the record of the title.
pub fn apply_details(manga: Manga, page: &DetailPage) -> (r: Manga)
    ensures
        r@ == detailed(manga@, *page),
{
    let mut manga = manga;
    match pick_text(&page.heading, &page.subject) {
        Some(title) => {
            manga.title = title;
        },
        None => {},
    }
    match &page.author_area {
        Some(area) => {
            let list = parse_authors(area.as_str());
            if list.len() > 0 {
                manga.authors = Some(list);
            }
        },
        None => {},
    }
    match pick_text(&page.summary_paragraph, &page.summary) {
        Some(text) => {
            manga.description = Some(text);
        },
        None => {},
    }
    match &page.genre {
        Some(genre) => {
            let mut list: Vec<String> = Vec::new();
            list.push(genre.clone());
            assert(texts(list@) == seq![genre@]);
            manga.tags = Some(list);
        },
        None => {},
    }
    match &page.cover {
        Some(cover) => {
            manga.cover = Some(cover.clone());
        },
        None => {},
    }
    manga.status = if page.completed {
        MangaStatus::Completed
    } else {
        MangaStatus::Ongoing
    };
    manga.content_rating = ContentRating::Safe;
    manga.viewer = Viewer::Webtoon;
    manga
}

/// The address of the page that holds the details of a title.
pub fn detail_url(manga: &Manga) -> (url: String)
    ensures
        url@ == detail_address(manga@),
{
    match &manga.url {
        Some(url) => url.clone(),
        None => {
            let mut out: Vec<char> = Vec::new();
            append_text(&mut out, BASE_URL);
            append_text(&mut out, LANG_PATH);
            append_text(&mut out, "/originals/a/list?title_no=");
            append_text(&mut out, manga.key.as_str());
            string_of(out.as_slice())
        },
    }
}

/// The address that lists all episodes of the title with number `title_no`.
pub fn episodes_url(title_no: &str) -> (url: String)
    ensures
        url@ == episodes_address(title_no@),
{
    let mut out: Vec<char> = Vec::new();
    append_text(&mut out, MOBILE_API);
    append_text(&mut out, "/");
    append_text(&mut out, title_no);
    append_text(&mut out, "/episodes?pageSize=99999");
    string_of(out.as_slice())
}

/// Puts the episodes that the answer of the mobile interface lists into the
/// record of the title, and changes nothing else.
pub fn with_chapters(manga: Manga, body: &str) -> (r: Manga)
    ensures
        r@ == (MangaView { chapters: Some(episodes(body@)), ..manga@ }),
{
    let mut manga = manga;
    manga.chapters = Some(parse_episodes_json(body));
    manga
}

} // verus!
