//! The records that the extraction fills: a title with its details and an
//! episode of it, each with its view over character sequences.

use vstd::prelude::*;
use crate::pieces::texts;
use crate::text::opt_text;

verus! {

/// How the pages of a title are shown.
#[derive(Clone, Copy, Debug, PartialEq, Eq, Structural)]
pub enum Viewer {
    /// Not stated.
    Unknown,
    /// One long strip, scrolled from top to bottom.
    Webtoon,
}

/// Whether a title still gets new episodes.
#[derive(Clone, Copy, Debug, PartialEq, Eq, Structural)]
pub enum MangaStatus {
    /// Not stated.
    Unknown,
    /// New episodes still come.
    Ongoing,
    /// The last episode is out.
    Completed,
}

/// For whom a title is fit.
#[derive(Clone, Copy, Debug, PartialEq, Eq, Structural)]
pub enum ContentRating {
    /// Not stated.
    Unknown,
    /// Fit for everyone.
    Safe,
}

/// One episode of a title.
#[derive(Clone, Debug, PartialEq, Eq)]
pub struct Chapter {
    /// What identifies the episode: the link to its viewer page, or its
    /// number where no link is known.
    pub key: String,
    pub title: Option<String>,
    /// The episode's place in the order of the title's episodes.
    pub chapter_number: Option<i32>,
    /// When the episode came out, in seconds since the epoch.
    pub date_uploaded: Option<i64>,
    /// The link to the viewer page.
    pub url: Option<String>,
    pub thumbnail: Option<String>,
    /// Whether the episode cannot be read without paying or signing in.
    pub locked: bool,
}

/// The view of a `Chapter`.
pub struct ChapterView {
    pub key: Seq<char>,
    pub title: Option<Seq<char>>,
    pub chapter_number: Option<i32>,
    pub date_uploaded: Option<i64>,
    pub url: Option<Seq<char>>,
    pub thumbnail: Option<Seq<char>>,
    pub locked: bool,
}

impl View for Chapter {
    type V = ChapterView;

    open spec fn view(&self) -> ChapterView {
        ChapterView {
            key: self.key@,
            title: opt_text(self.title),
            chapter_number: self.chapter_number,
            date_uploaded: self.date_uploaded,
            url: opt_text(self.url),
            thumbnail: opt_text(self.thumbnail),
            locked: self.locked,
        }
    }
}

/// The views of a list of chapters, in order.
pub open spec fn chapter_views(list: Seq<Chapter>) -> Seq<ChapterView> {
    list.map_values(|c: Chapter| c@)
}

/// The view of a list of strings that may be absent.
pub open spec fn opt_texts(list: Option<Vec<String>>) -> Option<Seq<Seq<char>>> {
    match list {
        Some(list) => Some(texts(list@)),
        None => None,
    }
}

/// The view of a list of chapters that may be absent.
pub open spec fn opt_chapter_views(list: Option<Vec<Chapter>>) -> Option<Seq<ChapterView>> {
    match list {
        Some(list) => Some(chapter_views(list@)),
        None => None,
    }
}

/// A title, as a listing shows it or with the details of its own page.
#[derive(Clone, Debug, PartialEq, Eq)]
pub struct Manga {
    /// The title number.
    pub key: String,
    pub title: String,
    pub cover: Option<String>,
    pub authors: Option<Vec<String>>,
    pub description: Option<String>,
    /// The link to the title's own page.
    pub url: Option<String>,
    pub tags: Option<Vec<String>>,
    pub status: MangaStatus,
    pub content_rating: ContentRating,
    pub viewer: Viewer,
    pub chapters: Option<Vec<Chapter>>,
}

/// The view of a `Manga`.
pub struct MangaView {
    pub key: Seq<char>,
    pub title: Seq<char>,
    pub cover: Option<Seq<char>>,
    pub authors: Option<Seq<Seq<char>>>,
    pub description: Option<Seq<char>>,
    pub url: Option<Seq<char>>,
    pub tags: Option<Seq<Seq<char>>>,
    pub status: MangaStatus,
    pub content_rating: ContentRating,
    pub viewer: Viewer,
    pub chapters: Option<Seq<ChapterView>>,
}

impl View for Manga {
    type V = MangaView;

    open spec fn view(&self) -> MangaView {
        MangaView {
            key: self.key@,
            title: self.title@,
            cover: opt_text(self.cover),
            authors: opt_texts(self.authors),
            description: opt_text(self.description),
            url: opt_text(self.url),
            tags: opt_texts(self.tags),
            status: self.status,
            content_rating: self.content_rating,
            viewer: self.viewer,
            chapters: opt_chapter_views(self.chapters),
        }
    }
}

/// The views of a list of titles, in order.
pub open spec fn manga_views(list: Seq<Manga>) -> Seq<MangaView> {
    list.map_values(|m: Manga| m@)
}

} // verus!
