//! Extraction rules for a webcomic reader source: query parameters, genre
//! slugs, calendar dates, episode lists, listing items and the pages to ask
//! the site for, each stated over sequences of characters and proved against
//! that statement.

pub mod date;
pub mod deep_link;
pub mod detail;
pub mod genre;
pub mod json;
pub mod listing;
pub mod model;
pub mod number;
pub mod pages;
pub mod pieces;
pub mod request;
pub mod search;
pub mod site;
pub mod text;
pub mod url;

pub use date::parse_date;
pub use deep_link::{resolve_deep_link, DeepLink};
pub use detail::{apply_details, detail_url, episodes_url, with_chapters, DetailPage, Found};
pub use genre::genre_name_to_slug;
pub use json::{parse_episodes_json, parse_single_episode};
pub use listing::{
    manga_page, parse_chapter_item, parse_manga_item, ChapterItem, ListingItem, MangaPage,
};
pub use model::{Chapter, ContentRating, Manga, MangaStatus, Viewer};
pub use pages::{image_selector, page_list, viewer_url, ImageNode};
pub use request::{
    answer_page, empty_page, listing_plan, search_request, Filter, ListingPlan, PageRequest,
    UnknownListing,
};
pub use url::{extract_episode_no, extract_title_no};
