//! Which page of the site answers a search or a listing.

use vstd::prelude::*;
use crate::genre::{default_slug, genre_name_to_slug, genre_slug};
use crate::listing::{ListingItem, MangaPage, manga_page, mangas_of};
use crate::model::manga_views;
use crate::number::{decimal_text, push_decimal};
use crate::site::{BASE_URL, LANG_PATH};
use crate::text::{append_text, chars_of, is_text, opt_text, string_of};

verus! {

/// A choice that the reader made in the filters of a search.
#[derive(Clone, Debug, PartialEq, Eq)]
pub enum Filter {
    /// One value picked from the list with this id.
    Select { id: String, value: String },
    /// Any other kind of filter; the source has no use for it.
    Other,
}

/// A page of the site to ask for, and whether what it says of a next page
/// counts.
#[derive(Clone, Debug, PartialEq, Eq)]
pub struct PageRequest {
    pub url: String,
    pub follow_pages: bool,
}

/// What to do for a page of a listing.
#[derive(Clone, Debug, PartialEq, Eq)]
pub enum ListingPlan {
    /// Ask for this page of the site.
    Fetch(PageRequest),
    /// Ask for nothing: the page of the listing is empty.
    Nothing,
}

/// The failure of a listing that the source does not know.
#[derive(Clone, Debug, PartialEq, Eq)]
pub struct UnknownListing {
    pub id: String,
}

/// The value picked last from the list `id`, if one was picked.
pub open spec fn picked(filters: Seq<Filter>, id: Seq<char>) -> Option<Seq<char>>
    decreases filters.len(),
{
    if filters.len() == 0 {
        None
    } else {
        match filters.last() {
            Filter::Select { id: list, value } => if list@ == id {
                Some(value@)
            } else {
                picked(filters.drop_last(), id)
            },
            Filter::Other => picked(filters.drop_last(), id),
        }
    }
}

/// The code of the order that the name of an order stands for.
pub open spec fn sort_code(name: Seq<char>) -> Seq<char> {
    if name == "愛心排序"@ {
        "LIKEIT"@
    } else if name == "最近更新"@ {
        "UPDATE"@
    } else {
        "MANA"@
    }
}

/// The slug of the genre that the filters pick; the default where they pick
/// none.
pub open spec fn picked_slug(filters: Seq<Filter>) -> Seq<char> {
    match picked(filters, "genre"@) {
        Some(name) => genre_slug(name),
        None => default_slug(),
    }
}

/// The code of the order that the filters pick; by popularity where they
/// pick none.
pub open spec fn picked_order(filters: Seq<Filter>) -> Seq<char> {
    match picked(filters, "sort"@) {
        Some(name) => sort_code(name),
        None => "MANA"@,
    }
}

/// The address of the page that answers a search for `keyword`.
pub open spec fn search_address(keyword: Seq<char>) -> Seq<char> {
    BASE_URL@ + LANG_PATH@ + "/search?keyword="@ + keyword
}

/// The address of page `page` of the genre and the order that the filters
/// pick.
pub open spec fn genre_address(filters: Seq<Filter>, page: i32) -> Seq<char> {
    BASE_URL@ + LANG_PATH@ + "/genres/"@ + picked_slug(filters) + "?sortOrder="@ + picked_order(
        filters,
    ) + "&page="@ + decimal_text(page as int)
}

/// The address of page `page` of the titles by popularity.
pub open spec fn ranking_address(page: i32) -> Seq<char> {
    BASE_URL@ + LANG_PATH@ + "/ranking?sortOrder=MANA&page="@ + decimal_text(page as int)
}

/// The address of the titles of one day of the week, or of the completed
/// ones.
pub open spec fn originals_address(day: Seq<char>) -> Seq<char> {
    BASE_URL@ + LANG_PATH@ + "/originals/"@ + day + "?sortOrder=MANA"@
}

/// Whether `id` names a day of the week or the completed titles.
pub open spec fn is_day_listing(id: Seq<char>) -> bool {
    ||| id == "monday"@
    ||| id == "tuesday"@
    ||| id == "wednesday"@
    ||| id == "thursday"@
    ||| id == "friday"@
    ||| id == "saturday"@
    ||| id == "sunday"@
    ||| id == "complete"@
}

/// The page to ask for on a search. With a keyword it is the search page,
/// and what that says of a next page does not count; without one it is the
/// genre page that the filters pick.
pub open spec fn search_target(query: Option<Seq<char>>, page: i32, filters: Seq<Filter>) -> (
    Seq<char>,
    bool,
) {
    match query {
        Some(keyword) => (search_address(keyword), false),
        None => (genre_address(filters, page), true),
    }
}

/// What to do for page `page` of the listing `id`: the address to ask for
/// and whether what the answer says of a next page counts. The titles by
/// popularity have pages; a day's titles are all on the first page, and any
/// later page is empty; any other listing is unknown.
pub open spec fn listing_target(id: Seq<char>, page: i32) -> Result<
    Option<(Seq<char>, bool)>,
    Seq<char>,
> {
    if id == "popular"@ {
        Ok(Some((ranking_address(page), true)))
    } else if is_day_listing(id) {
        if page > 1 {
            Ok(None)
        } else {
            Ok(Some((originals_address(id), true)))
        }
    } else {
        Err(id)
    }
}

/// The view of what to do for a page of a listing: the address to ask for
/// and whether what the answer says of a next page counts, if there is
/// anything to ask for.
pub open spec fn plan_view(plan: ListingPlan) -> Option<(Seq<char>, bool)> {
    match plan {
        ListingPlan::Fetch(request) => Some((request.url@, request.follow_pages)),
        ListingPlan::Nothing => None,
    }
}

/// What the failure says.
pub open spec fn unknown_listing_text(id: Seq<char>) -> Seq<char> {
    "Unknown listing: "@ + id
}

impl UnknownListing {
    /// What the failure says: that the listing is unknown, and its id.
    pub fn message(&self) -> (text: String)
        ensures
            text@ == unknown_listing_text(self.id@),
    {
        let mut out: Vec<char> = Vec::new();
        append_text(&mut out, "Unknown listing: ");
        append_text(&mut out, self.id.as_str());
        string_of(out.as_slice())
    }
}

/// The address of the page that answers a search for `keyword`.
pub fn search_url(keyword: &str) -> (url: String)
    ensures
        url@ == search_address(keyword@),
{
    let mut out: Vec<char> = Vec::new();
    append_text(&mut out, BASE_URL);
    append_text(&mut out, LANG_PATH);
    append_text(&mut out, "/search?keyword=");
    append_text(&mut out, keyword);
    string_of(out.as_slice())
}

/// The code of the order that the name of an order stands for.
pub fn sort_order(name: &str) -> (code: &'static str)
    ensures
        code@ == sort_code(name@),
{
    let chars = chars_of(name);
    if is_text(chars.as_slice(), "愛心排序") {
        "LIKEIT"
    } else if is_text(chars.as_slice(), "最近更新") {
        "UPDATE"
    } else {
        "MANA"
    }
}

/// The address of page `page` of the genre and the order that the filters
/// pick.
pub fn genre_url(filters: &Vec<Filter>, page: i32) -> (url: String)
    ensures
        url@ == genre_address(filters@, page),
{
    let mut slug: &'static str = "romance";
    let mut order: &'static str = "MANA";
    let mut i: usize = 0;
    assert(filters@.take(0).len() == 0);
    while i < filters.len()
        invariant
            i <= filters.len(),
            slug@ == picked_slug(filters@.take(i as int)),
            order@ == picked_order(filters@.take(i as int)),
        decreases filters.len() - i,
    {
        proof {
            assert(filters@.take(i + 1).drop_last() == filters@.take(i as int));
            assert(filters@.take(i + 1).last() == filters@[i as int]);
            reveal_strlit("genre");
            reveal_strlit("sort");
            assert("genre"@.len() != "sort"@.len());
        }
        match &filters[i] {
            Filter::Select { id, value } => {
                let list = chars_of(id.as_str());
                if is_text(list.as_slice(), "genre") {
                    slug = genre_name_to_slug(value.as_str());
                } else if is_text(list.as_slice(), "sort") {
                    order = sort_order(value.as_str());
                }
            },
            Filter::Other => {},
        }
        i += 1;
    }
    assert(filters@.take(i as int) == filters@);
    let mut out: Vec<char> = Vec::new();
    append_text(&mut out, BASE_URL);
    append_text(&mut out, LANG_PATH);
    append_text(&mut out, "/genres/");
    append_text(&mut out, slug);
    append_text(&mut out, "?sortOrder=");
    append_text(&mut out, order);
    append_text(&mut out, "&page=");
    push_decimal(&mut out, page as i64);
    string_of(out.as_slice())
}

/// Tells which page to ask for on a search.
pub fn search_request(query: &Option<String>, page: i32, filters: &Vec<Filter>) -> (request:
    PageRequest)
    ensures
        (request.url@, request.follow_pages) == search_target(opt_text(*query), page, filters@),
{
    match query {
        Some(keyword) => PageRequest { url: search_url(keyword.as_str()), follow_pages: false },
        None => PageRequest { url: genre_url(filters, page), follow_pages: true },
    }
}

/// Tests whether `id` names a day of the week or the completed titles.
fn is_day(id: &[char]) -> (b: bool)
    ensures
        b == is_day_listing(id@),
{
    is_text(id, "monday") || is_text(id, "tuesday") || is_text(id, "wednesday") || is_text(
        id,
        "thursday",
    ) || is_text(id, "friday") || is_text(id, "saturday") || is_text(id, "sunday") || is_text(
        id,
        "complete",
    )
}

/// Tells what to do for page `page` of the listing `id`.
pub fn listing_plan(id: &str, page: i32) -> (r: Result<ListingPlan, UnknownListing>)
    ensures
        match r {
            Ok(plan) => listing_target(id@, page) == Ok::<Option<(Seq<char>, bool)>, Seq<char>>(
                plan_view(plan),
            ),
            Err(unknown) => listing_target(id@, page) == Err::<
                Option<(Seq<char>, bool)>,
                Seq<char>,
            >(unknown.id@),
        },
{
    let chars = chars_of(id);
    if is_text(chars.as_slice(), "popular") {
        let mut out: Vec<char> = Vec::new();
        append_text(&mut out, BASE_URL);
        append_text(&mut out, LANG_PATH);
        append_text(&mut out, "/ranking?sortOrder=MANA&page=");
        push_decimal(&mut out, page as i64);
        Ok(ListingPlan::Fetch(PageRequest { url: string_of(out.as_slice()), follow_pages: true }))
    } else if is_day(chars.as_slice()) {
        if page > 1 {
            Ok(ListingPlan::Nothing)
        } else {
            let mut out: Vec<char> = Vec::new();
            append_text(&mut out, BASE_URL);
            append_text(&mut out, LANG_PATH);
            append_text(&mut out, "/originals/");
            append_text(&mut out, id);
            append_text(&mut out, "?sortOrder=MANA");
            Ok(
                ListingPlan::Fetch(
                    PageRequest { url: string_of(out.as_slice()), follow_pages: true },
                ),
            )
        }
    } else {
        Err(UnknownListing { id: string_of(chars.as_slice()) })
    }
}

/// Makes the page of results out of the items of the page that was asked
/// for: its titles, and a next page only where the request follows pages and
/// the answer marks one.
pub fn answer_page(request: &PageRequest, items: &Vec<ListingItem>, next_page_marked: bool) -> (page:
    MangaPage)
    ensures
        manga_views(page.entries@) == mangas_of(items@),
        page.has_next_page == (request.follow_pages && next_page_marked),
{
    manga_page(items, request.follow_pages && next_page_marked)
}

/// The page of results for which nothing is asked: no titles and no next
/// page.
pub fn empty_page() -> (page: MangaPage)
    ensures
        page.entries@.len() == 0,
        !page.has_next_page,
{
    MangaPage { entries: Vec::new(), has_next_page: false }
}

} // verus!
