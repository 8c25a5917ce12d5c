//! The images of an episode's viewer page.

use vstd::prelude::*;
use crate::model::Chapter;
use crate::pieces::texts;
use crate::search::{contains, contains_chars};
use crate::text::{chars_of, opt_text};

verus! {

/// What the markup of one image of the viewer page gives.
#[derive(Clone, Debug, PartialEq, Eq)]
pub struct ImageNode {
    /// The address that the page loads the image from when it comes in sight.
    pub data_url: Option<String>,
    /// The address in the image's own `src`.
    pub src: Option<String>,
}

/// The address of an image: the one it is loaded from when it comes in
/// sight, else the one in its `src`.
pub open spec fn image_address(image: ImageNode) -> Option<Seq<char>> {
    match (image.data_url, image.src) {
        (Some(url), _) => Some(url@),
        (None, Some(url)) => Some(url@),
        (None, None) => None,
    }
}

/// Whether an address is that of a picture that stands in for a page: the
/// transparent background, a warning or the sign of loading.
pub open spec fn is_placeholder(url: Seq<char>) -> bool {
    ||| contains(url, "bg_transparency"@)
    ||| contains(url, "warning"@)
    ||| contains(url, "loading"@)
}

/// The address of the page that an image shows, if it shows one.
pub open spec fn page_address(image: ImageNode) -> Option<Seq<char>> {
    match image_address(image) {
        Some(url) => if is_placeholder(url) {
            None
        } else {
            Some(url)
        },
        None => None,
    }
}

/// An image whose address holds `loading` shows no page, and neither does
/// one whose address holds one of the other two marks.
pub proof fn lemma_placeholder_left_out(image: ImageNode)
    requires
        image_address(image) is Some,
        contains(image_address(image)->0, "loading"@) || contains(
            image_address(image)->0,
            "warning"@,
        ) || contains(image_address(image)->0, "bg_transparency"@),
    ensures
        page_address(image) is None,
{
}

/// Where an image has both addresses, the one it is loaded from when it
/// comes in sight counts, and the one in its `src` does not.
pub proof fn lemma_data_url_first(image: ImageNode)
    requires
        image.data_url is Some,
    ensures
        image_address(image) == Some(image.data_url->0@),
        page_address(image) == if is_placeholder(image.data_url->0@) {
            None
        } else {
            Some(image.data_url->0@)
        },
{
}

/// The addresses of the pages that the images show, in order.
pub open spec fn page_addresses(images: Seq<ImageNode>) -> Seq<Seq<char>> {
    images.filter_map(|image: ImageNode| page_address(image))
}

/// The address of an episode's viewer page: its link, else its key.
pub open spec fn viewer_address(chapter: Chapter) -> Seq<char> {
    match chapter.url {
        Some(url) => url@,
        None => chapter.key@,
    }
}

/// What selects the images of the viewer page: the images of the image list
/// where the page has one, else those of the viewer's own image area.
pub open spec fn image_selector_for(has_image_list: bool) -> Seq<char> {
    if has_image_list {
        "#_imageList img"@
    } else {
        ".viewer_img img"@
    }
}

/// The address of the viewer page of an episode.
pub fn viewer_url(chapter: &Chapter) -> (url: String)
    ensures
        url@ == viewer_address(*chapter),
{
    match &chapter.url {
        Some(url) => url.clone(),
        None => chapter.key.clone(),
    }
}

/// Picks what selects the images of the viewer page.
pub fn image_selector(has_image_list: bool) -> (selector: &'static str)
    ensures
        selector@ == image_selector_for(has_image_list),
{
    if has_image_list {
        "#_imageList img"
    } else {
        ".viewer_img img"
    }
}

/// Tests whether an address is that of a picture that stands in for a page.
pub fn is_placeholder_url(url: &str) -> (b: bool)
    ensures
        b == is_placeholder(url@),
{
    let chars = chars_of(url);
    let background = chars_of("bg_transparency");
    let warning = chars_of("warning");
    let loading = chars_of("loading");
    contains_chars(chars.as_slice(), background.as_slice()) || contains_chars(
        chars.as_slice(),
        warning.as_slice(),
    ) || contains_chars(chars.as_slice(), loading.as_slice())
}

/// Picks the address of the page that an image shows, if it shows one.
pub fn page_url(image: &ImageNode) -> (url: Option<String>)
    ensures
        opt_text(url) == page_address(*image),
{
    let address = match &image.data_url {
        Some(url) => url,
        None => match &image.src {
            Some(url) => url,
            None => {
                return None;
            },
        },
    };
    if is_placeholder_url(address.as_str()) {
        None
    } else {
        Some(address.clone())
    }
}

/// Lists the addresses of the pages of an episode, in the order of the
/// images of its viewer page.
pub fn page_list(images: &Vec<ImageNode>) -> (urls: Vec<String>)
    ensures
        texts(urls@) == page_addresses(images@),
{
    let mut urls: Vec<String> = Vec::new();
    let mut i: usize = 0;
    assert(images@.take(0) == Seq::<ImageNode>::empty());
    assert(texts(urls@) == Seq::<Seq<char>>::empty());
    while i < images.len()
        invariant
            i <= images.len(),
            texts(urls@) == page_addresses(images@.take(i as int)),
        decreases images.len() - i,
    {
        let ghost before = texts(urls@);
        proof {
            assert(images@.take(i + 1).drop_last() == images@.take(i as int));
            assert(images@.take(i + 1).last() == images@[i as int]);
        }
        match page_url(&images[i]) {
            Some(url) => {
                urls.push(url);
                assert(texts(urls@) == before.push(url@));
            },
            None => {},
        }
        i += 1;
    }
    assert(images@.take(i as int) == images@);
    urls
}

} // verus!
