//! Links into the site that the reader is asked to open.

use vstd::prelude::*;
use crate::search::{contains, contains_chars};
use crate::text::{chars_of, string_of};
use crate::url::{extract_param, title_no};

verus! {

/// What a link into the site points at.
#[derive(Clone, Debug, PartialEq, Eq)]
pub enum DeepLink {
    /// The title with this key.
    Manga { key: String },
    /// The episode with this key, of the title with that key.
    Chapter { manga_key: String, key: String },
}

/// The view of a `DeepLink`.
pub enum DeepLinkView {
    Manga { key: Seq<char> },
    Chapter { manga_key: Seq<char>, key: Seq<char> },
}

impl View for DeepLink {
    type V = DeepLinkView;

    open spec fn view(&self) -> DeepLinkView {
        match self {
            DeepLink::Manga { key } => DeepLinkView::Manga { key: key@ },
            DeepLink::Chapter { manga_key, key } => DeepLinkView::Chapter {
                manga_key: manga_key@,
                key: key@,
            },
        }
    }
}

/// What `url` points at. A link without a title number points at nothing
/// that the source knows; one with `/viewer` in it points at an episode,
/// whose key is the whole link; any other points at a title.
pub open spec fn link_target(url: Seq<char>) -> Option<DeepLinkView> {
    match title_no(url) {
        Some(number) => if contains(url, "/viewer"@) {
            Some(DeepLinkView::Chapter { manga_key: number, key: url })
        } else {
            Some(DeepLinkView::Manga { key: number })
        },
        None => None,
    }
}

/// Tells what a link into the site points at.
pub fn resolve_deep_link(url: &str) -> (r: Option<DeepLink>)
    ensures
        match r {
            Some(link) => link_target(url@) == Some(link@),
            None => link_target(url@) is None,
        },
{
    let chars = chars_of(url);
    let param = chars_of("title_no=");
    match extract_param(chars.as_slice(), param.as_slice()) {
        Some(number) => {
            let viewer = chars_of("/viewer");
            if contains_chars(chars.as_slice(), viewer.as_slice()) {
                Some(DeepLink::Chapter { manga_key: number, key: string_of(chars.as_slice()) })
            } else {
                Some(DeepLink::Manga { key: number })
            }
        },
        None => None,
    }
}

} // verus!
