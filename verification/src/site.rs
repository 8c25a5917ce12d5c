//! The addresses of the site and what a request to it carries.

use vstd::prelude::*;

verus! {

/// The address of the site.
pub const BASE_URL: &'static str = "https://www.webtoons.com";

/// The path of the site's edition in traditional Chinese.
pub const LANG_PATH: &'static str = "/zh-hant";

/// The address of the server that holds the thumbnails.
pub const THUMB_CDN: &'static str = "https://webtoon-phinf.pstatic.net";

/// The address of the interface that lists all episodes of a title at once.
pub const MOBILE_API: &'static str = "https://m.webtoons.com/api/v1/webtoon";

/// What every request names as the page it comes from.
pub const REFERER: &'static str = "https://www.webtoons.com";

/// The browser that every request names.
pub const USER_AGENT: &'static str = "Mozilla/5.0 (iPhone; CPU iPhone OS 17_0 like Mac OS X) AppleWebKit/605.1.15 (KHTML, like Gecko) Version/17.0 Mobile/15E148 Safari/604.1";

} // verus!
