//! The two remote wallpaper sources and their page logic.
//!
//! Everything here is computation: building the query URLs, reading the
//! fetched markup, and rewriting extracted links into asset URLs.  The
//! surrounding application performs the HTTP requests and feeds the
//! bodies back in.

use vstd::prelude::*;

use crate::error::DownloadError;
use crate::pic::Pic;
use crate::rng::random_below;
use crate::scrape::captures1;
use crate::scrape::captures2;
use crate::scrape::extract1;
use crate::scrape::extract2;
use crate::scrape::find_page_count;
use crate::scrape::first_page_count;
use crate::scrape::lemma_digit_run_bounds;
use crate::scrape::page_count_digits;
use crate::text::basename_of;
use crate::text::dec_digits;
use crate::text::dec_value;
use crate::text::first_match;
use crate::text::get_basename;
use crate::text::has_prefix;
use crate::text::replace_all;
use crate::text::replace_all_str;
use crate::text::starts_with_str;
use crate::text::u32_to_string;

verus! {

/// Identity of a remote source: a closed, compile-time-fixed set.
#[derive(Clone, Copy, PartialEq, Eq, Structural, Debug)]
pub enum Provider {
    Wallhaven,
    Wstock,
}

pub struct Wallhaven;

pub struct Wstock;

/// The fixed user-agent every request carries; the application sets it
/// on the one shared client it builds per run.
pub fn user_agent() -> (r: &'static str)
    ensures
        r@
            == "Mozilla/5.0 (X11; Linux x86_64) AppleWebKit/537.36 (KHTML, like Gecko) Chrome/95.0.4638.69 Safari/537.36"@,
{
    "Mozilla/5.0 (X11; Linux x86_64) AppleWebKit/537.36 (KHTML, like Gecko) Chrome/95.0.4638.69 Safari/537.36"
}

/// Assemble a picture from its source URL and its downloaded bytes: the
/// filename is the URL's final path segment.
pub fn pic_from_asset_url(url: &str, body: Vec<u8>) -> (p: Pic)
    ensures
        p.filename@ == basename_of(url@),
        p.body@ == body@,
{
    let filename = get_basename(url);
    Pic::new(filename, body)
}

/// The Wallhaven search URL for one resolution: restrictive category and
/// purity codes when `sfw` is set, permissive ones otherwise, the
/// resolution as a minimum-size filter, and randomized sort order.
pub open spec fn wallhaven_listing_url_spec(resolution: Seq<char>, sfw: bool) -> Seq<char> {
    "https://wallhaven.cc/search?categories="@ + (if sfw {
        "110"@
    } else {
        "111"@
    }) + "&purity="@ + (if sfw {
        "100"@
    } else {
        "110"@
    }) + "&atleast="@ + resolution + "&sorting=random&order=desc"@
}

/// The preview links of a Wallhaven listing page: what each
/// `class="preview"` anchor's `href` attribute holds.
pub open spec fn wallhaven_listing_links(body: Seq<char>) -> Seq<Seq<char>> {
    captures2(body, "class=\"preview\""@, "href=\""@, "\""@, 0)
}

/// The `src` attributes of the wallpaper image element on a Wallhaven
/// detail page.
pub open spec fn wallhaven_detail_captures(body: Seq<char>) -> Seq<Seq<char>> {
    captures1(body, "id=\"wallpaper\" src=\""@, "\""@, 0)
}

/// An extracted asset URL rewritten to the canonical host when it is
/// relative to the CDN path prefix.
pub open spec fn parse_pic_url_spec(url: Seq<char>) -> Seq<char> {
    if has_prefix(url, "/cdn-cgi"@) {
        "https://w.wallhaven.cc"@ + url
    } else {
        url
    }
}

impl Wallhaven {
    /// The search URL embedding the category/purity codes for `sfw` and
    /// the resolution filter.
    pub fn listing_url(resolution: &str, sfw: bool) -> (r: String)
        ensures
            r@ == wallhaven_listing_url_spec(resolution@, sfw),
    {
        let mut url = "https://wallhaven.cc/search?categories=".to_owned();
        if sfw {
            url.append("110");
        } else {
            url.append("111");
        }
        url.append("&purity=");
        if sfw {
            url.append("100");
        } else {
            url.append("110");
        }
        url.append("&atleast=");
        url.append(resolution);
        url.append("&sorting=random&order=desc");
        url
    }

    /// The detail-page links advertised by a listing page.
    pub fn parse_listing_page(&self, body: &str) -> (r: Vec<String>)
        ensures
            r.deep_view() == wallhaven_listing_links(body@),
    {
        proof {
            reveal_strlit("class=\"preview\"");
            reveal_strlit("href=\"");
            reveal_strlit("\"");
        }
        extract2(body, "class=\"preview\"", "href=\"", "\"")
    }

    /// A relative CDN URL rewritten to the canonical host; any other URL
    /// unchanged.
    pub fn parse_pic_url(url: String) -> (r: String)
        ensures
            r@ == parse_pic_url_spec(url@),
    {
        if starts_with_str(url.as_str(), "/cdn-cgi") {
            let mut out = "https://w.wallhaven.cc".to_owned();
            out.append(url.as_str());
            out
        } else {
            url
        }
    }

    /// The full-resolution asset URL of a detail page: the last `src`
    /// capture, rewritten when relative.  `Err(Parse)` when the image
    /// element is absent.
    pub fn parse_detail_page(&self, body: &str) -> (r: Result<String, DownloadError>)
        ensures
            r is Ok <==> wallhaven_detail_captures(body@).len() > 0,
            r matches Ok(u) ==> u@ == parse_pic_url_spec(wallhaven_detail_captures(body@).last()),
            r matches Err(e) ==> (e matches DownloadError::Parse(m) && m@
                == "wallpaper image element not found"@),
    {
        proof {
            reveal_strlit("id=\"wallpaper\" src=\"");
            reveal_strlit("\"");
        }
        let mut caps = extract1(body, "id=\"wallpaper\" src=\"", "\"");
        let n = caps.len();
        if n == 0 {
            return Err(DownloadError::Parse("wallpaper image element not found".to_owned()));
        }
        let last = caps.remove(n - 1);
        proof {
            assert(last@ == wallhaven_detail_captures(body@).last());
        }
        Ok(Self::parse_pic_url(last))
    }
}

/// The Wstock site prefix.
pub open spec fn wstock_prefix() -> Seq<char> {
    "https://wallpaperstock.net"@
}

/// The Wstock category listing URL for one resolution.
pub open spec fn wstock_listing_url_spec(resolution: Seq<char>) -> Seq<char> {
    wstock_prefix() + "/wallpapers_"@ + resolution + "r.html"@
}

/// The Wstock listing URL for one page of a resolution's category.
pub open spec fn wstock_page_url_spec(resolution: Seq<char>, page: int) -> Seq<char> {
    wstock_prefix() + "/wallpapers_p"@ + dec_digits(page) + "_"@ + resolution + "r.html"@
}

/// Where the page count of a Wstock listing page stands: after the
/// pagination marker and the ellipsis anchor, the first `'>'` followed
/// by digits and `"</"`; -1 when any of the three is absent.
pub open spec fn wstock_page_count_pos(body: Seq<char>) -> int {
    let i = first_match(body, "class=\"pagination\">"@, 0);
    if i < 0 {
        -1
    } else {
        let j = first_match(body, "a>...<a"@, i + "class=\"pagination\">"@.len());
        if j < 0 {
            -1
        } else {
            first_page_count(body, j + "a>...<a"@.len())
        }
    }
}

/// The page count a Wstock listing page advertises.
pub open spec fn wstock_page_count(body: Seq<char>) -> int {
    dec_value(page_count_digits(body, wstock_page_count_pos(body)))
}

/// The listing links of a Wstock page: what each `class="links">` block's
/// `href='...'` attribute holds.
pub open spec fn wstock_listing_links(body: Seq<char>) -> Seq<Seq<char>> {
    captures2(body, "class=\"links\">"@, "href='"@, "'"@, 0)
}

/// A Wstock listing link rewritten into its full-size asset URL: the
/// infix segment replacement, the extension suffix substitution, and the
/// site prefix.
pub open spec fn wstock_asset_url_spec(link: Seq<char>, resolution: Seq<char>) -> Seq<char> {
    wstock_prefix() + replace_all(
        replace_all(link, "-wallpapers_w"@, "_wallpapers_"@),
        ".html"@,
        "_"@ + resolution + ".jpg"@,
    )
}

impl Wstock {
    /// The category listing URL for `resolution`.
    pub fn listing_url(resolution: &str) -> (r: String)
        ensures
            r@ == wstock_listing_url_spec(resolution@),
    {
        let mut url = "https://wallpaperstock.net".to_owned();
        url.append("/wallpapers_");
        url.append(resolution);
        url.append("r.html");
        url
    }

    /// The listing URL for page `page` of `resolution`'s category.
    pub fn page_url(resolution: &str, page: u32) -> (r: String)
        ensures
            r@ == wstock_page_url_spec(resolution@, page as int),
    {
        let mut url = "https://wallpaperstock.net".to_owned();
        url.append("/wallpapers_p");
        url.append(u32_to_string(page).as_str());
        url.append("_");
        url.append(resolution);
        url.append("r.html");
        url
    }

    /// Read the advertised page count from a category listing page.
    /// `Err(NotFound)` when the pagination marker is absent — the
    /// provider has no content bucket for this resolution; `Err(Parse)`
    /// when the count does not fit a `u32`.
    pub fn parse_max_page(&self, body: &str) -> (r: Result<u32, DownloadError>)
        ensures
            r is Ok <==> wstock_page_count_pos(body@) >= 0 && wstock_page_count(body@)
                <= u32::MAX,
            r matches Ok(v) ==> v == wstock_page_count(body@),
            wstock_page_count_pos(body@) == -1 ==> (r matches Err(e) && e is NotFound),
            wstock_page_count_pos(body@) >= 0 && wstock_page_count(body@) > u32::MAX ==> (
            r matches Err(e) && (e matches DownloadError::Parse(m) && m@
                == "page count out of range"@)),
    {
        proof {
            reveal_strlit("class=\"pagination\">");
            reveal_strlit("a>...<a");
        }
        let n = body.unicode_len();
        let i = match crate::text::find_from(body, 0, "class=\"pagination\">") {
            None => {
                return Err(DownloadError::NotFound);
            },
            Some(i) => i,
        };
        proof {
            crate::text::lemma_first_match(body@, "class=\"pagination\">"@, 0);
        }
        let j = match crate::text::find_from(body, i + 19, "a>...<a") {
            None => {
                return Err(DownloadError::NotFound);
            },
            Some(j) => j,
        };
        proof {
            crate::text::lemma_first_match(body@, "a>...<a"@, i + 19);
        }
        let (k, d) = match find_page_count(body, j + 7) {
            None => {
                return Err(DownloadError::NotFound);
            },
            Some(kd) => kd,
        };
        proof {
            lemma_digit_run_bounds(body@, k + 1);
            assert(crate::text::all_digits(body@.subrange(k + 1, k + 1 + d)));
        }
        let digits = body.substring_char(k + 1, k + 1 + d);
        match crate::text::parse_u32_str(digits) {
            Some(v) => Ok(v),
            None => Err(DownloadError::Parse("page count out of range".to_owned())),
        }
    }

    /// A uniformly random page in `[1, max)`.
    pub fn pick_page(max: u32) -> (r: u32)
        requires
            max >= 2,
        ensures
            1 <= r < max,
    {
        let below = random_below((max - 1) as usize);
        1 + (below as u32)
    }

    /// The listing links advertised by one page.
    pub fn parse_listing_page(&self, body: &str) -> (r: Vec<String>)
        ensures
            r.deep_view() == wstock_listing_links(body@),
    {
        proof {
            reveal_strlit("class=\"links\">");
            reveal_strlit("href='");
            reveal_strlit("'");
        }
        extract2(body, "class=\"links\">", "href='", "'")
    }

    /// A listing link turned into the URL of the full-size asset for
    /// `resolution`.
    pub fn rewrite_link(link: &str, resolution: &str) -> (r: String)
        ensures
            r@ == wstock_asset_url_spec(link@, resolution@),
    {
        proof {
            reveal_strlit("-wallpapers_w");
            reveal_strlit(".html");
        }
        let mut suffix = "_".to_owned();
        suffix.append(resolution);
        suffix.append(".jpg");
        let step1 = replace_all_str(link, "-wallpapers_w", "_wallpapers_");
        let step2 = replace_all_str(step1.as_str(), ".html", suffix.as_str());
        let mut url = "https://wallpaperstock.net".to_owned();
        url.append(step2.as_str());
        url
    }

    /// Assemble the picture for a full-size asset URL once its bytes
    /// have been fetched: the filename is the URL's final path segment.
    pub fn get_pic_from_detail_page_url(&self, url: &str, body: Vec<u8>) -> (p: Pic)
        ensures
            p.filename@ == basename_of(url@),
            p.body@ == body@,
    {
        pic_from_asset_url(url, body)
    }
}

} // verus!
