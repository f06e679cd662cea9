use wallpaper::error::DownloadError;
use wallpaper::provider::pic_from_asset_url;
use wallpaper::provider::user_agent;
use wallpaper::provider::Wallhaven;
use wallpaper::provider::Wstock;

#[test]
fn wallhaven_listing_url_sfw() {
    assert_eq!(
        Wallhaven::listing_url("1920x1080", true),
        "https://wallhaven.cc/search?categories=110&purity=100&atleast=1920x1080&sorting=random&order=desc"
    );
}

#[test]
fn wallhaven_listing_url_permissive() {
    assert_eq!(
        Wallhaven::listing_url("2560x1440", false),
        "https://wallhaven.cc/search?categories=111&purity=110&atleast=2560x1440&sorting=random&order=desc"
    );
}

#[test]
fn wallhaven_parses_preview_links() {
    let body = "<li><a class=\"preview\" href=\"https://wallhaven.cc/w/abc\"></a></li>\n\
                <li><a class=\"preview\"  href=\"https://wallhaven.cc/w/def\"></a></li>";
    let links = Wallhaven.parse_listing_page(body);
    assert_eq!(links, vec!["https://wallhaven.cc/w/abc", "https://wallhaven.cc/w/def"]);
}

#[test]
fn wallhaven_detail_takes_last_src() {
    let body = "<img id=\"wallpaper\" src=\"https://early/a.png\">\n\
                <img id=\"wallpaper\" src=\"https://late/b.png\">";
    assert_eq!(Wallhaven.parse_detail_page(body).unwrap(), "https://late/b.png");
}

#[test]
fn wallhaven_detail_rewrites_cdn_url() {
    let body = "<img id=\"wallpaper\" src=\"/cdn-cgi/mirage/x/full.jpg\">";
    assert_eq!(
        Wallhaven.parse_detail_page(body).unwrap(),
        "https://w.wallhaven.cc/cdn-cgi/mirage/x/full.jpg"
    );
}

#[test]
fn wallhaven_detail_absent_is_parse_error() {
    let got = Wallhaven.parse_detail_page("<html>no image element</html>");
    match got {
        Err(DownloadError::Parse(m)) => {
            assert_eq!(m, "wallpaper image element not found");
        }
        _ => panic!("expected a parse error"),
    }
}

#[test]
fn wallhaven_pic_url_passthrough() {
    assert_eq!(
        Wallhaven::parse_pic_url(String::from("https://w.wallhaven.cc/full/a.jpg")),
        "https://w.wallhaven.cc/full/a.jpg"
    );
    assert_eq!(
        Wallhaven::parse_pic_url(String::from("/cdn-cgi/img/a.jpg")),
        "https://w.wallhaven.cc/cdn-cgi/img/a.jpg"
    );
}

#[test]
fn wstock_urls() {
    assert_eq!(
        Wstock::listing_url("1920x1080"),
        "https://wallpaperstock.net/wallpapers_1920x1080r.html"
    );
    assert_eq!(
        Wstock::page_url("1920x1080", 7),
        "https://wallpaperstock.net/wallpapers_p7_1920x1080r.html"
    );
    assert_eq!(
        Wstock::page_url("800x600", 12),
        "https://wallpaperstock.net/wallpapers_p12_800x600r.html"
    );
}

#[test]
fn wstock_reads_page_count() {
    let body = "<div class=\"pagination\"><a>1</a><a>2</a>...<a href=\"x\">57</a></div>";
    assert_eq!(Wstock.parse_max_page(body).unwrap(), 57);
}

#[test]
fn wstock_missing_pagination_is_not_found() {
    let got = Wstock.parse_max_page("<html><body>bare page</body></html>");
    assert!(matches!(got, Err(DownloadError::NotFound)));
}

#[test]
fn wstock_ellipsis_required_for_pagination() {
    let got = Wstock.parse_max_page("<div class=\"pagination\"><a>1</a><a>2</a></div>");
    assert!(matches!(got, Err(DownloadError::NotFound)));
}

#[test]
fn wstock_oversized_page_count_is_parse_error() {
    let body = "<div class=\"pagination\"><a>1</a>...<a href=\"x\">99999999999</a></div>";
    match Wstock.parse_max_page(body) {
        Err(DownloadError::Parse(m)) => assert_eq!(m, "page count out of range"),
        _ => panic!("expected a parse error"),
    }
}

#[test]
fn wstock_pick_page_stays_in_range() {
    assert_eq!(Wstock::pick_page(2), 1);
    for _ in 0..50 {
        let p = Wstock::pick_page(57);
        assert!(1 <= p && p < 57);
    }
}

#[test]
fn wstock_parses_listing_links() {
    let body = "<td class=\"links\"><a href='/sunset-wallpapers_w12345.html'>s</a></td>\n\
                <td class=\"links\"><a href='/ocean-wallpapers_w9.html'>o</a></td>";
    let links = Wstock.parse_listing_page(body);
    assert_eq!(links, vec!["/sunset-wallpapers_w12345.html", "/ocean-wallpapers_w9.html"]);
}

#[test]
fn wstock_rewrites_listing_link() {
    assert_eq!(
        Wstock::rewrite_link("/sunset-wallpapers_w12345.html", "1920x1080"),
        "https://wallpaperstock.net/sunset_wallpapers_12345_1920x1080.jpg"
    );
}

#[test]
fn pic_carries_basename_and_bytes() {
    let body = vec![1u8, 2, 3];
    let pic = pic_from_asset_url("https://host/a/b/photo.png", body.clone());
    assert_eq!(pic.filename, "photo.png");
    assert_eq!(pic.body, body);
}

#[test]
fn wstock_pic_from_detail_page_url() {
    let pic = Wstock.get_pic_from_detail_page_url(
        "https://wallpaperstock.net/sunset_wallpapers_12345_1920x1080.jpg",
        vec![9u8, 8],
    );
    assert_eq!(pic.filename, "sunset_wallpapers_12345_1920x1080.jpg");
    assert_eq!(pic.body, vec![9u8, 8]);
}

#[test]
fn user_agent_is_fixed() {
    assert!(user_agent().starts_with("Mozilla/5.0 (X11; Linux x86_64)"));
}
