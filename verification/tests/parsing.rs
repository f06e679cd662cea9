use wallpaper::scrape::extract1;
use wallpaper::scrape::extract2;
use wallpaper::scrape::find_page_count;
use wallpaper::text::ends_with_str;
use wallpaper::text::get_basename;
use wallpaper::text::is_blank_str;
use wallpaper::text::parse_u32_str;
use wallpaper::text::replace_all_str;
use wallpaper::text::split_str;
use wallpaper::text::starts_with_str;
use wallpaper::text::str_eq;
use wallpaper::text::u32_to_string;

#[test]
fn basename_of_deep_url() {
    assert_eq!(get_basename("https://w.wallhaven.cc/full/x8/wallhaven-x8gg3d.jpg"), "wallhaven-x8gg3d.jpg");
}

#[test]
fn basename_without_slash_is_whole() {
    assert_eq!(get_basename("plain.jpg"), "plain.jpg");
}

#[test]
fn basename_of_trailing_slash_is_empty() {
    assert_eq!(get_basename("https://host/dir/"), "");
}

#[test]
fn basename_of_empty_is_empty() {
    assert_eq!(get_basename(""), "");
}

#[test]
fn str_eq_basic() {
    assert!(str_eq("abc", "abc"));
    assert!(!str_eq("abc", "abd"));
    assert!(!str_eq("abc", "ab"));
    assert!(str_eq("", ""));
}

#[test]
fn prefix_and_suffix() {
    assert!(starts_with_str("/cdn-cgi/img.jpg", "/cdn-cgi"));
    assert!(!starts_with_str("/img.jpg", "/cdn-cgi"));
    assert!(ends_with_str("movie.mp4", ".mp4"));
    assert!(!ends_with_str("movie.mp4x", ".mp4"));
    assert!(!ends_with_str("p4", ".mp4"));
}

#[test]
fn replace_all_replaces_every_occurrence() {
    assert_eq!(replace_all_str("a-b-c", "-", "+"), "a+b+c");
    assert_eq!(replace_all_str("none here", "xyz", "q"), "none here");
    assert_eq!(
        replace_all_str("/sunset-wallpapers_w12345.html", "-wallpapers_w", "_wallpapers_"),
        "/sunset_wallpapers_12345.html"
    );
}

#[test]
fn replace_all_does_not_rescan_replacement() {
    assert_eq!(replace_all_str("aaa", "aa", "a"), "aa");
}

#[test]
fn split_keeps_empty_fields() {
    assert_eq!(split_str("a,,b", ","), vec!["a", "", "b"]);
    assert_eq!(split_str("", ","), vec![""]);
    assert_eq!(split_str("one", ","), vec!["one"]);
    assert_eq!(split_str("x,y", ","), vec!["x", "y"]);
}

#[test]
fn parse_u32_values() {
    assert_eq!(parse_u32_str("0"), Some(0));
    assert_eq!(parse_u32_str("57"), Some(57));
    assert_eq!(parse_u32_str("0057"), Some(57));
    assert_eq!(parse_u32_str("4294967295"), Some(u32::MAX));
    assert_eq!(parse_u32_str("4294967296"), None);
    assert_eq!(parse_u32_str(""), None);
    assert_eq!(parse_u32_str("12a"), None);
    assert_eq!(parse_u32_str("-3"), None);
}

#[test]
fn format_u32_values() {
    assert_eq!(u32_to_string(0), "0");
    assert_eq!(u32_to_string(7), "7");
    assert_eq!(u32_to_string(10), "10");
    assert_eq!(u32_to_string(12345), "12345");
    assert_eq!(u32_to_string(u32::MAX), "4294967295");
}

#[test]
fn blank_detection() {
    assert!(is_blank_str(""));
    assert!(is_blank_str(" \t\r\n"));
    assert!(!is_blank_str(" x "));
}

#[test]
fn extract_single_marker_captures() {
    let body = "<img id=\"x\" src=\"a\"><p open=\"first\" tail><p open=\"second\" tail>";
    assert_eq!(extract1(body, "open=\"", "\""), vec!["first", "second"]);
}

#[test]
fn extract_single_marker_none() {
    let body = "<p>nothing here</p>";
    let got = extract1(body, "open=\"", "\"");
    assert!(got.is_empty());
}

#[test]
fn extract_two_marker_captures() {
    let body = "<a class=\"preview\" href=\"https://one\"></a><a class=\"preview\"\n href=\"https://two\">";
    assert_eq!(
        extract2(body, "class=\"preview\"", "href=\"", "\""),
        vec!["https://one", "https://two"]
    );
}

#[test]
fn find_page_count_scans_forward() {
    let s = "<a href=\"x\">57</a>";
    let got = find_page_count(s, 0);
    assert!(got.is_some());
    let (k, d) = got.unwrap();
    // the '>' before "57", with a two-digit run
    assert_eq!(&s[k..k + 1], ">");
    assert_eq!(d, 2);
}

#[test]
fn find_page_count_absent() {
    assert!(find_page_count("<a>no digits </a>", 0).is_none());
    assert!(find_page_count(">123 not closed", 0).is_none());
}
