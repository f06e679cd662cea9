use wallpaper::error::DownloadError;
use wallpaper::function::command_parts;
use wallpaper::function::get_de;
use wallpaper::function::get_random_file;
use wallpaper::function::get_resolution;
use wallpaper::function::De;
use wallpaper::function::DesktopEnv;
use wallpaper::function::Gnome;
use wallpaper::function::Wm;
use wallpaper::params::check_dependency;
use wallpaper::params::frame_interval_millis;
use wallpaper::params::frames_pattern;
use wallpaper::params::gen_rand_string;
use wallpaper::params::is_gif_name;
use wallpaper::params::is_mp4_name;
use wallpaper::params::is_valid_fps;
use wallpaper::params::normalize_dir;
use wallpaper::params::split_resolutions;
use wallpaper::params::Params;

fn download_params(only_download: bool, is_video: bool, is_gif: bool) -> Params {
    Params::new(
        String::from("/home/u/.wallpaper/"),
        is_video,
        is_gif,
        10,
        None,
        true,
        None,
        false,
        Some(vec![String::from("1920x1080")]),
        true,
        only_download,
        60,
        None,
    )
}

#[test]
fn params_new_keeps_every_field() {
    let p = Params::new(
        String::from("/d/"),
        true,
        false,
        24,
        Some(String::from("movie.mp4")),
        true,
        Some(String::from("/tmp/x")),
        true,
        Some(vec![String::from("800x600")]),
        false,
        true,
        30,
        Some(String::from("http://proxy:8080")),
    );
    assert_eq!(p.dir, "/d/");
    assert!(p.is_video);
    assert!(!p.is_gif);
    assert_eq!(p.fps, 24);
    assert_eq!(p.file.as_deref(), Some("movie.mp4"));
    assert!(p.is_download);
    assert_eq!(p.compress_dir.as_deref(), Some("/tmp/x"));
    assert!(p.download_empty);
    assert_eq!(p.resolution, Some(vec![String::from("800x600")]));
    assert!(!p.download_sfw);
    assert!(p.only_download);
    assert_eq!(p.interval, 30);
    assert_eq!(p.proxy.as_deref(), Some("http://proxy:8080"));
}

#[test]
fn normalize_dir_appends_separator_once() {
    assert_eq!(normalize_dir(String::from("/home/u/pics")), "/home/u/pics/");
    assert_eq!(normalize_dir(String::from("/home/u/pics/")), "/home/u/pics/");
}

#[test]
fn split_resolutions_by_comma() {
    assert_eq!(
        split_resolutions("1920x1080,800x600"),
        vec!["1920x1080", "800x600"]
    );
    assert_eq!(split_resolutions("1920x1080"), vec!["1920x1080"]);
}

#[test]
fn fps_validation() {
    assert!(is_valid_fps(String::from("1")).is_ok());
    assert!(is_valid_fps(String::from("10")).is_ok());
    assert!(is_valid_fps(String::from("1000")).is_ok());
    assert!(is_valid_fps(String::from("+5")).is_ok());
    assert_eq!(
        is_valid_fps(String::from("0")).unwrap_err(),
        "The range of FPS is an integer from 1 to 1000"
    );
    assert!(is_valid_fps(String::from("1001")).is_err());
    assert!(is_valid_fps(String::from("abc")).is_err());
    assert!(is_valid_fps(String::from("")).is_err());
    assert!(is_valid_fps(String::from("999999999999999999999")).is_err());
}

#[test]
fn media_name_checks() {
    assert!(is_mp4_name("a/movie.mp4"));
    assert!(!is_mp4_name("a/movie.mkv"));
    assert!(is_gif_name("fun.gif"));
    assert!(!is_gif_name("fun.gifx"));
}

#[test]
fn frame_interval_divides_a_second() {
    assert_eq!(frame_interval_millis(10), 100);
    assert_eq!(frame_interval_millis(3), 333);
    assert_eq!(frame_interval_millis(1000), 1);
}

#[test]
fn frames_pattern_is_under_dir() {
    assert_eq!(frames_pattern("/tmp/x"), "/tmp/x/filename%09d.jpg");
}

#[test]
fn dependency_list_for_download_only_is_empty() {
    let p = download_params(true, false, false);
    assert!(check_dependency(&p, DesktopEnv::Wm).is_empty());
}

#[test]
fn dependency_list_for_wm_video_run() {
    let p = download_params(false, true, false);
    assert_eq!(
        check_dependency(&p, DesktopEnv::Wm),
        vec!["feh -h", "ffmpeg", "convert", "xdg-open", "bash", "sed"]
    );
}

#[test]
fn dependency_list_for_gnome_gif_run() {
    let p = download_params(false, false, true);
    assert_eq!(
        check_dependency(&p, DesktopEnv::Gnome),
        vec!["gsettings", "convert", "bash"]
    );
}

#[test]
fn random_name_is_long_and_alphanumeric() {
    let name = gen_rand_string();
    assert_eq!(name.chars().count(), 20);
    assert!(name.chars().all(|c| c.is_ascii_alphanumeric()));
}

#[test]
fn random_names_differ_between_draws() {
    // 62^20 names: two equal draws would mean the randomness wrapper
    // returns a constant.
    assert_ne!(gen_rand_string(), gen_rand_string());
}

#[test]
fn desktop_is_chosen_by_name() {
    assert_eq!(get_de("ubuntu:GNOME"), DesktopEnv::Gnome);
    assert_eq!(get_de("i3"), DesktopEnv::Wm);
    assert_eq!(get_de(""), DesktopEnv::Wm);
}

#[test]
fn wm_command_lists_every_path() {
    let paths = vec![String::from("/p/a.jpg"), String::from("/p/b.jpg")];
    assert_eq!(
        Wm().set_wallpaper_command(&paths),
        "feh --bg-scale  /p/a.jpg  /p/b.jpg "
    );
}

#[test]
fn gnome_command_uses_first_path() {
    let paths = vec![String::from("x.jpg"), String::from("ignored.jpg")];
    assert_eq!(
        Gnome().set_wallpaper_command(&paths),
        "gsettings set org.gnome.desktop.background picture-uri file:///x.jpg"
    );
    assert_eq!(
        Gnome().set_wallpaper_command(&Vec::new()),
        "gsettings set org.gnome.desktop.background picture-uri file:///"
    );
}

#[test]
fn wallpaper_dependencies_per_desktop() {
    assert_eq!(Wm().wallpaper_dependencies(), vec!["feh -h"]);
    assert_eq!(Gnome().wallpaper_dependencies(), vec!["gsettings"]);
}

#[test]
fn resolutions_are_non_blank_lines() {
    let out = get_resolution("1920x1080\n2560x1440\n   \n").unwrap();
    assert_eq!(out, vec!["1920x1080", "2560x1440"]);
}

#[test]
fn empty_listing_is_an_error() {
    assert_eq!(get_resolution("\n  \n").unwrap_err(), "Get resolutions error");
    assert_eq!(get_resolution("").unwrap_err(), "Get resolutions error");
}

#[test]
fn command_parts_split_at_spaces() {
    assert_eq!(command_parts("feh -h"), vec!["feh", "-h"]);
    assert_eq!(command_parts("gsettings"), vec!["gsettings"]);
    assert_eq!(command_parts("a  b"), vec!["a", "", "b"]);
}

#[test]
fn random_file_joins_dir_and_name() {
    let names = vec![String::from("only.jpg")];
    assert_eq!(get_random_file("/pics", &names), "/pics/only.jpg");
    let several = vec![String::from("a.jpg"), String::from("b.jpg")];
    let got = get_random_file("/pics", &several);
    assert!(got == "/pics/a.jpg" || got == "/pics/b.jpg");
}

#[test]
fn random_file_of_empty_listing_is_the_dir() {
    assert_eq!(get_random_file("/pics", &Vec::new()), "/pics");
}

#[test]
fn error_messages() {
    assert_eq!(DownloadError::NotFound.message(), "Not found");
    assert_eq!(
        DownloadError::Network(String::from("timed out")).message(),
        "timed out"
    );
    assert_eq!(
        DownloadError::Parse(String::from("marker absent")).message(),
        "marker absent"
    );
    assert_eq!(DownloadError::Io(String::from("disk full")).message(), "disk full");
}
