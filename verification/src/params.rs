//! The run configuration and the checks around it.
//!
//! The command line itself is read by the surrounding application; what
//! it hands over — directories, resolutions, flags — and every rule on
//! those values lives here.

use vstd::prelude::*;

use crate::function::de_dependencies;
use crate::function::DesktopEnv;
use crate::rng::random_below;
use crate::text::all_digits;
use crate::text::dec_value;
use crate::text::ends_with_str;
use crate::text::has_suffix;
use crate::text::parse_u32_str;
use crate::text::split_on;
use crate::text::split_str;

verus! {

/// Everything one invocation runs with.
#[derive(Clone)]
pub struct Params {
    pub dir: String,
    pub is_video: bool,
    pub is_gif: bool,
    pub fps: u16,
    pub is_download: bool,
    pub file: Option<String>,
    pub compress_dir: Option<String>,
    pub download_empty: bool,
    pub resolution: Option<Vec<String>>,
    pub download_sfw: bool,
    pub only_download: bool,
    pub interval: i64,
    pub proxy: Option<String>,
}

impl Params {
    pub fn new(
        dir: String,
        is_video: bool,
        is_gif: bool,
        fps: u16,
        file: Option<String>,
        is_download: bool,
        compress_dir: Option<String>,
        download_empty: bool,
        resolution: Option<Vec<String>>,
        download_sfw: bool,
        only_download: bool,
        interval: i64,
        proxy: Option<String>,
    ) -> (p: Params)
        ensures
            p.dir == dir,
            p.is_video == is_video,
            p.is_gif == is_gif,
            p.fps == fps,
            p.is_download == is_download,
            p.file == file,
            p.compress_dir == compress_dir,
            p.download_empty == download_empty,
            p.resolution == resolution,
            p.download_sfw == download_sfw,
            p.only_download == only_download,
            p.interval == interval,
            p.proxy == proxy,
    {
        Params {
            dir,
            is_video,
            is_gif,
            fps,
            is_download,
            file,
            compress_dir,
            download_empty,
            resolution,
            download_sfw,
            only_download,
            interval,
            proxy,
        }
    }
}

/// `dir` with a trailing path separator: unchanged when it already ends
/// with one.
pub open spec fn normalized_dir(dir: Seq<char>) -> Seq<char> {
    if has_suffix(dir, "/"@) {
        dir
    } else {
        dir + "/"@
    }
}

/// Give `dir` its trailing path separator.
pub fn normalize_dir(dir: String) -> (r: String)
    ensures
        r@ == normalized_dir(dir@),
{
    if ends_with_str(dir.as_str(), "/") {
        dir
    } else {
        let mut r = dir;
        r.append("/");
        r
    }
}

/// Split a comma-separated resolution argument into its entries.
pub fn split_resolutions(arg: &str) -> (r: Vec<String>)
    ensures
        r.deep_view() == split_on(arg@, ","@),
        r@.len() >= 1,
{
    proof {
        reveal_strlit(",");
        crate::text::lemma_split_on_from_len(arg@, ","@, 0);
    }
    split_str(arg, ",")
}

/// The digits of an FPS argument: a leading `'+'` sign is accepted.
pub open spec fn fps_digits(s: Seq<char>) -> Seq<char> {
    if s.len() > 0 && s[0] == '+' {
        s.drop_first()
    } else {
        s
    }
}

/// The argument names an integer from 1 to 1000.
pub open spec fn valid_fps(s: Seq<char>) -> bool {
    let d = fps_digits(s);
    d.len() >= 1 && all_digits(d) && 1 <= dec_value(d) <= 1000
}

/// Check an FPS argument: an integer from 1 to 1000, with an optional
/// leading sign.
pub fn is_valid_fps(fps: String) -> (r: Result<(), String>)
    ensures
        r is Ok <==> valid_fps(fps@),
        r matches Err(m) ==> m@ == "The range of FPS is an integer from 1 to 1000"@,
{
    let n = fps.as_str().unicode_len();
    let digits = if n > 0 && fps.as_str().get_char(0) == '+' {
        fps.as_str().substring_char(1, n)
    } else {
        fps.as_str()
    };
    proof {
        assert(digits@ =~= fps_digits(fps@));
    }
    match parse_u32_str(digits) {
        Some(v) => {
            if 1 <= v && v <= 1000 {
                Ok(())
            } else {
                Err("The range of FPS is an integer from 1 to 1000".to_owned())
            }
        },
        None => {
            proof {
                if valid_fps(fps@) {
                    crate::text::lemma_dec_value_nonneg(fps_digits(fps@));
                }
            }
            Err("The range of FPS is an integer from 1 to 1000".to_owned())
        },
    }
}

/// A video argument must name an MP4 file.
pub fn is_mp4_name(file: &str) -> (r: bool)
    ensures
        r == has_suffix(file@, ".mp4"@),
{
    ends_with_str(file, ".mp4")
}

/// A gif argument must name a GIF file.
pub fn is_gif_name(file: &str) -> (r: bool)
    ensures
        r == has_suffix(file@, ".gif"@),
{
    ends_with_str(file, ".gif")
}

/// How long one gif frame is shown, in milliseconds.
pub fn frame_interval_millis(fps: u16) -> (r: u16)
    requires
        fps >= 1,
    ensures
        r == 1000 as int / fps as int,
{
    1000 / fps
}

/// The filename pattern under which video and gif frames are unpacked.
pub fn frames_pattern(dir: &str) -> (r: String)
    ensures
        r@ == dir@ + "/filename%09d.jpg"@,
{
    let mut r = dir.to_owned();
    r.append("/filename%09d.jpg");
    r
}

/// What `Wm` and `Gnome` need beside the downloader: the program list
/// of the chosen desktop integration (unless the run only downloads),
/// then the video toolchain, then the gif toolchain.
pub open spec fn dependency_list(p: Params, de: DesktopEnv) -> Seq<Seq<char>> {
    (if !p.only_download {
        de_dependencies(de)
    } else {
        Seq::<Seq<char>>::empty()
    }) + (if p.is_video {
        video_dependencies()
    } else {
        Seq::<Seq<char>>::empty()
    }) + (if p.is_gif {
        gif_dependencies()
    } else {
        Seq::<Seq<char>>::empty()
    })
}

/// The programs the video path shells out to.
pub open spec fn video_dependencies() -> Seq<Seq<char>> {
    seq!["ffmpeg"@, "convert"@, "xdg-open"@, "bash"@, "sed"@]
}

/// The programs the gif path shells out to.
pub open spec fn gif_dependencies() -> Seq<Seq<char>> {
    seq!["convert"@, "bash"@]
}

/// The programs this run needs installed, in the order they are probed.
pub fn check_dependency(params: &Params, de: DesktopEnv) -> (r: Vec<String>)
    ensures
        r.deep_view() == dependency_list(*params, de),
{
    let mut deps: Vec<String> = Vec::new();
    if !params.only_download {
        let mut w = crate::function::De::wallpaper_dependencies(&de);
        deps.append(&mut w);
    }
    let ghost stage1 = deps.deep_view();
    proof {
        assert(stage1 =~= (if !params.only_download {
            de_dependencies(de)
        } else {
            Seq::<Seq<char>>::empty()
        }));
    }
    if params.is_video {
        deps.push("ffmpeg".to_owned());
        deps.push("convert".to_owned());
        deps.push("xdg-open".to_owned());
        deps.push("bash".to_owned());
        deps.push("sed".to_owned());
    }
    let ghost stage2 = deps.deep_view();
    proof {
        assert(stage2 =~= stage1 + (if params.is_video {
            video_dependencies()
        } else {
            Seq::<Seq<char>>::empty()
        }));
    }
    if params.is_gif {
        deps.push("convert".to_owned());
        deps.push("bash".to_owned());
    }
    proof {
        assert(deps.deep_view() =~= stage2 + (if params.is_gif {
            gif_dependencies()
        } else {
            Seq::<Seq<char>>::empty()
        }));
        assert(deps.deep_view() =~= dependency_list(*params, de));
    }
    deps
}

/// The temporary-directory names drawn for unpacked video and gif
/// frames come from this alphabet.
pub open spec fn rand_charset() -> Seq<char> {
    "ABCDEFGHIJKLMNOPQRSTUVWXYZabcdefghijklmnopqrstuvwxyz0123456789"@
}

/// A random 20-character name over letters and digits.
pub fn gen_rand_string() -> (r: String)
    ensures
        r@.len() == 20,
        forall|i: int| 0 <= i < r@.len() ==> rand_charset().contains(r@[i]),
{
    let charset = "ABCDEFGHIJKLMNOPQRSTUVWXYZabcdefghijklmnopqrstuvwxyz0123456789";
    proof {
        reveal_strlit("ABCDEFGHIJKLMNOPQRSTUVWXYZabcdefghijklmnopqrstuvwxyz0123456789");
    }
    let mut out = String::new();
    let mut k: usize = 0;
    while k < 20
        invariant
            k <= 20,
            charset@ == rand_charset(),
            charset@.len() == 62,
            out@.len() == k,
            forall|i: int| 0 <= i < out@.len() ==> rand_charset().contains(out@[i]),
        decreases 20 - k,
    {
        let idx = random_below(62);
        let c = charset.substring_char(idx, idx + 1);
        out.append(c);
        proof {
            assert(c@[0] == rand_charset()[idx as int]);
            assert(rand_charset().contains(c@[0]));
        }
        k += 1;
    }
    out
}

} // verus!
