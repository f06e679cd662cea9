//! Desktop-environment integration and the small parsing helpers around
//! it: which commands apply a wallpaper, which programs they need, how
//! the monitor listing is read, and how a random file is chosen.
//!
//! Running the commands, probing installed programs and listing
//! directories is the application's business; it hands the outputs and
//! directory listings in as plain values.

use vstd::prelude::*;

use crate::rng::random_below;
use crate::text::is_blank;
use crate::text::is_blank_str;
use crate::text::lemma_split_on_from_len;
use crate::text::split_on;
use crate::text::split_str;
use crate::text::str_eq;

verus! {

/// A desktop environment's wallpaper integration.
pub trait De {
    /// The programs this integration relies on.
    fn wallpaper_dependencies(&self) -> Vec<String>;

    /// The shell command that applies the given wallpapers.
    fn set_wallpaper_command(&self, wallpaper_paths: &Vec<String>) -> String;
}

/// A plain window manager, served through feh.
pub struct Wm();

/// The GNOME desktop, served through gsettings.
pub struct Gnome();

/// What `Wm` needs installed.
pub open spec fn wm_dependencies() -> Seq<Seq<char>> {
    seq!["feh -h"@]
}

/// What `Gnome` needs installed.
pub open spec fn gnome_dependencies() -> Seq<Seq<char>> {
    seq!["gsettings"@]
}

/// The feh invocation for a list of wallpaper paths, one per monitor.
pub open spec fn wm_command(paths: Seq<Seq<char>>) -> Seq<char>
    decreases paths.len(),
{
    if paths.len() == 0 {
        "feh --bg-scale "@
    } else {
        wm_command(paths.drop_last()) + " "@ + paths.last() + " "@
    }
}

/// The gsettings invocation for the first wallpaper path (GNOME applies
/// a single background).
pub open spec fn gnome_command(paths: Seq<Seq<char>>) -> Seq<char> {
    "gsettings set org.gnome.desktop.background picture-uri file:///"@ + (if paths.len() > 0 {
        paths[0]
    } else {
        Seq::<char>::empty()
    })
}

impl De for Wm {
    fn wallpaper_dependencies(&self) -> (r: Vec<String>)
        ensures
            r.deep_view() == wm_dependencies(),
    {
        let mut v: Vec<String> = Vec::new();
        v.push("feh -h".to_owned());
        proof {
            assert(v.deep_view() =~= wm_dependencies());
        }
        v
    }

    fn set_wallpaper_command(&self, wallpaper_paths: &Vec<String>) -> (r: String)
        ensures
            r@ == wm_command(wallpaper_paths.deep_view()),
    {
        let mut command = "feh --bg-scale ".to_owned();
        let count = wallpaper_paths.len();
        let mut i: usize = 0;
        while i < count
            invariant
                i <= count,
                count == wallpaper_paths@.len(),
                command@ == wm_command(wallpaper_paths.deep_view().subrange(0, i as int)),
            decreases count - i,
        {
            command.append(" ");
            command.append(wallpaper_paths[i].as_str());
            command.append(" ");
            proof {
                let dv = wallpaper_paths.deep_view();
                assert(dv.subrange(0, i + 1).drop_last() =~= dv.subrange(0, i as int));
                assert(dv.subrange(0, i + 1).last() == dv[i as int]);
                assert(dv[i as int] == wallpaper_paths@[i as int]@);
            }
            i += 1;
        }
        proof {
            assert(wallpaper_paths.deep_view().subrange(0, count as int)
                =~= wallpaper_paths.deep_view());
        }
        command
    }
}

impl De for Gnome {
    fn wallpaper_dependencies(&self) -> (r: Vec<String>)
        ensures
            r.deep_view() == gnome_dependencies(),
    {
        let mut v: Vec<String> = Vec::new();
        v.push("gsettings".to_owned());
        proof {
            assert(v.deep_view() =~= gnome_dependencies());
        }
        v
    }

    fn set_wallpaper_command(&self, wallpaper_paths: &Vec<String>) -> (r: String)
        ensures
            r@ == gnome_command(wallpaper_paths.deep_view()),
    {
        let mut command = "gsettings set org.gnome.desktop.background picture-uri file:///"
            .to_owned();
        if wallpaper_paths.len() > 0 {
            command.append(wallpaper_paths[0].as_str());
            proof {
                assert(wallpaper_paths.deep_view()[0] == wallpaper_paths@[0]@);
            }
        }
        command
    }
}

/// Which integration serves a desktop, by the name the session
/// advertises.
#[derive(Clone, Copy, PartialEq, Eq, Structural, Debug)]
pub enum DesktopEnv {
    Wm,
    Gnome,
}

/// The dependency list of a chosen integration.
pub open spec fn de_dependencies(de: DesktopEnv) -> Seq<Seq<char>> {
    match de {
        DesktopEnv::Wm => wm_dependencies(),
        DesktopEnv::Gnome => gnome_dependencies(),
    }
}

impl De for DesktopEnv {
    fn wallpaper_dependencies(&self) -> (r: Vec<String>)
        ensures
            r.deep_view() == de_dependencies(*self),
    {
        match self {
            DesktopEnv::Wm => Wm().wallpaper_dependencies(),
            DesktopEnv::Gnome => Gnome().wallpaper_dependencies(),
        }
    }

    fn set_wallpaper_command(&self, wallpaper_paths: &Vec<String>) -> (r: String)
        ensures
            r@ == (match *self {
                DesktopEnv::Wm => wm_command(wallpaper_paths.deep_view()),
                DesktopEnv::Gnome => gnome_command(wallpaper_paths.deep_view()),
            }),
    {
        match self {
            DesktopEnv::Wm => Wm().set_wallpaper_command(wallpaper_paths),
            DesktopEnv::Gnome => Gnome().set_wallpaper_command(wallpaper_paths),
        }
    }
}

/// The integration for the desktop named `desktop` (as the session's
/// environment advertises it): GNOME for `ubuntu:GNOME`, the plain
/// window manager otherwise.
pub fn get_de(desktop: &str) -> (r: DesktopEnv)
    ensures
        r == (if desktop@ == "ubuntu:GNOME"@ {
            DesktopEnv::Gnome
        } else {
            DesktopEnv::Wm
        }),
{
    if str_eq(desktop, "ubuntu:GNOME") {
        DesktopEnv::Gnome
    } else {
        DesktopEnv::Wm
    }
}

/// The lines of `lines` that hold more than whitespace, in order.
pub open spec fn keep_non_blank(lines: Seq<Seq<char>>) -> Seq<Seq<char>>
    decreases lines.len(),
{
    if lines.len() == 0 {
        Seq::empty()
    } else {
        keep_non_blank(lines.drop_last()) + (if is_blank(lines.last()) {
            Seq::<Seq<char>>::empty()
        } else {
            seq![lines.last()]
        })
    }
}

/// Read the resolutions out of the monitor-listing output: its
/// non-blank lines, in order.  `Err` exactly when none is left.
pub fn get_resolution(output: &str) -> (r: Result<Vec<String>, String>)
    ensures
        r matches Ok(v) ==> v.deep_view() == keep_non_blank(split_on(output@, "\n"@))
            && v@.len() >= 1,
        r is Err <==> keep_non_blank(split_on(output@, "\n"@)).len() == 0,
        r matches Err(m) ==> m@ == "Get resolutions error"@,
{
    proof {
        reveal_strlit("\n");
    }
    let lines = split_str(output, "\n");
    let count = lines.len();
    let mut kept: Vec<String> = Vec::new();
    let mut i: usize = 0;
    while i < count
        invariant
            i <= count,
            count == lines@.len(),
            lines.deep_view() == split_on(output@, "\n"@),
            kept.deep_view() == keep_non_blank(lines.deep_view().subrange(0, i as int)),
        decreases count - i,
    {
        let ghost dv = lines.deep_view();
        proof {
            assert(dv.subrange(0, i + 1).drop_last() =~= dv.subrange(0, i as int));
            assert(dv.subrange(0, i + 1).last() == dv[i as int]);
            assert(dv[i as int] == lines@[i as int]@);
        }
        if !is_blank_str(lines[i].as_str()) {
            let ghost prev = kept.deep_view();
            kept.push(lines[i].clone());
            proof {
                assert(kept.deep_view() =~= prev + seq![dv[i as int]]);
            }
        }
        i += 1;
    }
    proof {
        assert(lines.deep_view().subrange(0, count as int) =~= lines.deep_view());
    }
    if kept.len() == 0 {
        Err("Get resolutions error".to_owned())
    } else {
        Ok(kept)
    }
}

/// The words of a command line: the program, then its arguments, split
/// at every single space.
pub fn command_parts(app: &str) -> (r: Vec<String>)
    ensures
        r.deep_view() == split_on(app@, " "@),
        r@.len() >= 1,
{
    proof {
        reveal_strlit(" ");
        lemma_split_on_from_len(app@, " "@, 0);
    }
    split_str(app, " ")
}

/// A uniformly random choice out of the files of a directory: the
/// directory itself when the listing is empty, else `dir` joined with
/// one of the listed names.
pub fn get_random_file(dir: &str, names: &Vec<String>) -> (r: String)
    ensures
        names@.len() == 0 ==> r@ == dir@,
        names@.len() > 0 ==> exists|i: int|
            0 <= i < names@.len() && r@ == dir@ + "/"@ + names@[i]@,
{
    if names.len() == 0 {
        dir.to_owned()
    } else {
        let idx = random_below(names.len());
        let mut r = dir.to_owned();
        r.append("/");
        r.append(names[idx].as_str());
        proof {
            assert(r@ == dir@ + "/"@ + names@[idx as int]@);
        }
        r
    }
}

} // verus!
