//! The player command line for one entry, and the choice of entries to launch.
use vstd::prelude::*;

use crate::config::{
    default_profile_entries, min_one, models, placeholder_entry, EntryModel, MediaKind,
    RuntimeConfig, ScaleMode, SlideshowOrder, SlideshowSettings, WallpaperProfileEntry,
};
use crate::paths::{absolute_path, normalize_entry_path, Environment, MediaError};
use crate::text::{decimal, join_with_spaces, joined, push_decimal, texts};

verus! {

/// The external player that renders wallpapers.
pub const PLAYER: &'static str = "mpvpaper";

/// A program to run and its arguments.
#[derive(Debug, Clone)]
pub struct Invocation {
    pub program: String,
    pub args: Vec<String>,
}

/// Why no invocation could be built.
#[derive(Debug, Clone, Copy, PartialEq, Eq, Structural)]
pub enum InvocationError {
    /// The entry has no assigned display.
    MissingMonitor,
}

pub open spec fn is_folder(m: MediaKind) -> bool {
    m is Folder
}

/// The player options for a media kind, order and scale mode.
pub open spec fn mpv_options(folder: bool, order: SlideshowOrder, scale: ScaleMode) -> Seq<
    Seq<char>,
> {
    let base = seq!["--no-audio"@, "--osc=no"@, "--no-osd-bar"@, "--hwdec=auto-safe"@];
    let looping = if folder {
        match order {
            SlideshowOrder::Random => seq!["--shuffle"@],
            SlideshowOrder::Sequential => seq!["--no-shuffle"@],
        }
    } else {
        seq!["--loop-file=inf"@]
    };
    let scaling = match scale {
        ScaleMode::Fit => seq!["--keepaspect=no"@],
        ScaleMode::Stretch => seq!["--keepaspect=yes"@],
        ScaleMode::Original => seq!["--keepaspect=yes"@, "--video-unscaled=downscale-big"@],
    };
    base + looping + scaling
}

/// The player arguments for `c`; `None` when it names no monitor.
pub open spec fn player_args(c: RuntimeConfig) -> Option<Seq<Seq<char>>> {
    match c.monitor {
        None => None,
        Some(m) => Some(
            (if is_folder(c.media) {
                seq!["-n"@, decimal(min_one(c.slideshow.interval_secs) as nat)]
            } else {
                Seq::empty()
            }) + seq![
                "-o"@,
                joined(mpv_options(is_folder(c.media), c.slideshow.order, c.scale)),
            ] + seq![m@, c.media.path_view()],
        ),
    }
}

fn push_text(v: &mut Vec<String>, s: &str)
    ensures
        texts(final(v)@) == texts(old(v)@).push(s@),
{
    v.push(s.to_owned());
    assert(texts(v@) =~= texts(old(v)@).push(s@));
}

/// The options handed to the player: audio, controls and on-screen display
/// off, safe hardware decoding, then looping and scaling.
pub fn build_mpv_options(config: &RuntimeConfig) -> (r: Vec<String>)
    ensures
        texts(r@) == mpv_options(is_folder(config.media), config.slideshow.order, config.scale),
{
    let mut options: Vec<String> = Vec::new();
    push_text(&mut options, "--no-audio");
    push_text(&mut options, "--osc=no");
    push_text(&mut options, "--no-osd-bar");
    push_text(&mut options, "--hwdec=auto-safe");
    match config.media {
        MediaKind::Folder(_) => match config.slideshow.order {
            SlideshowOrder::Random => push_text(&mut options, "--shuffle"),
            SlideshowOrder::Sequential => push_text(&mut options, "--no-shuffle"),
        },
        _ => push_text(&mut options, "--loop-file=inf"),
    }
    match config.scale {
        ScaleMode::Fit => push_text(&mut options, "--keepaspect=no"),
        ScaleMode::Stretch => push_text(&mut options, "--keepaspect=yes"),
        ScaleMode::Original => {
            push_text(&mut options, "--keepaspect=yes");
            push_text(&mut options, "--video-unscaled=downscale-big");
        },
    }
    assert(texts(options@) =~= mpv_options(
        is_folder(config.media),
        config.slideshow.order,
        config.scale,
    ));
    options
}

/// The player command for `config`: a folder's interval, the joined
/// options, then the monitor and the source path.
pub fn build_invocation(config: &RuntimeConfig) -> (r: Result<Invocation, InvocationError>)
    ensures
        match player_args(*config) {
            None => r == Err::<Invocation, InvocationError>(InvocationError::MissingMonitor),
            Some(args) => r matches Ok(inv) && inv.program@ == PLAYER@ && texts(inv.args@)
                == args,
        },
{
    let monitor = match &config.monitor {
        Some(m) => m,
        None => return Err(InvocationError::MissingMonitor),
    };
    let mut args: Vec<String> = Vec::new();
    match config.media {
        MediaKind::Folder(_) => {
            push_text(&mut args, "-n");
            let seconds = if config.slideshow.interval_secs < 1 {
                1
            } else {
                config.slideshow.interval_secs
            };
            let mut digits = String::new();
            push_decimal(&mut digits, seconds);
            assert(digits@ =~= decimal(seconds as nat));
            let ghost before = texts(args@);
            args.push(digits);
            assert(texts(args@) =~= before.push(digits@));
        },
        _ => {
            assert(texts(args@) =~= Seq::<Seq<char>>::empty());
        },
    }
    let ghost head: Seq<Seq<char>> = if is_folder(config.media) {
        seq!["-n"@, decimal(min_one(config.slideshow.interval_secs) as nat)]
    } else {
        Seq::empty()
    };
    assert(texts(args@) =~= head);
    let options = build_mpv_options(config);
    push_text(&mut args, "-o");
    let joined_options = join_with_spaces(&options);
    let ghost before = texts(args@);
    args.push(joined_options);
    assert(texts(args@) =~= before.push(joined_options@));
    assert(texts(args@) =~= head + seq!["-o"@, joined_options@]);
    let m = monitor.clone();
    args.push(m);
    let p = config.media.path().clone();
    args.push(p);
    assert(texts(args@) =~= head + seq!["-o"@, joined_options@] + seq![m@, p@]);
    assert(texts(args@) =~= player_args(*config)->0);
    Ok(Invocation { program: PLAYER.to_owned(), args })
}

/// An entry is launched when it is enabled and has a path.
pub open spec fn selected(e: EntryModel) -> bool {
    e.enabled && e.path is Some
}

/// The indices of the entries to launch, in order.
pub open spec fn targets(s: Seq<EntryModel>) -> Seq<int>
    decreases s.len(),
{
    if s.len() == 0 {
        Seq::empty()
    } else if selected(s.last()) {
        targets(s.drop_last()).push(s.len() - 1)
    } else {
        targets(s.drop_last())
    }
}

pub open spec fn as_ints(v: Seq<usize>) -> Seq<int> {
    v.map_values(|i: usize| i as int)
}

/// The indices of the enabled entries that have a path.
pub fn select_targets(entries: &[WallpaperProfileEntry]) -> (r: Vec<usize>)
    ensures
        as_ints(r@) == targets(models(entries@)),
{
    let mut out: Vec<usize> = Vec::new();
    let mut i: usize = 0;
    while i < entries.len()
        invariant
            i <= entries@.len(),
            as_ints(out@) == targets(models(entries@.subrange(0, i as int))),
        decreases entries@.len() - i,
    {
        proof {
            assert(models(entries@.subrange(0, i + 1)).drop_last() =~= models(
                entries@.subrange(0, i as int),
            ));
        }
        if entries[i].enabled && entries[i].path.is_some() {
            out.push(i);
        }
        i = i + 1;
        assert(as_ints(out@) =~= targets(models(entries@.subrange(0, i as int))));
    }
    assert(entries@.subrange(0, entries@.len() as int) =~= entries@);
    out
}

/// What launching from the profile does.
#[derive(Debug, Clone)]
pub enum LaunchPlan {
    /// A default profile was just written; the user should edit it first.
    CreatedDefault,
    /// No enabled entry has a path.
    NothingToLaunch,
    /// Launch the entries at these indices.
    Launch(Vec<usize>),
}

/// Decides what launching from `entries` does; `created` tells that the
/// profile was just written with defaults.
pub fn plan_launch(entries: &[WallpaperProfileEntry], created: bool) -> (r: LaunchPlan)
    ensures
        created ==> r is CreatedDefault,
        !created && targets(models(entries@)).len() == 0 ==> r is NothingToLaunch,
        !created && targets(models(entries@)).len() > 0 ==> (r matches LaunchPlan::Launch(t)
            && as_ints(t@) == targets(models(entries@))),
{
    if created {
        return LaunchPlan::CreatedDefault;
    }
    let t = select_targets(entries);
    if t.len() == 0 {
        LaunchPlan::NothingToLaunch
    } else {
        LaunchPlan::Launch(t)
    }
}

/// The entries a launch reads: the stored ones, or the default profile when
/// none are stored (which the caller then writes back).
pub fn launch_entries(stored: Vec<WallpaperProfileEntry>) -> (r: Vec<WallpaperProfileEntry>)
    ensures
        stored@.len() == 0 ==> models(r@) == seq![placeholder_entry(None)],
        stored@.len() > 0 ==> r@ == stored@,
{
    if stored.len() == 0 {
        default_profile_entries()
    } else {
        stored
    }
}

/// Why an entry could not be launched.
#[derive(Debug, Clone, PartialEq, Eq)]
pub enum LaunchError {
    /// There is no entry at this index.
    NoEntry(usize),
    /// The entry has no path.
    MissingPath,
    /// The path does not hold a usable source.
    Media(MediaError),
}

/// The absolute path of entry `index`, the one to classify before launching.
pub fn launch_source(entries: &[WallpaperProfileEntry], index: usize, env: &Environment) -> (r:
    Result<String, LaunchError>)
    ensures
        index >= entries@.len() ==> r == Err::<String, LaunchError>(LaunchError::NoEntry(index)),
        index < entries@.len() ==> match entries@[index as int].path {
            None => r == Err::<String, LaunchError>(LaunchError::MissingPath),
            Some(p) => r matches Ok(s) && s@ == absolute_path(p@, *env),
        },
{
    if index >= entries.len() {
        return Err(LaunchError::NoEntry(index));
    }
    match &entries[index].path {
        None => Err(LaunchError::MissingPath),
        Some(p) => Ok(normalize_entry_path(p, env)),
    }
}

impl RuntimeConfig {
    /// The launch settings of entry `index`, given how its source was
    /// classified: its monitor, the media, its order, its interval raised to
    /// at least one second, and its scale mode.
    pub fn from_entry(
        entries: &[WallpaperProfileEntry],
        index: usize,
        media: Result<MediaKind, MediaError>,
    ) -> (r: Result<RuntimeConfig, LaunchError>)
        ensures
            index >= entries@.len() ==> r == Err::<RuntimeConfig, LaunchError>(
                LaunchError::NoEntry(index),
            ),
            index < entries@.len() ==> {
                let e = entries@[index as int];
                if e.path is None {
                    r == Err::<RuntimeConfig, LaunchError>(LaunchError::MissingPath)
                } else {
                    match media {
                        Err(m) => r == Err::<RuntimeConfig, LaunchError>(LaunchError::Media(m)),
                        Ok(k) => r matches Ok(c) && c.media == k && crate::config::opt_view(
                            c.monitor,
                        ) == e@.monitor && c.slideshow.order == e.order
                            && c.slideshow.interval_secs == min_one(e.interval_seconds)
                            && c.scale == e.scale,
                    }
                }
            },
    {
        if index >= entries.len() {
            return Err(LaunchError::NoEntry(index));
        }
        let entry = &entries[index];
        if entry.path.is_none() {
            return Err(LaunchError::MissingPath);
        }
        let media = match media {
            Ok(k) => k,
            Err(e) => return Err(LaunchError::Media(e)),
        };
        let interval = if entry.interval_seconds < 1 {
            1
        } else {
            entry.interval_seconds
        };
        Ok(RuntimeConfig {
            monitor: crate::config::copy_opt_string(&entry.monitor),
            media,
            slideshow: SlideshowSettings { order: entry.order, interval_secs: interval },
            scale: entry.scale,
        })
    }
}

} // verus!
