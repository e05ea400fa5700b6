//! Wallpaper entries, their defaults, and the profile store's rules.
use vstd::prelude::*;

use crate::monitors::Monitor;

verus! {

/// The text placed in a new entry's path until the user picks a source.
pub const PLACEHOLDER_PATH: &'static str = "your/image/or/folder/here";

/// The slideshow interval of a new entry, in seconds.
pub const DEFAULT_INTERVAL_SECS: u64 = 300;

/// The comment block written at the top of the profile file.
pub const CONFIG_HEADER: &'static str = "# ///////////////////////////////////////////////
# This config powers WallPaper Engine (wpe).
# Each display starts with [[wallpapers]] and is
# auto-populated either by the GUI or by
# running wpe -c on first run. monitor is
# the output we're targeting. path is the
# image, video, or folder. scale controls how
# mpvpaper scales the source: fit fills the
# monitor, stretch preserves aspect ratio, and
# original uses the source resolution. Set enabled
# to false to leave a display unconfigured without
# clearing the path. order is for folders:
# sequential (A-Z) or random.
# interval_seconds is the amount of time (in
# seconds) before folder content swaps to the
# next image or video.
# ///////////////////////////////////////////////
";

/// How the player scales the source onto the output.
#[derive(Debug, Clone, Copy, PartialEq, Eq, Structural)]
pub enum ScaleMode {
    /// Fill the whole output, ignoring the aspect ratio.
    Fit,
    /// Scale uniformly, keeping the aspect ratio.
    Stretch,
    /// Keep the aspect ratio and never upscale.
    Original,
}

impl Default for ScaleMode {
    fn default() -> (r: Self)
        ensures
            r == ScaleMode::Fit,
    {
        ScaleMode::Fit
    }
}

/// The order in which a folder's files are shown.
#[derive(Debug, Clone, Copy, PartialEq, Eq, Structural)]
pub enum SlideshowOrder {
    Sequential,
    Random,
}

impl Default for SlideshowOrder {
    fn default() -> (r: Self)
        ensures
            r == SlideshowOrder::Sequential,
    {
        SlideshowOrder::Sequential
    }
}

/// A resolved source, classified by what the file system holds there.
#[derive(Debug, Clone)]
pub enum MediaKind {
    Image(String),
    Folder(String),
    Video(String),
}

impl MediaKind {
    pub open spec fn path_view(&self) -> Seq<char> {
        match self {
            MediaKind::Image(p) => p@,
            MediaKind::Folder(p) => p@,
            MediaKind::Video(p) => p@,
        }
    }

    /// The resolved path, whatever the kind.
    pub fn path(&self) -> (r: &String)
        ensures
            r@ == self.path_view(),
    {
        match self {
            MediaKind::Image(path) => path,
            MediaKind::Folder(path) => path,
            MediaKind::Video(path) => path,
        }
    }
}

/// Slideshow settings of a launch.
#[derive(Debug, Clone, Copy)]
pub struct SlideshowSettings {
    pub order: SlideshowOrder,
    /// Seconds between two items of a folder.
    pub interval_secs: u64,
}

/// Everything one player instance needs, derived from one entry at launch.
#[derive(Debug, Clone)]
pub struct RuntimeConfig {
    pub monitor: Option<String>,
    pub media: MediaKind,
    pub slideshow: SlideshowSettings,
    pub scale: ScaleMode,
}

/// The values of an entry, with texts as character sequences.
pub struct EntryModel {
    pub monitor: Option<Seq<char>>,
    pub path: Option<Seq<char>>,
    pub enabled: bool,
    pub scale: ScaleMode,
    pub order: SlideshowOrder,
    pub interval_seconds: u64,
}

/// One persisted wallpaper entry of the profile.
#[derive(Debug, Clone)]
pub struct WallpaperProfileEntry {
    /// The output this entry belongs to; `None` marks an unassigned entry.
    pub monitor: Option<String>,
    pub path: Option<String>,
    pub enabled: bool,
    pub scale: ScaleMode,
    pub order: SlideshowOrder,
    pub interval_seconds: u64,
}

pub open spec fn opt_view(o: Option<String>) -> Option<Seq<char>> {
    match o {
        Some(s) => Some(s@),
        None => None,
    }
}

pub fn copy_opt_string(o: &Option<String>) -> (r: Option<String>)
    ensures
        opt_view(r) == opt_view(*o),
{
    match o {
        Some(s) => Some(s.clone()),
        None => None,
    }
}

impl View for WallpaperProfileEntry {
    type V = EntryModel;

    open spec fn view(&self) -> EntryModel {
        EntryModel {
            monitor: opt_view(self.monitor),
            path: opt_view(self.path),
            enabled: self.enabled,
            scale: self.scale,
            order: self.order,
            interval_seconds: self.interval_seconds,
        }
    }
}

/// `max(1, s)`: the smallest interval ever stored or used is one second.
pub open spec fn min_one(s: u64) -> u64 {
    if s < 1 {
        1
    } else {
        s
    }
}

/// The placeholder entry that a fresh profile holds for `monitor`.
pub open spec fn placeholder_entry(monitor: Option<Seq<char>>) -> EntryModel {
    EntryModel {
        monitor: monitor,
        path: Some(PLACEHOLDER_PATH@),
        enabled: false,
        scale: ScaleMode::Fit,
        order: SlideshowOrder::Sequential,
        interval_seconds: DEFAULT_INTERVAL_SECS,
    }
}

/// `e` with its interval raised to at least one second.
pub open spec fn clamped(e: EntryModel) -> EntryModel {
    EntryModel { interval_seconds: min_one(e.interval_seconds), ..e }
}

pub open spec fn models(s: Seq<WallpaperProfileEntry>) -> Seq<EntryModel> {
    s.map_values(|e: WallpaperProfileEntry| e@)
}

pub open spec fn all_clamped(s: Seq<EntryModel>) -> Seq<EntryModel> {
    s.map_values(|e: EntryModel| clamped(e))
}

impl WallpaperProfileEntry {
    /// A copy with the same values.
    pub fn copied(&self) -> (r: Self)
        ensures
            r@ == self@,
    {
        WallpaperProfileEntry {
            monitor: copy_opt_string(&self.monitor),
            path: copy_opt_string(&self.path),
            enabled: self.enabled,
            scale: self.scale,
            order: self.order,
            interval_seconds: self.interval_seconds,
        }
    }

    /// The entry with its interval raised to at least one second.
    pub fn clamped(&self) -> (r: Self)
        ensures
            r@ == clamped(self@),
    {
        let mut r = self.copied();
        if r.interval_seconds < 1 {
            r.interval_seconds = 1;
        }
        r
    }

    /// The placeholder entry for `monitor`.
    pub fn placeholder(monitor: Option<String>) -> (r: Self)
        ensures
            r@ == placeholder_entry(opt_view(monitor)),
    {
        WallpaperProfileEntry {
            monitor,
            path: Some(PLACEHOLDER_PATH.to_owned()),
            enabled: false,
            scale: ScaleMode::Fit,
            order: SlideshowOrder::Sequential,
            interval_seconds: DEFAULT_INTERVAL_SECS,
        }
    }
}

impl Default for WallpaperProfileEntry {
    fn default() -> (r: Self)
        ensures
            r@ == placeholder_entry(None),
    {
        WallpaperProfileEntry::placeholder(None)
    }
}

/// The interval a profile file falls back to when an entry omits it.
pub fn default_interval_secs() -> (r: u64)
    ensures
        r == DEFAULT_INTERVAL_SECS,
{
    DEFAULT_INTERVAL_SECS
}

/// The enabled flag a profile file falls back to when an entry omits it.
pub fn default_enabled_false() -> (r: bool)
    ensures
        !r,
{
    false
}

fn clamp_all(entries: &[WallpaperProfileEntry]) -> (r: Vec<WallpaperProfileEntry>)
    ensures
        models(r@) == all_clamped(models(entries@)),
{
    let mut out: Vec<WallpaperProfileEntry> = Vec::new();
    let mut i: usize = 0;
    while i < entries.len()
        invariant
            i <= entries@.len(),
            out@.len() == i,
            forall|k: int| 0 <= k < i ==> #[trigger] out@[k]@ == clamped(entries@[k]@),
        decreases entries@.len() - i,
    {
        let e = entries[i].clamped();
        out.push(e);
        i = i + 1;
    }
    assert(models(out@) =~= all_clamped(models(entries@)));
    out
}

/// The entries of a profile as read from disk, each interval raised to at
/// least one second.
pub fn load_wallpaper_entries(stored: &[WallpaperProfileEntry]) -> (r: Vec<WallpaperProfileEntry>)
    ensures
        models(r@) == all_clamped(models(stored@)),
{
    clamp_all(stored)
}

/// The entries as a save writes them: every interval raised to at least one
/// second, nothing else changed.
pub fn save_wallpaper_entries(entries: &[WallpaperProfileEntry]) -> (r: Vec<
    WallpaperProfileEntry,
>)
    ensures
        models(r@) == all_clamped(models(entries@)),
{
    clamp_all(entries)
}

/// The entries a profile holds when none exists yet: one placeholder.
pub fn default_profile_entries() -> (r: Vec<WallpaperProfileEntry>)
    ensures
        models(r@) == seq![placeholder_entry(None)],
{
    let r = vec![WallpaperProfileEntry::default()];
    assert(models(r@) =~= seq![placeholder_entry(None)]);
    r
}

/// The entries synthesised for a first run: a disabled placeholder per
/// connected monitor, or a single unassigned one when none is connected.
pub open spec fn first_run_entries(names: Seq<Seq<char>>) -> Seq<EntryModel> {
    if names.len() == 0 {
        seq![placeholder_entry(None)]
    } else {
        names.map_values(|n: Seq<char>| placeholder_entry(Some(n)))
    }
}

pub open spec fn monitor_names(ms: Seq<Monitor>) -> Seq<Seq<char>> {
    ms.map_values(|m: Monitor| m.name@)
}

/// The profile to use for `monitors`: the existing one (with intervals of at
/// least one second) and `false`, or a fresh one and `true` when none exists.
/// A fresh profile is to be written to disk by the caller.
pub fn ensure_profile_for_monitors(
    monitors: &[Monitor],
    existing: Option<&[WallpaperProfileEntry]>,
) -> (r: (Vec<WallpaperProfileEntry>, bool))
    ensures
        match existing {
            Some(stored) => !r.1 && models(r.0@) == all_clamped(models(stored@)),
            None => r.1 && models(r.0@) == first_run_entries(monitor_names(monitors@)),
        },
{
    match existing {
        Some(stored) => (load_wallpaper_entries(stored), false),
        None => {
            if monitors.len() == 0 {
                let r = default_profile_entries();
                assert(models(r@) =~= first_run_entries(monitor_names(monitors@)));
                return (r, true);
            }
            let mut out: Vec<WallpaperProfileEntry> = Vec::new();
            let mut i: usize = 0;
            while i < monitors.len()
                invariant
                    i <= monitors@.len(),
                    out@.len() == i,
                    forall|k: int|
                        0 <= k < i ==> #[trigger] out@[k]@ == placeholder_entry(
                            Some(monitors@[k].name@),
                        ),
                decreases monitors@.len() - i,
            {
                let e = WallpaperProfileEntry::placeholder(Some(monitors[i].name.clone()));
                out.push(e);
                i = i + 1;
            }
            assert(models(out@) =~= first_run_entries(monitor_names(monitors@)));
            (out, true)
        },
    }
}

/// The full text of a profile file: the comment block, then the body.
pub fn profile_file_text(body: &str) -> (r: String)
    ensures
        r@ == CONFIG_HEADER@ + body@,
{
    CONFIG_HEADER.to_owned().concat(body)
}

/// Saving entries and loading them back gives every entry back unchanged
/// but for its interval, which becomes `max(1, interval)`.
pub proof fn lemma_save_load_round_trip(entries: Seq<WallpaperProfileEntry>)
    ensures
        all_clamped(all_clamped(models(entries))).len() == entries.len(),
        forall|i: int|
            0 <= i < entries.len() ==> {
                let back = #[trigger] all_clamped(all_clamped(models(entries)))[i];
                &&& back.monitor == entries[i]@.monitor
                &&& back.path == entries[i]@.path
                &&& back.enabled == entries[i].enabled
                &&& back.scale == entries[i].scale
                &&& back.order == entries[i].order
                &&& back.interval_seconds == min_one(entries[i].interval_seconds)
            },
{
}

} // verus!
