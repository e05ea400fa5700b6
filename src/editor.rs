//! The in-memory, editable state of one monitor's tab.
use vstd::prelude::*;

use crate::config::{
    min_one, opt_view, EntryModel, ScaleMode, SlideshowOrder, WallpaperProfileEntry,
    DEFAULT_INTERVAL_SECS,
};
use crate::interval::{format_interval, hms_text, interval_of, parse_interval, IntervalError};
use crate::monitors::{Monitor, MonitorModel};
use crate::paths::{parse_user_path, user_path, Environment, FileType};
use crate::text::{chars_of, string_from, trim_bounds, trimmed};

verus! {

/// What the typed path points at, as far as the editor can tell.
#[derive(Debug, Clone, Copy, PartialEq, Eq, Structural)]
pub enum PathKind {
    Empty,
    File,
    Folder,
    Unknown,
}

impl PathKind {
    /// The line shown under the path field.
    pub fn description(&self) -> (r: &'static str)
        ensures
            r@ == match self {
                PathKind::Empty => "No path configured."@,
                PathKind::File => "Detected: file"@,
                PathKind::Folder => "Detected: folder"@,
                PathKind::Unknown => "Unable to detect path type (will try at runtime)"@,
            },
    {
        match self {
            PathKind::Empty => "No path configured.",
            PathKind::File => "Detected: file",
            PathKind::Folder => "Detected: folder",
            PathKind::Unknown => "Unable to detect path type (will try at runtime)",
        }
    }
}

pub open spec fn path_kind_of(input: Seq<char>, stat: Option<FileType>) -> PathKind {
    if trimmed(input).len() == 0 {
        PathKind::Empty
    } else {
        match stat {
            Some(FileType::Directory) => PathKind::Folder,
            Some(FileType::File) => PathKind::File,
            _ => PathKind::Unknown,
        }
    }
}

/// The kind of the typed path `input`, given what the file system reports
/// for the path it stands for (`parse_user_path` of it).
pub fn detect_path_kind(input: &str, stat: Option<FileType>) -> (r: PathKind)
    ensures
        r == path_kind_of(input@, stat),
{
    let cs = chars_of(input);
    let (lo, hi) = trim_bounds(&cs);
    if lo == hi {
        return PathKind::Empty;
    }
    match stat {
        Some(FileType::Directory) => PathKind::Folder,
        Some(FileType::File) => PathKind::File,
        _ => PathKind::Unknown,
    }
}

/// The values of an editor, with texts as character sequences.
pub struct EditorModel {
    pub path_text: Seq<char>,
    pub enabled: bool,
    pub scale: ScaleMode,
    pub order: SlideshowOrder,
    pub interval_seconds: u64,
    pub interval_text: Seq<char>,
    pub interval_error: Option<IntervalError>,
    pub dirty: bool,
}

/// The editable fields of one monitor's entry.
#[derive(Debug)]
pub struct MonitorEditor {
    pub path_text: String,
    pub enabled: bool,
    pub scale: ScaleMode,
    pub order: SlideshowOrder,
    /// The last valid interval, in seconds.
    pub interval_seconds: u64,
    /// The interval as typed.
    pub interval_text: String,
    /// Set while `interval_text` does not parse.
    pub interval_error: Option<IntervalError>,
    /// Edits not yet saved.
    pub dirty: bool,
}

impl View for MonitorEditor {
    type V = EditorModel;

    open spec fn view(&self) -> EditorModel {
        EditorModel {
            path_text: self.path_text@,
            enabled: self.enabled,
            scale: self.scale,
            order: self.order,
            interval_seconds: self.interval_seconds,
            interval_text: self.interval_text@,
            interval_error: self.interval_error,
            dirty: self.dirty,
        }
    }
}

/// The editor state built from a saved entry, or the blank one.
pub open spec fn editor_from(entry: Option<EntryModel>) -> EditorModel {
    match entry {
        Some(e) => EditorModel {
            path_text: match e.path {
                Some(p) => p,
                None => Seq::empty(),
            },
            enabled: e.enabled,
            scale: e.scale,
            order: e.order,
            interval_seconds: min_one(e.interval_seconds),
            interval_text: hms_text(min_one(e.interval_seconds) as nat),
            interval_error: None,
            dirty: false,
        },
        None => EditorModel {
            path_text: Seq::empty(),
            enabled: false,
            scale: ScaleMode::Fit,
            order: SlideshowOrder::Sequential,
            interval_seconds: DEFAULT_INTERVAL_SECS,
            interval_text: hms_text(DEFAULT_INTERVAL_SECS as nat),
            interval_error: None,
            dirty: false,
        },
    }
}

impl MonitorEditor {
    /// The interval in use is at least one second.
    pub open spec fn wf(&self) -> bool {
        self.interval_seconds >= 1
    }

    /// A clean editor holding `entry`'s values, or the blank one.
    pub fn new(entry: Option<WallpaperProfileEntry>) -> (r: Self)
        ensures
            r@ == editor_from(match entry {
                Some(e) => Some(e@),
                None => None,
            }),
            r.wf(),
    {
        match entry {
            Some(e) => {
                let interval = if e.interval_seconds < 1 {
                    1
                } else {
                    e.interval_seconds
                };
                let path = match e.path {
                    Some(p) => p,
                    None => String::new(),
                };
                MonitorEditor {
                    path_text: path,
                    enabled: e.enabled,
                    scale: e.scale,
                    order: e.order,
                    interval_seconds: interval,
                    interval_text: format_interval(interval),
                    interval_error: None,
                    dirty: false,
                }
            },
            None => MonitorEditor {
                path_text: String::new(),
                enabled: false,
                scale: ScaleMode::Fit,
                order: SlideshowOrder::Sequential,
                interval_seconds: DEFAULT_INTERVAL_SECS,
                interval_text: format_interval(DEFAULT_INTERVAL_SECS),
                interval_error: None,
                dirty: false,
            },
        }
    }

    /// Replaces the typed path; the editor becomes dirty.
    pub fn set_path_text(&mut self, value: String)
        ensures
            final(self)@ == (EditorModel { path_text: value@, dirty: true, ..old(self)@ }),
    {
        self.path_text = value;
        self.dirty = true;
    }

    /// Replaces the path with one picked from a dialog; the editor becomes dirty.
    pub fn set_path_buf(&mut self, path: String)
        ensures
            final(self)@ == (EditorModel { path_text: path@, dirty: true, ..old(self)@ }),
    {
        self.set_path_text(path);
    }

    /// The path the typed text stands for; `None` when it is blank.
    pub fn path_buf(&self, env: &Environment) -> (r: Option<String>)
        ensures
            opt_view(r) == user_path(self.path_text@, env.vars@),
    {
        parse_user_path(self.path_text.as_str(), env)
    }

    /// Sets the scale mode; the editor becomes dirty if it changed.
    pub fn set_scale(&mut self, scale: ScaleMode)
        ensures
            final(self)@ == (EditorModel {
                scale,
                dirty: old(self).dirty || old(self).scale != scale,
                ..old(self)@
            }),
    {
        if self.scale != scale {
            self.scale = scale;
            self.dirty = true;
        }
    }

    /// Sets the slideshow order; the editor becomes dirty if it changed.
    pub fn set_order(&mut self, order: SlideshowOrder)
        ensures
            final(self)@ == (EditorModel {
                order,
                dirty: old(self).dirty || old(self).order != order,
                ..old(self)@
            }),
    {
        if self.order != order {
            self.order = order;
            self.dirty = true;
        }
    }

    /// Sets the enabled flag; the editor becomes dirty if it changed.
    pub fn set_enabled(&mut self, value: bool)
        ensures
            final(self)@ == (EditorModel {
                enabled: value,
                dirty: old(self).dirty || old(self).enabled != value,
                ..old(self)@
            }),
    {
        if self.enabled != value {
            self.enabled = value;
            self.dirty = true;
        }
    }

    /// Takes new interval text: a valid one replaces the interval and clears
    /// the error, an invalid one records the error and keeps the interval.
    /// The editor becomes dirty either way.
    pub fn set_interval(&mut self, value: String)
        ensures
            old(self).wf() ==> final(self).wf(),
            final(self)@ == (match interval_of(value@) {
                Ok(s) => EditorModel {
                    interval_text: value@,
                    interval_error: None,
                    interval_seconds: s as u64,
                    dirty: true,
                    ..old(self)@
                },
                Err(e) => EditorModel {
                    interval_text: value@,
                    interval_error: Some(e),
                    dirty: true,
                    ..old(self)@
                },
            }),
    {
        match parse_interval(value.as_str()) {
            Ok(seconds) => {
                self.interval_error = None;
                self.interval_seconds = if seconds < 1 {
                    1
                } else {
                    seconds
                };
            },
            Err(err) => {
                self.interval_error = Some(err);
            },
        }
        self.interval_text = value;
        self.dirty = true;
    }

    /// Records that the editor's values were saved.
    pub fn mark_saved(&mut self)
        ensures
            final(self)@ == (EditorModel { dirty: false, ..old(self)@ }),
    {
        self.dirty = false;
    }

    pub fn is_dirty(&self) -> (r: bool)
        ensures
            r == self.dirty,
    {
        self.dirty
    }

    pub fn enabled(&self) -> (r: bool)
        ensures
            r == self.enabled,
    {
        self.enabled
    }
}

/// One connected monitor with its editor.
#[derive(Debug)]
pub struct MonitorTab {
    pub monitor: Monitor,
    pub editor: MonitorEditor,
}

pub struct TabModel {
    pub monitor: MonitorModel,
    pub editor: EditorModel,
}

impl View for MonitorTab {
    type V = TabModel;

    open spec fn view(&self) -> TabModel {
        TabModel { monitor: self.monitor@, editor: self.editor@ }
    }
}

impl MonitorTab {
    /// The tab's title: the monitor name, with ` *` while edits are unsaved.
    pub fn label(&self) -> (r: String)
        ensures
            r@ == if self.editor.dirty {
                self.monitor.name@ + seq![' ', '*']
            } else {
                self.monitor.name@
            },
    {
        let name = self.monitor.name.clone();
        if self.editor.dirty {
            let mark = string_from(&[' ', '*']);
            name.concat(mark.as_str())
        } else {
            name
        }
    }
}

} // verus!
