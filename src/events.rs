//! What each editor event does to the session, and which outside action
//! (a dialog, a start, a stop, a liveness check) it asks for.
use vstd::prelude::*;

use crate::config::{models, ScaleMode, SlideshowOrder, WallpaperProfileEntry};
use crate::editor::{EditorModel, TabModel};
use crate::interval::interval_of;
use crate::monitors::Monitor;
use crate::session::{
    monitors_view, reconcile_status, reconciled_saved, reconciled_tabs, tabs_view, EditorSession,
    StatusBanner, StatusKind,
};

verus! {

/// The kind of source the user wants to pick.
#[derive(Debug, Clone, Copy, PartialEq, Eq, Structural)]
pub enum PathSelection {
    File,
    Folder,
}

/// Something that happened in the editor.
#[derive(Debug)]
pub enum Event {
    MonitorsLoaded(Result<Vec<Monitor>, String>),
    MonitorsUpdated(Vec<Monitor>),
    EntriesLoaded(Result<Vec<WallpaperProfileEntry>, String>),
    SelectTab(usize),
    PathChanged(usize, String),
    BrowsePressed(usize, PathSelection),
    PathPicked(usize, Result<Option<String>, String>),
    EnabledToggled(usize, bool),
    ScaleChanged(usize, ScaleMode),
    OrderChanged(usize, SlideshowOrder),
    IntervalChanged(usize, String),
    StartPressed,
    StopPressed,
    Tick,
}

/// The outside action an event asks for.
#[derive(Debug, Clone, Copy, PartialEq, Eq, Structural)]
pub enum Effect {
    Nothing,
    /// Open a picker for the source of tab `0`.
    PickSource(usize, PathSelection),
    /// Stop the players, then start them again, whatever the stop gave.
    Restart,
    /// Start the players.
    Start,
    /// Stop the players; start them again only if the stop succeeded.
    StopThenStart,
    /// Stop the players.
    Stop,
    /// Check whether the players are still alive.
    Poll,
}

pub open spec fn monitors_detected_text() -> Seq<char> {
    "Monitors detected."@
}

pub open spec fn list_failed_text(e: Seq<char>) -> Seq<char> {
    "Failed to list monitors: "@ + e
}

pub open spec fn load_failed_text(e: Seq<char>) -> Seq<char> {
    "Failed to load config: "@ + e
}

pub open spec fn select_text(kind: PathSelection) -> Seq<char> {
    match kind {
        PathSelection::File => "Select an image/video…"@,
        PathSelection::Folder => "Select a folder…"@,
    }
}

pub open spec fn updated_path_text() -> Seq<char> {
    "Updated source path."@
}

pub open spec fn canceled_text() -> Seq<char> {
    "Selection canceled."@
}

/// The editor after an edit of kind `event` (`None` when the event edits
/// no editor).
pub open spec fn edited(ed: EditorModel, event: Event) -> Option<EditorModel> {
    match event {
        Event::PathChanged(_, v) => Some(EditorModel { path_text: v@, dirty: true, ..ed }),
        Event::PathPicked(_, Ok(Some(p))) => Some(EditorModel { path_text: p@, dirty: true, ..ed }),
        Event::EnabledToggled(_, b) => Some(
            EditorModel { enabled: b, dirty: ed.dirty || ed.enabled != b, ..ed },
        ),
        Event::ScaleChanged(_, s) => Some(
            EditorModel { scale: s, dirty: ed.dirty || ed.scale != s, ..ed },
        ),
        Event::OrderChanged(_, o) => Some(
            EditorModel { order: o, dirty: ed.dirty || ed.order != o, ..ed },
        ),
        Event::IntervalChanged(_, v) => Some(
            match interval_of(v@) {
                Ok(s) => EditorModel {
                    interval_text: v@,
                    interval_error: None,
                    interval_seconds: s as u64,
                    dirty: true,
                    ..ed
                },
                Err(e) => EditorModel {
                    interval_text: v@,
                    interval_error: Some(e),
                    dirty: true,
                    ..ed
                },
            },
        ),
        _ => None,
    }
}

/// The tab an event is about, for the events that edit one.
pub open spec fn edit_target(event: Event) -> Option<usize> {
    match event {
        Event::PathChanged(i, _) => Some(i),
        Event::PathPicked(i, Ok(Some(_))) => Some(i),
        Event::EnabledToggled(i, _) => Some(i),
        Event::ScaleChanged(i, _) => Some(i),
        Event::OrderChanged(i, _) => Some(i),
        Event::IntervalChanged(i, _) => Some(i),
        _ => None,
    }
}

/// The action an event asks for, given whether players are running.
pub open spec fn effect_of(event: Event, running: bool) -> Effect {
    match event {
        Event::MonitorsUpdated(_) => if running {
            Effect::Restart
        } else {
            Effect::Nothing
        },
        Event::BrowsePressed(i, k) => Effect::PickSource(i, k),
        Event::StartPressed => if running {
            Effect::StopThenStart
        } else {
            Effect::Start
        },
        Event::StopPressed => Effect::Stop,
        Event::Tick => if running {
            Effect::Poll
        } else {
            Effect::Nothing
        },
        _ => Effect::Nothing,
    }
}

pub open spec fn status_is(s: Option<StatusBanner>, kind: StatusKind, text: Seq<char>) -> bool {
    s matches Some(b) && b.kind == kind && b.text@ == text
}

impl EditorSession {
    fn edit_tab(&mut self, i: usize, event: &Event)
        requires
            i < old(self).tabs@.len(),
            edit_target(*event) == Some(i),
        ensures
            tabs_view(final(self).tabs@) == tabs_view(old(self).tabs@).update(
                i as int,
                TabModel {
                    editor: edited(old(self).tabs@[i as int]@.editor, *event)->0,
                    ..old(self).tabs@[i as int]@
                },
            ),
            final(self).monitors@ == old(self).monitors@,
            final(self).saved_entries@ == old(self).saved_entries@,
            final(self).active_tab == old(self).active_tab,
            final(self).status == old(self).status,
            final(self).wallpaper_running == old(self).wallpaper_running,
    {
        let mut tab = self.tabs.remove(i);
        match event {
            Event::PathChanged(_, v) => tab.editor.set_path_text(v.clone()),
            Event::PathPicked(_, Ok(Some(p))) => tab.editor.set_path_buf(p.clone()),
            Event::EnabledToggled(_, b) => tab.editor.set_enabled(*b),
            Event::ScaleChanged(_, s) => tab.editor.set_scale(*s),
            Event::OrderChanged(_, o) => tab.editor.set_order(*o),
            Event::IntervalChanged(_, v) => tab.editor.set_interval(v.clone()),
            _ => {},
        }
        self.tabs.insert(i, tab);
        assert(tabs_view(self.tabs@) =~= tabs_view(old(self).tabs@).update(
            i as int,
            TabModel {
                editor: edited(old(self).tabs@[i as int]@.editor, *event)->0,
                ..old(self).tabs@[i as int]@
            },
        ));
    }

    /// Applies `event` to the session and returns the outside action it asks
    /// for; edits to a tab that does not exist are ignored.
    pub fn update(&mut self, event: Event) -> (effect: Effect)
        ensures
            effect == effect_of(event, old(self).wallpaper_running),
            final(self).wallpaper_running == old(self).wallpaper_running,
            !(event is SelectTab) ==> final(self).active_tab == old(self).active_tab,
            !(event is MonitorsLoaded || event is MonitorsUpdated || event is EntriesLoaded) ==> (
            final(self).saved_entries@ == old(self).saved_entries@ && final(self).monitors@ == old(
                self,
            ).monitors@),
            match edit_target(event) {
                Some(i) => if i < old(self).tabs@.len() {
                    tabs_view(final(self).tabs@) == tabs_view(old(self).tabs@).update(
                        i as int,
                        TabModel {
                            editor: edited(old(self).tabs@[i as int]@.editor, event)->0,
                            ..old(self).tabs@[i as int]@
                        },
                    )
                } else {
                    tabs_view(final(self).tabs@) == tabs_view(old(self).tabs@)
                },
                None => true,
            },
            match event {
                Event::MonitorsLoaded(Ok(ms)) => tabs_view(final(self).tabs@) == reconciled_tabs(
                    tabs_view(old(self).tabs@),
                    models(old(self).saved_entries@),
                    monitors_view(ms@),
                ) && models(final(self).saved_entries@) == reconciled_saved(
                    tabs_view(old(self).tabs@),
                    models(old(self).saved_entries@),
                    monitors_view(ms@),
                ) && monitors_view(final(self).monitors@) == monitors_view(ms@) && status_is(
                    final(self).status,
                    StatusKind::Info,
                    monitors_detected_text(),
                ),
                Event::MonitorsLoaded(Err(e)) => tabs_view(final(self).tabs@) == tabs_view(
                    old(self).tabs@,
                ) && status_is(final(self).status, StatusKind::Error, list_failed_text(e@)),
                Event::MonitorsUpdated(ms) => tabs_view(final(self).tabs@) == reconciled_tabs(
                    tabs_view(old(self).tabs@),
                    models(old(self).saved_entries@),
                    monitors_view(ms@),
                ) && models(final(self).saved_entries@) == reconciled_saved(
                    tabs_view(old(self).tabs@),
                    models(old(self).saved_entries@),
                    monitors_view(ms@),
                ) && monitors_view(final(self).monitors@) == monitors_view(ms@) && reconcile_status(
                    final(self).status,
                    final(self).tabs@.len(),
                ),
                Event::EntriesLoaded(Ok(es)) => if old(self).monitors@.len() == 0 {
                    tabs_view(final(self).tabs@) == tabs_view(old(self).tabs@) && models(
                        final(self).saved_entries@,
                    ) == models(es@) && final(self).status == old(self).status
                } else {
                    reconcile_status(final(self).status, final(self).tabs@.len()) &&
                    tabs_view(final(self).tabs@) == reconciled_tabs(
                        tabs_view(old(self).tabs@),
                        models(es@),
                        monitors_view(old(self).monitors@),
                    ) && models(final(self).saved_entries@) == reconciled_saved(
                        tabs_view(old(self).tabs@),
                        models(es@),
                        monitors_view(old(self).monitors@),
                    )
                },
                Event::EntriesLoaded(Err(e)) => tabs_view(final(self).tabs@) == tabs_view(
                    old(self).tabs@,
                ) && status_is(final(self).status, StatusKind::Error, load_failed_text(e@)),
                Event::SelectTab(i) => final(self).active_tab == (if i < old(self).tabs@.len() {
                    i
                } else {
                    old(self).active_tab
                }) && tabs_view(final(self).tabs@) == tabs_view(old(self).tabs@),
                Event::BrowsePressed(_, k) => status_is(
                    final(self).status,
                    StatusKind::Info,
                    select_text(k),
                ) && tabs_view(final(self).tabs@) == tabs_view(old(self).tabs@),
                Event::PathPicked(i, Ok(Some(_))) => if i < old(self).tabs@.len() {
                    status_is(final(self).status, StatusKind::Success, updated_path_text())
                } else {
                    final(self).status == old(self).status
                },
                Event::PathPicked(_, Ok(None)) => status_is(
                    final(self).status,
                    StatusKind::Info,
                    canceled_text(),
                ) && tabs_view(final(self).tabs@) == tabs_view(old(self).tabs@),
                Event::PathPicked(_, Err(e)) => status_is(
                    final(self).status,
                    StatusKind::Error,
                    e@,
                ) && tabs_view(final(self).tabs@) == tabs_view(old(self).tabs@),
                Event::StartPressed | Event::StopPressed | Event::Tick => tabs_view(
                    final(self).tabs@,
                ) == tabs_view(old(self).tabs@) && final(self).status == old(self).status,
                _ => final(self).status == old(self).status,
            },
    {
        let running = self.wallpaper_running;
        match event {
            Event::MonitorsLoaded(Ok(monitors)) => {
                self.reconcile_monitors(monitors);
                self.status = Some(StatusBanner::info("Monitors detected.".to_owned()));
                Effect::Nothing
            },
            Event::MonitorsLoaded(Err(err)) => {
                let text = "Failed to list monitors: ".to_owned().concat(err.as_str());
                self.status = Some(StatusBanner::error(text));
                Effect::Nothing
            },
            Event::EntriesLoaded(Ok(entries)) => {
                self.saved_entries = entries;
                if self.monitors.len() > 0 {
                    let mut current: Vec<Monitor> = Vec::new();
                    let mut k: usize = 0;
                    while k < self.monitors.len()
                        invariant
                            k <= self.monitors@.len(),
                            current@.len() == k,
                            forall|j: int|
                                0 <= j < k ==> #[trigger] current@[j]@ == self.monitors@[j]@,
                        decreases self.monitors@.len() - k,
                    {
                        current.push(self.monitors[k].copied());
                        k = k + 1;
                    }
                    assert(monitors_view(current@) =~= monitors_view(self.monitors@));
                    self.reconcile_monitors(current);
                }
                Effect::Nothing
            },
            Event::EntriesLoaded(Err(err)) => {
                let text = "Failed to load config: ".to_owned().concat(err.as_str());
                self.status = Some(StatusBanner::error(text));
                Effect::Nothing
            },
            Event::MonitorsUpdated(monitors) => {
                self.reconcile_monitors(monitors);
                if running {
                    Effect::Restart
                } else {
                    Effect::Nothing
                }
            },
            Event::SelectTab(index) => {
                if index < self.tabs.len() {
                    self.active_tab = index;
                }
                Effect::Nothing
            },
            Event::BrowsePressed(index, kind) => {
                let text = match kind {
                    PathSelection::File => "Select an image/video…".to_owned(),
                    PathSelection::Folder => "Select a folder…".to_owned(),
                };
                self.status = Some(StatusBanner::info(text));
                Effect::PickSource(index, kind)
            },
            Event::PathPicked(_, Ok(None)) => {
                self.status = Some(StatusBanner::info("Selection canceled.".to_owned()));
                Effect::Nothing
            },
            Event::PathPicked(_, Err(err)) => {
                self.status = Some(StatusBanner::error(err));
                Effect::Nothing
            },
            Event::StartPressed => {
                if running {
                    Effect::StopThenStart
                } else {
                    Effect::Start
                }
            },
            Event::StopPressed => Effect::Stop,
            Event::Tick => {
                if running {
                    Effect::Poll
                } else {
                    Effect::Nothing
                }
            },
            _ => {
                let index = match &event {
                    Event::PathChanged(i, _) => *i,
                    Event::PathPicked(i, _) => *i,
                    Event::EnabledToggled(i, _) => *i,
                    Event::ScaleChanged(i, _) => *i,
                    Event::OrderChanged(i, _) => *i,
                    Event::IntervalChanged(i, _) => *i,
                    _ => 0,
                };
                if index < self.tabs.len() {
                    self.edit_tab(index, &event);
                    if event matches Event::PathPicked(_, Ok(Some(_))) {
                        self.status = Some(StatusBanner::success("Updated source path.".to_owned()));
                    }
                }
                Effect::Nothing
            },
        }
    }
}

} // verus!
