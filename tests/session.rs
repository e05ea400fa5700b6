use wpe::config::{ScaleMode, SlideshowOrder, WallpaperProfileEntry, PLACEHOLDER_PATH};
use wpe::editor::{detect_path_kind, MonitorEditor, MonitorTab, PathKind};
use wpe::events::{Effect, Event, PathSelection};
use wpe::lifecycle::{validate_entries, ProcessProbe, StopOutcome};
use wpe::monitors::{monitor_from_output, Monitor, OutputMode};
use wpe::paths::{Environment, FileType};
use wpe::session::{EditorSession, StatusKind};
use wpe::theme::{classify_theme_hint, guess_theme_from_env, ThemePreference};

fn monitor(name: &str) -> Monitor {
    Monitor {
        name: name.to_string(),
        description: "panel".to_string(),
        width: 2560,
        height: 1440,
        refresh_rate: 144,
    }
}

fn entry(monitor: Option<&str>, path: &str, enabled: bool) -> WallpaperProfileEntry {
    WallpaperProfileEntry {
        monitor: monitor.map(|m| m.to_string()),
        path: Some(path.to_string()),
        enabled,
        scale: ScaleMode::Stretch,
        order: SlideshowOrder::Random,
        interval_seconds: 60,
    }
}

fn session(saved: Vec<WallpaperProfileEntry>) -> EditorSession {
    EditorSession {
        monitors: Vec::new(),
        saved_entries: saved,
        tabs: Vec::new(),
        active_tab: 0,
        status: None,
        wallpaper_running: false,
    }
}

fn env() -> Environment {
    Environment { vars: vec![("HOME".to_string(), "/home/u".to_string())], cwd: None }
}

fn snapshot(s: &EditorSession) -> Vec<(String, String, bool, bool, u64, String)> {
    s.tabs
        .iter()
        .map(|t| {
            (
                t.monitor.name.clone(),
                t.editor.path_text.clone(),
                t.editor.enabled,
                t.editor.dirty,
                t.editor.interval_seconds,
                t.editor.interval_text.clone(),
            )
        })
        .collect()
}

#[test]
fn reconcile_uses_saved_entry_for_monitor() {
    let mut s = session(vec![entry(Some("DP-1"), "/w/a.png", true), entry(Some("HDMI-A-1"), "/w/b", false)]);
    s.reconcile_monitors(vec![monitor("DP-1")]);
    assert_eq!(s.tabs.len(), 1);
    assert_eq!(s.tabs[0].editor.path_text, "/w/a.png");
    assert!(s.tabs[0].editor.enabled());
    assert_eq!(s.tabs[0].editor.interval_text, "00:01:00");
    assert_eq!(s.saved_entries.len(), 1);
    assert_eq!(s.saved_entries[0].monitor.as_deref(), Some("HDMI-A-1"));
    let banner = s.status.as_ref().unwrap();
    assert_eq!(banner.kind, StatusKind::Info);
    assert_eq!(banner.text, "Ready. Configure each monitor and press Start when done.");
}

#[test]
fn reconcile_twice_is_idempotent() {
    let mut s = session(vec![
        entry(Some("DP-1"), "/w/a.png", true),
        entry(None, "/w/donor", true),
        entry(Some("OLD"), "/w/old", false),
    ]);
    let monitors = vec![monitor("DP-1"), monitor("HDMI-A-1"), monitor("DP-2")];
    s.reconcile_monitors(monitors.clone());
    s.tabs[2].editor.set_enabled(true);
    let first = snapshot(&s);
    let saved_first = s.saved_entries.len();
    s.reconcile_monitors(monitors);
    assert_eq!(snapshot(&s), first);
    assert_eq!(s.saved_entries.len(), saved_first);
}

#[test]
fn donor_claimed_by_one_monitor_only() {
    let mut s = session(vec![entry(None, "/w/donor", true)]);
    s.reconcile_monitors(vec![monitor("DP-1"), monitor("DP-2"), monitor("DP-3")]);
    assert_eq!(s.tabs[0].editor.path_text, "/w/donor");
    assert!(s.tabs[0].editor.enabled());
    assert_eq!(s.tabs[1].editor.path_text, PLACEHOLDER_PATH);
    assert!(!s.tabs[1].editor.enabled());
    assert_eq!(s.tabs[2].editor.path_text, PLACEHOLDER_PATH);
    assert!(s.saved_entries.is_empty());
}

#[test]
fn unclaimed_donor_goes_back_to_saved() {
    let mut s = session(vec![entry(None, "/w/donor", true), entry(Some("DP-1"), "/w/a", true)]);
    s.reconcile_monitors(vec![monitor("DP-1")]);
    assert_eq!(s.tabs[0].editor.path_text, "/w/a");
    assert_eq!(s.saved_entries.len(), 1);
    assert_eq!(s.saved_entries[0].monitor, None);
}

#[test]
fn dirty_tab_is_not_overwritten_but_clean_one_is() {
    let mut s = session(Vec::new());
    s.reconcile_monitors(vec![monitor("DP-1"), monitor("DP-2")]);
    s.tabs[0].editor.set_path_text("/typed".to_string());
    s.update(Event::EntriesLoaded(Ok(vec![
        entry(Some("DP-1"), "/disk/one", true),
        entry(Some("DP-2"), "/disk/two", true),
    ])));
    assert_eq!(s.tabs[0].editor.path_text, "/typed");
    assert!(s.tabs[0].editor.is_dirty());
    assert_eq!(s.tabs[1].editor.path_text, "/disk/two");
    assert!(!s.tabs[1].editor.is_dirty());
}

#[test]
fn no_monitors_is_reported() {
    let mut s = session(Vec::new());
    s.reconcile_monitors(Vec::new());
    assert!(s.tabs.is_empty());
    let banner = s.status.as_ref().unwrap();
    assert_eq!(banner.kind, StatusKind::Error);
    assert_eq!(banner.text, "No displays detected. Connect a monitor and try again.");
}

#[test]
fn start_with_nothing_enabled_stays_idle() {
    let mut s = session(Vec::new());
    s.reconcile_monitors(vec![monitor("DP-1")]);
    let entries = s.persist_entries(&env()).unwrap();
    s.mark_persisted(entries.clone());
    let present = vec![true; entries.len()];
    let validated = validate_entries(&entries, &present, &env());
    assert_eq!(validated, Ok(0));
    assert!(!s.begin_start(validated));
    assert!(!s.wallpaper_running);
    let banner = s.status.as_ref().unwrap();
    assert_eq!(banner.kind, StatusKind::Error);
    assert_eq!(banner.text, "Enable at least one monitor and choose a valid path before starting.");
}

#[test]
fn exit_is_noticed_once_after_start() {
    let mut s = session(Vec::new());
    assert!(s.begin_start(Ok(2)));
    s.finish_start(2, Ok(()));
    assert!(s.wallpaper_running);
    assert_eq!(s.status.as_ref().unwrap().text, "Wallpaper started for 2 configured entry(ies).");
    assert!(s.poll_due());
    assert!(!s.poll_wallpaper(ProcessProbe::Alive));
    assert!(s.wallpaper_running);
    assert!(s.poll_wallpaper(ProcessProbe::Gone));
    assert!(!s.wallpaper_running);
    assert_eq!(s.status.as_ref().unwrap().text, "Wallpaper exited.");
    assert!(!s.poll_due());
    assert!(!s.poll_wallpaper(ProcessProbe::Gone));
    assert_eq!(s.update(Event::Tick), Effect::Nothing);
}

#[test]
fn failed_spawn_is_reported() {
    let mut s = session(Vec::new());
    s.finish_start(1, Err("boom".to_string()));
    assert!(!s.wallpaper_running);
    let banner = s.status.as_ref().unwrap();
    assert_eq!(banner.kind, StatusKind::Error);
    assert_eq!(banner.text, "Failed to launch wallpaper: boom");
}

#[test]
fn stop_outcomes() {
    let mut s = session(Vec::new());
    s.wallpaper_running = true;
    assert_eq!(s.stop_wallpaper(StopOutcome::Stopped), Ok(()));
    assert!(!s.wallpaper_running);
    assert_eq!(s.status.as_ref().unwrap().text, "Wallpaper stopped.");
    s.wallpaper_running = true;
    assert_eq!(
        s.stop_wallpaper(StopOutcome::NoneRunning),
        Err("No running mpvpaper process found.".to_string())
    );
    assert!(!s.wallpaper_running);
    s.wallpaper_running = true;
    assert_eq!(
        s.stop_wallpaper(StopOutcome::Failed("denied".to_string())),
        Err("Failed to issue pkill: denied".to_string())
    );
    assert!(s.wallpaper_running);
}

#[test]
fn validation_errors_name_the_entry() {
    let e = env();
    let missing = WallpaperProfileEntry { path: None, ..entry(Some("DP-1"), "", true) };
    assert_eq!(
        validate_entries(&[missing], &[false], &e),
        Err("Enabled entry for DP-1 is missing a file or folder path.".to_string())
    );
    let unassigned = WallpaperProfileEntry { path: None, ..entry(None, "", true) };
    assert_eq!(
        validate_entries(&[unassigned], &[false], &e),
        Err("Enabled entry for an unassigned monitor is missing a file or folder path.".to_string())
    );
    let gone = entry(Some("DP-1"), "w/none.png", true);
    assert_eq!(
        validate_entries(&[gone], &[false], &e),
        Err("Invalid path or file (/home/u/w/none.png)".to_string())
    );
    let ok = vec![entry(Some("A"), "/a", true), entry(Some("B"), "/b", false), entry(Some("C"), "/c", true)];
    assert_eq!(validate_entries(&ok, &[true, false, true], &e), Ok(2));
}

#[test]
fn persist_merges_tabs_into_saved_entries() {
    let mut s = session(vec![entry(Some("OLD"), "/w/old", false)]);
    s.reconcile_monitors(vec![monitor("DP-1")]);
    s.tabs[0].editor.set_path_text("~/pics".to_string());
    s.tabs[0].editor.set_enabled(true);
    let entries = s.persist_entries(&env()).unwrap();
    assert_eq!(entries.len(), 2);
    assert_eq!(entries[0].monitor.as_deref(), Some("OLD"));
    assert_eq!(entries[1].monitor.as_deref(), Some("DP-1"));
    assert_eq!(entries[1].path.as_deref(), Some("/home/u/pics"));
    assert!(entries[1].enabled);
    s.mark_persisted(entries);
    assert!(!s.tabs[0].editor.is_dirty());
    assert_eq!(s.saved_entries.len(), 2);
}

#[test]
fn persist_refuses_bad_interval_and_no_tabs() {
    let mut s = session(Vec::new());
    assert_eq!(s.persist_entries(&env()).unwrap_err(), "No monitors available.");
    s.reconcile_monitors(vec![monitor("DP-1")]);
    s.tabs[0].editor.set_interval("1:00".to_string());
    assert_eq!(s.persist_entries(&env()).unwrap_err(), "Fix the slideshow interval for DP-1");
}

#[test]
fn editor_setters_track_dirty() {
    let mut ed = MonitorEditor::new(None);
    assert!(!ed.is_dirty());
    assert_eq!(ed.interval_seconds, 300);
    assert_eq!(ed.interval_text, "00:05:00");
    ed.set_scale(ScaleMode::Fit);
    assert!(!ed.is_dirty());
    ed.set_order(SlideshowOrder::Random);
    assert!(ed.is_dirty());
    ed.mark_saved();
    ed.set_enabled(false);
    assert!(!ed.is_dirty());
    ed.set_interval("00:00:10".to_string());
    assert_eq!(ed.interval_seconds, 10);
    assert!(ed.interval_error.is_none());
    ed.set_interval("bad".to_string());
    assert_eq!(ed.interval_seconds, 10);
    assert!(ed.interval_error.is_some());
    assert!(ed.is_dirty());
    ed.set_path_buf("/w".to_string());
    assert_eq!(ed.path_buf(&env()), Some("/w".to_string()));
}

#[test]
fn editor_from_entry_clamps_interval() {
    let mut e = entry(Some("DP-1"), "/w", true);
    e.interval_seconds = 0;
    let ed = MonitorEditor::new(Some(e));
    assert_eq!(ed.interval_seconds, 1);
    assert_eq!(ed.interval_text, "00:00:01");
}

#[test]
fn path_kind_detection() {
    assert_eq!(detect_path_kind("  ", None), PathKind::Empty);
    assert_eq!(detect_path_kind("/w", Some(FileType::Directory)), PathKind::Folder);
    assert_eq!(detect_path_kind("/w/a.png", Some(FileType::File)), PathKind::File);
    assert_eq!(detect_path_kind("/w/x", None), PathKind::Unknown);
    assert_eq!(PathKind::Folder.description(), "Detected: folder");
    assert_eq!(PathKind::Empty.description(), "No path configured.");
}

#[test]
fn tab_label_marks_unsaved_edits() {
    let mut tab = MonitorTab { monitor: monitor("DP-1"), editor: MonitorEditor::new(None) };
    assert_eq!(tab.label(), "DP-1");
    tab.editor.set_enabled(true);
    assert_eq!(tab.label(), "DP-1 *");
}

#[test]
fn events_ask_for_outside_actions() {
    let mut s = session(Vec::new());
    assert_eq!(s.update(Event::MonitorsLoaded(Ok(vec![monitor("DP-1"), monitor("DP-2")]))), Effect::Nothing);
    assert_eq!(s.status.as_ref().unwrap().text, "Monitors detected.");
    assert_eq!(s.update(Event::StartPressed), Effect::Start);
    assert_eq!(s.update(Event::StopPressed), Effect::Stop);
    assert_eq!(
        s.update(Event::BrowsePressed(1, PathSelection::Folder)),
        Effect::PickSource(1, PathSelection::Folder)
    );
    assert_eq!(s.status.as_ref().unwrap().text, "Select a folder…");
    s.wallpaper_running = true;
    assert_eq!(s.update(Event::StartPressed), Effect::StopThenStart);
    assert_eq!(s.update(Event::Tick), Effect::Poll);
    assert_eq!(s.update(Event::MonitorsUpdated(vec![monitor("DP-1")])), Effect::Restart);
    assert_eq!(s.tabs.len(), 1);
}

#[test]
fn events_edit_tabs() {
    let mut s = session(Vec::new());
    s.update(Event::MonitorsLoaded(Ok(vec![monitor("DP-1"), monitor("DP-2")])));
    s.update(Event::SelectTab(1));
    assert_eq!(s.active_tab, 1);
    s.update(Event::SelectTab(7));
    assert_eq!(s.active_tab, 1);
    s.update(Event::PathChanged(1, "/x".to_string()));
    assert_eq!(s.tabs[1].editor.path_text, "/x");
    s.update(Event::PathPicked(0, Ok(Some("/picked".to_string()))));
    assert_eq!(s.tabs[0].editor.path_text, "/picked");
    assert_eq!(s.status.as_ref().unwrap().kind, StatusKind::Success);
    s.update(Event::PathPicked(0, Ok(None)));
    assert_eq!(s.status.as_ref().unwrap().text, "Selection canceled.");
    s.update(Event::PathPicked(0, Err("Only local files or folders are supported.".to_string())));
    assert_eq!(s.status.as_ref().unwrap().kind, StatusKind::Error);
    s.update(Event::EnabledToggled(0, true));
    s.update(Event::ScaleChanged(0, ScaleMode::Original));
    s.update(Event::OrderChanged(0, SlideshowOrder::Random));
    s.update(Event::IntervalChanged(0, "00:00:30".to_string()));
    assert!(s.tabs[0].editor.enabled());
    assert_eq!(s.tabs[0].editor.scale, ScaleMode::Original);
    assert_eq!(s.tabs[0].editor.order, SlideshowOrder::Random);
    assert_eq!(s.tabs[0].editor.interval_seconds, 30);
    s.update(Event::EnabledToggled(9, true));
    assert_eq!(s.tabs.len(), 2);
}

#[test]
fn load_failures_are_reported() {
    let mut s = session(Vec::new());
    s.update(Event::MonitorsLoaded(Err("no wayland".to_string())));
    assert_eq!(s.status.as_ref().unwrap().text, "Failed to list monitors: no wayland");
    s.update(Event::EntriesLoaded(Err("bad toml".to_string())));
    assert_eq!(s.status.as_ref().unwrap().text, "Failed to load config: bad toml");
    s.report_error("disk full".to_string());
    assert_eq!(s.status.as_ref().unwrap().text, "disk full");
}

#[test]
fn monitor_from_output_prefers_current_mode() {
    let modes = [
        OutputMode { width: 1280, height: 720, refresh_mhz: 60000, current: false },
        OutputMode { width: 2560, height: 1440, refresh_mhz: 143912, current: true },
    ];
    let m = monitor_from_output(Some("DP-1".to_string()), None, &modes);
    assert_eq!(m.name, "DP-1");
    assert_eq!(m.description, "No description");
    assert_eq!((m.width, m.height, m.refresh_rate), (2560, 1440, 143));
}

#[test]
fn monitor_from_output_defaults() {
    let m = monitor_from_output(None, Some("Dell".to_string()), &[]);
    assert_eq!(m.name, "unknown");
    assert_eq!(m.description, "Dell");
    assert_eq!((m.width, m.height, m.refresh_rate), (1920, 1080, 60));
    let slow = [OutputMode { width: 800, height: 600, refresh_mhz: 0, current: false }];
    assert_eq!(monitor_from_output(None, None, &slow).refresh_rate, 60);
    let tiny = [OutputMode { width: 800, height: 600, refresh_mhz: 500, current: false }];
    assert_eq!(monitor_from_output(None, None, &tiny).refresh_rate, 1);
}

#[test]
fn theme_hints() {
    assert_eq!(classify_theme_hint("Adwaita-DARK".to_string()), Some(ThemePreference::Dark));
    assert_eq!(classify_theme_hint("Breeze Light".to_string()), Some(ThemePreference::Light));
    assert_eq!(classify_theme_hint("Nordic".to_string()), None);
    let e = Environment {
        vars: vec![("XCURSOR_THEME".to_string(), "light-cursors".to_string())],
        cwd: None,
    };
    assert_eq!(guess_theme_from_env(&e), Some(ThemePreference::Light));
    let both = Environment {
        vars: vec![
            ("XCURSOR_THEME".to_string(), "light".to_string()),
            ("GTK_THEME".to_string(), "Plain".to_string()),
        ],
        cwd: None,
    };
    assert_eq!(guess_theme_from_env(&both), None);
}

#[test]
fn monitor_from_output_converts_negative_sizes() {
    let odd = [OutputMode { width: -1, height: -2, refresh_mhz: 60000, current: true }];
    let m = monitor_from_output(None, None, &odd);
    assert_eq!((m.width, m.height), (u32::MAX, u32::MAX - 1));
}

#[test]
fn monitor_updates_set_the_reconciliation_banner() {
    let mut s = session(Vec::new());
    s.update(Event::MonitorsUpdated(vec![monitor("DP-1")]));
    assert_eq!(
        s.status.as_ref().unwrap().text,
        "Ready. Configure each monitor and press Start when done."
    );
    s.update(Event::MonitorsUpdated(Vec::new()));
    assert_eq!(s.status.as_ref().unwrap().kind, StatusKind::Error);
    s.update(Event::MonitorsLoaded(Ok(vec![monitor("DP-1")])));
    s.update(Event::EntriesLoaded(Ok(vec![entry(Some("DP-1"), "/w/a", true)])));
    assert_eq!(
        s.status.as_ref().unwrap().text,
        "Ready. Configure each monitor and press Start when done."
    );
    let mut fresh = session(Vec::new());
    fresh.status = None;
    fresh.update(Event::EntriesLoaded(Ok(Vec::new())));
    assert!(fresh.status.is_none());
}
