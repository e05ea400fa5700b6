use wpe::config::{
    default_enabled_false, default_interval_secs, default_profile_entries,
    ensure_profile_for_monitors, load_wallpaper_entries, profile_file_text,
    save_wallpaper_entries, ScaleMode, SlideshowOrder, WallpaperProfileEntry, CONFIG_HEADER,
    DEFAULT_INTERVAL_SECS, PLACEHOLDER_PATH,
};
use wpe::monitors::Monitor;

fn entry(monitor: Option<&str>, path: Option<&str>, interval: u64) -> WallpaperProfileEntry {
    WallpaperProfileEntry {
        monitor: monitor.map(|m| m.to_string()),
        path: path.map(|p| p.to_string()),
        enabled: true,
        scale: ScaleMode::Original,
        order: SlideshowOrder::Random,
        interval_seconds: interval,
    }
}

fn monitor(name: &str) -> Monitor {
    Monitor {
        name: name.to_string(),
        description: format!("{name} panel"),
        width: 1920,
        height: 1080,
        refresh_rate: 60,
    }
}

#[test]
fn save_then_load_keeps_fields_and_clamps_interval() {
    let entries = vec![entry(Some("DP-1"), Some("/w/a.png"), 0), entry(None, None, 42)];
    let saved = save_wallpaper_entries(&entries);
    let loaded = load_wallpaper_entries(&saved);
    assert_eq!(loaded.len(), 2);
    assert_eq!(loaded[0].monitor.as_deref(), Some("DP-1"));
    assert_eq!(loaded[0].path.as_deref(), Some("/w/a.png"));
    assert!(loaded[0].enabled);
    assert_eq!(loaded[0].scale, ScaleMode::Original);
    assert_eq!(loaded[0].order, SlideshowOrder::Random);
    assert_eq!(loaded[0].interval_seconds, 1);
    assert_eq!(loaded[1].monitor, None);
    assert_eq!(loaded[1].path, None);
    assert_eq!(loaded[1].interval_seconds, 42);
}

#[test]
fn load_clamps_zero_interval() {
    let loaded = load_wallpaper_entries(&[entry(Some("A"), None, 0)]);
    assert_eq!(loaded[0].interval_seconds, 1);
}

#[test]
fn default_entry_is_disabled_placeholder() {
    let e = WallpaperProfileEntry::default();
    assert_eq!(e.monitor, None);
    assert_eq!(e.path.as_deref(), Some(PLACEHOLDER_PATH));
    assert!(!e.enabled);
    assert_eq!(e.scale, ScaleMode::Fit);
    assert_eq!(e.order, SlideshowOrder::Sequential);
    assert_eq!(e.interval_seconds, 300);
    assert_eq!(default_profile_entries().len(), 1);
}

#[test]
fn serde_defaults() {
    assert_eq!(default_interval_secs(), DEFAULT_INTERVAL_SECS);
    assert!(!default_enabled_false());
    assert_eq!(ScaleMode::default(), ScaleMode::Fit);
    assert_eq!(SlideshowOrder::default(), SlideshowOrder::Sequential);
}

#[test]
fn first_run_profile_has_entry_per_monitor() {
    let (entries, created) = ensure_profile_for_monitors(&[monitor("DP-1"), monitor("HDMI-A-1")], None);
    assert!(created);
    assert_eq!(entries.len(), 2);
    assert_eq!(entries[0].monitor.as_deref(), Some("DP-1"));
    assert_eq!(entries[1].monitor.as_deref(), Some("HDMI-A-1"));
    for e in &entries {
        assert!(!e.enabled);
        assert_eq!(e.path.as_deref(), Some(PLACEHOLDER_PATH));
        assert_eq!(e.interval_seconds, DEFAULT_INTERVAL_SECS);
    }
}

#[test]
fn first_run_without_monitors_has_one_unassigned_entry() {
    let (entries, created) = ensure_profile_for_monitors(&[], None);
    assert!(created);
    assert_eq!(entries.len(), 1);
    assert_eq!(entries[0].monitor, None);
    assert!(!entries[0].enabled);
}

#[test]
fn existing_profile_is_returned_unchanged() {
    let stored = vec![entry(Some("X"), Some("/p"), 0), entry(Some("Y"), None, 7)];
    let (entries, created) = ensure_profile_for_monitors(&[monitor("DP-1")], Some(&stored));
    assert!(!created);
    assert_eq!(entries.len(), 2);
    assert_eq!(entries[0].monitor.as_deref(), Some("X"));
    assert_eq!(entries[0].interval_seconds, 1);
    assert_eq!(entries[1].interval_seconds, 7);
}

#[test]
fn profile_text_starts_with_header() {
    let text = profile_file_text("[[wallpapers]]\n");
    assert!(text.starts_with(CONFIG_HEADER));
    assert!(text.ends_with("[[wallpapers]]\n"));
    assert_eq!(text.len(), CONFIG_HEADER.len() + 15);
}
