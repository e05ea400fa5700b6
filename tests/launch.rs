use wpe::config::{
    MediaKind, RuntimeConfig, ScaleMode, SlideshowOrder, SlideshowSettings, WallpaperProfileEntry,
};
use wpe::invocation::{
    build_invocation, build_mpv_options, launch_entries, launch_source, plan_launch,
    select_targets, InvocationError, LaunchError, LaunchPlan,
};
use wpe::paths::{Environment, MediaError};

fn config(media: MediaKind, order: SlideshowOrder, interval: u64, scale: ScaleMode) -> RuntimeConfig {
    RuntimeConfig {
        monitor: Some("DP-1".to_string()),
        media,
        slideshow: SlideshowSettings { order, interval_secs: interval },
        scale,
    }
}

fn entry(enabled: bool, path: Option<&str>) -> WallpaperProfileEntry {
    WallpaperProfileEntry {
        monitor: Some("DP-1".to_string()),
        path: path.map(|p| p.to_string()),
        enabled,
        scale: ScaleMode::Stretch,
        order: SlideshowOrder::Random,
        interval_seconds: 0,
    }
}

#[test]
fn folder_random_invocation_shuffles_with_interval() {
    let c = config(MediaKind::Folder("/w".to_string()), SlideshowOrder::Random, 10, ScaleMode::Fit);
    let inv = build_invocation(&c).unwrap();
    assert_eq!(inv.program, "mpvpaper");
    assert_eq!(
        inv.args,
        vec![
            "-n",
            "10",
            "-o",
            "--no-audio --osc=no --no-osd-bar --hwdec=auto-safe --shuffle --keepaspect=no",
            "DP-1",
            "/w",
        ]
    );
}

#[test]
fn image_original_invocation_loops_without_shuffle() {
    let c = config(MediaKind::Image("/w/a.png".to_string()), SlideshowOrder::Random, 10, ScaleMode::Original);
    let inv = build_invocation(&c).unwrap();
    assert_eq!(
        inv.args,
        vec![
            "-o",
            "--no-audio --osc=no --no-osd-bar --hwdec=auto-safe --loop-file=inf --keepaspect=yes --video-unscaled=downscale-big",
            "DP-1",
            "/w/a.png",
        ]
    );
    assert!(!inv.args.iter().any(|a| a == "-n" || a.contains("shuffle")));
}

#[test]
fn folder_sequential_stretch_options() {
    let c = config(MediaKind::Folder("/w".to_string()), SlideshowOrder::Sequential, 0, ScaleMode::Stretch);
    assert_eq!(
        build_mpv_options(&c),
        vec!["--no-audio", "--osc=no", "--no-osd-bar", "--hwdec=auto-safe", "--no-shuffle", "--keepaspect=yes"]
    );
    let inv = build_invocation(&c).unwrap();
    assert_eq!(inv.args[0], "-n");
    assert_eq!(inv.args[1], "1");
}

#[test]
fn video_interval_flag_absent() {
    let c = config(MediaKind::Video("/w/v.mkv".to_string()), SlideshowOrder::Sequential, 300, ScaleMode::Fit);
    let inv = build_invocation(&c).unwrap();
    assert_eq!(inv.args.len(), 4);
    assert!(inv.args[1].contains("--loop-file=inf"));
}

#[test]
fn invocation_without_monitor_is_refused() {
    let mut c = config(MediaKind::Image("/a".to_string()), SlideshowOrder::Random, 1, ScaleMode::Fit);
    c.monitor = None;
    assert_eq!(build_invocation(&c).unwrap_err(), InvocationError::MissingMonitor);
}

#[test]
fn large_interval_is_written_in_decimal() {
    let c = config(MediaKind::Folder("/w".to_string()), SlideshowOrder::Random, 359999, ScaleMode::Fit);
    assert_eq!(build_invocation(&c).unwrap().args[1], "359999");
}

#[test]
fn targets_are_enabled_entries_with_paths() {
    let entries = vec![entry(true, Some("/a")), entry(false, Some("/b")), entry(true, None), entry(true, Some("/d"))];
    assert_eq!(select_targets(&entries), vec![0, 3]);
}

#[test]
fn launch_plan_cases() {
    let entries = vec![entry(true, Some("/a"))];
    assert!(matches!(plan_launch(&entries, true), LaunchPlan::CreatedDefault));
    assert!(matches!(plan_launch(&[entry(false, Some("/a"))], false), LaunchPlan::NothingToLaunch));
    match plan_launch(&entries, false) {
        LaunchPlan::Launch(t) => assert_eq!(t, vec![0]),
        other => panic!("unexpected plan {other:?}"),
    }
}

#[test]
fn empty_profile_launches_from_default() {
    let entries = launch_entries(Vec::new());
    assert_eq!(entries.len(), 1);
    assert!(!entries[0].enabled);
    assert_eq!(launch_entries(vec![entry(true, None)]).len(), 1);
}

#[test]
fn launch_source_errors_and_path() {
    let env = Environment { vars: vec![("HOME".to_string(), "/home/u".to_string())], cwd: None };
    let entries = vec![entry(true, Some("w/a.png")), entry(true, None)];
    assert_eq!(launch_source(&entries, 0, &env), Ok("/home/u/w/a.png".to_string()));
    assert_eq!(launch_source(&entries, 1, &env), Err(LaunchError::MissingPath));
    assert_eq!(launch_source(&entries, 5, &env), Err(LaunchError::NoEntry(5)));
}

#[test]
fn runtime_config_from_entry() {
    let entries = vec![entry(true, Some("/a.png")), entry(true, None)];
    let c = RuntimeConfig::from_entry(&entries, 0, Ok(MediaKind::Image("/a.png".to_string()))).unwrap();
    assert_eq!(c.monitor.as_deref(), Some("DP-1"));
    assert_eq!(c.slideshow.interval_secs, 1);
    assert_eq!(c.slideshow.order, SlideshowOrder::Random);
    assert_eq!(c.scale, ScaleMode::Stretch);
    assert!(matches!(c.media, MediaKind::Image(ref p) if p == "/a.png"));
    let missing = RuntimeConfig::from_entry(&entries, 1, Ok(MediaKind::Image("/x".to_string())));
    assert_eq!(missing.unwrap_err(), LaunchError::MissingPath);
    let none = RuntimeConfig::from_entry(&entries, 9, Ok(MediaKind::Image("/x".to_string())));
    assert_eq!(none.unwrap_err(), LaunchError::NoEntry(9));
    let bad = RuntimeConfig::from_entry(&entries, 0, Err(MediaError::Inaccessible("/a.png".to_string())));
    assert_eq!(bad.unwrap_err(), LaunchError::Media(MediaError::Inaccessible("/a.png".to_string())));
}

