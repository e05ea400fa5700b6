use wpe::config::MediaKind;
use wpe::paths::{
    config_dir, config_file_path, detect_media_kind, expand_leading_tokens, is_probably_video,
    normalize_entry_path, parse_user_path, push_path_text, Environment, FileType, MediaError,
};

fn env(vars: &[(&str, &str)], cwd: Option<&str>) -> Environment {
    Environment {
        vars: vars.iter().map(|(k, v)| (k.to_string(), v.to_string())).collect(),
        cwd: cwd.map(|c| c.to_string()),
    }
}

#[test]
fn classify_directory_is_folder() {
    let r = detect_media_kind(&"/tmp/walls".to_string(), Some(FileType::Directory));
    assert!(matches!(r, Ok(MediaKind::Folder(ref p)) if p == "/tmp/walls"));
}

#[test]
fn classify_mp4_file_is_video() {
    let r = detect_media_kind(&"/tmp/x.mp4".to_string(), Some(FileType::File));
    assert!(matches!(r, Ok(MediaKind::Video(ref p)) if p == "/tmp/x.mp4"));
}

#[test]
fn classify_png_file_is_image() {
    let r = detect_media_kind(&"/tmp/x.png".to_string(), Some(FileType::File));
    assert!(matches!(r, Ok(MediaKind::Image(ref p)) if p == "/tmp/x.png"));
}

#[test]
fn classify_missing_path_is_error() {
    let r = detect_media_kind(&"/nope".to_string(), None);
    assert_eq!(r.unwrap_err(), MediaError::Inaccessible("/nope".to_string()));
}

#[test]
fn classify_special_file_is_error() {
    let r = detect_media_kind(&"/dev/null".to_string(), Some(FileType::Other));
    assert_eq!(r.unwrap_err(), MediaError::NotFileOrFolder("/dev/null".to_string()));
}

#[test]
fn media_kind_path_of_each_variant() {
    assert_eq!(MediaKind::Image("a".to_string()).path(), "a");
    assert_eq!(MediaKind::Folder("b".to_string()).path(), "b");
    assert_eq!(MediaKind::Video("c".to_string()).path(), "c");
}

#[test]
fn video_extensions_ignore_case() {
    assert!(is_probably_video(&"clip.MKV".to_string()));
    assert!(is_probably_video(&"/a/b/c.webm".to_string()));
    assert!(is_probably_video(&"/a/movie.3gp".to_string()));
    assert!(is_probably_video(&"/a/clip.mp4/".to_string()));
    assert!(!is_probably_video(&"/a/x.png".to_string()));
    assert!(!is_probably_video(&"/a/.mp4".to_string()));
    assert!(!is_probably_video(&"/a/mp4".to_string()));
    assert!(!is_probably_video(&"/a.mp4/x".to_string()));
    assert!(!is_probably_video(&"".to_string()));
}

#[test]
fn home_prefix_is_expanded() {
    let e = env(&[("HOME", "/home/u")], None);
    assert_eq!(expand_leading_tokens(&"~".to_string(), &e), "/home/u");
    assert_eq!(expand_leading_tokens(&"~/pics".to_string(), &e), "/home/u/pics");
    assert_eq!(expand_leading_tokens(&"~user".to_string(), &e), "~user");
}

#[test]
fn home_prefix_without_home_is_kept() {
    let e = env(&[], None);
    assert_eq!(expand_leading_tokens(&"~/pics".to_string(), &e), "~/pics");
}

#[test]
fn env_prefix_is_expanded() {
    let e = env(&[("WALLS", "/data/w"), ("HOME", "/home/u")], None);
    assert_eq!(expand_leading_tokens(&"$WALLS/a.png".to_string(), &e), "/data/w/a.png");
    assert_eq!(expand_leading_tokens(&"${WALLS}x".to_string(), &e), "/data/wx");
}

#[test]
fn undefined_env_prefix_is_left_unexpanded() {
    let e = env(&[("HOME", "/home/u")], None);
    assert_eq!(expand_leading_tokens(&"$NOPE/a".to_string(), &e), "$NOPE/a");
    assert_eq!(expand_leading_tokens(&"${NOPE}/a".to_string(), &e), "${NOPE}/a");
    assert_eq!(expand_leading_tokens(&"${}/a".to_string(), &e), "${}/a");
    assert_eq!(expand_leading_tokens(&"${HOME".to_string(), &e), "${HOME");
    assert_eq!(expand_leading_tokens(&"$/a".to_string(), &e), "$/a");
}

#[test]
fn parse_user_path_trims_and_expands() {
    let e = env(&[("HOME", "/home/u")], None);
    assert_eq!(parse_user_path("  ~/a.png \n", &e), Some("/home/u/a.png".to_string()));
    assert_eq!(parse_user_path("   ", &e), None);
    assert_eq!(parse_user_path("", &e), None);
}

#[test]
fn push_path_text_follows_pathbuf() {
    assert_eq!(push_path_text(&"/a".to_string(), &"b".to_string()), "/a/b");
    assert_eq!(push_path_text(&"/a/".to_string(), &"b".to_string()), "/a/b");
    assert_eq!(push_path_text(&"/a".to_string(), &"/b".to_string()), "/b");
    assert_eq!(push_path_text(&"".to_string(), &"b".to_string()), "b");
}

#[test]
fn normalize_absolute_path_is_unchanged() {
    let e = env(&[("HOME", "/home/u")], Some("/work"));
    assert_eq!(normalize_entry_path(&"/x/y.png".to_string(), &e), "/x/y.png");
}

#[test]
fn normalize_relative_path_goes_under_home() {
    let e = env(&[("HOME", "/home/u")], Some("/work"));
    assert_eq!(normalize_entry_path(&"pics/a.png".to_string(), &e), "/home/u/pics/a.png");
    assert_eq!(normalize_entry_path(&"~/b.png".to_string(), &e), "/home/u/b.png");
}

#[test]
fn normalize_relative_path_without_home_uses_cwd() {
    let e = env(&[], Some("/work"));
    assert_eq!(normalize_entry_path(&"a.png".to_string(), &e), "/work/a.png");
    let bare = env(&[], None);
    assert_eq!(normalize_entry_path(&"a.png".to_string(), &bare), "a.png");
}

#[test]
fn config_location_prefers_xdg() {
    let e = env(&[("XDG_CONFIG_HOME", "/cfg"), ("HOME", "/home/u")], None);
    assert_eq!(config_dir(&e), Some("/cfg/wpe".to_string()));
    assert_eq!(config_file_path(&e), Some("/cfg/wpe/config.toml".to_string()));
}

#[test]
fn config_location_falls_back_to_home() {
    let e = env(&[("HOME", "/home/u")], None);
    assert_eq!(config_file_path(&e), Some("/home/u/.config/wpe/config.toml".to_string()));
    assert_eq!(config_file_path(&env(&[], None)), None);
}

#[test]
fn video_extension_skips_dot_components() {
    assert!(is_probably_video(&"x.mp4/.".to_string()));
    assert!(is_probably_video(&"/w/x.MP4/./".to_string()));
    assert!(is_probably_video(&"./clip.mkv".to_string()));
    assert!(!is_probably_video(&".".to_string()));
    assert!(!is_probably_video(&"/.".to_string()));
    assert!(!is_probably_video(&"a.mp4/..".to_string()));
}
