use photon_engine::app::WindowMode;
use photon_engine::config::{
    config_from_settings, default_fov, default_fps_limit, default_sensitivity, default_true,
    default_volume, strip_json_comments, GameConfig, WindowModeConfig,
};

#[test]
fn default_config_values() {
    let c = GameConfig::default();
    assert_eq!(c.volume, 75);
    assert_eq!(c.sensitivity, 50);
    assert_eq!(c.fps_limit, 400);
    assert_eq!(c.window_mode, WindowModeConfig::Windowed);
    assert_eq!(c.fov, 75);
    assert!(c.shadows_enabled);
    assert_eq!(WindowModeConfig::default(), WindowModeConfig::Windowed);
}

#[test]
fn field_defaults() {
    assert_eq!(default_volume(), 75);
    assert_eq!(default_sensitivity(), 50);
    assert_eq!(default_fps_limit(), 400);
    assert_eq!(default_fov(), 75);
    assert!(default_true());
}

#[test]
fn window_mode_conversions_round_trip() {
    for m in [WindowMode::Windowed, WindowMode::Borderless, WindowMode::Exclusive] {
        assert_eq!(WindowMode::from(&WindowModeConfig::from(&m)), m);
    }
    for c in [WindowModeConfig::Windowed, WindowModeConfig::Borderless, WindowModeConfig::Exclusive] {
        assert_eq!(WindowModeConfig::from(&WindowMode::from(&c)), c);
    }
    assert_eq!(WindowModeConfig::from(&WindowMode::Exclusive), WindowModeConfig::Exclusive);
    assert_eq!(WindowMode::from(&WindowModeConfig::Borderless), WindowMode::Borderless);
}

#[test]
fn config_from_settings_keeps_values() {
    let c = config_from_settings(30, 60, 0, WindowMode::Borderless, 100, false);
    assert_eq!(
        c,
        GameConfig {
            volume: 30,
            sensitivity: 60,
            fps_limit: 0,
            window_mode: WindowModeConfig::Borderless,
            fov: 100,
            shadows_enabled: false,
        }
    );
}

#[test]
fn comment_lines_are_dropped() {
    let src = "{\n  // volume in percent\n  \"volume\": 50\n}";
    assert_eq!(strip_json_comments(src), "{\n  \"volume\": 50\n}\n");
}

#[test]
fn trailing_comments_are_cut() {
    let src = "  \"fov\": 90, // degrees\n";
    assert_eq!(strip_json_comments(src), "  \"fov\": 90, \n");
}

#[test]
fn slashes_inside_strings_stay() {
    let src = "\"url\": \"http://example.com\"";
    assert_eq!(strip_json_comments(src), "\"url\": \"http://example.com\"\n");
}

#[test]
fn crlf_and_empty_input() {
    assert_eq!(strip_json_comments(""), "");
    assert_eq!(strip_json_comments("a\r\nb"), "a\nb\n");
    assert_eq!(strip_json_comments("\n"), "\n");
    assert_eq!(strip_json_comments("x\r"), "x\r\n");
}

#[test]
fn stripping_twice_changes_nothing() {
    let src = "{\n  // c\n  \"a\": 1, // x\n  \"u\": \"http://e\" // y\n    //z\n}";
    let once = strip_json_comments(src);
    assert_eq!(strip_json_comments(&once), once);
    assert!(once.ends_with('\n'));
    assert!(once.lines().all(|l| !l.trim_start().starts_with("//")));
}
