use hearth::activity::match_known_app;
use hearth::activity::IdleStatus;
use hearth::activity::DEFAULT_IDLE_THRESHOLD;
use hearth::tray::tray_tooltip;
use hearth::TrayState;

#[test]
fn test_tray_state_defaults() {
    let state = TrayState::new();
    assert_eq!(state.get_unread_count(), 0);
    assert!(!state.is_muted());
    assert!(!state.is_focus_mode_enabled());
}

#[test]
fn test_toggle_mute_flips_and_reports() {
    let mut state = TrayState::new();
    assert!(state.toggle_mute());
    assert!(state.is_muted());
    assert!(!state.toggle_mute());
    assert!(!state.is_muted());
}

#[test]
fn test_set_mute_and_focus_mode() {
    let mut state = TrayState::new();
    assert!(state.set_mute(true));
    assert!(state.is_muted());
    assert!(state.set_focus_mode(true));
    assert!(state.is_focus_mode_enabled());
    assert!(!state.toggle_focus_mode());
    assert!(!state.is_focus_mode_enabled());
}

#[test]
fn test_unread_count_round_trip() {
    let mut state = TrayState::new();
    state.set_unread_count(17);
    assert_eq!(state.get_unread_count(), 17);
}

#[test]
fn test_tooltip_text() {
    assert_eq!(tray_tooltip(0), "Hearth");
    assert_eq!(tray_tooltip(1), "Hearth (1 unread)");
    assert_eq!(tray_tooltip(123), "Hearth (123 unread)");
    assert_eq!(tray_tooltip(1000), "Hearth (1000 unread)");
    let mut state = TrayState::new();
    state.set_unread_count(5);
    assert_eq!(state.tooltip(), "Hearth (5 unread)");
}

#[test]
fn test_idle_status_threshold_is_strict() {
    let below = IdleStatus::from_measurement(300, 300, false);
    assert!(!below.is_idle);
    let above = IdleStatus::from_measurement(301, 300, true);
    assert!(above.is_idle);
    assert!(above.screen_locked);
    assert_eq!(above.idle_seconds, 301);
}

#[test]
fn test_idle_status_default_threshold() {
    assert_eq!(DEFAULT_IDLE_THRESHOLD, 300);
    let status = IdleStatus::from_measurement_default(400, false);
    assert!(status.is_idle);
    let status = IdleStatus::from_measurement_default(10, false);
    assert!(!status.is_idle);
}

#[test]
fn test_match_known_app_by_process_name() {
    let activity = match_known_app("Spotify.exe", None, 42).unwrap();
    assert_eq!(activity.name, "Spotify");
    assert_eq!(activity.process_name, "Spotify.exe");
    assert_eq!(activity.activity_type, 2);
    assert_eq!(activity.window_title, None);
    assert_eq!(activity.started_at, 42);
}

#[test]
fn test_match_known_app_uppercase_process() {
    let activity = match_known_app("STEAM.EXE", None, 7).unwrap();
    assert_eq!(activity.name, "Steam");
    assert_eq!(activity.activity_type, 0);
}

#[test]
fn test_match_known_app_by_window_title() {
    let activity =
        match_known_app("someproc", Some("Netflix - Home".to_string()), 1).unwrap();
    assert_eq!(activity.name, "Netflix");
    assert_eq!(activity.activity_type, 3);
    assert_eq!(activity.window_title, Some("Netflix - Home".to_string()));
}

#[test]
fn test_match_known_app_first_entry_wins() {
    let activity = match_known_app("code - insiders", None, 0).unwrap();
    assert_eq!(activity.name, "Visual Studio Code");
}

#[test]
fn test_match_known_app_none_for_unknown() {
    assert!(match_known_app("explorer", None, 0).is_none());
    assert!(match_known_app("explorer", Some("Documents".to_string()), 0).is_none());
}
