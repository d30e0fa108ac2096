use project_graph::settings::Settings;
use project_graph::settings_window::SettingsWindow;

#[test]
fn default_settings() {
    let s = Settings::default();
    assert_eq!(s.user_name, "User");
    assert_eq!(s.theme_mode, "Dark");
    assert_eq!(s.font_size_tenths, 140);
    assert_eq!(s.ui_scale_tenths, 10);
    assert!(s.enable_animations);
    assert_eq!(s.auto_save_interval, 60);
    assert!(s.sync_on_startup);
    assert!(!s.show_debug_info);
    assert!(!s.experimental_layout);
}

#[test]
fn get_returns_a_copy() {
    let mut s = Settings::default();
    s.user_name = "Ada".to_string();
    s.auto_save_interval = 120;
    let copy = s.get();
    assert_eq!(copy.user_name, "Ada");
    assert_eq!(copy.auto_save_interval, 120);
    assert_eq!(copy.theme_mode, "Dark");
}

#[test]
fn modify_applies_the_update() {
    let mut s = Settings::default();
    s.modify(|mut v| {
        v.theme_mode = "Light".to_string();
        v.show_debug_info = true;
        v
    });
    assert_eq!(s.theme_mode, "Light");
    assert!(s.show_debug_info);
    assert_eq!(s.user_name, "User");
}

#[test]
fn settings_window_opens_on_account() {
    let w = SettingsWindow::new();
    assert_eq!(w.selected_minor(), "account");
}

#[test]
fn settings_window_select() {
    let mut w = SettingsWindow::new();
    w.select("theme");
    assert_eq!(w.selected_minor(), "theme");
}
