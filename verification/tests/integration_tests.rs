use kazane_game_launcher::game_data::LocalGameData;
use kazane_game_launcher::settings::Settings;

#[test]
fn test_settings_default_load() {
    // No settings file stored yet: the defaults are used.
    let s = Settings::load(None);
    assert_eq!(s.install_dir, "games");
    assert_eq!(s.theme, "dark");
}

#[test]
fn test_local_game_data_load_default() {
    // No game data file stored yet: the record is empty.
    let d = LocalGameData::load(None);
    assert!(d.installed.is_empty());
}

#[test]
fn settings_load_keeps_stored_values() {
    let stored = Settings { install_dir: "lib".to_string(), theme: "Light".to_string() };
    let s = Settings::load(Some(stored));
    assert_eq!(s.install_dir, "lib");
    assert_eq!(s.theme, "Light");
    assert!(!s.is_dark_theme());
    assert!(Settings::default().is_dark_theme());
    let shouting = Settings { install_dir: "games".to_string(), theme: "DARK".to_string() };
    assert!(shouting.is_dark_theme());
}
