use kazane_game_launcher::game_data::{InstalledGame, LocalGameData};

fn game(id: &str, version: &str) -> InstalledGame {
    InstalledGame {
        id: id.to_string(),
        name: format!("{} name", id),
        version: version.to_string(),
        install_path: format!("games/{}", id),
        exe_path: None,
        repo: format!("https://github.com/kazanefu/{}", id),
        installed: true,
        last_checked: None,
    }
}

#[test]
fn add_then_find_gives_the_added_game() {
    let mut d = LocalGameData::load(None);
    d.add_or_update(game("zip_sample_game", "1.0.0"));
    let g = d.find("zip_sample_game").unwrap();
    assert_eq!(g.version, "1.0.0");
    assert!(d.find("other").is_none());
}

#[test]
fn add_or_update_replaces_in_place_and_keeps_others() {
    let mut d = LocalGameData::load(None);
    d.add_or_update(game("a", "1"));
    d.add_or_update(game("b", "1"));
    d.add_or_update(game("a", "2"));
    assert_eq!(d.installed.len(), 2);
    assert_eq!(d.installed[0].id, "a");
    assert_eq!(d.installed[0].version, "2");
    assert_eq!(d.find("b").unwrap().version, "1");
}

#[test]
fn remove_by_id_takes_out_the_entry() {
    let mut d = LocalGameData { installed: vec![game("a", "1"), game("b", "1")] };
    let removed = d.remove_by_id("a").unwrap();
    assert_eq!(removed.id, "a");
    assert!(d.find("a").is_none());
    assert_eq!(d.find("b").unwrap().id, "b");
    assert!(d.remove_by_id("a").is_none());
    assert_eq!(d.installed.len(), 1);
}

#[test]
fn needs_update_compares_versions() {
    let mut d = LocalGameData::load(None);
    assert!(d.needs_update("g", "0.1.0"));
    d.add_or_update(game("g", "0.1.0"));
    assert!(!d.needs_update("g", "0.1.0"));
    assert!(d.needs_update("g", "0.0.1"));
}

#[test]
fn load_keeps_stored_record() {
    let stored = LocalGameData { installed: vec![game("x", "3")] };
    let d = LocalGameData::load(Some(stored));
    assert_eq!(d.installed.len(), 1);
    assert_eq!(d.installed[0].id, "x");
}

#[test]
fn clone_is_field_for_field() {
    let mut g = game("c", "1");
    g.exe_path = Some("games/c/c.exe".to_string());
    let h = g.clone();
    assert_eq!(h.id, g.id);
    assert_eq!(h.exe_path, g.exe_path);
    assert_eq!(h.installed, g.installed);
    let d = LocalGameData { installed: vec![g] };
    assert_eq!(d.clone().installed.len(), 1);
}

#[test]
fn install_then_uninstall_leaves_others() {
    let mut d = LocalGameData { installed: vec![game("a", "1"), game("b", "2")] };
    d.add_or_update(game("zip_sample_game", "0.0.1"));
    d.add_or_update(game("zip_sample_game", "0.2.0"));
    assert!(d.remove_by_id("zip_sample_game").is_some());
    assert!(d.installed.iter().all(|g| g.id != "zip_sample_game"));
    assert_eq!(d.find("a").unwrap().version, "1");
    assert_eq!(d.find("b").unwrap().version, "2");
}
