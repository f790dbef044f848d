use std::path::PathBuf;

use kazane_game_launcher::api::{github_repo_url, parse_owner_repo, LauncherApi, LauncherError};
use kazane_game_launcher::game_data::{InstalledGame, LocalGameData};
use kazane_game_launcher::game_list::{GameList, GameListEntry};
use kazane_game_launcher::release::{ReleaseInfo, ReleaseList};

fn entry(id: &str, repo: &str) -> GameListEntry {
    GameListEntry {
        id: id.to_string(),
        name: id.to_string(),
        repo: repo.to_string(),
        description: Some("a game".to_string()),
        tags: vec![],
    }
}

fn api() -> LauncherApi<()> {
    LauncherApi::new(
        (),
        PathBuf::from("games"),
        PathBuf::from("local/game_data.json"),
        PathBuf::from("data/game_list.json"),
    )
}

#[test]
fn parse_owner_repo_accepts_github_urls() {
    assert_eq!(
        parse_owner_repo("https://github.com/kazanefu/zip_sample_game"),
        Some(("kazanefu".to_string(), "zip_sample_game".to_string()))
    );
    assert_eq!(
        parse_owner_repo("http://github.com/owner/repo///"),
        Some(("owner".to_string(), "repo".to_string()))
    );
    assert_eq!(
        parse_owner_repo("https://github.com/owner/repo/tree/main"),
        Some(("owner".to_string(), "repo/tree/main".to_string()))
    );
    assert_eq!(parse_owner_repo("https://gitlab.com/owner/repo"), None);
    assert_eq!(parse_owner_repo("https://github.com/owner"), None);
    assert_eq!(parse_owner_repo("https://github.com/owner/"), None);
}

#[test]
fn repo_url_round_trip() {
    let url = github_repo_url("kazanefu", "exe_sample_game");
    assert_eq!(url, "https://github.com/kazanefu/exe_sample_game");
    assert_eq!(
        parse_owner_repo(&url),
        Some(("kazanefu".to_string(), "exe_sample_game".to_string()))
    );
}

#[test]
fn new_keeps_its_paths() {
    let a = api();
    assert_eq!(a.games_dir, PathBuf::from("games"));
    assert_eq!(a.game_data_path, PathBuf::from("local/game_data.json"));
    assert_eq!(a.game_list_path, PathBuf::from("data/game_list.json"));
}

#[test]
fn repo_target_reports_each_error() {
    let a = api();
    let list = GameList {
        games: vec![
            entry("zip-sample", "https://github.com/kazanefu/zip_sample_game"),
            entry("broken", "not a url"),
        ],
    };
    let (o, r) = a.repo_target(&list, "zip-sample").ok().unwrap();
    assert_eq!((o.as_str(), r.as_str()), ("kazanefu", "zip_sample_game"));
    match a.repo_target(&list, "missing") {
        Err(e @ LauncherError::GameNotFound(_)) => {
            assert_eq!(e.message(), "game id not found: missing")
        }
        _ => panic!("expected GameNotFound"),
    }
    match a.repo_target(&list, "broken") {
        Err(e @ LauncherError::InvalidRepoUrl(_)) => {
            assert_eq!(e.message(), "invalid repo url for broken")
        }
        _ => panic!("expected InvalidRepoUrl"),
    }
    let found = a.find_game_entry(&list, "broken").ok().unwrap();
    assert_eq!(found.repo, "not a url");
    let results = a.search_games(&list, "ZIP", None);
    assert_eq!(results.len(), 1);
}

#[test]
fn local_targets_and_uninstall_take() {
    let a = api();
    let mut local = LocalGameData::load(None);
    local.add_or_update(InstalledGame {
        id: "zip_sample_game".to_string(),
        name: "zip".to_string(),
        version: "0.1.0".to_string(),
        install_path: "games/zip_sample_game".to_string(),
        exe_path: None,
        repo: "https://github.com/kazanefu/zip_sample_game".to_string(),
        installed: true,
        last_checked: None,
    });
    assert_eq!(
        a.find_repo_by_local_id(&local, "zip_sample_game").ok().unwrap(),
        "https://github.com/kazanefu/zip_sample_game"
    );
    let (o, r) = a.local_repo_target(&local, "zip_sample_game").ok().unwrap();
    assert_eq!((o.as_str(), r.as_str()), ("kazanefu", "zip_sample_game"));
    assert!(a.local_repo_target(&local, "nope").is_err());
    let g = a.take_installed(&mut local, "zip_sample_game").ok().unwrap();
    assert_eq!(g.id, "zip_sample_game");
    assert!(local.installed.is_empty());
    match a.take_installed(&mut local, "zip_sample_game") {
        Err(e) => assert_eq!(e.message(), "not installed: zip_sample_game"),
        Ok(_) => panic!("expected NotInstalled"),
    }
}

#[test]
fn update_compares_the_record_of_the_repository() {
    let a = api();
    let release = ReleaseList {
        latest: ReleaseInfo { version: "0.2.0".to_string(), assets: vec![], channel: None },
    };
    let mut local = LocalGameData::load(None);
    assert!(a.update_needed(&local, "zip_sample_game", &release));
    local.add_or_update(InstalledGame {
        id: "zip_sample_game".to_string(),
        name: "zip".to_string(),
        version: "0.0.1".to_string(),
        install_path: "games/zip_sample_game".to_string(),
        exe_path: None,
        repo: "https://github.com/kazanefu/zip_sample_game".to_string(),
        installed: true,
        last_checked: None,
    });
    assert!(a.update_needed(&local, "zip_sample_game", &release));
    local.installed[0].version = "0.2.0".to_string();
    assert!(!a.update_needed(&local, "zip_sample_game", &release));
}

#[test]
fn http_urls_and_trailing_slashes_round_trip() {
    assert_eq!(
        parse_owner_repo("http://github.com/kazanefu/exe_sample_game//"),
        Some(("kazanefu".to_string(), "exe_sample_game".to_string()))
    );
    assert_eq!(parse_owner_repo("ftp://github.com/o/r"), None);
}
