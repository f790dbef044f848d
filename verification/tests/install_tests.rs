use kazane_game_launcher::install::{
    backup_extension, check_sha256, download_step, entry_file_name, installed_record,
    is_directory_entry, is_launchable, is_zip_asset, plan_extracted_layout, select_asset,
    ChecksumCheck, ExtractedLayout, InstallError, InstallStage, Progress,
};
use kazane_game_launcher::release::{ReleaseAsset, ReleaseInfo, ReleaseList};

const ABC_SHA: &str = "ba7816bf8f01cfea414140de5dae2223b00361a396177a9cb410ff61f20015ad";

fn asset(name: &str, url: &str, kind: &str) -> ReleaseAsset {
    ReleaseAsset {
        name: name.to_string(),
        url: url.to_string(),
        asset_type: kind.to_string(),
        sha256: None,
        entry_point: None,
    }
}

fn release(assets: Vec<ReleaseAsset>) -> ReleaseList {
    ReleaseList { latest: ReleaseInfo { version: "1.2.3".to_string(), assets, channel: None } }
}

#[test]
fn select_asset_takes_the_first() {
    let r = release(vec![asset("a.zip", "u1", "zip"), asset("b.exe", "u2", "exe")]);
    assert_eq!(select_asset(&r).ok().unwrap().name, "a.zip");
    match select_asset(&release(vec![])) {
        Err(InstallError::Other(m)) => assert_eq!(m, "no assets in release"),
        _ => panic!("expected an error"),
    }
}

#[test]
fn zip_detection_by_type_or_url() {
    assert!(is_zip_asset(&asset("g", "https://x/g.bin", "ZIP")));
    assert!(is_zip_asset(&asset("g", "https://x/G.ZIP", "exe")));
    assert!(!is_zip_asset(&asset("g", "https://x/g.exe", "exe")));
}

#[test]
fn entry_file_name_prefers_entry_point() {
    let mut a = asset("game.exe", "u", "exe");
    assert_eq!(entry_file_name(&a), "game.exe");
    a.entry_point = Some("bin/run.exe".to_string());
    assert_eq!(entry_file_name(&a), "bin/run.exe");
}

#[test]
fn checksum_outcomes() {
    let data = b"abc";
    assert_eq!(check_sha256(&None, data).ok(), Some(ChecksumCheck::NotRequested));
    assert_eq!(
        check_sha256(&Some(format!("  {}  ", ABC_SHA.to_uppercase())), data).ok(),
        Some(ChecksumCheck::Verified)
    );
    assert_eq!(
        check_sha256(&Some("placeholder".to_string()), data).ok(),
        Some(ChecksumCheck::SkippedInvalid)
    );
    let wrong = "0".repeat(64);
    match check_sha256(&Some(wrong.clone()), data) {
        Err(InstallError::Other(m)) => {
            assert_eq!(m, format!("sha256 mismatch: expected {} got {}", wrong, ABC_SHA))
        }
        _ => panic!("expected a mismatch"),
    }
}

#[test]
fn download_steps_count_and_cancel() {
    let (n, p) = download_step(10, 5, Some(100), false).ok().unwrap();
    assert_eq!(n, 15);
    assert_eq!(p, Progress { stage: InstallStage::Downloading, downloaded: 15, total: Some(100) });
    assert!(matches!(download_step(10, 5, None, true), Err(InstallError::Cancelled)));
    assert_eq!(
        Progress::at_stage(InstallStage::Done),
        Progress { stage: InstallStage::Done, downloaded: 0, total: None }
    );
}

#[test]
fn error_messages() {
    assert_eq!(InstallError::Cancelled.message(), "install cancelled");
    assert_eq!(InstallError::Cancelled.failure_text(), "cancelled");
    assert_eq!(InstallError::Other("boom".to_string()).message(), "boom");
    assert_eq!(InstallError::Other("boom".to_string()).failure_text(), "boom");
}

#[test]
fn unpacking_decisions() {
    assert!(is_directory_entry("game/"));
    assert!(!is_directory_entry("game/run.exe"));
    assert_eq!(plan_extracted_layout(1, true), ExtractedLayout::RenameSingleDir);
    assert_eq!(plan_extracted_layout(1, false), ExtractedLayout::MoveSingleFile);
    assert_eq!(plan_extracted_layout(3, true), ExtractedLayout::MoveEach);
    assert_eq!(plan_extracted_layout(0, false), ExtractedLayout::MoveEach);
    assert_eq!(backup_extension(1725029869), "old-1725029869");
    assert_eq!(backup_extension(0), "old-0");
}

#[test]
fn launchable_files() {
    assert!(is_launchable(Some("EXE"), None));
    assert!(is_launchable(Some("exe"), Some(0o644)));
    assert!(!is_launchable(Some("sh"), Some(0o755)));
    assert!(is_launchable(None, Some(0o755)));
    assert!(!is_launchable(None, Some(0o644)));
    assert!(!is_launchable(None, None));
}

#[test]
fn installed_record_fields() {
    let r = release(vec![asset("zip_sample_game.zip", "u", "zip")]);
    let a = select_asset(&r).ok().unwrap();
    let g = installed_record(
        &r,
        &a,
        "kazanefu",
        "zip_sample_game",
        "games/zip_sample_game".to_string(),
        Some("games/zip_sample_game/run.exe".to_string()),
    );
    assert_eq!(g.id, "zip_sample_game");
    assert_eq!(g.name, "zip_sample_game.zip");
    assert_eq!(g.version, "1.2.3");
    assert_eq!(g.repo, "https://github.com/kazanefu/zip_sample_game");
    assert!(g.installed);
    assert!(g.last_checked.is_none());
    assert_eq!(g.exe_path.as_deref(), Some("games/zip_sample_game/run.exe"));
}

#[test]
fn placeholder_checksum_behaves_as_none() {
    for data in [&b"abc"[..], &b""[..], &b"other bytes"[..]] {
        assert!(check_sha256(&Some("TODO".to_string()), data).is_ok());
        assert!(check_sha256(&None, data).is_ok());
    }
}

#[test]
fn download_status_decision() {
    assert!(kazane_game_launcher::install::check_download_status(true, "200 OK", "u").is_ok());
    match kazane_game_launcher::install::check_download_status(false, "404 Not Found", "https://x/a.zip") {
        Err(InstallError::Other(m)) => assert_eq!(m, "HTTP error 404 Not Found fetching https://x/a.zip"),
        _ => panic!("expected an HTTP error"),
    }
}
