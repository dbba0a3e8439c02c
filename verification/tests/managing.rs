use std::path::PathBuf;
use update_via_github::{UpdateConfig, UpdateInfo, UpdateManager, UpdateStatus};

fn manager() -> UpdateManager {
    UpdateManager::new(UpdateConfig::new("owner/my-app", "MyApp.exe", "1.0.0"))
}

fn info() -> UpdateInfo {
    UpdateInfo {
        version: "1.1.0".to_owned(),
        release_url: "https://github.com/r".to_owned(),
        download_url: "https://github.com/dl/MyApp.exe".to_owned(),
        checksum_url: None,
        asset_digest: None,
    }
}

#[test]
fn begins_at_rest() {
    let manager = manager();
    assert!(matches!(manager.status(), UpdateStatus::Idle));
    assert_eq!(manager.config().repository, "owner/my-app");
    assert_eq!(manager.apply_ready(), None);
}

#[test]
fn a_check_finds_an_update() {
    let mut manager = manager();
    assert!(!manager.start_download());
    assert!(manager.start_check(false));
    assert!(matches!(manager.status(), UpdateStatus::Checking));
    assert!(!manager.start_check(true));
    assert!(!manager.start_download());
    assert!(manager.check_finished(Ok(Some(info()))).is_none());
    assert!(matches!(manager.status(), UpdateStatus::Available(i) if i.version == "1.1.0"));
}

#[test]
fn an_available_update_is_downloaded() {
    let mut manager = manager();
    manager.start_check(false);
    manager.check_finished(Ok(Some(info())));
    assert!(manager.start_download());
    assert!(matches!(
        manager.status(),
        UpdateStatus::Downloading { downloaded: 0, total: None, .. }
    ));
    assert!(!manager.start_download());
    assert!(!manager.start_check(false));
    manager.download_progressed(&info(), 5, Some(9));
    assert!(matches!(
        manager.status(),
        UpdateStatus::Downloading { info, downloaded: 5, total: Some(9) } if info.version == "1.1.0"
    ));
    let path = PathBuf::from("update.exe");
    manager.download_finished(info(), Ok(path.clone()));
    assert!(matches!(manager.status(), UpdateStatus::Ready(_, p) if p == path));
    assert_eq!(manager.apply_ready(), Some(path));
    assert!(!manager.start_download());
    assert!(manager.start_check(false));
    assert_eq!(manager.apply_ready(), None);
}

#[test]
fn a_check_can_go_on_to_download() {
    let mut manager = manager();
    assert!(manager.start_check(true));
    let next = manager.check_finished(Ok(Some(info()))).unwrap();
    assert_eq!(next.version, "1.1.0");
    assert!(matches!(
        manager.status(),
        UpdateStatus::Downloading { downloaded: 0, total: None, .. }
    ));
    manager.download_finished(next, Err("Update asset returned HTTP 404.".to_owned()));
    assert!(matches!(manager.status(), UpdateStatus::Failed(m) if m == "Update asset returned HTTP 404."));
    assert!(manager.start_check(true));
    assert!(manager.check_finished(Ok(None)).is_none());
    assert!(matches!(manager.status(), UpdateStatus::UpToDate));
}

#[test]
fn a_failed_check_is_reported() {
    let mut manager = manager();
    manager.start_check(true);
    assert!(manager.check_finished(Err("Update request failed.".to_owned())).is_none());
    assert!(matches!(manager.status(), UpdateStatus::Failed(m) if m == "Update request failed."));
    assert!(manager.start_check(false));
}
