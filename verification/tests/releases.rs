use update_via_github::release::{
    latest_release_request, select_update, GithubAsset, GithubRelease,
};
use update_via_github::{check_latest_release, UpdateConfig};

const DIGEST: &str = "sha256:0123456789abcdef0123456789abcdef0123456789abcdef0123456789abcdef";

fn config() -> UpdateConfig {
    UpdateConfig::new("owner/my-app", "MyApp.exe", "1.0.0")
}

fn asset(name: &str, digest: Option<&str>) -> GithubAsset {
    GithubAsset {
        name: name.to_owned(),
        browser_download_url: format!("https://github.com/dl/{name}"),
        digest: digest.map(str::to_owned),
    }
}

fn release(tag: &str, assets: Vec<GithubAsset>) -> GithubRelease {
    GithubRelease {
        tag_name: tag.to_owned(),
        html_url: "https://github.com/owner/my-app/releases/1".to_owned(),
        assets,
    }
}

#[test]
fn asks_the_api_for_the_latest_release() {
    let request = latest_release_request(&config()).unwrap();
    assert_eq!(request.host, "api.github.com");
    assert_eq!(request.path, "/repos/owner/my-app/releases/latest");
    assert_eq!(request.max_size, 4_194_304);
    let faulty = UpdateConfig::new("owner", "MyApp.exe", "1.0.0");
    assert_eq!(
        latest_release_request(&faulty).unwrap_err(),
        "GitHub repository must be in owner/name format."
    );
}

#[test]
fn offers_the_named_asset() {
    let release = release(
        "v1.1.0",
        vec![asset("notes.txt", None), asset("myapp.EXE", Some(DIGEST)), asset("MyApp.exe", None)],
    );
    let info = check_latest_release(&config(), Ok(Some(release))).unwrap().unwrap();
    assert_eq!(info.version, "1.1.0");
    assert_eq!(info.release_url, "https://github.com/owner/my-app/releases/1");
    assert_eq!(info.download_url, "https://github.com/dl/myapp.EXE");
    assert_eq!(info.checksum_url, None);
    assert_eq!(info.asset_digest.as_deref(), Some(DIGEST));
    let copy = info.clone();
    assert_eq!(format!("{copy:?}"), format!("{info:?}"));
}

#[test]
fn offers_the_checksum_asset() {
    let config = config().with_checksum_asset("sums.txt");
    let with = release("2", vec![asset("MyApp.exe", None), asset("SUMS.txt", None)]);
    let info = select_update(&config, &with).unwrap().unwrap();
    assert_eq!(info.checksum_url.as_deref(), Some("https://github.com/dl/SUMS.txt"));
    let without = release("2", vec![asset("MyApp.exe", None)]);
    assert_eq!(select_update(&config, &without).unwrap().unwrap().checksum_url, None);
}

#[test]
fn only_newer_releases_are_updates() {
    for tag in ["v1.0.0", "0.9", "1.0.0-rc.1", "nightly"] {
        let release = release(tag, vec![asset("MyApp.exe", None)]);
        assert!(select_update(&config(), &release).unwrap().is_none());
    }
    let old = release("0.9", vec![]);
    assert!(select_update(&config(), &old).unwrap().is_none());
}

#[test]
fn no_release_is_no_update() {
    assert!(check_latest_release(&config(), Ok(None)).unwrap().is_none());
    assert_eq!(
        check_latest_release(&config(), Err("Update request failed.".to_owned())).unwrap_err(),
        "Update request failed."
    );
    assert_eq!(
        check_latest_release(&config().with_max_download_size(0), Ok(None)).unwrap_err(),
        "Maximum download size must be greater than zero."
    );
}

#[test]
fn a_release_without_the_asset_is_reported() {
    let release = release("v2.0.0", vec![asset("Other.exe", None)]);
    assert_eq!(
        select_update(&config(), &release).unwrap_err(),
        "Release v2.0.0 has no MyApp.exe asset."
    );
}

#[test]
fn a_required_checksum_must_be_there() {
    let config = config().with_required_checksum(true);
    let bare = release("v2", vec![asset("MyApp.exe", Some("md5:1"))]);
    assert_eq!(
        select_update(&config, &bare).unwrap_err(),
        "Release v2 has no usable checksum (a SHA-256 digest)."
    );
    let named = config.clone().with_checksum_asset("sums.txt");
    assert_eq!(
        select_update(&named, &bare).unwrap_err(),
        "Release v2 has no usable checksum (sums.txt)."
    );
    let digested = release("v2", vec![asset("MyApp.exe", Some(DIGEST))]);
    assert!(select_update(&config, &digested).unwrap().is_some());
    let summed = release("v2", vec![asset("MyApp.exe", None), asset("sums.txt", None)]);
    assert!(select_update(&named, &summed).unwrap().is_some());
    assert!(select_update(&config, &summed).is_err());
}
