use update_via_github::config::validate_config;
use update_via_github::UpdateConfig;

fn config() -> UpdateConfig {
    UpdateConfig::new("owner/my-app", "MyApp.exe", "1.0.0")
}

#[test]
fn new_settings_have_defaults() {
    let config = config();
    assert_eq!(config.repository, "owner/my-app");
    assert_eq!(config.asset_name, "MyApp.exe");
    assert_eq!(config.current_version, "1.0.0");
    assert_eq!(config.app_name, "MyApp");
    assert_eq!(config.checksum_asset_name, None);
    assert_eq!(config.max_download_size, 104_857_600);
    assert_eq!(config.min_executable_size, 100_000);
    assert!(!config.require_checksum);
}

#[test]
fn application_name_comes_from_the_asset() {
    let name = |asset: &str| UpdateConfig::new("o/r", asset, "1").app_name;
    assert_eq!(name("MyApp"), "MyApp");
    assert_eq!(name("MyApp.EXE"), "MyApp.EXE");
    assert_eq!(name("MyApp.exe.exe"), "MyApp.exe");
    assert_eq!(name(".exe"), "");
    assert_eq!(name("exe"), "exe");
}

#[test]
fn settings_take_owned_texts() {
    let config = UpdateConfig::new(String::from("o/r"), String::from("A.exe"), String::from("2"));
    assert_eq!(config.repository, "o/r");
    assert_eq!(config.with_app_name(String::from("Other")).app_name, "Other");
}

#[test]
fn each_setting_changes_alone() {
    let changed = config()
        .with_app_name("Other")
        .with_checksum_asset("sums.txt")
        .with_max_download_size(50)
        .with_min_executable_size(7)
        .with_required_checksum(true);
    assert_eq!(changed.repository, "owner/my-app");
    assert_eq!(changed.asset_name, "MyApp.exe");
    assert_eq!(changed.current_version, "1.0.0");
    assert_eq!(changed.app_name, "Other");
    assert_eq!(changed.checksum_asset_name.as_deref(), Some("sums.txt"));
    assert_eq!(changed.max_download_size, 50);
    assert_eq!(changed.min_executable_size, 7);
    assert!(changed.require_checksum);
    let copy = changed.clone();
    assert_eq!(format!("{copy:?}"), format!("{changed:?}"));
}

#[test]
fn faulty_settings_are_refused() {
    let fault = |config: UpdateConfig| validate_config(&config).unwrap_err();
    assert_eq!(validate_config(&config()), Ok(()));
    for repository in ["", "  ", "owner", "\t\n"] {
        assert_eq!(
            fault(UpdateConfig::new(repository, "", "")),
            "GitHub repository must be in owner/name format."
        );
    }
    assert_eq!(
        fault(UpdateConfig::new("o/r", " ", "")),
        "Update asset name cannot be empty."
    );
    assert_eq!(
        fault(UpdateConfig::new("o/r", "A.exe", "\u{a0}").with_max_download_size(0)),
        "Current application version cannot be empty."
    );
    assert_eq!(
        fault(config().with_max_download_size(0)),
        "Maximum download size must be greater than zero."
    );
    assert_eq!(validate_config(&UpdateConfig::new("/", "x", "y")), Ok(()));
}
