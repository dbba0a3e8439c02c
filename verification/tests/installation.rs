use update_via_github::install::{
    describe_failure, launch_updater, updater_script, HostFailure, LaunchArgument,
};
use update_via_github::{apply_update, UpdateConfig};

fn config() -> UpdateConfig {
    UpdateConfig::new("owner/my-app", "My App.exe", "1.0.0")
}

#[test]
fn prepares_the_script() {
    let script = apply_update(&config(), true, 12).unwrap();
    assert_eq!(script.file_name, "MyApp-updater-12.ps1");
    assert_eq!(script.text, updater_script());
}

#[test]
fn refuses_to_apply_without_a_source() {
    assert_eq!(
        apply_update(&config(), false, 12).unwrap_err(),
        "Downloaded update file does not exist."
    );
    assert_eq!(
        apply_update(&UpdateConfig::new("x", "y", "z"), false, 12).unwrap_err(),
        "GitHub repository must be in owner/name format."
    );
}

#[test]
fn the_script_waits_copies_and_cleans_up() {
    let lines: Vec<&str> = updater_script().lines().map(str::trim).collect();
    assert_eq!(
        lines,
        vec![
            "param([int]$TargetPid, [string]$Source, [string]$Destination)",
            "Wait-Process -Id $TargetPid -ErrorAction SilentlyContinue",
            "for ($attempt = 0; $attempt -lt 30; $attempt++) {",
            "try {",
            "Copy-Item -LiteralPath $Source -Destination $Destination -Force -ErrorAction Stop",
            "Start-Process -FilePath $Destination",
            "Remove-Item -LiteralPath $Source -Force -ErrorAction SilentlyContinue",
            "Remove-Item -LiteralPath $PSCommandPath -Force -ErrorAction SilentlyContinue",
            "exit 0",
            "} catch {",
            "Start-Sleep -Milliseconds 500",
            "}",
            "}",
        ]
    );
    assert!(updater_script().ends_with("}\n"));
}

#[test]
fn starts_the_script_hidden() {
    let text = |t: &str| LaunchArgument::Text(t.to_owned());
    assert_eq!(
        launch_updater(4711),
        vec![
            text("-NoProfile"),
            text("-ExecutionPolicy"),
            text("Bypass"),
            text("-WindowStyle"),
            text("Hidden"),
            text("-File"),
            LaunchArgument::Script,
            text("-TargetPid"),
            text("4711"),
            text("-Source"),
            LaunchArgument::Source,
            text("-Destination"),
            LaunchArgument::Destination,
        ]
    );
}

#[test]
fn failures_of_the_host_are_reported() {
    for (failure, message) in [
        (HostFailure::ReadRelease, "Invalid GitHub release response: why"),
        (HostFailure::StoreUpdate, "Cannot store downloaded update: why"),
        (HostFailure::LocateExecutable, "Cannot locate current executable: why"),
        (HostFailure::CreateScript, "Cannot create updater script: why"),
        (HostFailure::LaunchUpdater, "Cannot launch updater: why"),
    ] {
        assert_eq!(describe_failure(failure, "why"), message);
    }
}
