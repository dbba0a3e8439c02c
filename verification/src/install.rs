//! Putting a downloaded update in place of the running executable.
//!
//! A script does that after the application has ended. This module says what the script is, how
//! it is started, and what is reported when the host fails.
use crate::config::{config_fault, validate_config, ConfigView, UpdateConfig};
use crate::names::{script_file, script_file_name};
use crate::number::{decimal, push_decimal};
use vstd::prelude::*;

verus! {

/// The program that runs the updater script.
pub const UPDATER_PROGRAM: &'static str = "powershell.exe";

/// The flag that starts a process without a window.
pub const CREATE_NO_WINDOW: u32 = 0x0800_0000;

/// The updater script. It waits for the application to end, copies the update over the
/// executable, tries that thirty times, starts the new executable and cleans up.
pub const UPDATER_SCRIPT: &'static str = r#"param([int]$TargetPid, [string]$Source, [string]$Destination)
Wait-Process -Id $TargetPid -ErrorAction SilentlyContinue
for ($attempt = 0; $attempt -lt 30; $attempt++) {
    try {
        Copy-Item -LiteralPath $Source -Destination $Destination -Force -ErrorAction Stop
        Start-Process -FilePath $Destination
        Remove-Item -LiteralPath $Source -Force -ErrorAction SilentlyContinue
        Remove-Item -LiteralPath $PSCommandPath -Force -ErrorAction SilentlyContinue
        exit 0
    } catch {
        Start-Sleep -Milliseconds 500
    }
}
"#;

/// The updater script.
pub fn updater_script() -> (script: &'static str)
    ensures
        script@ == UPDATER_SCRIPT@,
{
    UPDATER_SCRIPT
}

/// A script to store and start.
#[derive(Debug)]
pub struct UpdaterScript {
    /// The name to store it under, in the directory for temporary files.
    pub file_name: String,
    /// The script.
    pub text: String,
}

/// Why an update cannot be applied.
pub open spec fn apply_fault(config: ConfigView, source_is_file: bool) -> Option<Seq<char>> {
    match config_fault(config) {
        Some(message) => Some(message),
        None => if source_is_file {
            None
        } else {
            Some("Downloaded update file does not exist."@)
        },
    }
}

/// Prepares the script that applies an update for the process `pid`. `source_is_file` tells
/// whether the downloaded update is there.
pub fn apply_update(
    config: &UpdateConfig,
    source_is_file: bool,
    pid: u32,
) -> (script: Result<UpdaterScript, String>)
    ensures
        match script {
            Ok(s) => {
                &&& apply_fault(config@, source_is_file) is None
                &&& s.file_name@ == script_file(config@.app_name, pid as nat)
                &&& s.text@ == UPDATER_SCRIPT@
            },
            Err(message) => apply_fault(config@, source_is_file) == Some(message@),
        },
{
    match validate_config(config) {
        Ok(()) => {},
        Err(message) => {
            return Err(message);
        },
    }
    if !source_is_file {
        return Err(String::from("Downloaded update file does not exist."));
    }
    let file_name = script_file_name(config.app_name.as_str(), pid);
    Ok(UpdaterScript { file_name, text: String::from(updater_script()) })
}

/// An argument of the updater program.
#[derive(Debug, PartialEq, Eq)]
pub enum LaunchArgument {
    /// A text as it stands.
    Text(String),
    /// The path of the script.
    Script,
    /// The path of the downloaded update.
    Source,
    /// The path of the executable to replace.
    Destination,
}

/// What a [`LaunchArgument`] says.
pub enum ArgumentView {
    Text(Seq<char>),
    Script,
    Source,
    Destination,
}

impl View for LaunchArgument {
    type V = ArgumentView;

    open spec fn view(&self) -> ArgumentView {
        match self {
            LaunchArgument::Text(text) => ArgumentView::Text(text@),
            LaunchArgument::Script => ArgumentView::Script,
            LaunchArgument::Source => ArgumentView::Source,
            LaunchArgument::Destination => ArgumentView::Destination,
        }
    }
}

/// The arguments that make the updater program run the script, hidden, for a process.
pub open spec fn launch_arguments(pid: nat) -> Seq<ArgumentView> {
    seq![
        ArgumentView::Text("-NoProfile"@),
        ArgumentView::Text("-ExecutionPolicy"@),
        ArgumentView::Text("Bypass"@),
        ArgumentView::Text("-WindowStyle"@),
        ArgumentView::Text("Hidden"@),
        ArgumentView::Text("-File"@),
        ArgumentView::Script,
        ArgumentView::Text("-TargetPid"@),
        ArgumentView::Text(decimal(pid)),
        ArgumentView::Text("-Source"@),
        ArgumentView::Source,
        ArgumentView::Text("-Destination"@),
        ArgumentView::Destination,
    ]
}

/// The arguments of the updater program.
pub fn launch_updater(pid: u32) -> (arguments: Vec<LaunchArgument>)
    ensures
        arguments@.map_values(|a: LaunchArgument| a@) == launch_arguments(pid as nat),
{
    let mut number = String::new();
    push_decimal(&mut number, pid as u64);
    let mut arguments: Vec<LaunchArgument> = Vec::new();
    arguments.push(LaunchArgument::Text(String::from("-NoProfile")));
    arguments.push(LaunchArgument::Text(String::from("-ExecutionPolicy")));
    arguments.push(LaunchArgument::Text(String::from("Bypass")));
    arguments.push(LaunchArgument::Text(String::from("-WindowStyle")));
    arguments.push(LaunchArgument::Text(String::from("Hidden")));
    arguments.push(LaunchArgument::Text(String::from("-File")));
    arguments.push(LaunchArgument::Script);
    arguments.push(LaunchArgument::Text(String::from("-TargetPid")));
    arguments.push(LaunchArgument::Text(number));
    arguments.push(LaunchArgument::Text(String::from("-Source")));
    arguments.push(LaunchArgument::Source);
    arguments.push(LaunchArgument::Text(String::from("-Destination")));
    arguments.push(LaunchArgument::Destination);
    proof {
        let views = arguments@.map_values(|a: LaunchArgument| a@);
        assert(Seq::<char>::empty() + decimal(pid as nat) =~= decimal(pid as nat));
        assert(views =~= launch_arguments(pid as nat));
    }
    arguments
}

/// Something that the host failed to do.
#[derive(Clone, Copy, Debug, PartialEq, Eq, Structural)]
pub enum HostFailure {
    /// Read the description of a release.
    ReadRelease,
    /// Store a downloaded update.
    StoreUpdate,
    /// Find the running executable.
    LocateExecutable,
    /// Store the updater script.
    CreateScript,
    /// Start the updater.
    LaunchUpdater,
}

/// What is reported of a failure of the host, up to the host's own words.
pub open spec fn failure_prefix(failure: HostFailure) -> Seq<char> {
    match failure {
        HostFailure::ReadRelease => "Invalid GitHub release response: "@,
        HostFailure::StoreUpdate => "Cannot store downloaded update: "@,
        HostFailure::LocateExecutable => "Cannot locate current executable: "@,
        HostFailure::CreateScript => "Cannot create updater script: "@,
        HostFailure::LaunchUpdater => "Cannot launch updater: "@,
    }
}

/// Reports a failure of the host; `detail` is in the host's own words.
pub fn describe_failure(failure: HostFailure, detail: &str) -> (message: String)
    ensures
        message@ == failure_prefix(failure) + detail@,
{
    let mut message = match failure {
        HostFailure::ReadRelease => String::from("Invalid GitHub release response: "),
        HostFailure::StoreUpdate => String::from("Cannot store downloaded update: "),
        HostFailure::LocateExecutable => String::from("Cannot locate current executable: "),
        HostFailure::CreateScript => String::from("Cannot create updater script: "),
        HostFailure::LaunchUpdater => String::from("Cannot launch updater: "),
    };
    message.append(detail);
    message
}

/// An update can be applied exactly where the settings can work and the downloaded file is there.
/// The fault of the settings is told first.
pub proof fn law_downloaded_file_can_be_applied(config: ConfigView)
    ensures
        config_fault(config) is None ==> apply_fault(config, true) is None,
        config_fault(config) is None ==> apply_fault(config, false) == Some(
            "Downloaded update file does not exist."@,
        ),
        config_fault(config) matches Some(fault) ==> apply_fault(config, true) == Some(fault)
            && apply_fault(config, false) == Some(fault),
{
}

/// The updater runs without profile and without a window, whatever the policy for scripts. It runs
/// the script, which is told the process to wait for, the update and the executable to replace.
pub proof fn law_updater_is_told_process_source_and_destination(pid: nat)
    ensures
        UPDATER_PROGRAM@ == "powershell.exe"@,
        CREATE_NO_WINDOW == 134_217_728,
        launch_arguments(pid).len() == 13,
        launch_arguments(pid)[0] == ArgumentView::Text("-NoProfile"@),
        launch_arguments(pid)[1] == ArgumentView::Text("-ExecutionPolicy"@),
        launch_arguments(pid)[2] == ArgumentView::Text("Bypass"@),
        launch_arguments(pid)[3] == ArgumentView::Text("-WindowStyle"@),
        launch_arguments(pid)[4] == ArgumentView::Text("Hidden"@),
        launch_arguments(pid)[5] == ArgumentView::Text("-File"@),
        launch_arguments(pid)[6] == ArgumentView::Script,
        launch_arguments(pid)[7] == ArgumentView::Text("-TargetPid"@),
        launch_arguments(pid)[8] == ArgumentView::Text(decimal(pid)),
        launch_arguments(pid)[9] == ArgumentView::Text("-Source"@),
        launch_arguments(pid)[10] == ArgumentView::Source,
        launch_arguments(pid)[11] == ArgumentView::Text("-Destination"@),
        launch_arguments(pid)[12] == ArgumentView::Destination,
{
}

/// Each failure of the host is reported in its own words.
pub proof fn law_failures_are_told_apart()
    ensures
        failure_prefix(HostFailure::ReadRelease) == "Invalid GitHub release response: "@,
        failure_prefix(HostFailure::StoreUpdate) == "Cannot store downloaded update: "@,
        failure_prefix(HostFailure::LocateExecutable) == "Cannot locate current executable: "@,
        failure_prefix(HostFailure::CreateScript) == "Cannot create updater script: "@,
        failure_prefix(HostFailure::LaunchUpdater) == "Cannot launch updater: "@,
{
}

/// Arguments are seen case by case.
pub proof fn law_arguments_are_seen_as_they_are(text: String)
    ensures
        LaunchArgument::Text(text)@ == ArgumentView::Text(text@),
        LaunchArgument::Script@ == ArgumentView::Script,
        LaunchArgument::Source@ == ArgumentView::Source,
        LaunchArgument::Destination@ == ArgumentView::Destination,
{
}

} // verus!
