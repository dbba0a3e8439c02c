//! The state of an updater.
//!
//! An [`UpdateManager`] says which work may begin and takes in what comes of it. Checks and
//! downloads are made elsewhere, by one worker at a time.
use crate::config::{ConfigView, UpdateConfig};
use crate::release::{outcome_view, InfoView, UpdateInfo};
use std::path::PathBuf;
use vstd::prelude::*;

verus! {

/// A path, of which only the value as a whole counts here.
#[verifier::external_type_specification]
#[verifier::external_body]
pub struct ExPathBuf(PathBuf);

/// Copies a path.
///
/// Trusted: the clone of a `PathBuf` is the same path.
pub assume_specification[ <PathBuf as Clone>::clone ](path: &PathBuf) -> (copy: PathBuf)
    ensures
        copy == *path,
;

/// What an updater is doing.
#[derive(Debug)]
pub enum UpdateStatus {
    Idle,
    Checking,
    UpToDate,
    Available(UpdateInfo),
    Downloading { info: UpdateInfo, downloaded: u64, total: Option<u64> },
    Ready(UpdateInfo, PathBuf),
    Failed(String),
}

/// What an [`UpdateStatus`] says.
pub enum StatusView {
    Idle,
    Checking,
    UpToDate,
    Available(InfoView),
    Downloading { info: InfoView, downloaded: u64, total: Option<u64> },
    Ready(InfoView, PathBuf),
    Failed(Seq<char>),
}

impl View for UpdateStatus {
    type V = StatusView;

    open spec fn view(&self) -> StatusView {
        match self {
            UpdateStatus::Idle => StatusView::Idle,
            UpdateStatus::Checking => StatusView::Checking,
            UpdateStatus::UpToDate => StatusView::UpToDate,
            UpdateStatus::Available(info) => StatusView::Available(info@),
            UpdateStatus::Downloading { info, downloaded, total } => StatusView::Downloading {
                info: info@,
                downloaded: *downloaded,
                total: *total,
            },
            UpdateStatus::Ready(info, path) => StatusView::Ready(info@, *path),
            UpdateStatus::Failed(message) => StatusView::Failed(message@),
        }
    }
}

impl Clone for UpdateStatus {
    fn clone(&self) -> (copy: Self)
        ensures
            copy@ == self@,
    {
        match self {
            UpdateStatus::Idle => UpdateStatus::Idle,
            UpdateStatus::Checking => UpdateStatus::Checking,
            UpdateStatus::UpToDate => UpdateStatus::UpToDate,
            UpdateStatus::Available(info) => UpdateStatus::Available(info.clone()),
            UpdateStatus::Downloading { info, downloaded, total } => UpdateStatus::Downloading {
                info: info.clone(),
                downloaded: *downloaded,
                total: *total,
            },
            UpdateStatus::Ready(info, path) => UpdateStatus::Ready(info.clone(), path.clone()),
            UpdateStatus::Failed(message) => UpdateStatus::Failed(message.clone()),
        }
    }
}

/// The settings and the state of an updater.
#[derive(Debug)]
pub struct UpdateManager {
    config: UpdateConfig,
    state: UpdateStatus,
    auto_download: bool,
}

/// What an [`UpdateManager`] says.
pub struct ManagerView {
    pub config: ConfigView,
    pub status: StatusView,
    /// Whether the check that was started last goes on to download what it finds.
    pub auto_download: bool,
}

impl View for UpdateManager {
    type V = ManagerView;

    closed spec fn view(&self) -> ManagerView {
        ManagerView {
            config: self.config@,
            status: self.state@,
            auto_download: self.auto_download,
        }
    }
}

/// Whether a check or a download is under way.
pub open spec fn busy(status: StatusView) -> bool {
    status is Checking || status is Downloading
}

/// The state in which a download begins.
pub open spec fn download_begun(info: InfoView) -> StatusView {
    StatusView::Downloading { info, downloaded: 0, total: None }
}

/// A check begins unless work is under way; the answer tells whether it does.
pub open spec fn check_started(m: ManagerView, auto_download: bool) -> (ManagerView, bool) {
    if busy(m.status) {
        (m, false)
    } else {
        (ManagerView { status: StatusView::Checking, auto_download, ..m }, true)
    }
}

/// A download begins where an update is available; the answer tells whether it does.
pub open spec fn download_started(m: ManagerView) -> (ManagerView, bool) {
    match m.status {
        StatusView::Available(info) => (
            ManagerView { status: download_begun(info), ..m },
            true,
        ),
        _ => (m, false),
    }
}

/// What a check leads to. The answer is the update that the worker goes on to download.
pub open spec fn check_done(
    m: ManagerView,
    outcome: Result<Option<InfoView>, Seq<char>>,
) -> (ManagerView, Option<InfoView>) {
    match outcome {
        Ok(Some(info)) => if m.auto_download {
            (ManagerView { status: download_begun(info), ..m }, Some(info))
        } else {
            (ManagerView { status: StatusView::Available(info), ..m }, None)
        },
        Ok(None) => (ManagerView { status: StatusView::UpToDate, ..m }, None),
        Err(message) => (ManagerView { status: StatusView::Failed(message), ..m }, None),
    }
}

/// What news of a download leads to.
pub open spec fn download_advanced(
    m: ManagerView,
    info: InfoView,
    downloaded: u64,
    total: Option<u64>,
) -> ManagerView {
    ManagerView { status: StatusView::Downloading { info, downloaded, total }, ..m }
}

/// What a download leads to.
pub open spec fn download_done(
    m: ManagerView,
    info: InfoView,
    outcome: Result<PathBuf, Seq<char>>,
) -> ManagerView {
    match outcome {
        Ok(path) => ManagerView { status: StatusView::Ready(info, path), ..m },
        Err(message) => ManagerView { status: StatusView::Failed(message), ..m },
    }
}

/// What the outcome of a download says.
pub open spec fn stored_view(outcome: Result<PathBuf, String>) -> Result<PathBuf, Seq<char>> {
    match outcome {
        Ok(path) => Ok(path),
        Err(message) => Err(message@),
    }
}

impl UpdateManager {
    /// An updater at rest.
    pub fn new(config: UpdateConfig) -> (manager: Self)
        ensures
            manager@ == (ManagerView {
                config: config@,
                status: StatusView::Idle,
                auto_download: false,
            }),
    {
        UpdateManager { config, state: UpdateStatus::Idle, auto_download: false }
    }

    /// The settings.
    pub fn config(&self) -> (config: &UpdateConfig)
        ensures
            config@ == self@.config,
    {
        &self.config
    }

    /// What the updater is doing.
    pub fn status(&self) -> (status: UpdateStatus)
        ensures
            status@ == self@.status,
    {
        self.state.clone()
    }

    /// Begins a check, unless work is under way. With `auto_download`, the check goes on to
    /// download the update that it finds.
    pub fn start_check(&mut self, auto_download: bool) -> (started: bool)
        ensures
            (final(self)@, started) == check_started(old(self)@, auto_download),
    {
        match &self.state {
            UpdateStatus::Checking => {
                return false;
            },
            UpdateStatus::Downloading { .. } => {
                return false;
            },
            _ => {},
        }
        self.state = UpdateStatus::Checking;
        self.auto_download = auto_download;
        true
    }

    /// Takes in the outcome of a check. Where the worker is to go on with a download, the result
    /// is what to download.
    pub fn check_finished(&mut self, outcome: Result<Option<UpdateInfo>, String>) -> (next: Option<
        UpdateInfo,
    >)
        ensures
            final(self)@ == check_done(old(self)@, outcome_view(outcome)).0,
            match next {
                Some(info) => check_done(old(self)@, outcome_view(outcome)).1 == Some(info@),
                None => check_done(old(self)@, outcome_view(outcome)).1 is None,
            },
    {
        match outcome {
            Ok(Some(info)) => {
                if self.auto_download {
                    self.state = UpdateStatus::Downloading {
                        info: info.clone(),
                        downloaded: 0,
                        total: None,
                    };
                    Some(info)
                } else {
                    self.state = UpdateStatus::Available(info);
                    None
                }
            },
            Ok(None) => {
                self.state = UpdateStatus::UpToDate;
                None
            },
            Err(message) => {
                self.state = UpdateStatus::Failed(message);
                None
            },
        }
    }

    /// Begins the download of an available update.
    pub fn start_download(&mut self) -> (started: bool)
        ensures
            (final(self)@, started) == download_started(old(self)@),
    {
        let info = match &self.state {
            UpdateStatus::Available(info) => info.clone(),
            _ => {
                return false;
            },
        };
        self.state = UpdateStatus::Downloading { info, downloaded: 0, total: None };
        true
    }

    /// Takes in news of a download.
    pub fn download_progressed(&mut self, info: &UpdateInfo, downloaded: u64, total: Option<u64>)
        ensures
            final(self)@ == download_advanced(old(self)@, info@, downloaded, total),
    {
        self.state = UpdateStatus::Downloading { info: info.clone(), downloaded, total };
    }

    /// Takes in the outcome of a download: where the update is stored, or a message.
    pub fn download_finished(&mut self, info: UpdateInfo, outcome: Result<PathBuf, String>)
        ensures
            final(self)@ == download_done(old(self)@, info@, stored_view(outcome)),
    {
        self.state = match outcome {
            Ok(path) => UpdateStatus::Ready(info, path),
            Err(message) => UpdateStatus::Failed(message),
        };
    }

    /// The stored update to apply, if one is ready.
    pub fn apply_ready(&self) -> (source: Option<PathBuf>)
        ensures
            source == match self@.status {
                StatusView::Ready(_, path) => Some(path),
                _ => None,
            },
    {
        match &self.state {
            UpdateStatus::Ready(_, path) => Some(path.clone()),
            _ => None,
        }
    }
}

/// Something that happens to an updater.
pub enum ManagerOp {
    StartCheck(bool),
    StartDownload,
    CheckFinished(Result<Option<InfoView>, Seq<char>>),
    DownloadProgressed(InfoView, u64, Option<u64>),
    DownloadFinished(InfoView, Result<PathBuf, Seq<char>>),
}

/// An updater and the workers that it has set to work.
pub struct SystemView {
    pub manager: ManagerView,
    pub checks: nat,
    pub downloads: nat,
}

/// An updater at rest, without workers.
pub open spec fn system_at_rest(config: ConfigView) -> SystemView {
    SystemView {
        manager: ManagerView { config, status: StatusView::Idle, auto_download: false },
        checks: 0,
        downloads: 0,
    }
}

/// Whether this can happen: only a worker that is at work reports.
pub open spec fn possible(s: SystemView, op: ManagerOp) -> bool {
    match op {
        ManagerOp::CheckFinished(_) => s.checks > 0,
        ManagerOp::DownloadProgressed(_, _, _) => s.downloads > 0,
        ManagerOp::DownloadFinished(_, _) => s.downloads > 0,
        _ => true,
    }
}

/// What comes of it: a start that is granted sets a worker to work, a finished check ends its
/// work or goes on with a download, and a finished download ends it.
pub open spec fn happen(s: SystemView, op: ManagerOp) -> SystemView {
    match op {
        ManagerOp::StartCheck(auto_download) => {
            let (manager, started) = check_started(s.manager, auto_download);
            SystemView {
                manager,
                checks: if started {
                    s.checks + 1
                } else {
                    s.checks
                },
                ..s
            }
        },
        ManagerOp::StartDownload => {
            let (manager, started) = download_started(s.manager);
            SystemView {
                manager,
                downloads: if started {
                    s.downloads + 1
                } else {
                    s.downloads
                },
                ..s
            }
        },
        ManagerOp::CheckFinished(outcome) => {
            let (manager, next) = check_done(s.manager, outcome);
            SystemView {
                manager,
                checks: (s.checks - 1) as nat,
                downloads: if next is Some {
                    s.downloads + 1
                } else {
                    s.downloads
                },
            }
        },
        ManagerOp::DownloadProgressed(info, downloaded, total) => SystemView {
            manager: download_advanced(s.manager, info, downloaded, total),
            ..s
        },
        ManagerOp::DownloadFinished(info, outcome) => SystemView {
            manager: download_done(s.manager, info, outcome),
            downloads: (s.downloads - 1) as nat,
            ..s
        },
    }
}

/// Whether all of it can happen in this order.
pub open spec fn history(s: SystemView, ops: Seq<ManagerOp>) -> bool
    decreases ops.len(),
{
    ops.len() > 0 ==> history(s, ops.drop_last()) && possible(
        all_happen(s, ops.drop_last()),
        ops.last(),
    )
}

/// What comes of all of it.
pub open spec fn all_happen(s: SystemView, ops: Seq<ManagerOp>) -> SystemView
    decreases ops.len(),
{
    if ops.len() == 0 {
        s
    } else {
        happen(all_happen(s, ops.drop_last()), ops.last())
    }
}

/// In every history of an updater at most one worker is at work. The state is `Checking` exactly
/// while a check is under way and `Downloading` exactly while a download is, and the settings
/// stay as they are.
pub proof fn law_one_worker_at_a_time(config: ConfigView, ops: Seq<ManagerOp>)
    requires
        history(system_at_rest(config), ops),
    ensures
        ({
            let s = all_happen(system_at_rest(config), ops);
            &&& s.checks + s.downloads <= 1
            &&& s.checks == 1 <==> s.manager.status is Checking
            &&& s.downloads == 1 <==> s.manager.status is Downloading
            &&& s.manager.config == config
        }),
    decreases ops.len(),
{
    if ops.len() > 0 {
        law_one_worker_at_a_time(config, ops.drop_last());
    }
}

/// An update becomes ready in one way only: its download has finished and tells where it is
/// stored.
pub proof fn law_ready_means_downloaded(s: SystemView, op: ManagerOp, info: InfoView, path: PathBuf)
    requires
        happen(s, op).manager.status == StatusView::Ready(info, path),
        s.manager.status != StatusView::Ready(info, path),
    ensures
        op == ManagerOp::DownloadFinished(info, Ok(path)),
{
}

/// While work is under way, both starts are refused and change nothing.
pub proof fn law_busy_updater_refuses_to_start(m: ManagerView, auto_download: bool)
    requires
        busy(m.status),
    ensures
        check_started(m, auto_download) == (m, false),
        download_started(m) == (m, false),
{
}

/// An updater that is not busy always starts a check: in every state but `Checking` and
/// `Downloading` the start is granted, the state becomes `Checking`, the wish to download is
/// recorded and the settings stay.
pub proof fn law_idle_updater_starts_a_check(m: ManagerView, auto_download: bool)
    requires
        !(m.status is Checking),
        !(m.status is Downloading),
    ensures
        ({
            let (later, started) = check_started(m, auto_download);
            &&& started
            &&& later.status is Checking
            &&& later.auto_download == auto_download
            &&& later.config == m.config
        }),
{
}

/// While a check or a download is under way no check starts, and nothing of the updater changes:
/// not its state, its settings or the wish of the check that is under way.
pub proof fn law_working_updater_starts_no_check(m: ManagerView, auto_download: bool)
    requires
        m.status is Checking || m.status is Downloading,
    ensures
        ({
            let (later, started) = check_started(m, auto_download);
            &&& !started
            &&& later.status == m.status
            &&& later.auto_download == m.auto_download
            &&& later.config == m.config
        }),
        busy(m.status),
{
}

/// An updater is busy exactly while a check or a download is under way.
pub proof fn law_busy_states(info: InfoView, path: PathBuf, message: Seq<char>, n: u64)
    ensures
        busy(StatusView::Checking),
        forall|total: Option<u64>|
            #[trigger] busy(StatusView::Downloading { info, downloaded: n, total }),
        !busy(StatusView::Idle),
        !busy(StatusView::UpToDate),
        !busy(StatusView::Available(info)),
        !busy(StatusView::Ready(info, path)),
        !busy(StatusView::Failed(message)),
{
}

/// A download starts exactly where an update is available. It is the download of that update, at
/// zero bytes of an unknown total, and nothing else of the updater changes. Elsewhere nothing
/// changes at all.
pub proof fn law_available_update_starts_its_download(m: ManagerView)
    ensures
        m.status matches StatusView::Available(info) ==> {
            let (later, started) = download_started(m);
            &&& started
            &&& later.status == StatusView::Downloading { info, downloaded: 0, total: None }
            &&& later.auto_download == m.auto_download
            &&& later.config == m.config
        },
        !(m.status is Available) ==> {
            let (later, started) = download_started(m);
            &&& !started
            &&& later.status == m.status
            &&& later.auto_download == m.auto_download
            &&& later.config == m.config
        },
{
}

/// A check that finds an update goes on to download it where that was wished, and else makes it
/// available. One that finds none leaves the updater up to date, one that fails leaves its
/// message. The worker goes on in the first case only.
pub proof fn law_finished_check_is_taken_in(m: ManagerView, info: InfoView, message: Seq<char>)
    ensures
        m.auto_download ==> check_done(m, Ok(Some(info))).0.status == (StatusView::Downloading {
            info,
            downloaded: 0,
            total: None,
        }) && check_done(m, Ok(Some(info))).1 == Some(info),
        !m.auto_download ==> check_done(m, Ok(Some(info))).0.status == StatusView::Available(info)
            && check_done(m, Ok(Some(info))).1 is None,
        check_done(m, Ok(None)).0.status == StatusView::UpToDate,
        check_done(m, Ok(None)).1 is None,
        check_done(m, Err(message)).0.status == StatusView::Failed(message),
        check_done(m, Err(message)).1 is None,
{
}

/// News of a download is the state as it was told; a finished download is ready where it was
/// stored, or has failed with its message.
pub proof fn law_news_of_a_download_is_taken_in(
    m: ManagerView,
    info: InfoView,
    downloaded: u64,
    total: Option<u64>,
    path: PathBuf,
    message: Seq<char>,
)
    ensures
        download_advanced(m, info, downloaded, total).status == (StatusView::Downloading {
            info,
            downloaded,
            total,
        }),
        download_done(m, info, Ok(path)).status == StatusView::Ready(info, path),
        download_done(m, info, Err(message)).status == StatusView::Failed(message),
        download_begun(info) == (StatusView::Downloading { info, downloaded: 0, total: None }),
{
}

/// Whatever work brings, the settings stay, and the wish to download stays until the next check.
pub proof fn law_settings_stay(
    m: ManagerView,
    outcome: Result<Option<InfoView>, Seq<char>>,
    info: InfoView,
    downloaded: u64,
    total: Option<u64>,
    stored: Result<PathBuf, Seq<char>>,
)
    ensures
        check_done(m, outcome).0.config == m.config,
        check_done(m, outcome).0.auto_download == m.auto_download,
        download_advanced(m, info, downloaded, total).config == m.config,
        download_advanced(m, info, downloaded, total).auto_download == m.auto_download,
        download_done(m, info, stored).config == m.config,
        download_done(m, info, stored).auto_download == m.auto_download,
{
}

/// States and outcomes are seen case by case, with every field as it is.
pub proof fn law_states_are_seen_as_they_are(
    info: UpdateInfo,
    downloaded: u64,
    total: Option<u64>,
    path: PathBuf,
    message: String,
)
    ensures
        UpdateStatus::Idle@ == StatusView::Idle,
        UpdateStatus::Checking@ == StatusView::Checking,
        UpdateStatus::UpToDate@ == StatusView::UpToDate,
        UpdateStatus::Available(info)@ == StatusView::Available(info@),
        (UpdateStatus::Downloading { info, downloaded, total })@ == (StatusView::Downloading {
            info: info@,
            downloaded,
            total,
        }),
        UpdateStatus::Ready(info, path)@ == StatusView::Ready(info@, path),
        UpdateStatus::Failed(message)@ == StatusView::Failed(message@),
        stored_view(Ok(path)) == Ok::<PathBuf, Seq<char>>(path),
        stored_view(Err(message)) == Err::<PathBuf, Seq<char>>(message@),
{
}

} // verus!
