//! The download of an update, as a conversation with whoever fetches and stores.
//!
//! [`download_update`] says what to fetch first. Its caller makes that request and hands the
//! response to [`UpdateDownload::next`], until the update can be stored or has failed.
use crate::checksum::{
    check_integrity, checksum_text, digestible, file_checksum, github_checksum, hex,
    integrity_fault, law_checksum_file_is_read_back, law_published_digest_is_read_back,
    parse_github_sha256, parse_sha256_checksum, sha256, sha256_hex,
};
use crate::config::{config_fault, validate_config, ConfigView, UpdateConfig};
use crate::http::{
    first_turn, law_body_stays_within_limit, payload_result, run, EventView, HttpPayload,
    HttpRequest, PayloadView, RequestView, TurnView,
};
use crate::names::{update_file, update_file_name};
use crate::release::{
    law_required_checksum_is_offered, offered_update, InfoView, ReleaseView, UpdateInfo,
};
use crate::text::{
    blank, lemma_lower_twice, lower, option_text, result_text, same_ignoring_case, whitespace,
};
use crate::url::{https_parts, split_https_url};
use vstd::prelude::*;
use vstd::utf8::encode_utf8;

verus! {

/// The size that a checksum file must not exceed: 1 MiB.
pub const CHECKSUM_MAX_SIZE: usize = 1024 * 1024;

/// Where the checksum of an update comes from.
#[derive(Debug)]
pub enum ChecksumSource {
    /// It is known.
    Known(String),
    /// It stands in a file that is to be fetched.
    File(HttpRequest),
    /// There is none.
    Absent,
}

/// What a [`ChecksumSource`] says.
pub enum SourceView {
    Known(Seq<char>),
    File(RequestView),
    Absent,
}

impl View for ChecksumSource {
    type V = SourceView;

    open spec fn view(&self) -> SourceView {
        match self {
            ChecksumSource::Known(checksum) => SourceView::Known(checksum@),
            ChecksumSource::File(request) => SourceView::File(request@),
            ChecksumSource::Absent => SourceView::Absent,
        }
    }
}

/// The source of an update's checksum. The digest from GitHub comes first, the checksum file
/// second; with neither, there is none, which fails where a checksum is required.
pub open spec fn checksum_source(config: ConfigView, info: InfoView) -> Result<
    SourceView,
    Seq<char>,
> {
    match (github_checksum(info.asset_digest), info.checksum_url) {
        (Some(checksum), _) => Ok(SourceView::Known(checksum)),
        (None, Some(url)) => match https_parts(url) {
            Some((host, path)) => Ok(
                SourceView::File(
                    RequestView { host, path, max_size: CHECKSUM_MAX_SIZE as nat },
                ),
            ),
            None => Err("Update checksum URL is not a valid HTTPS URL."@),
        },
        (None, None) => if config.require_checksum {
            Err("Update release does not provide a usable SHA-256 checksum."@)
        } else {
            Ok(SourceView::Absent)
        },
    }
}

/// The checksum in the response to the request for a checksum file.
pub open spec fn fetched_checksum(response: Result<PayloadView, Seq<char>>) -> Result<
    Seq<char>,
    Seq<char>,
> {
    match response {
        Ok(PayloadView::Data(bytes)) => file_checksum(bytes),
        Ok(PayloadView::NotFound) => Err("Update checksum asset returned HTTP 404."@),
        Err(message) => Err(message),
    }
}

/// Whether bytes can be a Windows executable: they have the least size and begin with `MZ`.
pub open spec fn executable_format(config: ConfigView, bytes: Seq<u8>) -> bool {
    &&& bytes.len() >= config.min_executable_size
    &&& bytes.len() >= 2
    &&& bytes[0] == 0x4d
    &&& bytes[1] == 0x5a
}

/// What is wrong with a downloaded executable.
pub open spec fn executable_fault(
    config: ConfigView,
    expected: Option<Seq<char>>,
    bytes: Seq<u8>,
) -> Option<Seq<char>> {
    if !executable_format(config, bytes) {
        Some("Downloaded update is not a valid Windows executable."@)
    } else {
        match expected {
            Some(checksum) => integrity_fault(hex(sha256(bytes)), checksum),
            None => None,
        }
    }
}

/// How far a download is.
#[derive(Debug)]
pub enum DownloadStage {
    /// The checksum file is fetched.
    Checksum,
    /// The executable is fetched; its checksum is known or there is none.
    Executable(Option<String>),
}

/// What a [`DownloadStage`] says.
pub enum StageView {
    Checksum,
    Executable(Option<Seq<char>>),
}

impl View for DownloadStage {
    type V = StageView;

    open spec fn view(&self) -> StageView {
        match self {
            DownloadStage::Checksum => StageView::Checksum,
            DownloadStage::Executable(expected) => StageView::Executable(option_text(*expected)),
        }
    }
}

/// A download under way.
#[derive(Debug)]
pub struct UpdateDownload {
    config: UpdateConfig,
    info: UpdateInfo,
    pid: u32,
    stage: DownloadStage,
    request: HttpRequest,
}

/// What an [`UpdateDownload`] says.
pub struct DownloadView {
    pub config: ConfigView,
    pub info: InfoView,
    /// The process that downloads; its number is part of the file's name.
    pub pid: nat,
    pub stage: StageView,
    /// The request to make.
    pub request: RequestView,
}

impl View for UpdateDownload {
    type V = DownloadView;

    closed spec fn view(&self) -> DownloadView {
        DownloadView {
            config: self.config@,
            info: self.info@,
            pid: self.pid as nat,
            stage: self.stage@,
            request: self.request@,
        }
    }
}

/// An update that has passed all checks.
#[derive(Debug)]
pub struct StagedUpdate {
    /// The name to store it under, in the directory for temporary files.
    pub file_name: String,
    /// The executable.
    pub bytes: Vec<u8>,
}

/// What comes of a response: another request, an update to store, or failure.
#[derive(Debug)]
pub enum DownloadTurn {
    Fetch(UpdateDownload),
    Store(StagedUpdate),
    Failed(String),
}

/// What a [`DownloadTurn`] says.
pub enum StepView {
    Fetch(DownloadView),
    Store { file_name: Seq<char>, bytes: Seq<u8> },
    Failed(Seq<char>),
}

impl View for DownloadTurn {
    type V = StepView;

    open spec fn view(&self) -> StepView {
        match self {
            DownloadTurn::Fetch(download) => StepView::Fetch(download@),
            DownloadTurn::Store(update) => StepView::Store {
                file_name: update.file_name@,
                bytes: update.bytes@,
            },
            DownloadTurn::Failed(message) => StepView::Failed(message@),
        }
    }
}

/// The request for the executable.
pub open spec fn fetch_executable(
    config: ConfigView,
    info: InfoView,
    pid: nat,
    expected: Option<Seq<char>>,
) -> StepView {
    match https_parts(info.download_url) {
        Some((host, path)) => StepView::Fetch(
            DownloadView {
                config,
                info,
                pid,
                stage: StageView::Executable(expected),
                request: RequestView { host, path, max_size: config.max_download_size },
            },
        ),
        None => StepView::Failed("Update URL is not a valid HTTPS URL."@),
    }
}

/// How a download begins.
pub open spec fn first_step(config: ConfigView, info: InfoView, pid: nat) -> StepView {
    match config_fault(config) {
        Some(message) => StepView::Failed(message),
        None => match checksum_source(config, info) {
            Err(message) => StepView::Failed(message),
            Ok(SourceView::Known(checksum)) => fetch_executable(config, info, pid, Some(checksum)),
            Ok(SourceView::Absent) => fetch_executable(config, info, pid, None),
            Ok(SourceView::File(request)) => StepView::Fetch(
                DownloadView { config, info, pid, stage: StageView::Checksum, request },
            ),
        },
    }
}

/// How a download goes on.
pub open spec fn next_step(
    download: DownloadView,
    response: Result<PayloadView, Seq<char>>,
) -> StepView {
    let config = download.config;
    let info = download.info;
    match download.stage {
        StageView::Checksum => match fetched_checksum(response) {
            Ok(checksum) => fetch_executable(config, info, download.pid, Some(checksum)),
            Err(message) => StepView::Failed(message),
        },
        StageView::Executable(expected) => match response {
            Err(message) => StepView::Failed(message),
            Ok(PayloadView::NotFound) => StepView::Failed("Update asset returned HTTP 404."@),
            Ok(PayloadView::Data(bytes)) => match executable_fault(config, expected, bytes) {
                Some(message) => StepView::Failed(message),
                None => StepView::Store {
                    file_name: update_file(config.app_name, info.version, download.pid),
                    bytes,
                },
            },
        },
    }
}

/// Finds out where the checksum of an update comes from.
pub fn expected_sha256(config: &UpdateConfig, info: &UpdateInfo) -> (source: Result<
    ChecksumSource,
    String,
>)
    ensures
        match source {
            Ok(s) => checksum_source(config@, info@) == Ok::<SourceView, Seq<char>>(s@),
            Err(message) => checksum_source(config@, info@) == Err::<SourceView, Seq<char>>(
                message@,
            ),
        },
{
    let known = match &info.asset_digest {
        Some(digest) => parse_github_sha256(Some(digest.as_str())),
        None => None,
    };
    if let Some(checksum) = known {
        return Ok(ChecksumSource::Known(checksum));
    }
    match &info.checksum_url {
        Some(url) => match split_https_url(url.as_str()) {
            Some((host, path)) => Ok(
                ChecksumSource::File(HttpRequest { host, path, max_size: CHECKSUM_MAX_SIZE }),
            ),
            None => Err(String::from("Update checksum URL is not a valid HTTPS URL.")),
        },
        None => {
            if config.require_checksum {
                Err(String::from("Update release does not provide a usable SHA-256 checksum."))
            } else {
                Ok(ChecksumSource::Absent)
            }
        },
    }
}

/// Reads the response to the request for a checksum file.
pub fn read_checksum_response(response: Result<HttpPayload, String>) -> (checksum: Result<
    String,
    String,
>)
    ensures
        result_text(checksum) == fetched_checksum(payload_result(response)),
{
    match response {
        Ok(HttpPayload::Data(bytes)) => parse_sha256_checksum(bytes.as_slice()),
        Ok(HttpPayload::NotFound) => Err(String::from("Update checksum asset returned HTTP 404.")),
        Err(message) => Err(message),
    }
}

/// Whether bytes can be a Windows executable.
pub fn has_executable_format(config: &UpdateConfig, bytes: &[u8]) -> (yes: bool)
    ensures
        yes == executable_format(config@, bytes@),
{
    bytes.len() >= config.min_executable_size && bytes.len() >= 2 && bytes[0] == 0x4d && bytes[1]
        == 0x5a
}

/// Checks a downloaded executable, against its checksum if there is one.
pub fn verify_executable(
    config: &UpdateConfig,
    expected: &Option<String>,
    bytes: &[u8],
) -> (checked: Result<(), String>)
    requires
        expected is Some ==> digestible(bytes@),
    ensures
        match checked {
            Ok(()) => executable_fault(config@, option_text(*expected), bytes@) is None,
            Err(message) => executable_fault(config@, option_text(*expected), bytes@) == Some(
                message@,
            ),
        },
{
    if !has_executable_format(config, bytes) {
        return Err(String::from("Downloaded update is not a valid Windows executable."));
    }
    match expected {
        Some(checksum) => {
            let actual = sha256_hex(bytes);
            check_integrity(actual.as_str(), checksum.as_str())
        },
        None => Ok(()),
    }
}

fn start_executable(
    config: UpdateConfig,
    info: UpdateInfo,
    pid: u32,
    expected: Option<String>,
) -> (turn: DownloadTurn)
    ensures
        turn@ == fetch_executable(config@, info@, pid as nat, option_text(expected)),
{
    match split_https_url(info.download_url.as_str()) {
        Some((host, path)) => {
            let request = HttpRequest { host, path, max_size: config.max_download_size };
            let stage = DownloadStage::Executable(expected);
            DownloadTurn::Fetch(UpdateDownload { config, info, pid, stage, request })
        },
        None => DownloadTurn::Failed(String::from("Update URL is not a valid HTTPS URL.")),
    }
}

/// Begins the download of an update by the process `pid`.
pub fn download_update(config: &UpdateConfig, info: &UpdateInfo, pid: u32) -> (turn: DownloadTurn)
    ensures
        turn@ == first_step(config@, info@, pid as nat),
{
    match validate_config(config) {
        Ok(()) => {},
        Err(message) => {
            return DownloadTurn::Failed(message);
        },
    }
    match expected_sha256(config, info) {
        Err(message) => DownloadTurn::Failed(message),
        Ok(ChecksumSource::Known(checksum)) => start_executable(
            config.clone(),
            info.clone(),
            pid,
            Some(checksum),
        ),
        Ok(ChecksumSource::Absent) => start_executable(config.clone(), info.clone(), pid, None),
        Ok(ChecksumSource::File(request)) => DownloadTurn::Fetch(
            UpdateDownload {
                config: config.clone(),
                info: info.clone(),
                pid,
                stage: DownloadStage::Checksum,
                request,
            },
        ),
    }
}

impl UpdateDownload {
    /// The request to make.
    pub fn request(&self) -> (request: &HttpRequest)
        ensures
            request@ == self@.request,
    {
        &self.request
    }

    /// Whether the request is the one for the executable, of whose progress there is news.
    pub fn reports_progress(&self) -> (yes: bool)
        ensures
            yes == (self@.stage is Executable),
    {
        match &self.stage {
            DownloadStage::Checksum => false,
            DownloadStage::Executable(_) => true,
        }
    }

    /// Takes in the response to the request. An executable that has a checksum must be short
    /// enough for SHA-256.
    pub fn next(self, response: Result<HttpPayload, String>) -> (turn: DownloadTurn)
        requires
            self@.stage matches StageView::Executable(Some(_)) ==> (response matches Ok(
                HttpPayload::Data(bytes),
            ) ==> digestible(bytes@)),
        ensures
            turn@ == next_step(self@, payload_result(response)),
    {
        match self.stage {
            DownloadStage::Checksum => match read_checksum_response(response) {
                Ok(checksum) => start_executable(self.config, self.info, self.pid, Some(checksum)),
                Err(message) => DownloadTurn::Failed(message),
            },
            DownloadStage::Executable(expected) => match response {
                Err(message) => DownloadTurn::Failed(message),
                Ok(HttpPayload::NotFound) => DownloadTurn::Failed(
                    String::from("Update asset returned HTTP 404."),
                ),
                Ok(HttpPayload::Data(bytes)) => match verify_executable(
                    &self.config,
                    &expected,
                    bytes.as_slice(),
                ) {
                    Err(message) => DownloadTurn::Failed(message),
                    Ok(()) => {
                        let file_name = update_file_name(
                            self.config.app_name.as_str(),
                            self.info.version.as_str(),
                            self.pid,
                        );
                        DownloadTurn::Store(StagedUpdate { file_name, bytes })
                    },
                },
            },
        }
    }
}

/// Where a row of responses leads. Responses behind the end change nothing.
pub open spec fn download_run(
    step: StepView,
    responses: Seq<Result<PayloadView, Seq<char>>>,
) -> StepView
    decreases responses.len(),
{
    if responses.len() == 0 {
        step
    } else {
        match step {
            StepView::Fetch(download) => download_run(
                next_step(download, responses[0]),
                responses.skip(1),
            ),
            end => end,
        }
    }
}

/// The checksum that an update is held to: the digest from GitHub, or else the one in the checksum
/// file, which is the first response.
pub open spec fn binding_checksum(
    info: InfoView,
    responses: Seq<Result<PayloadView, Seq<char>>>,
) -> Option<Seq<char>> {
    match github_checksum(info.asset_digest) {
        Some(checksum) => Some(checksum),
        None => if info.checksum_url is Some && responses.len() > 0 {
            match fetched_checksum(responses[0]) {
                Ok(checksum) => Some(checksum),
                Err(_) => None,
            }
        } else {
            None
        },
    }
}

proof fn lemma_executable_run(
    config: ConfigView,
    info: InfoView,
    pid: nat,
    expected: Option<Seq<char>>,
    responses: Seq<Result<PayloadView, Seq<char>>>,
)
    ensures
        download_run(
            fetch_executable(config, info, pid, expected),
            responses,
        ) matches StepView::Store { file_name, bytes } ==> {
            &&& executable_fault(config, expected, bytes) is None
            &&& file_name == update_file(config.app_name, info.version, pid)
            &&& responses.contains(Ok(PayloadView::Data(bytes)))
        },
{
    match fetch_executable(config, info, pid, expected) {
        StepView::Fetch(download) => {
            if responses.len() > 0 {
                let step = next_step(download, responses[0]);
                assert(!(step is Fetch));
                assert(download_run(step, responses.skip(1)) == step);
                match step {
                    StepView::Store { file_name, bytes } => {
                        assert(responses[0] == Ok::<PayloadView, Seq<char>>(
                            PayloadView::Data(bytes),
                        ));
                    },
                    _ => {},
                }
            }
        },
        _ => {},
    }
}

/// Whatever the server sends, an update that is to be stored has the format of an executable and
/// comes unchanged from a response. If GitHub told its digest, or the release has a checksum
/// file, it has that SHA-256 digest; if neither, no checksum is required.
pub proof fn law_stored_update_passed_its_checks(
    config: ConfigView,
    info: InfoView,
    pid: nat,
    responses: Seq<Result<PayloadView, Seq<char>>>,
)
    ensures
        download_run(first_step(config, info, pid), responses) matches StepView::Store {
            file_name,
            bytes,
        } ==> {
            &&& config_fault(config) is None
            &&& executable_format(config, bytes)
            &&& bytes.len() >= config.min_executable_size
            &&& bytes.len() >= 2
            &&& bytes[0] == 0x4d
            &&& bytes[1] == 0x5a
            &&& responses.contains(Ok(PayloadView::Data(bytes)))
            &&& file_name == update_file(config.app_name, info.version, pid)
            &&& match binding_checksum(info, responses) {
                Some(checksum) => same_ignoring_case(hex(sha256(bytes)), checksum),
                None => !config.require_checksum && info.checksum_url is None,
            }
        },
{
    if config_fault(config) is None {
        match checksum_source(config, info) {
            Ok(SourceView::Known(checksum)) => {
                lemma_executable_run(config, info, pid, Some(checksum), responses);
            },
            Ok(SourceView::Absent) => {
                lemma_executable_run(config, info, pid, None, responses);
            },
            Ok(SourceView::File(request)) => {
                if responses.len() > 0 {
                    let rest = responses.skip(1);
                    match fetched_checksum(responses[0]) {
                        Ok(checksum) => {
                            lemma_executable_run(config, info, pid, Some(checksum), rest);
                            match download_run(first_step(config, info, pid), responses) {
                                StepView::Store { file_name, bytes } => {
                                    let good = Ok::<PayloadView, Seq<char>>(
                                        PayloadView::Data(bytes),
                                    );
                                    let k = choose|k: int| 0 <= k < rest.len() && rest[k] == good;
                                    assert(responses[k + 1] == good);
                                },
                                _ => {},
                            }
                        },
                        Err(message) => {
                            assert(download_run(StepView::Failed(message), rest)
                                == StepView::Failed(message));
                        },
                    }
                }
            },
            Err(_) => {},
        }
    }
}

/// Whether every response is what an [`HttpGet`](crate::http::HttpGet) brought back for its
/// request.
pub open spec fn served(
    step: StepView,
    responses: Seq<Result<PayloadView, Seq<char>>>,
) -> bool
    decreases responses.len(),
{
    responses.len() > 0 ==> (step matches StepView::Fetch(download) ==> {
        &&& brought_back(download.request.max_size, responses[0])
        &&& served(next_step(download, responses[0]), responses.skip(1))
    })
}

/// Whether a request under that limit can end with that response.
pub open spec fn brought_back(max_size: nat, response: Result<PayloadView, Seq<char>>) -> bool {
    exists|events: Seq<EventView>|
        #[trigger] run(first_turn(max_size), events) == TurnView::Finished(response)
}

proof fn lemma_brought_back(max_size: nat, response: Result<PayloadView, Seq<char>>)
    requires
        brought_back(max_size, response),
    ensures
        response matches Ok(PayloadView::Data(bytes)) ==> bytes.len() <= max_size,
{
    let events = choose|events: Seq<EventView>|
        #[trigger] run(first_turn(max_size), events) == TurnView::Finished(response);
    law_body_stays_within_limit(max_size, events);
}

/// Whatever the servers send, no update is stored that is larger than the settings allow.
pub proof fn law_stored_update_keeps_to_the_limit(
    config: ConfigView,
    info: InfoView,
    pid: nat,
    responses: Seq<Result<PayloadView, Seq<char>>>,
)
    requires
        served(first_step(config, info, pid), responses),
    ensures
        download_run(first_step(config, info, pid), responses) matches StepView::Store {
            file_name,
            bytes,
        } ==> bytes.len() <= config.max_download_size,
{
    if responses.len() > 0 {
        match first_step(config, info, pid) {
            StepView::Fetch(download) => {
                let second = next_step(download, responses[0]);
                let rest = responses.skip(1);
                lemma_brought_back(download.request.max_size, responses[0]);
                assert(served(second, rest));
                match second {
                    StepView::Fetch(later) => {
                        if rest.len() > 0 {
                            let third = next_step(later, rest[0]);
                            lemma_brought_back(later.request.max_size, rest[0]);
                            assert(!(third is Fetch));
                            assert(download_run(third, rest.skip(1)) == third);
                            assert(download_run(second, rest) == third);
                        }
                    },
                    _ => {
                        assert(download_run(second, rest) == second);
                    },
                }
            },
            _ => {},
        }
    }
}

/// Where a checksum is required, no update is ever stored without one that it matches.
pub proof fn law_required_checksum_is_enforced(
    config: ConfigView,
    info: InfoView,
    pid: nat,
    responses: Seq<Result<PayloadView, Seq<char>>>,
)
    requires
        config.require_checksum,
    ensures
        download_run(first_step(config, info, pid), responses) matches StepView::Store {
            file_name,
            bytes,
        } ==> binding_checksum(info, responses) matches Some(checksum) && same_ignoring_case(
            hex(sha256(bytes)),
            checksum,
        ),
{
    law_stored_update_passed_its_checks(config, info, pid, responses);
}

/// An update that a check offers can be downloaded under the same settings: its download begins
/// with a request, if the addresses in the release are HTTPS.
pub proof fn law_offered_update_can_be_downloaded(
    config: ConfigView,
    release: ReleaseView,
    info: InfoView,
    pid: nat,
)
    requires
        config_fault(config) is None,
        offered_update(config, release) == Ok::<Option<InfoView>, Seq<char>>(Some(info)),
        https_parts(info.download_url) is Some,
        info.checksum_url matches Some(url) ==> https_parts(url) is Some,
    ensures
        first_step(config, info, pid) is Fetch,
{
    if config.require_checksum {
        law_required_checksum_is_offered(config, release);
    }
}

/// An executable that the server sends as GitHub describes it is stored, byte for byte. The case
/// of the digest's letters and whitespace around the field do not count.
pub proof fn law_described_executable_is_stored(
    config: ConfigView,
    info: InfoView,
    pid: nat,
    bytes: Seq<u8>,
    lead: Seq<char>,
    word: Seq<char>,
    tail: Seq<char>,
)
    requires
        config_fault(config) is None,
        https_parts(info.download_url) is Some,
        bytes.len() >= config.min_executable_size,
        bytes.len() >= 2,
        bytes[0] == 0x4d,
        bytes[1] == 0x5a,
        blank(lead),
        checksum_text(word),
        blank(tail),
        same_ignoring_case(word, hex(sha256(bytes))),
        info.asset_digest == Some(lead + "sha256:"@ + word + tail),
    ensures
        download_run(first_step(config, info, pid), seq![Ok(PayloadView::Data(bytes))])
            == (StepView::Store {
            file_name: update_file(config.app_name, info.version, pid),
            bytes,
        }),
{
    law_published_digest_is_read_back(lead, word, tail);
    lemma_lower_twice(word);
    let responses = seq![Ok::<PayloadView, Seq<char>>(PayloadView::Data(bytes))];
    match first_step(config, info, pid) {
        StepView::Fetch(download) => {
            let step = next_step(download, responses[0]);
            assert(download_run(step, responses.skip(1)) == step);
        },
        _ => {},
    }
}

/// An executable that the server sends with a checksum file that tells its digest is stored, byte
/// for byte. The case of the digest's letters does not count; whitespace may stand before the
/// digest, and more may follow behind it.
pub proof fn law_executable_with_checksum_file_is_stored(
    config: ConfigView,
    info: InfoView,
    pid: nat,
    bytes: Seq<u8>,
    lead: Seq<char>,
    word: Seq<char>,
    rest: Seq<char>,
)
    requires
        config_fault(config) is None,
        https_parts(info.download_url) is Some,
        bytes.len() >= config.min_executable_size,
        bytes.len() >= 2,
        bytes[0] == 0x4d,
        bytes[1] == 0x5a,
        blank(lead),
        checksum_text(word),
        same_ignoring_case(word, hex(sha256(bytes))),
        github_checksum(info.asset_digest) is None,
        info.checksum_url matches Some(url) && https_parts(url) is Some,
        rest.len() > 0 ==> whitespace(rest[0]),
    ensures
        download_run(
            first_step(config, info, pid),
            seq![
                Ok(PayloadView::Data(encode_utf8(lead + word + rest))),
                Ok(PayloadView::Data(bytes)),
            ],
        ) == (StepView::Store {
            file_name: update_file(config.app_name, info.version, pid),
            bytes,
        }),
{
    law_checksum_file_is_read_back(lead, word, rest);
    lemma_lower_twice(word);
    let file = Ok::<PayloadView, Seq<char>>(PayloadView::Data(encode_utf8(lead + word + rest)));
    let good = Ok::<PayloadView, Seq<char>>(PayloadView::Data(bytes));
    let responses = seq![file, good];
    match first_step(config, info, pid) {
        StepView::Fetch(download) => {
            let second = next_step(download, file);
            let tail = responses.skip(1);
            assert(tail[0] == good);
            match second {
                StepView::Fetch(later) => {
                    let step = next_step(later, good);
                    assert(download_run(step, tail.skip(1)) == step);
                    assert(download_run(second, tail) == step);
                    assert(responses[0] == file);
                    assert(download_run(first_step(config, info, pid), responses) == step);
                },
                _ => {},
            }
        },
        _ => {},
    }
}

/// Where there is no checksum and none is required, an executable that the server sends is stored,
/// byte for byte.
pub proof fn law_executable_without_checksum_is_stored(
    config: ConfigView,
    info: InfoView,
    pid: nat,
    bytes: Seq<u8>,
)
    requires
        config_fault(config) is None,
        !config.require_checksum,
        https_parts(info.download_url) is Some,
        bytes.len() >= config.min_executable_size,
        bytes.len() >= 2,
        bytes[0] == 0x4d,
        bytes[1] == 0x5a,
        github_checksum(info.asset_digest) is None,
        info.checksum_url is None,
    ensures
        download_run(first_step(config, info, pid), seq![Ok(PayloadView::Data(bytes))])
            == (StepView::Store {
            file_name: update_file(config.app_name, info.version, pid),
            bytes,
        }),
{
    let responses = seq![Ok::<PayloadView, Seq<char>>(PayloadView::Data(bytes))];
    match first_step(config, info, pid) {
        StepView::Fetch(download) => {
            let step = next_step(download, responses[0]);
            assert(download_run(step, responses.skip(1)) == step);
        },
        _ => {},
    }
}

/// Bytes have the format of an executable exactly where they have the configured least size, are
/// two or more, and the first two are the letters `M` and `Z`. Nothing else about them matters.
pub proof fn law_format_is_size_and_signature(config: ConfigView, bytes: Seq<u8>)
    ensures
        executable_format(config, bytes) <==> bytes.len() >= config.min_executable_size
            && bytes.len() >= 2 && bytes[0] == 0x4d && bytes[1] == 0x5a,
{
}

/// An executable of the right format passes where no checksum is expected, or where its own is the
/// expected one but for the case of letters. A wrong format is told first, a wrong checksum with
/// both checksums.
pub proof fn law_executable_is_judged_by_format_and_checksum(
    config: ConfigView,
    checksum: Seq<char>,
    bytes: Seq<u8>,
)
    ensures
        bytes.len() >= config.min_executable_size && bytes.len() >= 2 && bytes[0] == 0x4d
            && bytes[1] == 0x5a ==> {
            &&& executable_fault(config, None, bytes) is None
            &&& executable_fault(config, Some(checksum), bytes) is None <==> lower(
                hex(sha256(bytes)),
            ) == lower(checksum)
            &&& lower(hex(sha256(bytes))) != lower(checksum) ==> executable_fault(
                config,
                Some(checksum),
                bytes,
            ) == Some(
                "Update integrity check failed: expected "@ + checksum + ", got "@ + hex(
                    sha256(bytes),
                ) + "."@,
            )
        },
        !(bytes.len() >= config.min_executable_size && bytes.len() >= 2 && bytes[0] == 0x4d
            && bytes[1] == 0x5a) ==> {
            &&& executable_fault(config, None, bytes) == Some(
                "Downloaded update is not a valid Windows executable."@,
            )
            &&& executable_fault(config, Some(checksum), bytes) == Some(
                "Downloaded update is not a valid Windows executable."@,
            )
        },
{
}

/// The digest from GitHub is the checksum wherever it can be read, whatever else the update has.
/// Else the checksum is in the file at the checksum address, which is fetched in at most 1 MiB.
/// With neither there is none, which fails exactly where one is required.
pub proof fn law_checksum_comes_from_github_first(config: ConfigView, info: InfoView)
    ensures
        github_checksum(info.asset_digest) matches Some(checksum) ==> checksum_source(config, info)
            == Ok::<SourceView, Seq<char>>(SourceView::Known(checksum)),
        github_checksum(info.asset_digest) is None ==> (info.checksum_url matches Some(url) ==> (
        https_parts(url) matches Some(parts) ==> checksum_source(config, info) == Ok::<
            SourceView,
            Seq<char>,
        >(
            SourceView::File(
                RequestView { host: parts.0, path: parts.1, max_size: 1_048_576 },
            ),
        ))),
        github_checksum(info.asset_digest) is None ==> (info.checksum_url matches Some(url) ==> (
        https_parts(url) is None ==> checksum_source(config, info) == Err::<SourceView, Seq<char>>(
            "Update checksum URL is not a valid HTTPS URL."@,
        ))),
        github_checksum(info.asset_digest) is None && info.checksum_url is None
            && config.require_checksum ==> checksum_source(config, info) == Err::<
            SourceView,
            Seq<char>,
        >("Update release does not provide a usable SHA-256 checksum."@),
        github_checksum(info.asset_digest) is None && info.checksum_url is None
            && !config.require_checksum ==> checksum_source(config, info) == Ok::<
            SourceView,
            Seq<char>,
        >(SourceView::Absent),
{
}

/// A response brings the checksum that its body tells. An absent file fails with a message of its
/// own, a failed request with the request's message.
pub proof fn law_checksum_response_is_read(bytes: Seq<u8>, message: Seq<char>)
    ensures
        fetched_checksum(Ok(PayloadView::Data(bytes))) == file_checksum(bytes),
        fetched_checksum(Ok(PayloadView::NotFound)) == Err::<Seq<char>, Seq<char>>(
            "Update checksum asset returned HTTP 404."@,
        ),
        fetched_checksum(Err(message)) == Err::<Seq<char>, Seq<char>>(message),
{
}

/// A download under settings that can work begins with the executable where its checksum is known
/// or there is none, and with the checksum file where that is to be fetched. Each request goes to
/// the address that the update tells, the executable's under the configured limit.
pub proof fn law_download_begins_at_the_told_address(
    config: ConfigView,
    info: InfoView,
    pid: nat,
    host: Seq<char>,
    path: Seq<char>,
)
    requires
        config_fault(config) is None,
    ensures
        checksum_source(config, info) matches Err(message) ==> first_step(config, info, pid)
            == StepView::Failed(message),
        checksum_source(config, info) matches Ok(SourceView::File(request)) ==> first_step(
            config,
            info,
            pid,
        ) == StepView::Fetch(
            DownloadView { config, info, pid, stage: StageView::Checksum, request },
        ),
        checksum_source(config, info) matches Ok(SourceView::Known(checksum)) ==> (https_parts(
            info.download_url,
        ) == Some((host, path)) ==> first_step(config, info, pid) == StepView::Fetch(
            DownloadView {
                config,
                info,
                pid,
                stage: StageView::Executable(Some(checksum)),
                request: RequestView { host, path, max_size: config.max_download_size },
            },
        )),
        checksum_source(config, info) matches Ok(SourceView::Absent) ==> (https_parts(
            info.download_url,
        ) == Some((host, path)) ==> first_step(config, info, pid) == StepView::Fetch(
            DownloadView {
                config,
                info,
                pid,
                stage: StageView::Executable(None),
                request: RequestView { host, path, max_size: config.max_download_size },
            },
        )),
        checksum_source(config, info) matches Ok(source) ==> (!(source is File) && https_parts(
            info.download_url,
        ) is None ==> first_step(config, info, pid) == StepView::Failed(
            "Update URL is not a valid HTTPS URL."@,
        )),
{
}

/// A download under settings that cannot work fails with their fault.
pub proof fn law_download_refuses_settings_that_cannot_work(
    config: ConfigView,
    info: InfoView,
    pid: nat,
)
    requires
        config_fault(config) is Some,
    ensures
        first_step(config, info, pid) == StepView::Failed(config_fault(config)->0),
{
}

/// A checksum file that can be read leads to the request for the executable, with that checksum
/// expected and all else as it was. One that cannot be read ends the download.
pub proof fn law_checksum_file_leads_to_the_executable(
    download: DownloadView,
    response: Result<PayloadView, Seq<char>>,
    host: Seq<char>,
    path: Seq<char>,
)
    requires
        download.stage is Checksum,
    ensures
        fetched_checksum(response) matches Ok(checksum) ==> (https_parts(download.info.download_url)
            == Some((host, path)) ==> next_step(download, response) == StepView::Fetch(
            DownloadView {
                config: download.config,
                info: download.info,
                pid: download.pid,
                stage: StageView::Executable(Some(checksum)),
                request: RequestView { host, path, max_size: download.config.max_download_size },
            },
        )),
        fetched_checksum(response) matches Ok(checksum) ==> (https_parts(
            download.info.download_url,
        ) is None ==> next_step(download, response) == StepView::Failed(
            "Update URL is not a valid HTTPS URL."@,
        )),
        fetched_checksum(response) matches Err(message) ==> next_step(download, response)
            == StepView::Failed(message),
{
}

/// A response to the request for the executable ends the download. An executable that passes is
/// stored byte for byte, under the name for the application, the process and the version; one that
/// does not, an absent one and a failed request each fail with their message.
pub proof fn law_executable_ends_the_download(
    download: DownloadView,
    expected: Option<Seq<char>>,
    bytes: Seq<u8>,
    message: Seq<char>,
)
    requires
        download.stage == StageView::Executable(expected),
    ensures
        executable_fault(download.config, expected, bytes) is None ==> next_step(
            download,
            Ok(PayloadView::Data(bytes)),
        ) == (StepView::Store {
            file_name: update_file(download.config.app_name, download.info.version, download.pid),
            bytes,
        }),
        executable_fault(download.config, expected, bytes) matches Some(fault) ==> next_step(
            download,
            Ok(PayloadView::Data(bytes)),
        ) == StepView::Failed(fault),
        next_step(download, Ok(PayloadView::NotFound)) == StepView::Failed(
            "Update asset returned HTTP 404."@,
        ),
        next_step(download, Err(message)) == StepView::Failed(message),
{
}

/// Sources, stages, steps and downloads are seen case by case, with every field as it is.
pub proof fn law_downloads_are_seen_as_they_are(
    text: String,
    request: HttpRequest,
    download: UpdateDownload,
    update: StagedUpdate,
)
    ensures
        ChecksumSource::Known(text)@ == SourceView::Known(text@),
        ChecksumSource::File(request)@ == SourceView::File(request@),
        ChecksumSource::Absent@ == SourceView::Absent,
        DownloadStage::Checksum@ == StageView::Checksum,
        DownloadStage::Executable(Some(text))@ == StageView::Executable(Some(text@)),
        DownloadStage::Executable(None)@ == StageView::Executable(None),
        DownloadTurn::Fetch(download)@ == StepView::Fetch(download@),
        DownloadTurn::Store(update)@ == (StepView::Store {
            file_name: update.file_name@,
            bytes: update.bytes@,
        }),
        DownloadTurn::Failed(text)@ == StepView::Failed(text@),
{
}

} // verus!
