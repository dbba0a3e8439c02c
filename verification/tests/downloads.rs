use update_via_github::checksum::sha256_hex;
use update_via_github::download::{
    expected_sha256, read_checksum_response, verify_executable, ChecksumSource, DownloadTurn,
};
use update_via_github::http::HttpPayload;
use update_via_github::{download_update, UpdateConfig, UpdateInfo};

const PID: u32 = 77;

fn config() -> UpdateConfig {
    UpdateConfig::new("owner/my-app", "MyApp.exe", "1.0.0")
        .with_min_executable_size(4)
        .with_max_download_size(1000)
}

fn info(digest: Option<String>, checksum_url: Option<&str>) -> UpdateInfo {
    UpdateInfo {
        version: "1.1.0".to_owned(),
        release_url: "https://github.com/r".to_owned(),
        download_url: "https://github.com/dl/MyApp.exe".to_owned(),
        checksum_url: checksum_url.map(str::to_owned),
        asset_digest: digest,
    }
}

fn executable() -> Vec<u8> {
    b"MZ rest of it".to_vec()
}

fn data(bytes: &[u8]) -> Result<HttpPayload, String> {
    Ok(HttpPayload::Data(bytes.to_vec()))
}

/// Answers the requests in turn; gives the paths that were asked for and the outcome.
fn download(
    config: &UpdateConfig,
    info: &UpdateInfo,
    responses: Vec<Result<HttpPayload, String>>,
) -> (Vec<(String, usize, bool)>, Result<(String, Vec<u8>), String>) {
    let mut asked = vec![];
    let mut turn = download_update(config, info, PID);
    let mut responses = responses.into_iter();
    loop {
        match turn {
            DownloadTurn::Fetch(download) => {
                let request = download.request();
                asked.push((
                    format!("{}{}", request.host, request.path),
                    request.max_size,
                    download.reports_progress(),
                ));
                turn = download.next(responses.next().unwrap());
            }
            DownloadTurn::Store(update) => return (asked, Ok((update.file_name, update.bytes))),
            DownloadTurn::Failed(message) => return (asked, Err(message)),
        }
    }
}

#[test]
fn a_described_executable_is_stored() {
    let digest = format!("sha256:{}", sha256_hex(&executable()));
    let (asked, outcome) =
        download(&config(), &info(Some(digest), None), vec![data(&executable())]);
    assert_eq!(asked, vec![("github.com/dl/MyApp.exe".to_owned(), 1000, true)]);
    assert_eq!(outcome, Ok(("MyApp-update-77-1.1.0.exe".to_owned(), executable())));
}

#[test]
fn a_checksum_file_is_fetched_first() {
    let file = format!("{}  MyApp.exe\n", sha256_hex(&executable()).to_uppercase());
    let (asked, outcome) = download(
        &config().with_required_checksum(true),
        &info(None, Some("https://example.org/sums.txt")),
        vec![data(file.as_bytes()), data(&executable())],
    );
    assert_eq!(
        asked,
        vec![
            ("example.org/sums.txt".to_owned(), 1_048_576, false),
            ("github.com/dl/MyApp.exe".to_owned(), 1000, true),
        ]
    );
    assert_eq!(outcome.unwrap().1, executable());
}

#[test]
fn the_digest_goes_before_the_checksum_file() {
    let digest = format!("sha256:{}", sha256_hex(&executable()));
    let (asked, outcome) = download(
        &config(),
        &info(Some(digest), Some("https://example.org/sums.txt")),
        vec![data(&executable())],
    );
    assert_eq!(asked.len(), 1);
    assert!(outcome.is_ok());
}

#[test]
fn without_a_checksum_nothing_is_compared() {
    let (_, outcome) = download(&config(), &info(None, None), vec![data(&executable())]);
    assert!(outcome.is_ok());
    let (_, outcome) =
        download(&config(), &info(Some("md5:1".to_owned()), None), vec![data(&executable())]);
    assert!(outcome.is_ok());
}

#[test]
fn a_required_checksum_is_enforced() {
    let required = config().with_required_checksum(true);
    let (asked, outcome) = download(&required, &info(None, None), vec![]);
    assert!(asked.is_empty());
    assert_eq!(
        outcome,
        Err("Update release does not provide a usable SHA-256 checksum.".to_owned())
    );
}

#[test]
fn a_tampered_executable_is_refused() {
    let digest = sha256_hex(&executable());
    let tampered = b"MZ rest of it!";
    let (_, outcome) =
        download(&config(), &info(Some(format!("sha256:{digest}")), None), vec![data(tampered)]);
    assert_eq!(
        outcome,
        Err(format!(
            "Update integrity check failed: expected {digest}, got {}.",
            sha256_hex(tampered)
        ))
    );
}

#[test]
fn what_is_no_executable_is_refused() {
    for bytes in [&b"MZ "[..], b"ZM rest", b"M", b"", b"<html>"] {
        let (_, outcome) = download(&config(), &info(None, None), vec![data(bytes)]);
        assert_eq!(
            outcome,
            Err("Downloaded update is not a valid Windows executable.".to_owned())
        );
    }
    let tiny = config().with_min_executable_size(0);
    assert_eq!(verify_executable(&tiny, &None, b"MZ"), Ok(()));
    assert!(verify_executable(&tiny, &None, b"M").is_err());
}

#[test]
fn failed_requests_end_the_download() {
    let (_, outcome) =
        download(&config(), &info(None, None), vec![Err("Update request failed.".to_owned())]);
    assert_eq!(outcome, Err("Update request failed.".to_owned()));
    let (_, outcome) = download(&config(), &info(None, None), vec![Ok(HttpPayload::NotFound)]);
    assert_eq!(outcome, Err("Update asset returned HTTP 404.".to_owned()));
    let with_file = info(None, Some("https://example.org/sums.txt"));
    let (_, outcome) = download(&config(), &with_file, vec![Ok(HttpPayload::NotFound)]);
    assert_eq!(outcome, Err("Update checksum asset returned HTTP 404.".to_owned()));
    let (_, outcome) = download(&config(), &with_file, vec![data(b"")]);
    assert_eq!(outcome, Err("Update checksum file is empty.".to_owned()));
}

#[test]
fn addresses_must_be_https() {
    let (_, outcome) = download(&config(), &info(None, Some("http://x/y")), vec![]);
    assert_eq!(outcome, Err("Update checksum URL is not a valid HTTPS URL.".to_owned()));
    let mut plain = info(None, None);
    plain.download_url = "ftp://x/y".to_owned();
    let (_, outcome) = download(&config(), &plain, vec![]);
    assert_eq!(outcome, Err("Update URL is not a valid HTTPS URL.".to_owned()));
}

#[test]
fn faulty_settings_come_first() {
    let (_, outcome) =
        download(&config().with_max_download_size(0), &info(None, Some("nonsense")), vec![]);
    assert_eq!(outcome, Err("Maximum download size must be greater than zero.".to_owned()));
}

#[test]
fn checksums_have_a_source() {
    let digest = sha256_hex(b"x");
    let known = info(Some(format!("sha256:{}", digest.to_uppercase())), None);
    assert!(matches!(expected_sha256(&config(), &known), Ok(ChecksumSource::Known(c)) if c == digest));
    assert!(matches!(expected_sha256(&config(), &info(None, None)), Ok(ChecksumSource::Absent)));
    assert_eq!(read_checksum_response(data(digest.as_bytes())), Ok(digest));
    assert_eq!(read_checksum_response(Err("no".to_owned())), Err("no".to_owned()));
}

#[test]
fn the_form_of_a_checksum_does_not_count() {
    let checksum = sha256_hex(&executable()).to_uppercase();
    let described = info(Some(format!("\t sha256:{checksum} \n")), None);
    let (_, outcome) = download(
        &config().with_required_checksum(true),
        &described,
        vec![data(&executable())],
    );
    assert_eq!(outcome.unwrap().1, executable());
    let file = format!("\r\n\u{a0}{checksum}\u{2003}*MyApp.exe \u{e9}");
    let (_, outcome) = download(
        &config().with_required_checksum(true),
        &info(None, Some("https://example.org/sums.txt")),
        vec![data(file.as_bytes()), data(&executable())],
    );
    assert_eq!(outcome.unwrap().1, executable());
}
