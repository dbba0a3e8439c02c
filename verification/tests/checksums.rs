use update_via_github::checksum::{
    check_integrity, parse_github_sha256, parse_sha256_checksum, sha256_hex, to_hex,
};

const DIGITS: &str = "0123456789abcdef0123456789abcdef0123456789abcdef0123456789abcdef";
const ABC: &str = "ba7816bf8f01cfea414140de5dae2223b00361a396177a9cb410ff61f20015ad";

#[test]
fn parses_github_asset_digest() {
    let digest = "sha256:0123456789abcdef0123456789abcdef0123456789abcdef0123456789abcdef";
    assert_eq!(parse_github_sha256(Some(digest)).unwrap().len(), 64);
    assert!(parse_github_sha256(Some("md5:1234")).is_none());
}

#[test]
fn reads_digest_fields() {
    assert_eq!(parse_github_sha256(None), None);
    assert_eq!(parse_github_sha256(Some("")), None);
    assert_eq!(
        parse_github_sha256(Some(&format!(" sha256:{}\n", DIGITS.to_uppercase()))),
        Some(DIGITS.to_owned())
    );
    assert_eq!(parse_github_sha256(Some(&format!("SHA256:{DIGITS}"))), None);
    assert_eq!(parse_github_sha256(Some(&format!("sha256: {DIGITS}"))), None);
    assert_eq!(parse_github_sha256(Some(&format!("sha256:{DIGITS}0"))), None);
    assert_eq!(parse_github_sha256(Some(&format!("sha256:{}", &DIGITS[1..]))), None);
    assert_eq!(parse_github_sha256(Some(&format!("sha256:g{}", &DIGITS[1..]))), None);
    assert_eq!(parse_github_sha256(Some(&format!("sha256:\u{e9}{}", &DIGITS[2..]))), None);
    assert_eq!(parse_github_sha256(Some(DIGITS)), None);
}

#[test]
fn reads_checksum_files() {
    assert_eq!(parse_sha256_checksum(DIGITS.as_bytes()), Ok(DIGITS.to_owned()));
    assert_eq!(
        parse_sha256_checksum(format!("\u{3000} {}  MyApp.exe\n", DIGITS.to_uppercase()).as_bytes()),
        Ok(DIGITS.to_owned())
    );
    assert_eq!(
        parse_sha256_checksum(b"\xff\xfe"),
        Err("Update checksum file is not UTF-8/ASCII text.".to_owned())
    );
    assert_eq!(
        parse_sha256_checksum(b" \r\n"),
        Err("Update checksum file is empty.".to_owned())
    );
    assert_eq!(parse_sha256_checksum(b""), Err("Update checksum file is empty.".to_owned()));
    assert_eq!(
        parse_sha256_checksum(format!("MyApp.exe {DIGITS}").as_bytes()),
        Err("Update checksum file does not contain a valid SHA-256 digest.".to_owned())
    );
}

#[test]
fn computes_digests() {
    assert_eq!(sha256_hex(b"abc"), ABC);
    assert_eq!(
        sha256_hex(b""),
        "e3b0c44298fc1c149afbf4c8996fb92427ae41e4649b934ca495991b7852b855"
    );
}

#[test]
fn writes_hexadecimal() {
    assert_eq!(to_hex(&[]), "");
    assert_eq!(to_hex(&[0x00, 0x09, 0x0a, 0xbe, 0xef, 0xff]), "00090abeefff");
}

#[test]
fn compares_checksums() {
    assert_eq!(check_integrity(ABC, &ABC.to_uppercase()), Ok(()));
    assert_eq!(
        check_integrity("aa", "bb"),
        Err("Update integrity check failed: expected bb, got aa.".to_owned())
    );
    assert!(check_integrity("aa", "aaa").is_err());
}

#[test]
fn a_digest_is_read_back_from_its_publication() {
    let digest = sha256_hex(b"some executable");
    assert_eq!(parse_github_sha256(Some(&format!("sha256:{digest}"))), Some(digest.clone()));
    assert_eq!(parse_sha256_checksum(format!("{digest} *app.exe").as_bytes()), Ok(digest));
}

#[test]
fn different_bytes_differ_in_hexadecimal() {
    assert_ne!(to_hex(&[0x01, 0x23]), to_hex(&[0x12, 0x03]));
    assert_ne!(to_hex(&[0x10]), to_hex(&[0x01, 0x00]));
}
