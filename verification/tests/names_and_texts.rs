use update_via_github::names::{sanitize_component, script_file_name, update_file_name};
use update_via_github::number::{parse_u32, parse_u64, push_decimal};
use update_via_github::text::{
    chars_of, eq_ignore_ascii_case, find_char, is_blank, is_whitespace, split_by, string_of,
    to_lower, trimmed,
};
use update_via_github::url::{split_https_url, wide};

#[test]
fn sanitizes_temp_file_components() {
    assert_eq!(sanitize_component("My App/1"), "MyApp1");
    assert_eq!(sanitize_component(""), "app");
}

#[test]
fn sanitizing_keeps_safe_characters_only() {
    assert_eq!(sanitize_component("a.b-c_D9"), "a.b-c_D9");
    assert_eq!(sanitize_component("..\\..\\C:\\x"), "....Cx");
    assert_eq!(sanitize_component("\u{e9}\u{4e2d}"), "app");
    for text in ["My App/1", "", "\u{e9}", "plain", "a b c"] {
        let once = sanitize_component(text);
        assert_eq!(sanitize_component(&once), once);
        assert!(!once.is_empty());
    }
}

#[test]
fn names_temporary_files() {
    assert_eq!(update_file_name("My App", "1.2/3", 4321), "MyApp-update-4321-1.23.exe");
    assert_eq!(update_file_name("", "", 0), "app-update-0-app.exe");
    assert_eq!(script_file_name("My App", 4294967295), "MyApp-updater-4294967295.ps1");
}

#[test]
fn whitespace_is_what_unicode_says() {
    for c in '\0'..=char::MAX {
        assert_eq!(is_whitespace(c), c.is_whitespace(), "{c:?}");
    }
}

#[test]
fn texts_behave_like_strings() {
    for text in ["", " ", " a b ", "\u{2003}x\u{85}", "plain", "\u{1f600} ok"] {
        let chars = chars_of(text);
        assert_eq!(chars, text.chars().collect::<Vec<char>>());
        assert_eq!(string_of(&chars), text);
        assert_eq!(string_of(trimmed(&chars)), text.trim());
        assert_eq!(is_blank(text), text.trim().is_empty());
        assert_eq!(to_lower(&chars), text.to_ascii_lowercase());
    }
    for text in ["", ".", "a", "a.b", ".a.", "a..b", "\u{e9}.x"] {
        let chars = chars_of(text);
        let pieces: Vec<String> = split_by(&chars, '.').into_iter().map(string_of).collect();
        assert_eq!(pieces, text.split('.').collect::<Vec<&str>>());
        assert_eq!(find_char(&chars, '.'), text.chars().position(|c| c == '.'));
    }
    for a in ["", "a", "A", "abc", "aBC", "\u{e9}", "\u{c9}", "k", "\u{212a}"] {
        for b in ["", "a", "A", "abc", "aBC", "\u{e9}", "\u{c9}", "k", "\u{212a}"] {
            assert_eq!(eq_ignore_ascii_case(a, b), a.eq_ignore_ascii_case(b), "{a:?} {b:?}");
        }
    }
}

#[test]
fn numbers_read_like_the_standard_library() {
    for text in [
        "", "+", "-", "0", "+0", "-0", "007", "4294967295", "4294967296", "+12", "++1", "1 ", " 1",
        "1_0", "18446744073709551615", "18446744073709551616", "99999999999999999999x", "\u{661}",
    ] {
        let chars = chars_of(text);
        assert_eq!(parse_u32(&chars), text.parse::<u32>().ok(), "{text:?}");
        assert_eq!(parse_u64(&chars), text.parse::<u64>().ok(), "{text:?}");
    }
}

#[test]
fn numbers_are_written_in_decimal() {
    for n in [0, 9, 10, 99, 100, 104857600, u64::MAX] {
        let mut text = String::from("n=");
        push_decimal(&mut text, n);
        assert_eq!(text, format!("n={n}"));
    }
}

#[test]
fn splits_https_addresses() {
    let parts = |host: &str, path: &str| Some((host.to_owned(), path.to_owned()));
    assert_eq!(
        split_https_url("https://github.com/o/r/app.exe?x=1"),
        parts("github.com", "/o/r/app.exe?x=1")
    );
    assert_eq!(split_https_url("https://github.com/"), parts("github.com", "/"));
    assert_eq!(split_https_url("https:///x"), parts("", "/x"));
    assert_eq!(split_https_url("https://github.com"), None);
    assert_eq!(split_https_url("http://github.com/x"), None);
    assert_eq!(split_https_url("HTTPS://github.com/x"), None);
    assert_eq!(split_https_url(""), None);
}

#[test]
fn address_parts_make_up_the_address() {
    for url in ["https://a/b", "https://api.github.com/repos/o/r//x/", "https:////"] {
        let (host, path) = split_https_url(url).unwrap();
        assert_eq!(format!("https://{host}{path}"), url);
        assert!(!host.contains('/'));
        assert!(path.starts_with('/'));
    }
}

#[test]
fn windows_texts_end_in_zero() {
    for text in ["", "GET", "\u{e9}\u{ffff}\u{10000}\u{10ffff}x", "\u{1f600}"] {
        let expected: Vec<u16> = text.encode_utf16().chain(std::iter::once(0)).collect();
        assert_eq!(wide(text), expected);
    }
}
