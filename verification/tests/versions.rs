use std::cmp::Ordering;
use update_via_github::version::{
    compare_prerelease, compare_versions, is_newer, parse_version, rank_texts, Precedence,
    VersionIdentifier,
};

#[test]
fn compares_release_versions() {
    assert!(is_newer("v0.3.1", "0.3.0"));
    assert!(is_newer("3.0.0", "2.9.9"));
    assert!(!is_newer("v2.2.0", "2.2.0"));
    assert!(!is_newer("v2.1.9", "2.2.0"));
    assert!(is_newer("v0.3.0", "0.3.0-alpha.6"));
    assert!(is_newer("v0.3.0-alpha.7", "0.3.0-alpha.6"));
    assert!(is_newer("v0.3.0-beta.1", "0.3.0-alpha.99"));
    assert!(!is_newer("v0.3.0-alpha.5", "0.3.0-alpha.6"));
    assert!(!is_newer("v0.3.0-alpha.6", "0.3.0"));
}

#[test]
fn reads_the_parts_of_a_version() {
    let text = |t: &str| VersionIdentifier::Text(t.to_owned());
    assert_eq!(parse_version("1.2.3"), Some(((1, 2, 3), vec![])));
    assert_eq!(parse_version("1.2"), Some(((1, 2, 0), vec![])));
    assert_eq!(parse_version("7"), Some(((7, 0, 0), vec![])));
    assert_eq!(parse_version(" vV1.2.3+build.5 "), Some(((1, 2, 3), vec![])));
    assert_eq!(
        parse_version("1.0.0-RC.10.x-y"),
        Some(((1, 0, 0), vec![text("rc"), VersionIdentifier::Numeric(10), text("x-y")]))
    );
    assert_eq!(parse_version("1.0.0-"), Some(((1, 0, 0), vec![])));
    assert_eq!(
        parse_version("1.0.0-a..b"),
        Some(((1, 0, 0), vec![text("a"), text(""), text("b")]))
    );
    assert_eq!(
        parse_version("01.002.0-007"),
        Some(((1, 2, 0), vec![VersionIdentifier::Numeric(7)]))
    );
}

#[test]
fn numbers_keep_to_their_width() {
    assert_eq!(parse_version("4294967295"), Some(((4294967295, 0, 0), vec![])));
    assert_eq!(parse_version("4294967296"), None);
    assert_eq!(
        parse_version("1-18446744073709551615"),
        Some(((1, 0, 0), vec![VersionIdentifier::Numeric(18446744073709551615)]))
    );
    assert_eq!(
        parse_version("1-18446744073709551616"),
        Some(((1, 0, 0), vec![VersionIdentifier::Text("18446744073709551616".to_owned())]))
    );
    assert_eq!(
        parse_version("1-99999999999999999999999999"),
        Some(((1, 0, 0), vec![VersionIdentifier::Text("99999999999999999999999999".to_owned())]))
    );
}

#[test]
fn refuses_what_is_no_version() {
    let texts = [
        "", "   ", "v", "1.", ".1", "1..2", "1.2.3.4", "one", "1.x", "-1", "+1", "v 1.0", "1.0 -a",
    ];
    for text in texts {
        assert_eq!(parse_version(text), None, "{text:?}");
        assert!(!is_newer(text, "0.0.1"));
        assert!(!is_newer("9.9.9", text));
    }
}

#[test]
fn orders_prereleases() {
    let num = VersionIdentifier::Numeric;
    let text = |t: &str| VersionIdentifier::Text(t.to_owned());
    assert_eq!(compare_prerelease(&[], &[]), Ordering::Equal);
    assert_eq!(compare_prerelease(&[], &[num(1)]), Ordering::Greater);
    assert_eq!(compare_prerelease(&[num(1)], &[]), Ordering::Less);
    assert_eq!(compare_prerelease(&[num(2)], &[num(10)]), Ordering::Less);
    assert_eq!(compare_prerelease(&[num(99)], &[text("a")]), Ordering::Less);
    assert_eq!(compare_prerelease(&[text("a")], &[num(99)]), Ordering::Greater);
    assert_eq!(compare_prerelease(&[text("alpha")], &[text("beta")]), Ordering::Less);
    assert_eq!(compare_prerelease(&[text("a"), num(1)], &[text("a")]), Ordering::Greater);
    assert_eq!(compare_prerelease(&[text("a")], &[text("a"), num(1)]), Ordering::Less);
    assert_eq!(compare_prerelease(&[text("a"), num(1)], &[text("a"), num(1)]), Ordering::Equal);
}

#[test]
fn compares_whole_versions() {
    assert_eq!(compare_versions("1.0.0", "v1"), Some(Ordering::Equal));
    assert_eq!(compare_versions("1.10.0", "1.9.9"), Some(Ordering::Greater));
    assert_eq!(compare_versions("1.0.0-ALPHA", "1.0.0-alpha"), Some(Ordering::Equal));
    assert_eq!(compare_versions("1.0.0+a", "1.0.0+b"), Some(Ordering::Equal));
    assert_eq!(compare_versions("1.0.0", "latest"), None);
}

#[test]
fn texts_rank_by_code_point() {
    let rising = [
        ("", "a"),
        ("a", "b"),
        ("ab", "b"),
        ("a", "ab"),
        ("z", "\u{e9}"),
        ("\u{ffff}", "\u{10000}"),
    ];
    for (a, b) in rising {
        assert_eq!(a.cmp(b), Ordering::Less);
        assert_eq!(rank_texts(a, b), Precedence::Lower);
        assert_eq!(rank_texts(b, a), Precedence::Higher);
        assert_eq!(rank_texts(a, a), Precedence::Same);
    }
}

#[test]
fn precedence_follows_the_semver_example() {
    let rising = [
        "1.0.0-alpha", "1.0.0-alpha.1", "1.0.0-alpha.beta", "1.0.0-beta", "1.0.0-beta.2",
        "1.0.0-beta.11", "1.0.0-rc.1", "1.0.0", "2.0.0", "2.1.0", "2.1.1",
    ];
    for (i, low) in rising.iter().enumerate() {
        for (j, high) in rising.iter().enumerate() {
            assert_eq!(is_newer(high, low), j > i, "{high} over {low}");
        }
    }
}

#[test]
fn decorations_do_not_count() {
    let pairs = [
        ("v1.2.3", "1.2.3"),
        ("VV1.2.3", "1.2.3"),
        (" 1.2.3\t", "1.2.3"),
        ("1.2.3+5", "1.2.3"),
        ("1.2.3-a+5", "1.2.3-a"),
    ];
    for (decorated, plain) in pairs {
        assert_eq!(parse_version(decorated), parse_version(plain));
    }
}
