//! Release versions and their precedence.
//!
//! A version reads `major.minor.patch-prerelease+build`. Leading `v`s, the build part and
//! whitespace around the text do not count; a missing minor or patch number is zero.
use crate::number::{
    decimal, digits_value, law_decimal_is_read_back, law_digits_write_a_number,
    law_other_texts_write_no_number, number, parse_u32, parse_u64,
};
use crate::text::{
    after, before, blank, chars_of, find_char, first_index, law_separator_parts_a_text,
    law_trim_takes_the_whitespace_around,
    lemma_first_index,
    lemma_first_index_unique,
    lower, split, split_by, to_lower, trim, trim_end, trim_start, trimmed, whitespace,
};
use std::cmp::Ordering;
use vstd::prelude::*;
use vstd::slice::slice_subrange;

verus! {

/// One dot-separated piece of a prerelease.
#[derive(Clone, Debug, PartialEq, Eq)]
pub enum VersionIdentifier {
    Numeric(u64),
    Text(String),
}

/// What a [`VersionIdentifier`] stands for.
pub enum IdentifierView {
    Numeric(nat),
    Text(Seq<char>),
}

impl View for VersionIdentifier {
    type V = IdentifierView;

    open spec fn view(&self) -> IdentifierView {
        match self {
            VersionIdentifier::Numeric(n) => IdentifierView::Numeric(*n as nat),
            VersionIdentifier::Text(t) => IdentifierView::Text(t@),
        }
    }
}

/// What a version text stands for.
pub struct VersionView {
    pub major: nat,
    pub minor: nat,
    pub patch: nat,
    pub prerelease: Seq<IdentifierView>,
}

/// How one value stands to another.
#[derive(Clone, Copy, Debug, PartialEq, Eq, Structural)]
pub enum Precedence {
    Lower,
    Same,
    Higher,
}

/// The text behind its leading `v`s, small or capital.
pub open spec fn strip_v(s: Seq<char>) -> Seq<char>
    decreases s.len(),
{
    if s.len() > 0 && (s[0] == 'v' || s[0] == 'V') {
        strip_v(s.drop_first())
    } else {
        s
    }
}

/// A version text without what does not count.
pub open spec fn version_text(s: Seq<char>) -> Seq<char> {
    before(strip_v(trim(s)), '+')
}

/// The number at place `i` of the core, zero where the core is shorter.
pub open spec fn core_number(parts: Seq<Seq<char>>, i: int) -> Option<nat> {
    if i < parts.len() {
        number(parts[i], u32::MAX as nat)
    } else {
        Some(0)
    }
}

/// One prerelease piece: a number where it reads as one that fits in 64 bits, else the text in
/// lower case.
pub open spec fn identifier(s: Seq<char>) -> IdentifierView {
    match number(s, u64::MAX as nat) {
        Some(n) => IdentifierView::Numeric(n),
        None => IdentifierView::Text(lower(s)),
    }
}

/// The pieces of a prerelease text.
pub open spec fn identifiers(s: Seq<char>) -> Seq<IdentifierView> {
    if s.len() == 0 {
        Seq::empty()
    } else {
        split(s, '.').map_values(|piece: Seq<char>| identifier(piece))
    }
}

/// The version that a text writes, if it writes one: one to three numbers, and a prerelease
/// behind the first hyphen.
pub open spec fn version_of(s: Seq<char>) -> Option<VersionView> {
    let text = version_text(s);
    let parts = split(before(text, '-'), '.');
    match (core_number(parts, 0), core_number(parts, 1), core_number(parts, 2)) {
        (Some(major), Some(minor), Some(patch)) => if parts.len() <= 3 {
            Some(VersionView { major, minor, patch, prerelease: identifiers(after(text, '-')) })
        } else {
            None
        },
        _ => None,
    }
}

/// The larger number is higher.
pub open spec fn number_precedence(a: nat, b: nat) -> Precedence {
    if a < b {
        Precedence::Lower
    } else if a == b {
        Precedence::Same
    } else {
        Precedence::Higher
    }
}

/// Dictionary order by code point.
pub open spec fn text_precedence(a: Seq<char>, b: Seq<char>) -> Precedence
    decreases a.len(),
{
    if a.len() == 0 || b.len() == 0 {
        number_precedence(a.len(), b.len())
    } else if a[0] == b[0] {
        text_precedence(a.drop_first(), b.drop_first())
    } else if a[0] < b[0] {
        Precedence::Lower
    } else {
        Precedence::Higher
    }
}

/// Numbers by size, texts by dictionary order, a number below any text.
pub open spec fn identifier_precedence(a: IdentifierView, b: IdentifierView) -> Precedence {
    match (a, b) {
        (IdentifierView::Numeric(x), IdentifierView::Numeric(y)) => number_precedence(x, y),
        (IdentifierView::Numeric(_), IdentifierView::Text(_)) => Precedence::Lower,
        (IdentifierView::Text(_), IdentifierView::Numeric(_)) => Precedence::Higher,
        (IdentifierView::Text(x), IdentifierView::Text(y)) => text_precedence(x, y),
    }
}

/// Dictionary order over identifiers: the first difference decides, a proper prefix is lower.
pub open spec fn identifiers_precedence(
    a: Seq<IdentifierView>,
    b: Seq<IdentifierView>,
) -> Precedence
    decreases a.len(),
{
    if a.len() == 0 || b.len() == 0 {
        number_precedence(a.len(), b.len())
    } else if identifier_precedence(a[0], b[0]) == Precedence::Same {
        identifiers_precedence(a.drop_first(), b.drop_first())
    } else {
        identifier_precedence(a[0], b[0])
    }
}

/// No prerelease is higher than any; two prereleases compare by their identifiers.
pub open spec fn prerelease_precedence(
    a: Seq<IdentifierView>,
    b: Seq<IdentifierView>,
) -> Precedence {
    if a.len() == 0 && b.len() > 0 {
        Precedence::Higher
    } else if a.len() > 0 && b.len() == 0 {
        Precedence::Lower
    } else {
        identifiers_precedence(a, b)
    }
}

/// The three numbers in turn.
pub open spec fn core_precedence(a: (nat, nat, nat), b: (nat, nat, nat)) -> Precedence {
    if a.0 != b.0 {
        number_precedence(a.0, b.0)
    } else if a.1 != b.1 {
        number_precedence(a.1, b.1)
    } else {
        number_precedence(a.2, b.2)
    }
}

/// The numbers first, then the prerelease.
pub open spec fn version_precedence(a: VersionView, b: VersionView) -> Precedence {
    let core = core_precedence((a.major, a.minor, a.patch), (b.major, b.minor, b.patch));
    if core == Precedence::Same {
        prerelease_precedence(a.prerelease, b.prerelease)
    } else {
        core
    }
}

/// Whether both texts write versions and the first is the higher one.
pub open spec fn newer(remote: Seq<char>, current: Seq<char>) -> bool {
    match (version_of(remote), version_of(current)) {
        (Some(r), Some(c)) => version_precedence(r, c) == Precedence::Higher,
        _ => false,
    }
}

/// A precedence as the standard library writes it.
pub open spec fn ordering_of(p: Precedence) -> Ordering {
    match p {
        Precedence::Lower => Ordering::Less,
        Precedence::Same => Ordering::Equal,
        Precedence::Higher => Ordering::Greater,
    }
}

/// What a list of identifiers stands for.
pub open spec fn identifier_views(list: Seq<VersionIdentifier>) -> Seq<IdentifierView> {
    list.map_values(|i: VersionIdentifier| i@)
}

/// Takes the leading `v`s away.
pub fn without_v(s: &[char]) -> (rest: &[char])
    ensures
        rest@ == strip_v(s@),
{
    let mut i: usize = 0;
    assert(s@.skip(0) =~= s@);
    while i < s.len() && (s[i] == 'v' || s[i] == 'V')
        invariant
            i <= s@.len(),
            strip_v(s@) == strip_v(s@.skip(i as int)),
        decreases s@.len() - i,
    {
        assert(s@.skip(i as int).drop_first() =~= s@.skip(i + 1));
        i = i + 1;
    }
    assert(s@.skip(i as int) =~= s@.subrange(i as int, s@.len() as int));
    slice_subrange(s, i, s.len())
}

fn parse_core_number(parts: &Vec<&[char]>, i: usize) -> (n: Option<u32>)
    ensures
        match n {
            Some(v) => core_number(parts@.map_values(|p: &[char]| p@), i as int) == Some(v as nat),
            None => core_number(parts@.map_values(|p: &[char]| p@), i as int) is None,
        },
{
    if i < parts.len() {
        parse_u32(parts[i])
    } else {
        Some(0)
    }
}

fn parse_identifier(s: &[char]) -> (id: VersionIdentifier)
    ensures
        id@ == identifier(s@),
{
    match parse_u64(s) {
        Some(n) => VersionIdentifier::Numeric(n),
        None => VersionIdentifier::Text(to_lower(s)),
    }
}

fn parse_identifiers(s: &[char]) -> (ids: Vec<VersionIdentifier>)
    ensures
        identifier_views(ids@) == identifiers(s@),
{
    let mut ids: Vec<VersionIdentifier> = Vec::new();
    if s.len() == 0 {
        assert(identifier_views(ids@) =~= identifiers(s@));
        return ids;
    }
    let pieces = split_by(s, '.');
    let ghost texts = pieces@.map_values(|p: &[char]| p@);
    let mut i: usize = 0;
    while i < pieces.len()
        invariant
            texts == pieces@.map_values(|p: &[char]| p@),
            i <= pieces@.len(),
            ids@.len() == i,
            forall|j: int| 0 <= j < i ==> (#[trigger] ids@[j])@ == identifier(texts[j]),
        decreases pieces@.len() - i,
    {
        assert(texts[i as int] == pieces@[i as int]@);
        ids.push(parse_identifier(pieces[i]));
        i = i + 1;
    }
    assert(identifier_views(ids@) =~= identifiers(s@));
    ids
}

/// Reads a version: its three numbers and its prerelease.
pub fn parse_version(value: &str) -> (version: Option<((u32, u32, u32), Vec<VersionIdentifier>)>)
    ensures
        match version {
            Some((core, prerelease)) => version_of(value@) == Some(
                VersionView {
                    major: core.0 as nat,
                    minor: core.1 as nat,
                    patch: core.2 as nat,
                    prerelease: identifier_views(prerelease@),
                },
            ),
            None => version_of(value@) is None,
        },
{
    let chars = chars_of(value);
    let normalized = without_v(trimmed(chars.as_slice()));
    let text = match find_char(normalized, '+') {
        Some(i) => slice_subrange(normalized, 0, i),
        None => normalized,
    };
    assert(text@ =~= version_text(value@));
    let end: usize = text.len();
    let (core, rest) = match find_char(text, '-') {
        Some(i) => (slice_subrange(text, 0, i), slice_subrange(text, i + 1, end)),
        None => (text, slice_subrange(text, end, end)),
    };
    assert(core@ =~= before(text@, '-'));
    assert(rest@ =~= after(text@, '-'));
    let parts = split_by(core, '.');
    if parts.len() > 3 {
        assert(parts@.map_values(|p: &[char]| p@).len() == parts@.len());
        return None;
    }
    match (
        parse_core_number(&parts, 0),
        parse_core_number(&parts, 1),
        parse_core_number(&parts, 2),
    ) {
        (Some(major), Some(minor), Some(patch)) => Some(
            ((major, minor, patch), parse_identifiers(rest)),
        ),
        _ => None,
    }
}

/// Ranks two numbers.
pub fn rank_numbers(a: u64, b: u64) -> (p: Precedence)
    ensures
        p == number_precedence(a as nat, b as nat),
{
    if a < b {
        Precedence::Lower
    } else if a == b {
        Precedence::Same
    } else {
        Precedence::Higher
    }
}

/// Ranks two texts by dictionary order.
pub fn rank_texts(a: &str, b: &str) -> (p: Precedence)
    ensures
        p == text_precedence(a@, b@),
{
    let x = chars_of(a);
    let y = chars_of(b);
    let mut i: usize = 0;
    assert(x@.skip(0) =~= x@);
    assert(y@.skip(0) =~= y@);
    while i < x.len() && i < y.len()
        invariant
            x@ == a@,
            y@ == b@,
            i <= x@.len(),
            i <= y@.len(),
            text_precedence(a@, b@) == text_precedence(x@.skip(i as int), y@.skip(i as int)),
        decreases x@.len() - i,
    {
        if x[i] < y[i] {
            return Precedence::Lower;
        }
        if x[i] > y[i] {
            return Precedence::Higher;
        }
        assert(x@.skip(i as int).drop_first() =~= x@.skip(i + 1));
        assert(y@.skip(i as int).drop_first() =~= y@.skip(i + 1));
        i = i + 1;
    }
    rank_numbers((x.len() - i) as u64, (y.len() - i) as u64)
}

/// Ranks two prerelease pieces.
pub fn rank_identifiers(a: &VersionIdentifier, b: &VersionIdentifier) -> (p: Precedence)
    ensures
        p == identifier_precedence(a@, b@),
{
    match (a, b) {
        (VersionIdentifier::Numeric(x), VersionIdentifier::Numeric(y)) => rank_numbers(*x, *y),
        (VersionIdentifier::Numeric(_), VersionIdentifier::Text(_)) => Precedence::Lower,
        (VersionIdentifier::Text(_), VersionIdentifier::Numeric(_)) => Precedence::Higher,
        (VersionIdentifier::Text(x), VersionIdentifier::Text(y)) => rank_texts(
            x.as_str(),
            y.as_str(),
        ),
    }
}

/// Ranks two prereleases; having none ranks highest.
pub fn rank_prereleases(a: &[VersionIdentifier], b: &[VersionIdentifier]) -> (p: Precedence)
    ensures
        p == prerelease_precedence(identifier_views(a@), identifier_views(b@)),
{
    let ghost x = identifier_views(a@);
    let ghost y = identifier_views(b@);
    if a.len() == 0 && b.len() > 0 {
        return Precedence::Higher;
    }
    if a.len() > 0 && b.len() == 0 {
        return Precedence::Lower;
    }
    let mut i: usize = 0;
    assert(x.skip(0) =~= x);
    assert(y.skip(0) =~= y);
    while i < a.len() && i < b.len()
        invariant
            x == identifier_views(a@),
            y == identifier_views(b@),
            i <= a@.len(),
            i <= b@.len(),
            identifiers_precedence(x, y) == identifiers_precedence(
                x.skip(i as int),
                y.skip(i as int),
            ),
            prerelease_precedence(x, y) == identifiers_precedence(x, y),
        decreases a@.len() - i,
    {
        let p = rank_identifiers(&a[i], &b[i]);
        assert(x.skip(i as int)[0] == a@[i as int]@);
        assert(y.skip(i as int)[0] == b@[i as int]@);
        match p {
            Precedence::Same => {},
            _ => {
                return p;
            },
        }
        assert(x.skip(i as int).drop_first() =~= x.skip(i + 1));
        assert(y.skip(i as int).drop_first() =~= y.skip(i + 1));
        i = i + 1;
    }
    rank_numbers((a.len() - i) as u64, (b.len() - i) as u64)
}

fn rank_cores(a: (u32, u32, u32), b: (u32, u32, u32)) -> (p: Precedence)
    ensures
        p == core_precedence(
            (a.0 as nat, a.1 as nat, a.2 as nat),
            (b.0 as nat, b.1 as nat, b.2 as nat),
        ),
{
    if a.0 != b.0 {
        rank_numbers(a.0 as u64, b.0 as u64)
    } else if a.1 != b.1 {
        rank_numbers(a.1 as u64, b.1 as u64)
    } else {
        rank_numbers(a.2 as u64, b.2 as u64)
    }
}

/// Ranks the versions that two texts write; `None` if one of them writes none.
pub fn rank_versions(remote: &str, current: &str) -> (p: Option<Precedence>)
    ensures
        p == match (version_of(remote@), version_of(current@)) {
            (Some(r), Some(c)) => Some(version_precedence(r, c)),
            _ => None,
        },
{
    let (remote_core, remote_pre) = match parse_version(remote) {
        Some(version) => version,
        None => {
            return None;
        },
    };
    let (current_core, current_pre) = match parse_version(current) {
        Some(version) => version,
        None => {
            return None;
        },
    };
    match rank_cores(remote_core, current_core) {
        Precedence::Same => Some(rank_prereleases(remote_pre.as_slice(), current_pre.as_slice())),
        p => Some(p),
    }
}

/// A precedence as an [`Ordering`].
pub fn to_ordering(p: Precedence) -> (o: Ordering)
    ensures
        o == ordering_of(p),
{
    match p {
        Precedence::Lower => Ordering::Less,
        Precedence::Same => Ordering::Equal,
        Precedence::Higher => Ordering::Greater,
    }
}

/// Compares two prereleases.
pub fn compare_prerelease(
    remote: &[VersionIdentifier],
    current: &[VersionIdentifier],
) -> (o: Ordering)
    ensures
        o == ordering_of(
            prerelease_precedence(identifier_views(remote@), identifier_views(current@)),
        ),
{
    to_ordering(rank_prereleases(remote, current))
}

/// Compares the versions that two texts write; `None` if one of them writes none.
pub fn compare_versions(remote: &str, current: &str) -> (o: Option<Ordering>)
    ensures
        o == match (version_of(remote@), version_of(current@)) {
            (Some(r), Some(c)) => Some(ordering_of(version_precedence(r, c))),
            _ => None,
        },
{
    match rank_versions(remote, current) {
        Some(p) => Some(to_ordering(p)),
        None => None,
    }
}

/// Whether the remote version is higher than the current one. A text that writes no version is
/// never newer, and nothing is newer than it.
pub fn is_newer(remote: &str, current: &str) -> (yes: bool)
    ensures
        yes == newer(remote@, current@),
{
    match compare_versions(remote, current) {
        Some(Ordering::Greater) => true,
        _ => false,
    }
}

/// The precedence seen from the other side.
pub open spec fn opposite(p: Precedence) -> Precedence {
    match p {
        Precedence::Lower => Precedence::Higher,
        Precedence::Same => Precedence::Same,
        Precedence::Higher => Precedence::Lower,
    }
}

proof fn lemma_text_order(a: Seq<char>, b: Seq<char>, c: Seq<char>)
    ensures
        text_precedence(b, a) == opposite(text_precedence(a, b)),
        text_precedence(a, b) == Precedence::Same <==> a == b,
        text_precedence(a, b) == Precedence::Higher && text_precedence(b, c) == Precedence::Higher
            ==> text_precedence(a, c) == Precedence::Higher,
    decreases a.len() + b.len() + c.len(),
{
    if a.len() > 0 && b.len() > 0 && a[0] == b[0] {
        let a1 = a.drop_first();
        let b1 = b.drop_first();
        if c.len() > 0 {
            lemma_text_order(a1, b1, c.drop_first());
        } else {
            lemma_text_order(a1, b1, c);
        }
        if a1 == b1 {
            assert(a =~= seq![a[0]] + a1);
            assert(b =~= seq![b[0]] + b1);
        }
    } else if a.len() == 0 && b.len() == 0 {
        assert(a =~= b);
    }
}

proof fn lemma_identifier_order(a: IdentifierView, b: IdentifierView, c: IdentifierView)
    ensures
        identifier_precedence(b, a) == opposite(identifier_precedence(a, b)),
        identifier_precedence(a, b) == Precedence::Same <==> a == b,
        identifier_precedence(a, b) == Precedence::Higher && identifier_precedence(b, c)
            == Precedence::Higher ==> identifier_precedence(a, c) == Precedence::Higher,
{
    match (a, b) {
        (IdentifierView::Text(x), IdentifierView::Text(y)) => {
            match c {
                IdentifierView::Text(z) => {
                    lemma_text_order(x, y, z);
                },
                _ => {
                    lemma_text_order(x, y, y);
                },
            }
        },
        _ => {},
    }
}

proof fn lemma_identifiers_order(
    a: Seq<IdentifierView>,
    b: Seq<IdentifierView>,
    c: Seq<IdentifierView>,
)
    ensures
        identifiers_precedence(b, a) == opposite(identifiers_precedence(a, b)),
        identifiers_precedence(a, b) == Precedence::Same <==> a == b,
        identifiers_precedence(a, b) == Precedence::Higher && identifiers_precedence(b, c)
            == Precedence::Higher ==> identifiers_precedence(a, c) == Precedence::Higher,
    decreases a.len() + b.len() + c.len(),
{
    if a.len() > 0 && b.len() > 0 {
        let c0 = if c.len() > 0 {
            c[0]
        } else {
            b[0]
        };
        lemma_identifier_order(a[0], b[0], c0);
        lemma_identifier_order(b[0], c0, a[0]);
        if a[0] == b[0] {
            let a1 = a.drop_first();
            let b1 = b.drop_first();
            if c.len() > 0 {
                lemma_identifiers_order(a1, b1, c.drop_first());
            } else {
                lemma_identifiers_order(a1, b1, c);
            }
            if a1 == b1 {
                assert(a =~= seq![a[0]] + a1);
                assert(b =~= seq![b[0]] + b1);
            }
        }
    } else if a.len() == 0 && b.len() == 0 {
        assert(a =~= b);
    }
}

/// Precedence orders all versions: it is the same from both sides, it tells any two different
/// versions apart, and it is transitive.
pub proof fn law_precedence_is_an_order(a: VersionView, b: VersionView, c: VersionView)
    ensures
        version_precedence(b, a) == opposite(version_precedence(a, b)),
        version_precedence(a, b) == Precedence::Same <==> a == b,
        version_precedence(a, b) == Precedence::Higher && version_precedence(b, c)
            == Precedence::Higher ==> version_precedence(a, c) == Precedence::Higher,
{
    lemma_identifiers_order(a.prerelease, b.prerelease, c.prerelease);
}

/// No version is newer than itself, no two are newer than each other, and what is newer than a
/// newer version is newer.
pub proof fn law_newer_is_a_strict_order(a: Seq<char>, b: Seq<char>, c: Seq<char>)
    ensures
        !newer(a, a),
        !(newer(a, b) && newer(b, a)),
        newer(a, b) && newer(b, c) ==> newer(a, c),
{
    match (version_of(a), version_of(b)) {
        (Some(x), Some(y)) => {
            law_precedence_is_an_order(x, x, x);
            match version_of(c) {
                Some(z) => {
                    law_precedence_is_an_order(x, y, z);
                },
                None => {
                    law_precedence_is_an_order(x, y, y);
                },
            }
        },
        (Some(x), None) => {
            law_precedence_is_an_order(x, x, x);
        },
        _ => {},
    }
}

/// Of two texts that write versions, one is newer or both write the same version.
pub proof fn law_versions_are_comparable(a: Seq<char>, b: Seq<char>)
    requires
        version_of(a) is Some,
        version_of(b) is Some,
    ensures
        newer(a, b) || newer(b, a) || version_of(a) == version_of(b),
        version_of(a) == version_of(b) ==> !newer(a, b) && !newer(b, a),
{
    let x = version_of(a)->0;
    let y = version_of(b)->0;
    law_precedence_is_an_order(x, y, y);
    law_precedence_is_an_order(y, x, x);
}

/// A text that writes no version is not newer than anything, and nothing is newer than it.
pub proof fn law_unreadable_versions_are_never_newer(a: Seq<char>, b: Seq<char>)
    requires
        version_of(a) is None,
    ensures
        !newer(a, b),
        !newer(b, a),
{
}

/// A release is newer than every prerelease of the same numbers.
pub proof fn law_release_is_newer_than_its_prereleases(release: Seq<char>, prerelease: Seq<char>)
    requires
        version_of(release) is Some,
        version_of(prerelease) is Some,
        version_of(release)->0.major == version_of(prerelease)->0.major,
        version_of(release)->0.minor == version_of(prerelease)->0.minor,
        version_of(release)->0.patch == version_of(prerelease)->0.patch,
        version_of(release)->0.prerelease.len() == 0,
        version_of(prerelease)->0.prerelease.len() > 0,
    ensures
        newer(release, prerelease),
        !newer(prerelease, release),
{
}

/// Of two prereleases of the same numbers, one that goes on where the other ends is newer.
pub proof fn law_longer_prerelease_is_newer(a: VersionView, b: VersionView)
    requires
        a.major == b.major,
        a.minor == b.minor,
        a.patch == b.patch,
        0 < b.prerelease.len() < a.prerelease.len(),
        b.prerelease.is_prefix_of(a.prerelease),
    ensures
        version_precedence(a, b) == Precedence::Higher,
{
    lemma_prefix_is_lower(a.prerelease, b.prerelease);
}

proof fn lemma_prefix_is_lower(a: Seq<IdentifierView>, b: Seq<IdentifierView>)
    requires
        b.len() < a.len(),
        b.is_prefix_of(a),
    ensures
        identifiers_precedence(a, b) == Precedence::Higher,
    decreases b.len(),
{
    if b.len() > 0 {
        assert(b[0] == a[0]);
        lemma_identifier_order(a[0], b[0], b[0]);
        assert(b.drop_first() =~= a.drop_first().subrange(0, b.drop_first().len() as int));
        lemma_prefix_is_lower(a.drop_first(), b.drop_first());
    }
}

proof fn lemma_trim_start_of_trimmed(s: Seq<char>)
    ensures
        trim_start(s).len() > 0 ==> !whitespace(trim_start(s)[0]),
        trim_start(trim_start(s)) == trim_start(s),
        trim_start(s).len() <= s.len(),
    decreases s.len(),
{
    if s.len() > 0 && whitespace(s[0]) {
        lemma_trim_start_of_trimmed(s.drop_first());
    }
}

proof fn lemma_trim_end_of_trimmed(s: Seq<char>)
    ensures
        trim_end(s).len() > 0 ==> !whitespace(trim_end(s).last()),
        trim_end(trim_end(s)) == trim_end(s),
        trim_end(s).is_prefix_of(s),
    decreases s.len(),
{
    if s.len() > 0 && whitespace(s.last()) {
        lemma_trim_end_of_trimmed(s.drop_last());
        assert(trim_end(s) =~= s.subrange(0, trim_end(s).len() as int));
    } else {
        assert(s =~= s.subrange(0, s.len() as int));
    }
}

/// Whitespace around a version does not count.
pub proof fn law_surrounding_whitespace_does_not_count(s: Seq<char>)
    ensures
        version_of(trim(s)) == version_of(s),
{
    let front = trim_start(s);
    let t = trim(s);
    lemma_trim_start_of_trimmed(s);
    lemma_trim_end_of_trimmed(front);
    if t.len() > 0 {
        assert(t[0] == front[0]);
    }
    assert(trim(t) == t);
}

proof fn lemma_trim_start_append(s: Seq<char>, t: Seq<char>)
    requires
        !blank(s),
    ensures
        trim_start(s + t) == trim_start(s) + t,
        trim_start(s).len() > 0,
        trim_start(s).last() == s.last(),
    decreases s.len(),
{
    if whitespace(s[0]) {
        assert((s + t).drop_first() =~= s.drop_first() + t);
        let k = choose|k: int| 0 <= k < s.len() && !whitespace(s[k]);
        assert(!whitespace(s.drop_first()[k - 1]));
        lemma_trim_start_append(s.drop_first(), t);
    }
}

/// A leading `v` does not count, in either case. (Whitespace right behind it does.)
pub proof fn law_leading_v_does_not_count(s: Seq<char>, v: char)
    requires
        v == 'v' || v == 'V',
        s.len() > 0 ==> !whitespace(s[0]),
    ensures
        version_of(seq![v] + s) == version_of(s),
{
    let t = seq![v] + s;
    assert(trim_start(t) == t);
    assert(trim_start(s) == s);
    lemma_trim_end_prepend(v, s);
    assert(trim(t) == seq![v] + trim(s));
    assert(trim(t).drop_first() =~= trim(s));
}

proof fn lemma_trim_end_prepend(v: char, s: Seq<char>)
    requires
        !whitespace(v),
    ensures
        trim_end(seq![v] + s) == seq![v] + trim_end(s),
    decreases s.len(),
{
    let t = seq![v] + s;
    if s.len() > 0 {
        assert(t.last() == s.last());
        if whitespace(s.last()) {
            assert(t.drop_last() =~= seq![v] + s.drop_last());
            lemma_trim_end_prepend(v, s.drop_last());
        }
    } else {
        assert(t =~= seq![v]);
        assert(t.last() == v);
        assert(trim_end(t) == t);
    }
}

proof fn lemma_trim_end_append(front: Seq<char>, c: char, m: Seq<char>)
    requires
        !whitespace(c),
    ensures
        trim_end(front.push(c) + m) == front.push(c) + trim_end(m),
    decreases m.len(),
{
    let t = front.push(c) + m;
    if m.len() > 0 {
        assert(t.last() == m.last());
        if whitespace(m.last()) {
            assert(t.drop_last() =~= front.push(c) + m.drop_last());
            lemma_trim_end_append(front, c, m.drop_last());
        }
    } else {
        assert(t =~= front.push(c));
        assert(t.last() == c);
        assert(trim_end(t) == t);
    }
}

proof fn lemma_strip_v_append(s: Seq<char>, c: char, m: Seq<char>)
    requires
        c != 'v',
        c != 'V',
    ensures
        strip_v(s.push(c) + m) == strip_v(s).push(c) + m,
    decreases s.len(),
{
    let t = s.push(c) + m;
    if s.len() > 0 {
        assert(t[0] == s[0]);
        assert(t.drop_first() =~= s.drop_first().push(c) + m);
        if s[0] == 'v' || s[0] == 'V' {
            lemma_strip_v_append(s.drop_first(), c, m);
        }
    } else {
        assert(t[0] == c);
    }
}

proof fn lemma_before_append(s: Seq<char>, c: char, m: Seq<char>)
    ensures
        before(s.push(c) + m, c) == before(s, c),
{
    let t = s.push(c) + m;
    let n = first_index(s, c) as int;
    lemma_first_index(s, c);
    assert forall|i: int| 0 <= i < n implies t[i] != c by {
        assert(t[i] == s[i]);
    }
    lemma_first_index_unique(t, c, n);
    assert(before(t, c) =~= before(s, c));
}

/// A build part behind a version does not count. (Whitespace between the two does.)
pub proof fn law_build_part_does_not_count(s: Seq<char>, build: Seq<char>)
    requires
        s.len() > 0 ==> !whitespace(s.last()),
    ensures
        version_of(s.push('+') + build) == version_of(s),
{
    let t = s.push('+') + build;
    let rest = seq!['+'] + build;
    assert(t =~= s + rest);
    if s.len() > 0 {
        assert(!whitespace(s[s.len() - 1]));
        lemma_trim_start_append(s, rest);
    } else {
        assert(t =~= rest);
        assert(trim_start(rest) == rest);
        assert(trim_start(s) == s);
    }
    let a = trim_start(s);
    assert(trim_start(t) =~= a.push('+') + build);
    lemma_trim_end_append(a, '+', build);
    assert(trim_end(a) == a);
    lemma_strip_v_append(a, '+', trim_end(build));
    lemma_before_append(strip_v(a), '+', trim_end(build));
    assert(version_text(t) == version_text(s));
}

proof fn lemma_before_keeps_first(s: Seq<char>, c: char)
    requires
        s.len() > 0,
        s[0] != c,
    ensures
        before(s, c).len() > 0,
        before(s, c)[0] == s[0],
{
    lemma_first_index(s, c);
}

proof fn lemma_no_version_behind_whitespace(text: Seq<char>)
    requires
        text.len() == 0 || whitespace(text[0]),
    ensures
        core_number(split(before(before(text, '+'), '-'), '.'), 0) is None,
{
    if text.len() == 0 {
        assert(before(text, '+') =~= text);
        assert(before(text, '-') =~= text);
        assert(split(text, '.')[0] == text);
    } else {
        let a = before(text, '+');
        lemma_before_keeps_first(text, '+');
        let b = before(a, '-');
        lemma_before_keeps_first(a, '-');
        lemma_before_keeps_first(b, '.');
        lemma_first_index(b, '.');
        let first = split(b, '.')[0];
        assert(first.len() > 0 && whitespace(first[0]));
    }
}

/// A tag that writes a version writes the same one without its leading `v`s.
pub proof fn law_version_survives_without_v(tag: Seq<char>)
    requires
        version_of(tag) is Some,
    ensures
        version_of(strip_v(tag)) == version_of(tag),
    decreases tag.len(),
{
    if tag.len() > 0 && (tag[0] == 'v' || tag[0] == 'V') {
        let s = tag.drop_first();
        assert(tag =~= seq![tag[0]] + s);
        if s.len() == 0 || !whitespace(s[0]) {
            law_leading_v_does_not_count(s, tag[0]);
            law_version_survives_without_v(s);
        } else {
            lemma_trim_end_prepend(tag[0], s);
            assert(trim_start(tag) == tag);
            let rest = trim_end(s);
            lemma_trim_end_of_trimmed(s);
            assert(trim(tag).drop_first() =~= rest);
            if rest.len() > 0 {
                assert(rest[0] == s[0]);
            }
            assert(strip_v(rest) == rest);
            assert(trim(tag)[0] == tag[0]);
            assert(strip_v(trim(tag)) == rest);
            lemma_no_version_behind_whitespace(rest);
        }
    }
}

/// Precedence of numbers is by size.
pub proof fn law_larger_number_is_higher(a: nat, b: nat)
    ensures
        number_precedence(a, b) == Precedence::Higher <==> a > b,
        number_precedence(a, b) == Precedence::Same <==> a == b,
        number_precedence(a, b) == Precedence::Lower <==> a < b,
{
}

/// Of two texts the one with the higher code point where they first part is higher; so is one
/// that goes on where the other ends.
pub proof fn law_first_differing_character_decides(x: Seq<char>, y: Seq<char>, p: int)
    requires
        0 <= p < x.len(),
        p <= y.len(),
        forall|q: int| 0 <= q < p ==> #[trigger] x[q] == y[q],
        p < y.len() ==> x[p] as int > y[p] as int,
    ensures
        text_precedence(x, y) == Precedence::Higher,
        text_precedence(y, x) == Precedence::Lower,
        text_precedence(x, x) == Precedence::Same,
    decreases p,
{
    lemma_text_order(x, y, x);
    lemma_text_order(x, x, x);
    if p > 0 {
        assert(x[0] == y[0]);
        let x1 = x.drop_first();
        let y1 = y.drop_first();
        assert forall|q: int| 0 <= q < p - 1 implies #[trigger] x1[q] == y1[q] by {
            assert(x[q + 1] == y[q + 1]);
        }
        law_first_differing_character_decides(x1, y1, p - 1);
    }
}

/// Of two prerelease pieces a larger number is higher, any text is higher than any number, and
/// texts compare by the dictionary. Equal pieces are the same.
pub proof fn law_identifiers_by_number_and_dictionary(
    m: nat,
    n: nat,
    x: Seq<char>,
    y: Seq<char>,
    p: int,
)
    requires
        m > n,
        0 <= p < x.len(),
        p <= y.len(),
        forall|q: int| 0 <= q < p ==> #[trigger] x[q] == y[q],
        p < y.len() ==> x[p] as int > y[p] as int,
    ensures
        identifier_precedence(IdentifierView::Numeric(m), IdentifierView::Numeric(n))
            == Precedence::Higher,
        identifier_precedence(IdentifierView::Numeric(n), IdentifierView::Numeric(m))
            == Precedence::Lower,
        identifier_precedence(IdentifierView::Numeric(n), IdentifierView::Numeric(n))
            == Precedence::Same,
        identifier_precedence(IdentifierView::Text(y), IdentifierView::Numeric(m))
            == Precedence::Higher,
        identifier_precedence(IdentifierView::Numeric(m), IdentifierView::Text(y))
            == Precedence::Lower,
        identifier_precedence(IdentifierView::Text(x), IdentifierView::Text(y))
            == Precedence::Higher,
        identifier_precedence(IdentifierView::Text(y), IdentifierView::Text(x))
            == Precedence::Lower,
        identifier_precedence(IdentifierView::Text(x), IdentifierView::Text(x)) == Precedence::Same,
{
    law_first_differing_character_decides(x, y, p);
}

/// Of two prereleases the first piece at which they differ decides: there the higher one has the
/// larger number, or a text where the other has a number, or the text that stands later in the
/// dictionary.
pub proof fn law_first_differing_identifier_decides(
    a: Seq<IdentifierView>,
    b: Seq<IdentifierView>,
    k: int,
    p: int,
)
    requires
        0 <= k < a.len(),
        k < b.len(),
        forall|j: int| 0 <= j < k ==> #[trigger] a[j] == b[j],
        match (a[k], b[k]) {
            (IdentifierView::Numeric(m), IdentifierView::Numeric(n)) => m > n,
            (IdentifierView::Text(_), IdentifierView::Numeric(_)) => true,
            (IdentifierView::Numeric(_), IdentifierView::Text(_)) => false,
            (IdentifierView::Text(x), IdentifierView::Text(y)) => 0 <= p < x.len() && p <= y.len()
                && (forall|q: int| 0 <= q < p ==> #[trigger] x[q] == y[q]) && (p < y.len()
                ==> x[p] as int > y[p] as int),
        },
    ensures
        prerelease_precedence(a, b) == Precedence::Higher,
        prerelease_precedence(b, a) == Precedence::Lower,
        identifiers_precedence(a, b) == Precedence::Higher,
    decreases k,
{
    lemma_identifiers_order(a, b, a);
    if k == 0 {
        match (a[0], b[0]) {
            (IdentifierView::Text(x), IdentifierView::Text(y)) => {
                law_first_differing_character_decides(x, y, p);
            },
            _ => {},
        }
    } else {
        assert(a[0] == b[0]);
        lemma_identifier_order(a[0], b[0], a[0]);
        let a1 = a.drop_first();
        let b1 = b.drop_first();
        assert forall|j: int| 0 <= j < k - 1 implies #[trigger] a1[j] == b1[j] by {
            assert(a[j + 1] == b[j + 1]);
        }
        law_first_differing_identifier_decides(a1, b1, k - 1, p);
    }
}

/// No prerelease is higher than any, a prerelease that goes on where the other ends is higher,
/// and a prerelease is the same as itself.
pub proof fn law_prerelease_ends_decide(a: Seq<IdentifierView>, rest: Seq<IdentifierView>)
    requires
        rest.len() > 0,
    ensures
        prerelease_precedence(Seq::empty(), rest) == Precedence::Higher,
        prerelease_precedence(rest, Seq::empty()) == Precedence::Lower,
        prerelease_precedence(a, a) == Precedence::Same,
        a.len() > 0 ==> prerelease_precedence(a + rest, a) == Precedence::Higher,
        a.len() > 0 ==> prerelease_precedence(a, a + rest) == Precedence::Lower,
{
    lemma_identifiers_order(a, a, a);
    assert(a =~= (a + rest).subrange(0, a.len() as int));
    lemma_prefix_is_lower(a + rest, a);
    lemma_identifiers_order(a + rest, a, a);
}

/// Precedence follows the numbers: a larger major number is higher whatever else differs, then a
/// larger minor number, then a larger patch number. Where all three agree the prereleases decide.
pub proof fn law_precedence_follows_the_numbers(a: VersionView, b: VersionView)
    ensures
        a.major > b.major ==> version_precedence(a, b) == Precedence::Higher,
        a.major < b.major ==> version_precedence(a, b) == Precedence::Lower,
        a.major == b.major && a.minor > b.minor ==> version_precedence(a, b) == Precedence::Higher,
        a.major == b.major && a.minor < b.minor ==> version_precedence(a, b) == Precedence::Lower,
        a.major == b.major && a.minor == b.minor && a.patch > b.patch ==> version_precedence(a, b)
            == Precedence::Higher,
        a.major == b.major && a.minor == b.minor && a.patch < b.patch ==> version_precedence(a, b)
            == Precedence::Lower,
        a.major == b.major && a.minor == b.minor && a.patch == b.patch ==> version_precedence(a, b)
            == prerelease_precedence(a.prerelease, b.prerelease),
{
}

/// A remote version is newer exactly where it stands higher than the current one; so wherever its
/// numbers are larger, in their order, it is newer and the current one is not.
pub proof fn law_larger_numbers_are_newer(
    remote: Seq<char>,
    current: Seq<char>,
    r: VersionView,
    c: VersionView,
)
    requires
        version_of(remote) == Some(r),
        version_of(current) == Some(c),
    ensures
        newer(remote, current) <==> version_precedence(r, c) == Precedence::Higher,
        r.major > c.major || (r.major == c.major && r.minor > c.minor) || (r.major == c.major
            && r.minor == c.minor && r.patch > c.patch) ==> newer(remote, current) && !newer(
            current,
            remote,
        ),
{
    law_precedence_follows_the_numbers(r, c);
    law_precedence_follows_the_numbers(c, r);
}

/// Orderings name precedences: lower is less, the same is equal, higher is greater.
pub proof fn law_ordering_names_the_precedence()
    ensures
        ordering_of(Precedence::Lower) == Ordering::Less,
        ordering_of(Precedence::Same) == Ordering::Equal,
        ordering_of(Precedence::Higher) == Ordering::Greater,
{
}

/// Identifiers stand for their numbers and texts, one for one.
pub proof fn law_identifiers_stand_for_their_contents(list: Seq<VersionIdentifier>, i: int)
    requires
        0 <= i < list.len(),
    ensures
        identifier_views(list).len() == list.len(),
        list[i] matches VersionIdentifier::Numeric(n) ==> identifier_views(list)[i]
            == IdentifierView::Numeric(n as nat),
        list[i] matches VersionIdentifier::Text(t) ==> identifier_views(list)[i]
            == IdentifierView::Text(t@),
{
}

/// Stripping takes away all the `v`s at the front, small or capital, and nothing else.
pub proof fn law_strip_v_takes_the_leading_vs(vs: Seq<char>, s: Seq<char>)
    requires
        forall|i: int| 0 <= i < vs.len() ==> #[trigger] vs[i] == 'v' || vs[i] == 'V',
        s.len() > 0 ==> s[0] != 'v' && s[0] != 'V',
    ensures
        strip_v(vs + s) == s,
    decreases vs.len(),
{
    if vs.len() > 0 {
        let rest = vs.drop_first();
        assert((vs + s)[0] == vs[0]);
        assert((vs + s).drop_first() =~= rest + s);
        assert forall|i: int| 0 <= i < rest.len() implies #[trigger] rest[i] == 'v' || rest[i]
            == 'V' by {
            assert(rest[i] == vs[i + 1]);
        }
        law_strip_v_takes_the_leading_vs(rest, s);
    } else {
        assert(vs + s =~= s);
    }
}

/// A piece of digits that fits in 64 bits is a number; a piece that holds anything else, or
/// nothing, or does not fit, is its text in lower case. (A plus sign cannot stand in a
/// prerelease: the build part begins there.)
pub proof fn law_identifier_is_a_number_or_a_text(s: Seq<char>)
    requires
        forall|i: int| 0 <= i < s.len() ==> s[i] != '+',
    ensures
        s.len() > 0 && (forall|i: int| 0 <= i < s.len() ==> 48 <= #[trigger] s[i] as int <= 57)
            && digits_value(s) <= 0xffff_ffff_ffff_ffff ==> identifier(s)
            == IdentifierView::Numeric(digits_value(s)),
        !(s.len() > 0 && (forall|i: int| 0 <= i < s.len() ==> 48 <= #[trigger] s[i] as int <= 57)
            && digits_value(s) <= 0xffff_ffff_ffff_ffff) ==> identifier(s) == IdentifierView::Text(
            lower(s),
        ),
{
    if s.len() == 0 {
        law_other_texts_write_no_number(s, 0, u64::MAX as nat);
    } else if forall|i: int| 0 <= i < s.len() ==> 48 <= #[trigger] s[i] as int <= 57 {
        law_digits_write_a_number(s, u64::MAX as nat);
    } else {
        let i = choose|i: int| 0 <= i < s.len() && !(48 <= #[trigger] s[i] as int <= 57);
        law_other_texts_write_no_number(s, i, u64::MAX as nat);
    }
}

/// A piece is the number that it writes in 64 bits, a plus sign before it aside, and else its text
/// in lower case.
pub proof fn law_identifier_is_what_it_writes(s: Seq<char>)
    ensures
        number(s, 0xffff_ffff_ffff_ffff) matches Some(n) ==> identifier(s)
            == IdentifierView::Numeric(n),
        number(s, 0xffff_ffff_ffff_ffff) is None ==> identifier(s) == IdentifierView::Text(
            lower(s),
        ),
{
}

/// The pieces of a prerelease stand between its dots, in their order, none left out. An empty
/// prerelease has none.
pub proof fn law_identifiers_stand_between_dots(piece: Seq<char>, rest: Seq<char>)
    requires
        forall|i: int| 0 <= i < piece.len() ==> piece[i] != '.',
    ensures
        identifiers(Seq::empty()).len() == 0,
        piece.len() > 0 ==> identifiers(piece) == seq![identifier(piece)],
        rest.len() > 0 ==> identifiers(piece.push('.') + rest) == seq![identifier(piece)]
            + identifiers(rest),
        identifiers(piece.push('.')) == seq![identifier(piece), identifier(Seq::empty())],
{
    law_separator_parts_a_text(piece, '.', rest);
    law_separator_parts_a_text(piece, '.', Seq::empty());
    law_separator_parts_a_text(Seq::empty(), '.', Seq::empty());
    let f = |p: Seq<char>| identifier(p);
    assert(piece.push('.') + Seq::<char>::empty() =~= piece.push('.'));
    if piece.len() > 0 {
        assert(identifiers(piece) =~= seq![identifier(piece)]);
    }
    if rest.len() > 0 {
        assert(identifiers(piece.push('.') + rest) =~= seq![identifier(piece)] + identifiers(rest));
    }
    assert(identifiers(piece.push('.')) =~= seq![identifier(piece), identifier(Seq::empty())]);
}

/// The text that counts stands behind the whitespace and the `v`s at the front, and ends before
/// the first plus sign or, where there is none, before the whitespace at the end. Whitespace
/// elsewhere counts.
pub proof fn law_text_that_counts(
    lead: Seq<char>,
    vs: Seq<char>,
    body: Seq<char>,
    build: Seq<char>,
    tail: Seq<char>,
)
    requires
        blank(lead),
        blank(tail),
        forall|i: int| 0 <= i < vs.len() ==> #[trigger] vs[i] == 'v' || vs[i] == 'V',
        body.len() > 0 ==> body[0] != 'v' && body[0] != 'V',
        forall|i: int| 0 <= i < body.len() ==> body[i] != '+',
        vs.len() == 0 && body.len() > 0 ==> !whitespace(body[0]),
    ensures
        body.len() > 0 ==> !whitespace(body.last()) ==> version_text(lead + (vs + body) + tail)
            == body,
        body.len() == 0 ==> version_text(lead + (vs + body) + tail) == body,
        build.len() > 0 ==> !whitespace(build.last()) ==> version_text(
            lead + (vs + (body.push('+') + build)) + tail,
        ) == body,
        build.len() == 0 ==> version_text(lead + (vs + (body.push('+') + build)) + tail) == body,
{
    law_separator_parts_a_text(body, '+', build);
    law_strip_v_takes_the_leading_vs(vs, body);
    let t = vs + body;
    if t.len() == 0 {
        assert(t =~= Seq::<char>::empty());
        law_trim_takes_the_whitespace_around(lead, t, tail);
    } else if body.len() == 0 || !whitespace(body.last()) {
        assert(t[0] == if vs.len() > 0 { vs[0] } else { body[0] });
        assert(t.last() == if body.len() > 0 { body.last() } else { vs[vs.len() - 1] });
        law_trim_takes_the_whitespace_around(lead, t, tail);
    }
    let longer = body.push('+') + build;
    let u = vs + longer;
    assert(longer[0] == if body.len() > 0 { body[0] } else { '+' });
    law_strip_v_takes_the_leading_vs(vs, longer);
    if build.len() == 0 || !whitespace(build.last()) {
        assert(u[0] == if vs.len() > 0 { vs[0] } else { longer[0] });
        assert(u.last() == if build.len() > 0 { build.last() } else { '+' });
        law_trim_takes_the_whitespace_around(lead, u, tail);
    }
}

proof fn lemma_plain_version_text(s: Seq<char>)
    requires
        forall|i: int| 0 <= i < s.len() ==> s[i] != '+',
        s.len() > 0 ==> !whitespace(s[0]) && !whitespace(s.last()) && s[0] != 'v' && s[0] != 'V',
    ensures
        version_text(s) == s,
{
    assert(trim_start(s) == s);
    assert(trim_end(s) == s);
    law_separator_parts_a_text(s, '+', Seq::empty());
}

/// A version of one to three numbers has these numbers, and zero for those that it leaves out. It
/// is no version where one of them is no number of 32 bits, and none where more follow.
pub proof fn law_version_has_its_numbers(
    s: Seq<char>,
    a: Seq<char>,
    b: Seq<char>,
    c: Seq<char>,
    rest: Seq<char>,
)
    requires
        forall|i: int| 0 <= i < a.len() ==> a[i] != '.' && a[i] != '-',
        forall|i: int| 0 <= i < b.len() ==> b[i] != '.' && b[i] != '-',
        forall|i: int| 0 <= i < c.len() ==> c[i] != '.' && c[i] != '-',
        forall|i: int| 0 <= i < rest.len() ==> rest[i] != '-',
    ensures
        version_text(s) == a ==> version_of(s) == match number(a, 0xffff_ffff) {
            Some(x) => Some(
                VersionView { major: x, minor: 0, patch: 0, prerelease: Seq::empty() },
            ),
            None => None,
        },
        version_text(s) == a.push('.') + b ==> version_of(s) == match (
            number(a, 0xffff_ffff),
            number(b, 0xffff_ffff),
        ) {
            (Some(x), Some(y)) => Some(
                VersionView { major: x, minor: y, patch: 0, prerelease: Seq::empty() },
            ),
            _ => None,
        },
        version_text(s) == a.push('.') + (b.push('.') + c) ==> version_of(s) == match (
            number(a, 0xffff_ffff),
            number(b, 0xffff_ffff),
            number(c, 0xffff_ffff),
        ) {
            (Some(x), Some(y), Some(z)) => Some(
                VersionView { major: x, minor: y, patch: z, prerelease: Seq::empty() },
            ),
            _ => None,
        },
        version_text(s) == a.push('.') + (b.push('.') + (c.push('.') + rest)) ==> version_of(
            s,
        ) is None,
{
    if version_text(s) == a {
        lemma_one_number(s, a);
    }
    if version_text(s) == a.push('.') + b {
        lemma_two_numbers(s, a, b);
    }
    if version_text(s) == a.push('.') + (b.push('.') + c) {
        lemma_three_numbers(s, a, b, c);
    }
    if version_text(s) == a.push('.') + (b.push('.') + (c.push('.') + rest)) {
        lemma_four_numbers(s, a, b, c, rest);
    }
}

/// A text between dots that names a number of a version.
spec fn core_piece(s: Seq<char>) -> bool {
    forall|i: int| 0 <= i < s.len() ==> s[i] != '.' && s[i] != '-'
}

/// What may follow a dot in a version without a prerelease.
spec fn core_tail(s: Seq<char>) -> bool {
    forall|i: int| 0 <= i < s.len() ==> s[i] != '-'
}

proof fn lemma_one_number(s: Seq<char>, a: Seq<char>)
    requires
        version_text(s) == a,
        core_piece(a),
    ensures
        version_of(s) == match number(a, 0xffff_ffff) {
            Some(x) => Some(
                VersionView { major: x, minor: 0, patch: 0, prerelease: Seq::empty() },
            ),
            None => None,
        },
{
    law_separator_parts_a_text(a, '-', Seq::empty());
    law_separator_parts_a_text(a, '.', Seq::empty());
    let parts = split(a, '.');
    assert(parts.len() == 1 && parts[0] == a);
}

proof fn lemma_two_numbers(s: Seq<char>, a: Seq<char>, b: Seq<char>)
    requires
        version_text(s) == a.push('.') + b,
        core_piece(a),
        core_piece(b),
    ensures
        version_of(s) == match (number(a, 0xffff_ffff), number(b, 0xffff_ffff)) {
            (Some(x), Some(y)) => Some(
                VersionView { major: x, minor: y, patch: 0, prerelease: Seq::empty() },
            ),
            _ => None,
        },
{
    lemma_dotted(s, a, b);
    assert(split(b, '.') == seq![b]) by {
        law_separator_parts_a_text(b, '.', Seq::empty());
    }
    let parts = split(a.push('.') + b, '.');
    assert(parts.len() == 2 && parts[0] == a && parts[1] == b);
}

proof fn lemma_three_numbers(s: Seq<char>, a: Seq<char>, b: Seq<char>, c: Seq<char>)
    requires
        version_text(s) == a.push('.') + (b.push('.') + c),
        core_piece(a),
        core_piece(b),
        core_piece(c),
    ensures
        version_of(s) == match (
            number(a, 0xffff_ffff),
            number(b, 0xffff_ffff),
            number(c, 0xffff_ffff),
        ) {
            (Some(x), Some(y), Some(z)) => Some(
                VersionView { major: x, minor: y, patch: z, prerelease: Seq::empty() },
            ),
            _ => None,
        },
{
    lemma_tail(b, c);
    lemma_dotted(s, a, b.push('.') + c);
    assert(split(c, '.') == seq![c]) by {
        law_separator_parts_a_text(c, '.', Seq::empty());
    }
    let parts = split(a.push('.') + (b.push('.') + c), '.');
    assert(parts.len() == 3 && parts[0] == a && parts[1] == b && parts[2] == c);
}

proof fn lemma_four_numbers(
    s: Seq<char>,
    a: Seq<char>,
    b: Seq<char>,
    c: Seq<char>,
    rest: Seq<char>,
)
    requires
        version_text(s) == a.push('.') + (b.push('.') + (c.push('.') + rest)),
        core_piece(a),
        core_piece(b),
        core_piece(c),
        core_tail(rest),
    ensures
        version_of(s) is None,
{
    lemma_tail(c, rest);
    lemma_tail(b, c.push('.') + rest);
    lemma_dotted(s, a, b.push('.') + (c.push('.') + rest));
    assert(split(rest, '.').len() >= 1);
}

proof fn lemma_tail(b: Seq<char>, t: Seq<char>)
    requires
        core_piece(b),
        core_tail(t),
    ensures
        core_tail(b.push('.') + t),
        split(b.push('.') + t, '.') == seq![b] + split(t, '.'),
{
    law_separator_parts_a_text(b, '.', t);
    let s = b.push('.') + t;
    assert forall|i: int| 0 <= i < s.len() implies s[i] != '-' by {
        if i < b.len() {
            assert(s[i] == b[i]);
        } else if i > b.len() {
            assert(s[i] == t[i - b.len() - 1]);
        }
    }
}

proof fn lemma_dotted(s: Seq<char>, a: Seq<char>, t: Seq<char>)
    requires
        version_text(s) == a.push('.') + t,
        core_piece(a),
        core_tail(t),
    ensures
        split(a.push('.') + t, '.') == seq![a] + split(t, '.'),
        before(a.push('.') + t, '-') == a.push('.') + t,
        after(a.push('.') + t, '-').len() == 0,
{
    lemma_tail(a, t);
    law_separator_parts_a_text(a.push('.') + t, '-', Seq::empty());
}

/// What follows the first hyphen is the prerelease, and changes nothing of the numbers.
pub proof fn law_prerelease_follows_the_hyphen(
    s: Seq<char>,
    plain: Seq<char>,
    core: Seq<char>,
    pre: Seq<char>,
)
    requires
        forall|i: int| 0 <= i < core.len() ==> core[i] != '-',
        version_text(s) == core.push('-') + pre,
        version_text(plain) == core,
    ensures
        version_of(s) == match version_of(plain) {
            Some(v) => Some(VersionView { prerelease: identifiers(pre), ..v }),
            None => None,
        },
        version_of(plain) matches Some(v) ==> v.prerelease.len() == 0,
{
    law_separator_parts_a_text(core, '-', pre);
}

/// Three numbers written out with dots are newer than three others exactly where they are larger,
/// the major number first, the patch number last.
pub proof fn law_written_numbers_are_newer_by_size(
    a: (nat, nat, nat),
    b: (nat, nat, nat),
)
    requires
        a.0 <= 0xffff_ffff && a.1 <= 0xffff_ffff && a.2 <= 0xffff_ffff,
        b.0 <= 0xffff_ffff && b.1 <= 0xffff_ffff && b.2 <= 0xffff_ffff,
    ensures
        newer(
            decimal(a.0).push('.') + (decimal(a.1).push('.') + decimal(a.2)),
            decimal(b.0).push('.') + (decimal(b.1).push('.') + decimal(b.2)),
        ) <==> a.0 > b.0 || (a.0 == b.0 && a.1 > b.1) || (a.0 == b.0 && a.1 == b.1 && a.2 > b.2),
{
    lemma_written_version(a.0, a.1, a.2);
    lemma_written_version(b.0, b.1, b.2);
}

proof fn lemma_written_version(x: nat, y: nat, z: nat)
    requires
        x <= 0xffff_ffff,
        y <= 0xffff_ffff,
        z <= 0xffff_ffff,
    ensures
        version_of(decimal(x).push('.') + (decimal(y).push('.') + decimal(z))) == Some(
            VersionView { major: x, minor: y, patch: z, prerelease: Seq::empty() },
        ),
{
    law_decimal_is_read_back(x);
    law_decimal_is_read_back(y);
    law_decimal_is_read_back(z);
    law_digits_write_a_number(decimal(x), 0xffff_ffff);
    law_digits_write_a_number(decimal(y), 0xffff_ffff);
    law_digits_write_a_number(decimal(z), 0xffff_ffff);
    assert(48 <= decimal(x)[0] as int <= 57);
    assert(48 <= decimal(x).last() as int <= 57);
    assert(48 <= decimal(y).last() as int <= 57);
    assert(48 <= decimal(z).last() as int <= 57);
    let s = decimal(x).push('.') + (decimal(y).push('.') + decimal(z));
    assert(s[0] == decimal(x)[0]);
    assert(s.last() == decimal(z).last());
    lemma_plain_version_text(s);
    law_version_has_its_numbers(s, decimal(x), decimal(y), decimal(z), Seq::empty());
}

} // verus!
