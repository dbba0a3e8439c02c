//! SHA-256 checksums: reading, computing, comparing.
use crate::text::{
    blank, chars_of, eq_ignore_ascii_case, is_whitespace, law_trim_takes_the_whitespace_around,
    lemma_trim_end_blank, lemma_trim_start_blank, lower, result_text, same_ignoring_case, to_lower, trim, trim_start,
    trimmed, trimmed_start, whitespace, without_prefix,
};
use sha2::{Digest, Sha256};
use vstd::prelude::*;
use vstd::slice::slice_subrange;
use vstd::utf8::{decode_utf8, encode_utf8, valid_utf8};

verus! {

/// The SHA-256 digest of a message.
pub uninterp spec fn sha256(message: Seq<u8>) -> Seq<u8>;

/// The number of bytes that a message must stay below for SHA-256, which counts bits in 64 bits.
pub const DIGEST_LIMIT: u64 = 0x2000_0000_0000_0000;

/// Whether a message is short enough for SHA-256.
pub open spec fn digestible(message: Seq<u8>) -> bool {
    message.len() < DIGEST_LIMIT
}

/// Computes a digest.
///
/// Trusted: `Sha256::digest` of the crate `sha2` gives 32 bytes that depend on the message alone.
/// Its bit counter takes messages of less than 2^61 bytes.
#[verifier::external_body]
fn sha256_digest(message: &[u8]) -> (digest: Vec<u8>)
    requires
        digestible(message@),
    ensures
        digest@ == sha256(message@),
        digest@.len() == 32,
{
    Sha256::digest(message).to_vec()
}

/// Reads bytes as text.
///
/// Trusted: `std::str::from_utf8` takes exactly the valid UTF-8 sequences, and gives the
/// characters that they encode.
#[verifier::external_body]
fn utf8_text(bytes: &[u8]) -> (text: Option<&str>)
    ensures
        match text {
            Some(t) => valid_utf8(bytes@) && t@ == decode_utf8(bytes@),
            None => !valid_utf8(bytes@),
        },
{
    std::str::from_utf8(bytes).ok()
}

/// A hexadecimal digit, small or capital.
pub open spec fn hex_char(c: char) -> bool {
    ||| '0' <= c <= '9'
    ||| 'a' <= c <= 'f'
    ||| 'A' <= c <= 'F'
}

/// Whether the text reads as a SHA-256 digest: 64 hexadecimal digits.
pub open spec fn checksum_text(s: Seq<char>) -> bool {
    &&& s.len() == 64
    &&& forall|i: int| 0 <= i < s.len() ==> hex_char(#[trigger] s[i])
}

/// The checksum in the `digest` field of a release asset, in lower case.
pub open spec fn github_checksum(digest: Option<Seq<char>>) -> Option<Seq<char>> {
    match digest {
        Some(text) => {
            let checksum = trim(text).skip("sha256:"@.len() as int);
            if "sha256:"@.is_prefix_of(trim(text)) && checksum_text(checksum) {
                Some(lower(checksum))
            } else {
                None
            }
        },
        None => None,
    }
}

/// The text up to its first whitespace.
pub open spec fn leading_word(s: Seq<char>) -> Seq<char>
    decreases s.len(),
{
    if s.len() == 0 || whitespace(s[0]) {
        Seq::empty()
    } else {
        seq![s[0]] + leading_word(s.drop_first())
    }
}

/// The first word of the text, empty if it has none.
pub open spec fn first_word(s: Seq<char>) -> Seq<char> {
    leading_word(trim_start(s))
}

/// The checksum in a checksum file, in lower case: its first word. Or why there is none.
pub open spec fn file_checksum(bytes: Seq<u8>) -> Result<Seq<char>, Seq<char>> {
    let word = first_word(decode_utf8(bytes));
    if !valid_utf8(bytes) {
        Err("Update checksum file is not UTF-8/ASCII text."@)
    } else if word.len() == 0 {
        Err("Update checksum file is empty."@)
    } else if !checksum_text(word) {
        Err("Update checksum file does not contain a valid SHA-256 digest."@)
    } else {
        Ok(lower(word))
    }
}

/// The hexadecimal digit for a number below sixteen.
pub open spec fn hex_digit(n: int) -> char {
    if n < 10 {
        (48 + n) as char
    } else {
        (87 + n) as char
    }
}

/// Bytes in lower-case hexadecimal, two digits each.
pub open spec fn hex(bytes: Seq<u8>) -> Seq<char>
    decreases bytes.len(),
{
    if bytes.len() == 0 {
        Seq::empty()
    } else {
        hex(bytes.drop_last()).push(hex_digit(bytes.last() as int / 16)).push(
            hex_digit(bytes.last() as int % 16),
        )
    }
}

/// What is reported of a checksum that differs from the expected one. The case of letters does
/// not count.
pub open spec fn integrity_fault(actual: Seq<char>, expected: Seq<char>) -> Option<Seq<char>> {
    if same_ignoring_case(actual, expected) {
        None
    } else {
        Some(
            "Update integrity check failed: expected "@ + expected + ", got "@ + actual + "."@,
        )
    }
}

/// Whether the character is a hexadecimal digit.
pub fn is_hex_char(c: char) -> (yes: bool)
    ensures
        yes == hex_char(c),
{
    ('0' <= c && c <= '9') || ('a' <= c && c <= 'f') || ('A' <= c && c <= 'F')
}

/// Whether the text reads as a SHA-256 digest.
pub fn is_checksum_text(s: &[char]) -> (yes: bool)
    ensures
        yes == checksum_text(s@),
{
    if s.len() != 64 {
        return false;
    }
    let mut i: usize = 0;
    while i < s.len()
        invariant
            i <= s@.len(),
            forall|j: int| 0 <= j < i ==> hex_char(#[trigger] s@[j]),
        decreases s@.len() - i,
    {
        if !is_hex_char(s[i]) {
            return false;
        }
        i = i + 1;
    }
    true
}

/// Reads the `digest` field of a release asset.
pub fn parse_github_sha256(digest: Option<&str>) -> (checksum: Option<String>)
    ensures
        match checksum {
            Some(text) => github_checksum(
                match digest {
                    Some(d) => Some(d@),
                    None => None,
                },
            ) == Some(text@),
            None => github_checksum(
                match digest {
                    Some(d) => Some(d@),
                    None => None,
                },
            ) is None,
        },
{
    let text = match digest {
        Some(text) => text,
        None => {
            return None;
        },
    };
    let chars = chars_of(text);
    match without_prefix(trimmed(chars.as_slice()), "sha256:") {
        Some(checksum) => {
            if is_checksum_text(checksum) {
                Some(to_lower(checksum))
            } else {
                None
            }
        },
        None => None,
    }
}

fn leading_word_of(s: &[char]) -> (word: &[char])
    ensures
        word@ == leading_word(s@),
{
    let mut n: usize = 0;
    assert(s@.skip(0) =~= s@);
    assert(s@.take(0) + leading_word(s@) =~= leading_word(s@));
    while n < s.len() && !is_whitespace(s[n])
        invariant
            n <= s@.len(),
            leading_word(s@) == s@.take(n as int) + leading_word(s@.skip(n as int)),
        decreases s@.len() - n,
    {
        proof {
            assert(s@.skip(n as int).drop_first() =~= s@.skip(n + 1));
            assert(s@.take(n + 1) =~= s@.take(n as int) + seq![s@[n as int]]);
            assert(s@.take(n as int) + (seq![s@[n as int]] + leading_word(s@.skip(n + 1)))
                =~= s@.take(n + 1) + leading_word(s@.skip(n + 1)));
        }
        n = n + 1;
    }
    assert(leading_word(s@.skip(n as int)) =~= Seq::<char>::empty());
    assert(leading_word(s@) =~= s@.subrange(0, n as int));
    slice_subrange(s, 0, n)
}

/// Reads a checksum file.
pub fn parse_sha256_checksum(bytes: &[u8]) -> (checksum: Result<String, String>)
    ensures
        result_text(checksum) == file_checksum(bytes@),
{
    let text = match utf8_text(bytes) {
        Some(text) => text,
        None => {
            return Err(String::from("Update checksum file is not UTF-8/ASCII text."));
        },
    };
    let chars = chars_of(text);
    let word = leading_word_of(trimmed_start(chars.as_slice()));
    if word.len() == 0 {
        return Err(String::from("Update checksum file is empty."));
    }
    if !is_checksum_text(word) {
        return Err(
            String::from("Update checksum file does not contain a valid SHA-256 digest."),
        );
    }
    Ok(to_lower(word))
}

fn to_hex_digit(n: u8) -> (c: char)
    requires
        n < 16,
    ensures
        c == hex_digit(n as int),
{
    if n < 10 {
        (48 + n) as char
    } else {
        (87 + n) as char
    }
}

/// Writes bytes in lower-case hexadecimal.
pub fn to_hex(bytes: &[u8]) -> (text: String)
    ensures
        text@ == hex(bytes@),
{
    let mut text = String::new();
    let mut i: usize = 0;
    while i < bytes.len()
        invariant
            i <= bytes@.len(),
            text@ == hex(bytes@.take(i as int)),
        decreases bytes@.len() - i,
    {
        text.push(to_hex_digit(bytes[i] / 16));
        text.push(to_hex_digit(bytes[i] % 16));
        assert(bytes@.take(i + 1).drop_last() =~= bytes@.take(i as int));
        i = i + 1;
    }
    assert(bytes@.take(i as int) =~= bytes@);
    text
}

/// The SHA-256 digest of the bytes in lower-case hexadecimal.
pub fn sha256_hex(bytes: &[u8]) -> (text: String)
    requires
        digestible(bytes@),
    ensures
        text@ == hex(sha256(bytes@)),
        sha256(bytes@).len() == 32,
        checksum_text(text@),
        lower(text@) == text@,
{
    let digest = sha256_digest(bytes);
    proof {
        law_hex_digest_is_a_checksum(digest@);
    }
    to_hex(digest.as_slice())
}

/// Compares a computed checksum with the expected one.
pub fn check_integrity(actual: &str, expected: &str) -> (checked: Result<(), String>)
    ensures
        match checked {
            Ok(()) => integrity_fault(actual@, expected@) is None,
            Err(message) => integrity_fault(actual@, expected@) == Some(message@),
        },
{
    if eq_ignore_ascii_case(actual, expected) {
        Ok(())
    } else {
        let mut message = String::from("Update integrity check failed: expected ");
        message.append(expected);
        message.append(", got ");
        message.append(actual);
        message.append(".");
        Err(message)
    }
}

pub proof fn lemma_hex(bytes: Seq<u8>)
    ensures
        hex(bytes).len() == 2 * bytes.len(),
        forall|i: int| 0 <= i < hex(bytes).len() ==> hex_char(#[trigger] hex(bytes)[i]),
        lower(hex(bytes)) == hex(bytes),
    decreases bytes.len(),
{
    if bytes.len() > 0 {
        lemma_hex(bytes.drop_last());
        let front = hex(bytes.drop_last());
        assert forall|i: int| 0 <= i < hex(bytes).len() implies lower(hex(bytes))[i] == hex(
            bytes,
        )[i] by {
            if i < front.len() {
                assert(lower(front)[i] == front[i]);
            }
        }
    }
    assert(lower(hex(bytes)) =~= hex(bytes));
}

/// A digest of 32 bytes in hexadecimal reads as a checksum, and is in lower case.
pub proof fn law_hex_digest_is_a_checksum(digest: Seq<u8>)
    requires
        digest.len() == 32,
    ensures
        checksum_text(hex(digest)),
        lower(hex(digest)) == hex(digest),
{
    lemma_hex(digest);
}

/// Different bytes differ in hexadecimal, also where the case of letters does not count. So a
/// checksum that matches is the digest itself.
pub proof fn law_hex_tells_bytes_apart(a: Seq<u8>, b: Seq<u8>)
    requires
        same_ignoring_case(hex(a), hex(b)),
    ensures
        a == b,
    decreases a.len(),
{
    lemma_hex(a);
    lemma_hex(b);
    if a.len() > 0 {
        let x = hex(a);
        let y = hex(b);
        assert(x[x.len() - 1] == y[y.len() - 1]);
        assert(x[x.len() - 2] == y[y.len() - 2]);
        assert(a.last() == b.last());
        assert(hex(a.drop_last()) =~= x.take(x.len() - 2));
        assert(hex(b.drop_last()) =~= y.take(y.len() - 2));
        law_hex_tells_bytes_apart(a.drop_last(), b.drop_last());
        assert(a =~= a.drop_last().push(a.last()));
        assert(b =~= b.drop_last().push(b.last()));
    } else {
        assert(a =~= b);
    }
}

/// The `digest` field that names a checksum is read as this checksum in lower case, whatever
/// the case of its letters and with or without whitespace around the field.
pub proof fn law_published_digest_is_read_back(
    lead: Seq<char>,
    word: Seq<char>,
    tail: Seq<char>,
)
    requires
        blank(lead),
        checksum_text(word),
        blank(tail),
    ensures
        github_checksum(Some(lead + "sha256:"@ + word + tail)) == Some(lower(word)),
{
    reveal_strlit("sha256:");
    let text = "sha256:"@ + word;
    assert(lead + "sha256:"@ + word + tail =~= lead + (text + tail));
    assert((text + tail)[0] == 's');
    lemma_trim_start_blank(lead, text + tail);
    assert(hex_char(word[63]));
    assert(text.last() == word[63]);
    lemma_trim_end_blank(text, tail);
    assert("sha256:"@ =~= text.subrange(0, 7));
    assert(text.skip(7) =~= word);
}

proof fn lemma_leading_word(word: Seq<char>, rest: Seq<char>)
    requires
        forall|i: int| 0 <= i < word.len() ==> !whitespace(#[trigger] word[i]),
        rest.len() > 0 ==> whitespace(rest[0]),
    ensures
        leading_word(word + rest) == word,
    decreases word.len(),
{
    let s = word + rest;
    if word.len() > 0 {
        assert(s[0] == word[0]);
        assert(s.drop_first() =~= word.drop_first() + rest);
        assert forall|i: int| 0 <= i < word.drop_first().len() implies !whitespace(
            #[trigger] word.drop_first()[i],
        ) by {
            assert(!whitespace(word[i + 1]));
        }
        lemma_leading_word(word.drop_first(), rest);
        assert(leading_word(s) =~= word);
    } else {
        assert(leading_word(s) =~= word);
    }
}

/// A checksum file whose first word is a checksum is read as this checksum in lower case,
/// whatever the case of its letters, and whatever whitespace stands before it or follows behind
/// it with anything else.
pub proof fn law_checksum_file_is_read_back(lead: Seq<char>, word: Seq<char>, rest: Seq<char>)
    requires
        blank(lead),
        checksum_text(word),
        rest.len() > 0 ==> whitespace(rest[0]),
    ensures
        file_checksum(encode_utf8(lead + word + rest)) == Ok::<Seq<char>, Seq<char>>(lower(word)),
{
    let text = lead + word + rest;
    vstd::utf8::encode_utf8_valid_utf8(text);
    vstd::utf8::encode_utf8_decode_utf8(text);
    assert(text =~= lead + (word + rest));
    assert(hex_char(word[0]));
    assert((word + rest)[0] == word[0]);
    lemma_trim_start_blank(lead, word + rest);
    assert forall|i: int| 0 <= i < word.len() implies !whitespace(#[trigger] word[i]) by {
        assert(hex_char(word[i]));
    }
    lemma_leading_word(word, rest);
}

/// Hexadecimal digits are `0` to `9`, `a` to `f` and `A` to `F`, by their code points; a checksum
/// is 64 of them and nothing else.
pub proof fn law_checksum_by_code_point(s: Seq<char>, c: char)
    ensures
        hex_char(c) <==> 48 <= c as int <= 57 || 97 <= c as int <= 102 || 65 <= c as int <= 70,
        checksum_text(s) <==> s.len() == 64 && (forall|i: int|
            0 <= i < 64 ==> 48 <= #[trigger] s[i] as int <= 57 || 97 <= s[i] as int <= 102 || 65
                <= s[i] as int <= 70),
{
    if s.len() == 64 && (forall|i: int|
        0 <= i < 64 ==> 48 <= #[trigger] s[i] as int <= 57 || 97 <= s[i] as int <= 102 || 65
            <= s[i] as int <= 70) {
        assert forall|i: int| 0 <= i < s.len() implies hex_char(#[trigger] s[i]) by {
            assert(48 <= s[i] as int <= 57 || 97 <= s[i] as int <= 102 || 65 <= s[i] as int <= 70);
        }
    }
    if checksum_text(s) {
        assert forall|i: int| 0 <= i < 64 implies 48 <= #[trigger] s[i] as int <= 57 || 97
            <= s[i] as int <= 102 || 65 <= s[i] as int <= 70 by {
            assert(hex_char(s[i]));
        }
    }
}

/// A `digest` field has a checksum exactly where, whitespace around it aside, it is `sha256:` and
/// 64 hexadecimal digits. The checksum is these digits in lower case.
pub proof fn law_digest_field_has_a_checksum(lead: Seq<char>, field: Seq<char>, tail: Seq<char>)
    requires
        blank(lead),
        blank(tail),
        field.len() > 0 ==> !whitespace(field[0]) && !whitespace(field.last()),
    ensures
        github_checksum(None) is None,
        github_checksum(Some(lead + field + tail)) is Some <==> field.len() == 71 && field[0] == 's'
            && field[1] == 'h' && field[2] == 'a' && field[3] == '2' && field[4] == '5' && field[5]
            == '6' && field[6] == ':' && (forall|i: int|
            7 <= i < 71 ==> 48 <= #[trigger] field[i] as int <= 57 || 97 <= field[i] as int <= 102
                || 65 <= field[i] as int <= 70),
        github_checksum(Some(lead + field + tail)) matches Some(checksum) ==> checksum == lower(
            field.skip(7),
        ),
{
    reveal_strlit("sha256:");
    law_trim_takes_the_whitespace_around(lead, field, tail);
    let word = field.skip(7);
    if "sha256:"@.is_prefix_of(field) {
        let front = field.subrange(0, 7);
        assert(front[0] == 's' && front[1] == 'h' && front[2] == 'a' && front[3] == '2' && front[4]
            == '5' && front[5] == '6' && front[6] == ':');
        law_checksum_by_code_point(word, 'a');
        if checksum_text(word) {
            assert forall|i: int| 7 <= i < 71 implies 48 <= #[trigger] field[i] as int <= 57 || 97
                <= field[i] as int <= 102 || 65 <= field[i] as int <= 70 by {
                assert(hex_char(word[i - 7]));
            }
        }
    }
    if field.len() == 71 && field[0] == 's' && field[1] == 'h' && field[2] == 'a' && field[3] == '2'
        && field[4] == '5' && field[5] == '6' && field[6] == ':' && (forall|i: int|
        7 <= i < 71 ==> 48 <= #[trigger] field[i] as int <= 57 || 97 <= field[i] as int <= 102 || 65
            <= field[i] as int <= 70) {
        assert("sha256:"@ =~= field.subrange(0, 7));
        assert forall|i: int| 0 <= i < word.len() implies hex_char(#[trigger] word[i]) by {
            assert(word[i] == field[i + 7]);
        }
    }
}

/// The first word of a text stands behind the whitespace at the front and ends before the next
/// whitespace.
pub proof fn law_first_word_stands_between_whitespace(
    lead: Seq<char>,
    word: Seq<char>,
    rest: Seq<char>,
)
    requires
        blank(lead),
        forall|i: int| 0 <= i < word.len() ==> !whitespace(#[trigger] word[i]),
        rest.len() > 0 ==> whitespace(rest[0]),
        word.len() == 0 ==> rest.len() == 0,
    ensures
        first_word(lead + word + rest) == word,
        leading_word(word + rest) == word,
{
    assert(lead + word + rest =~= lead + (word + rest));
    if word.len() > 0 {
        assert((word + rest)[0] == word[0]);
    }
    lemma_trim_start_blank(lead, word + rest);
    lemma_leading_word(word, rest);
}

/// A checksum file that is no UTF-8 text, or is blank, or whose first word is not 64 hexadecimal
/// digits, is refused with a message for each. Any other gives its first word in lower case.
pub proof fn law_checksum_file_is_judged_by_its_first_word(
    bytes: Seq<u8>,
    lead: Seq<char>,
    word: Seq<char>,
    rest: Seq<char>,
)
    requires
        valid_utf8(bytes) ==> decode_utf8(bytes) == lead + word + rest,
        blank(lead),
        forall|i: int| 0 <= i < word.len() ==> !whitespace(#[trigger] word[i]),
        rest.len() > 0 ==> whitespace(rest[0]),
        word.len() == 0 ==> rest.len() == 0,
    ensures
        !valid_utf8(bytes) ==> file_checksum(bytes) == Err::<Seq<char>, Seq<char>>(
            "Update checksum file is not UTF-8/ASCII text."@,
        ),
        valid_utf8(bytes) && word.len() == 0 ==> file_checksum(bytes) == Err::<
            Seq<char>,
            Seq<char>,
        >("Update checksum file is empty."@),
        valid_utf8(bytes) && word.len() > 0 && !(word.len() == 64 && (forall|i: int|
            0 <= i < 64 ==> 48 <= #[trigger] word[i] as int <= 57 || 97 <= word[i] as int <= 102
                || 65 <= word[i] as int <= 70)) ==> file_checksum(bytes) == Err::<
            Seq<char>,
            Seq<char>,
        >("Update checksum file does not contain a valid SHA-256 digest."@),
        valid_utf8(bytes) && word.len() == 64 && (forall|i: int|
            0 <= i < 64 ==> 48 <= #[trigger] word[i] as int <= 57 || 97 <= word[i] as int <= 102
                || 65 <= word[i] as int <= 70) ==> file_checksum(bytes) == Ok::<
            Seq<char>,
            Seq<char>,
        >(lower(word)),
{
    law_first_word_stands_between_whitespace(lead, word, rest);
    law_checksum_by_code_point(word, 'a');
}

/// Hexadecimal goes byte by byte, in their order, the high digit first: two digits below sixteen,
/// `0` to `9` and `a` to `f`, that make up the byte.
pub proof fn law_hex_by_byte(a: Seq<u8>, b: u8)
    ensures
        hex(Seq::empty()).len() == 0,
        hex(a.push(b)).len() == hex(a).len() + 2,
        hex(a.push(b)).take(hex(a).len() as int) == hex(a),
        ({
            let high = hex(a.push(b))[hex(a).len() as int] as int;
            let low = hex(a.push(b))[(hex(a).len() + 1) as int] as int;
            &&& 48 <= high <= 57 || 97 <= high <= 102
            &&& 48 <= low <= 57 || 97 <= low <= 102
            &&& b as int == 16 * (if high < 97 {
                high - 48
            } else {
                high - 87
            }) + (if low < 97 {
                low - 48
            } else {
                low - 87
            })
        }),
{
    assert(a.push(b).drop_last() =~= a);
    assert(hex(a.push(b)).take(hex(a).len() as int) =~= hex(a));
}

/// A checksum passes exactly where it is the expected one letter by letter, but for the case of
/// ASCII letters. Else the message tells both.
pub proof fn law_integrity_is_equality(actual: Seq<char>, expected: Seq<char>)
    ensures
        integrity_fault(actual, expected) is None <==> lower(actual) == lower(expected),
        integrity_fault(actual, expected) is Some ==> integrity_fault(actual, expected) == Some(
            "Update integrity check failed: expected "@ + expected + ", got "@ + actual + "."@,
        ),
{
}

/// Messages of less than 2^61 bytes have a digest.
pub proof fn law_digest_takes_messages_below_its_limit(message: Seq<u8>)
    ensures
        digestible(message) <==> message.len() < 0x2000_0000_0000_0000,
{
}

} // verus!
