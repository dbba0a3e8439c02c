//! Text as sequences of characters: trimming, splitting, ASCII case.
use vstd::prelude::*;
use vstd::slice::slice_subrange;

verus! {

/// Appends one character.
///
/// Trusted: `String::push` puts the character behind the ones already there and changes
/// nothing else.
pub assume_specification[ String::push ](s: &mut String, c: char)
    ensures
        final(s)@ == old(s)@.push(c),
;

/// A character with the Unicode `White_Space` property.
pub open spec fn whitespace(c: char) -> bool {
    ||| '\u{9}' <= c <= '\u{d}'
    ||| c == '\u{20}'
    ||| c == '\u{85}'
    ||| c == '\u{a0}'
    ||| c == '\u{1680}'
    ||| '\u{2000}' <= c <= '\u{200a}'
    ||| c == '\u{2028}'
    ||| c == '\u{2029}'
    ||| c == '\u{202f}'
    ||| c == '\u{205f}'
    ||| c == '\u{3000}'
}

/// Whether nothing but whitespace stands in the text.
pub open spec fn blank(s: Seq<char>) -> bool {
    forall|i: int| 0 <= i < s.len() ==> whitespace(#[trigger] s[i])
}

/// The text from its first character that is not whitespace.
pub open spec fn trim_start(s: Seq<char>) -> Seq<char>
    decreases s.len(),
{
    if s.len() > 0 && whitespace(s[0]) {
        trim_start(s.drop_first())
    } else {
        s
    }
}

/// The text up to its last character that is not whitespace.
pub open spec fn trim_end(s: Seq<char>) -> Seq<char>
    decreases s.len(),
{
    if s.len() > 0 && whitespace(s.last()) {
        trim_end(s.drop_last())
    } else {
        s
    }
}

/// The text without the whitespace around it.
pub open spec fn trim(s: Seq<char>) -> Seq<char> {
    trim_end(trim_start(s))
}

/// Where `c` first stands in the text; its length if nowhere.
pub open spec fn first_index(s: Seq<char>, c: char) -> nat
    decreases s.len(),
{
    if s.len() == 0 || s[0] == c {
        0
    } else {
        1 + first_index(s.drop_first(), c)
    }
}

/// The text before the first `c`; all of it if there is none.
pub open spec fn before(s: Seq<char>, c: char) -> Seq<char> {
    s.take(first_index(s, c) as int)
}

/// The text behind the first `c`; nothing if there is none.
pub open spec fn after(s: Seq<char>, c: char) -> Seq<char> {
    if first_index(s, c) < s.len() {
        s.skip(first_index(s, c) as int + 1)
    } else {
        Seq::empty()
    }
}

/// The pieces between the separators `c`: one more than there are separators.
pub open spec fn split(s: Seq<char>, c: char) -> Seq<Seq<char>>
    decreases s.len(),
{
    if first_index(s, c) < s.len() {
        seq![before(s, c)] + split(after(s, c), c)
    } else {
        seq![s]
    }
}

/// ASCII letters in lower case, any other character as it is.
pub open spec fn ascii_lower(c: char) -> char {
    if 'A' <= c <= 'Z' {
        (c as u32 + 32) as char
    } else {
        c
    }
}

/// The text with its ASCII letters in lower case.
pub open spec fn lower(s: Seq<char>) -> Seq<char> {
    s.map_values(|c: char| ascii_lower(c))
}

/// Whether two texts are the same but for the case of ASCII letters.
pub open spec fn same_ignoring_case(a: Seq<char>, b: Seq<char>) -> bool {
    lower(a) == lower(b)
}

/// The characters of a text that may be absent.
pub open spec fn option_text(s: Option<String>) -> Option<Seq<char>> {
    match s {
        Some(text) => Some(text@),
        None => None,
    }
}

/// The characters of a text, or those of a message.
pub open spec fn result_text(r: Result<String, String>) -> Result<Seq<char>, Seq<char>> {
    match r {
        Ok(text) => Ok(text@),
        Err(message) => Err(message@),
    }
}

/// The characters of a text.
pub fn chars_of(s: &str) -> (chars: Vec<char>)
    ensures
        chars@ == s@,
{
    let mut chars: Vec<char> = Vec::new();
    for c in it: s.chars()
        invariant
            it.seq() == s@,
            chars@ == s@.take(it.index()),
    {
        chars.push(c);
    }
    chars
}

/// The text made of the characters.
pub fn string_of(chars: &[char]) -> (s: String)
    ensures
        s@ == chars@,
{
    let mut s = String::new();
    let mut i: usize = 0;
    while i < chars.len()
        invariant
            i <= chars@.len(),
            s@ == chars@.take(i as int),
        decreases chars@.len() - i,
    {
        s.push(chars[i]);
        i = i + 1;
    }
    s
}

/// Tells whitespace from other characters.
pub fn is_whitespace(c: char) -> (yes: bool)
    ensures
        yes == whitespace(c),
{
    ('\u{9}' <= c && c <= '\u{d}') || c == '\u{20}' || c == '\u{85}' || c == '\u{a0}' || c
        == '\u{1680}' || ('\u{2000}' <= c && c <= '\u{200a}') || c == '\u{2028}' || c == '\u{2029}'
        || c == '\u{202f}' || c == '\u{205f}' || c == '\u{3000}'
}

/// Whether nothing but whitespace stands in the text.
pub fn is_blank(s: &str) -> (yes: bool)
    ensures
        yes == blank(s@),
{
    let chars = chars_of(s);
    let mut i: usize = 0;
    while i < chars.len()
        invariant
            chars@ == s@,
            i <= chars@.len(),
            forall|j: int| 0 <= j < i ==> whitespace(#[trigger] chars@[j]),
        decreases chars@.len() - i,
    {
        if !is_whitespace(chars[i]) {
            return false;
        }
        i = i + 1;
    }
    true
}

proof fn lemma_trim_start_skip(s: Seq<char>, i: int)
    requires
        0 <= i < s.len(),
        whitespace(s[i]),
    ensures
        trim_start(s.skip(i)) == trim_start(s.skip(i + 1)),
{
    assert(s.skip(i).drop_first() =~= s.skip(i + 1));
}

pub proof fn lemma_trim_start_blank(lead: Seq<char>, s: Seq<char>)
    requires
        blank(lead),
        s.len() > 0 ==> !whitespace(s[0]),
    ensures
        trim_start(lead + s) == s,
    decreases lead.len(),
{
    if lead.len() > 0 {
        let rest = lead.drop_first();
        assert((lead + s)[0] == lead[0]);
        assert((lead + s).drop_first() =~= rest + s);
        assert forall|i: int| 0 <= i < rest.len() implies whitespace(#[trigger] rest[i]) by {
            assert(rest[i] == lead[i + 1]);
        }
        lemma_trim_start_blank(rest, s);
    } else {
        assert(lead + s =~= s);
    }
}

pub proof fn lemma_trim_end_blank(s: Seq<char>, tail: Seq<char>)
    requires
        blank(tail),
        s.len() > 0 ==> !whitespace(s.last()),
    ensures
        trim_end(s + tail) == s,
    decreases tail.len(),
{
    if tail.len() > 0 {
        let front = tail.drop_last();
        assert((s + tail).last() == tail[tail.len() - 1]);
        assert((s + tail).drop_last() =~= s + front);
        assert forall|i: int| 0 <= i < front.len() implies whitespace(#[trigger] front[i]) by {
            assert(front[i] == tail[i]);
        }
        lemma_trim_end_blank(s, front);
    } else {
        assert(s + tail =~= s);
    }
}

pub proof fn lemma_lower_twice(s: Seq<char>)
    ensures
        lower(lower(s)) == lower(s),
{
    assert(lower(lower(s)) =~= lower(s));
}

/// Takes the whitespace at the front away.
pub fn trimmed_start(s: &[char]) -> (rest: &[char])
    ensures
        rest@ == trim_start(s@),
{
    let mut i: usize = 0;
    assert(s@.skip(0) =~= s@);
    while i < s.len() && is_whitespace(s[i])
        invariant
            i <= s@.len(),
            trim_start(s@) == trim_start(s@.skip(i as int)),
        decreases s@.len() - i,
    {
        proof {
            lemma_trim_start_skip(s@, i as int);
        }
        i = i + 1;
    }
    assert(s@.skip(i as int) =~= s@.subrange(i as int, s@.len() as int));
    slice_subrange(s, i, s.len())
}

/// Takes the whitespace at the end away.
pub fn trimmed_end(s: &[char]) -> (rest: &[char])
    ensures
        rest@ == trim_end(s@),
{
    let mut n: usize = s.len();
    assert(s@.take(n as int) =~= s@);
    while n > 0 && is_whitespace(s[n - 1])
        invariant
            n <= s@.len(),
            trim_end(s@) == trim_end(s@.take(n as int)),
        decreases n,
    {
        assert(s@.take(n as int).drop_last() =~= s@.take(n - 1));
        n = n - 1;
    }
    assert(s@.take(n as int) =~= s@.subrange(0, n as int));
    slice_subrange(s, 0, n)
}

/// Takes the whitespace around the text away.
pub fn trimmed(s: &[char]) -> (rest: &[char])
    ensures
        rest@ == trim(s@),
{
    trimmed_end(trimmed_start(s))
}

pub proof fn lemma_first_index(s: Seq<char>, c: char)
    ensures
        first_index(s, c) <= s.len(),
        first_index(s, c) < s.len() ==> s[first_index(s, c) as int] == c,
        forall|i: int| 0 <= i < first_index(s, c) ==> s[i] != c,
    decreases s.len(),
{
    if s.len() > 0 && s[0] != c {
        let rest = s.drop_first();
        lemma_first_index(rest, c);
        assert forall|i: int| 0 <= i < first_index(s, c) implies s[i] != c by {
            if i > 0 {
                assert(rest[i - 1] == s[i]);
            }
        }
    }
}

pub proof fn lemma_first_index_unique(s: Seq<char>, c: char, n: int)
    requires
        0 <= n <= s.len(),
        n < s.len() ==> s[n] == c,
        forall|i: int| 0 <= i < n ==> s[i] != c,
    ensures
        first_index(s, c) == n,
{
    lemma_first_index(s, c);
    let k = first_index(s, c) as int;
    if k < n {
        assert(s[k] != c);
    } else if n < k {
        assert(s[n] != c);
    }
}

/// Where `c` first stands in the text, if it does.
pub fn find_char(s: &[char], c: char) -> (found: Option<usize>)
    ensures
        found matches Some(i) ==> i == first_index(s@, c) && i < s@.len(),
        found is None ==> first_index(s@, c) == s@.len(),
        found is Some <==> s@.contains(c),
{
    let mut i: usize = 0;
    while i < s.len()
        invariant
            i <= s@.len(),
            forall|j: int| 0 <= j < i ==> s@[j] != c,
        decreases s@.len() - i,
    {
        if s[i] == c {
            proof {
                lemma_first_index_unique(s@, c, i as int);
            }
            return Some(i);
        }
        i = i + 1;
    }
    proof {
        lemma_first_index_unique(s@, c, i as int);
    }
    None
}

/// The pieces of the text between its separators `c`.
pub fn split_by<'a>(s: &'a [char], c: char) -> (pieces: Vec<&'a [char]>)
    ensures
        pieces@.map_values(|p: &[char]| p@) == split(s@, c),
{
    let mut pieces: Vec<&'a [char]> = Vec::new();
    let mut rest: &'a [char] = s;
    proof {
        assert(pieces@.map_values(|p: &[char]| p@) + split(s@, c) =~= split(s@, c));
    }
    loop
        invariant
            pieces@.map_values(|p: &[char]| p@) + split(rest@, c) == split(s@, c),
        decreases rest@.len(),
    {
        match find_char(rest, c) {
            Some(i) => {
                let end: usize = rest.len();
                let piece = slice_subrange(rest, 0, i);
                let tail = slice_subrange(rest, i + 1, end);
                proof {
                    assert(piece@ =~= before(rest@, c));
                    assert(tail@ =~= after(rest@, c));
                    assert(pieces@.push(piece).map_values(|p: &[char]| p@) + split(tail@, c)
                        =~= pieces@.map_values(|p: &[char]| p@) + split(rest@, c));
                }
                pieces.push(piece);
                rest = tail;
            },
            None => {
                proof {
                    assert(pieces@.push(rest).map_values(|p: &[char]| p@) =~= pieces@.map_values(
                        |p: &[char]| p@,
                    ) + split(rest@, c));
                }
                pieces.push(rest);
                return pieces;
            },
        }
    }
}

/// The rest of the text behind `prefix`, if the text begins with it.
pub fn without_prefix<'a>(s: &'a [char], prefix: &str) -> (rest: Option<&'a [char]>)
    ensures
        rest is Some <==> prefix@.is_prefix_of(s@),
        rest matches Some(r) ==> r@ == s@.skip(prefix@.len() as int),
{
    let p = chars_of(prefix);
    if s.len() < p.len() {
        return None;
    }
    let mut i: usize = 0;
    while i < p.len()
        invariant
            p@ == prefix@,
            i <= p@.len() <= s@.len(),
            forall|j: int| 0 <= j < i ==> p@[j] == s@[j],
        decreases p@.len() - i,
    {
        if p[i] != s[i] {
            return None;
        }
        i = i + 1;
    }
    proof {
        assert(prefix@ =~= s@.subrange(0, prefix@.len() as int));
        assert(s@.skip(i as int) =~= s@.subrange(i as int, s@.len() as int));
    }
    Some(slice_subrange(s, i, s.len()))
}

/// Puts one character in lower case if it is an ASCII letter.
pub fn to_ascii_lower(c: char) -> (l: char)
    ensures
        l == ascii_lower(c),
{
    if 'A' <= c && c <= 'Z' {
        ((c as u8) + 32) as char
    } else {
        c
    }
}

/// The text with its ASCII letters in lower case.
pub fn to_lower(s: &[char]) -> (l: String)
    ensures
        l@ == lower(s@),
{
    let mut l = String::new();
    let mut i: usize = 0;
    while i < s.len()
        invariant
            i <= s@.len(),
            l@ == lower(s@.take(i as int)),
        decreases s@.len() - i,
    {
        l.push(to_ascii_lower(s[i]));
        proof {
            assert(lower(s@.take(i + 1)) =~= lower(s@.take(i as int)).push(
                ascii_lower(s@[i as int]),
            ));
        }
        i = i + 1;
    }
    assert(s@.take(i as int) =~= s@);
    l
}

/// Compares two texts without regard to the case of ASCII letters.
pub fn eq_ignore_ascii_case(a: &str, b: &str) -> (same: bool)
    ensures
        same == same_ignoring_case(a@, b@),
{
    let x = chars_of(a);
    let y = chars_of(b);
    proof {
        assert(lower(a@).len() == a@.len());
        assert(lower(b@).len() == b@.len());
    }
    if x.len() != y.len() {
        return false;
    }
    let mut i: usize = 0;
    while i < x.len()
        invariant
            x@ == a@,
            y@ == b@,
            x@.len() == y@.len(),
            i <= x@.len(),
            forall|j: int| 0 <= j < i ==> ascii_lower(x@[j]) == ascii_lower(y@[j]),
        decreases x@.len() - i,
    {
        if to_ascii_lower(x[i]) != to_ascii_lower(y[i]) {
            proof {
                assert(lower(a@)[i as int] != lower(b@)[i as int]);
            }
            return false;
        }
        i = i + 1;
    }
    assert(lower(a@) =~= lower(b@));
    true
}

/// Whitespace is the 25 code points with the Unicode property `White_Space`, and no others.
pub proof fn law_whitespace_by_code_point(c: char)
    ensures
        whitespace(c) <==> {
            let n = c as int;
            ||| 9 <= n <= 13
            ||| n == 32
            ||| n == 133
            ||| n == 160
            ||| n == 5760
            ||| 8192 <= n <= 8202
            ||| n == 8232
            ||| n == 8233
            ||| n == 8239
            ||| n == 8287
            ||| n == 12288
        },
{
}

/// A text is blank where each of its parts is: the empty text is, one character is if it is
/// whitespace, and two texts together are if both are.
pub proof fn law_blank_by_parts(a: Seq<char>, b: Seq<char>, c: char)
    ensures
        blank(Seq::empty()),
        blank(seq![c]) <==> whitespace(c),
        blank(a + b) <==> blank(a) && blank(b),
{
    if blank(seq![c]) {
        assert(seq![c][0] == c);
    }
    if blank(a + b) {
        assert forall|i: int| 0 <= i < a.len() implies whitespace(#[trigger] a[i]) by {
            assert((a + b)[i] == a[i]);
        }
        assert forall|i: int| 0 <= i < b.len() implies whitespace(#[trigger] b[i]) by {
            assert((a + b)[a.len() + i] == b[i]);
        }
    }
}

/// Trimming takes away exactly the whitespace around a text, and nothing inside it.
pub proof fn law_trim_takes_the_whitespace_around(lead: Seq<char>, s: Seq<char>, tail: Seq<char>)
    requires
        forall|i: int| 0 <= i < lead.len() ==> whitespace(#[trigger] lead[i]),
        forall|i: int| 0 <= i < tail.len() ==> whitespace(#[trigger] tail[i]),
        s.len() > 0 ==> !whitespace(s[0]) && !whitespace(s.last()),
    ensures
        trim(lead + s + tail) == s,
        s.len() > 0 ==> trim_start(lead + s + tail) == s + tail,
        s.len() > 0 ==> trim_end(lead + s + tail) == lead + s,
        s.len() == 0 ==> trim_start(lead + s + tail).len() == 0,
        s.len() == 0 ==> trim_end(lead + s + tail).len() == 0,
{
    assert(lead + s + tail =~= lead + (s + tail));
    if s.len() > 0 {
        assert((s + tail)[0] == s[0]);
        lemma_trim_start_blank(lead, s + tail);
        lemma_trim_end_blank(s, tail);
        assert((lead + s).last() == s.last());
        lemma_trim_end_blank(lead + s, tail);
    } else {
        let all = lead + tail;
        assert(lead + s + tail =~= all + Seq::<char>::empty());
        assert(blank(all)) by {
            law_blank_by_parts(lead, tail, 'x');
        }
        lemma_trim_start_blank(all, Seq::empty());
        assert(lead + s + tail =~= Seq::<char>::empty() + all);
        lemma_trim_end_blank(Seq::empty(), all);
        assert(s =~= Seq::<char>::empty());
    }
}

/// The first separator parts a text: the piece before it, which holds none, and what is behind it.
/// A text without the separator is one piece.
pub proof fn law_separator_parts_a_text(piece: Seq<char>, c: char, rest: Seq<char>)
    requires
        forall|i: int| 0 <= i < piece.len() ==> piece[i] != c,
    ensures
        before(piece, c) == piece,
        after(piece, c) == Seq::<char>::empty(),
        split(piece, c) == seq![piece],
        before(piece.push(c) + rest, c) == piece,
        after(piece.push(c) + rest, c) == rest,
        split(piece.push(c) + rest, c) == seq![piece] + split(rest, c),
{
    let t = piece.push(c) + rest;
    lemma_first_index_unique(piece, c, piece.len() as int);
    assert(before(piece, c) =~= piece);
    assert(t[piece.len() as int] == c);
    assert forall|i: int| 0 <= i < piece.len() implies t[i] != c by {
        assert(t[i] == piece[i]);
    }
    lemma_first_index_unique(t, c, piece.len() as int);
    assert(before(t, c) =~= piece);
    assert(after(t, c) =~= rest);
}

/// Lower case moves the 26 capital letters of ASCII up by 32 code points and leaves every other
/// character and the length as they are.
pub proof fn law_lower_by_code_point(s: Seq<char>, i: int)
    requires
        0 <= i < s.len(),
    ensures
        lower(s).len() == s.len(),
        65 <= s[i] as int <= 90 ==> lower(s)[i] as int == s[i] as int + 32,
        !(65 <= s[i] as int <= 90) ==> lower(s)[i] == s[i],
        lower(s)[i] == ascii_lower(s[i]),
{
}

/// Two texts are the same but for case where they are equally long and, place by place, hold the
/// same character or a capital and a small letter of ASCII that belong together.
pub proof fn law_same_ignoring_case_by_code_point(a: Seq<char>, b: Seq<char>)
    ensures
        same_ignoring_case(a, b) <==> {
            &&& a.len() == b.len()
            &&& forall|i: int|
                #![trigger a[i]]
                #![trigger b[i]]
                0 <= i < a.len() ==> {
                    ||| a[i] == b[i]
                    ||| 65 <= a[i] as int <= 90 && b[i] as int == a[i] as int + 32
                    ||| 65 <= b[i] as int <= 90 && a[i] as int == b[i] as int + 32
                }
        },
{
    assert(lower(a).len() == a.len());
    assert(lower(b).len() == b.len());
    if same_ignoring_case(a, b) {
        assert forall|i: int|
            #![trigger a[i]]
            #![trigger b[i]]
            0 <= i < a.len() implies {
                ||| a[i] == b[i]
                ||| 65 <= a[i] as int <= 90 && b[i] as int == a[i] as int + 32
                ||| 65 <= b[i] as int <= 90 && a[i] as int == b[i] as int + 32
            } by {
            law_lower_by_code_point(a, i);
            law_lower_by_code_point(b, i);
            assert(lower(a)[i] == lower(b)[i]);
        }
    }
    if a.len() == b.len() && (forall|i: int|
        #![trigger a[i]]
        #![trigger b[i]]
        0 <= i < a.len() ==> {
            ||| a[i] == b[i]
            ||| 65 <= a[i] as int <= 90 && b[i] as int == a[i] as int + 32
            ||| 65 <= b[i] as int <= 90 && a[i] as int == b[i] as int + 32
        }) {
        assert forall|i: int| 0 <= i < a.len() implies lower(a)[i] == lower(b)[i] by {
            law_lower_by_code_point(a, i);
            law_lower_by_code_point(b, i);
            assert(a[i] == a[i]);
        }
        assert(lower(a) =~= lower(b));
    }
}

/// The characters of what may be absent or may be a message are those of the text that is there.
pub proof fn law_texts_stand_for_their_characters(s: String)
    ensures
        option_text(Some(s)) == Some(s@),
        option_text(None) is None,
        result_text(Ok(s)) == Ok::<Seq<char>, Seq<char>>(s@),
        result_text(Err(s)) == Err::<Seq<char>, Seq<char>>(s@),
{
}

} // verus!
