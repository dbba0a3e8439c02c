//! Names of temporary files.
use crate::number::{decimal, push_decimal};
use crate::text::chars_of;
use vstd::prelude::*;

verus! {

/// A character that file names may hold: an ASCII letter or digit, a dot, a hyphen or an
/// underscore.
pub open spec fn safe_char(c: char) -> bool {
    ||| 'a' <= c <= 'z'
    ||| 'A' <= c <= 'Z'
    ||| '0' <= c <= '9'
    ||| c == '.'
    ||| c == '-'
    ||| c == '_'
}

/// The safe characters of the text in their order, `app` if there are none.
pub open spec fn sanitized(s: Seq<char>) -> Seq<char> {
    let cleaned = s.filter(|c: char| safe_char(c));
    if cleaned.len() == 0 {
        "app"@
    } else {
        cleaned
    }
}

/// The name under which a downloaded update is stored.
pub open spec fn update_file(app: Seq<char>, version: Seq<char>, pid: nat) -> Seq<char> {
    sanitized(app) + "-update-"@ + decimal(pid) + "-"@ + sanitized(version) + ".exe"@
}

/// The name under which the updater script is stored.
pub open spec fn script_file(app: Seq<char>, pid: nat) -> Seq<char> {
    sanitized(app) + "-updater-"@ + decimal(pid) + ".ps1"@
}

/// Whether a file name may hold the character.
pub fn is_safe_char(c: char) -> (yes: bool)
    ensures
        yes == safe_char(c),
{
    ('a' <= c && c <= 'z') || ('A' <= c && c <= 'Z') || ('0' <= c && c <= '9') || c == '.' || c
        == '-' || c == '_'
}

/// Leaves out of a text what file names may not hold.
pub fn sanitize_component(value: &str) -> (cleaned: String)
    ensures
        cleaned@ == sanitized(value@),
{
    let chars = chars_of(value);
    let mut cleaned = String::new();
    let mut i: usize = 0;
    let ghost keep = |c: char| safe_char(c);
    proof {
        reveal(Seq::filter);
        assert(chars@.take(0).filter(keep) =~= Seq::<char>::empty());
    }
    while i < chars.len()
        invariant
            chars@ == value@,
            keep == (|c: char| safe_char(c)),
            i <= chars@.len(),
            cleaned@ == chars@.take(i as int).filter(keep),
        decreases chars@.len() - i,
    {
        proof {
            reveal(Seq::filter);
            assert(chars@.take(i + 1).drop_last() =~= chars@.take(i as int));
        }
        if is_safe_char(chars[i]) {
            cleaned.push(chars[i]);
        }
        i = i + 1;
    }
    assert(chars@.take(i as int) =~= chars@);
    if cleaned.as_str().is_empty() {
        String::from("app")
    } else {
        cleaned
    }
}

/// Names the file for a downloaded update.
pub fn update_file_name(app: &str, version: &str, pid: u32) -> (name: String)
    ensures
        name@ == update_file(app@, version@, pid as nat),
{
    let safe_version = sanitize_component(version);
    let mut name = sanitize_component(app);
    name.append("-update-");
    push_decimal(&mut name, pid as u64);
    name.append("-");
    name.append(safe_version.as_str());
    name.append(".exe");
    name
}

/// Names the file for the updater script.
pub fn script_file_name(app: &str, pid: u32) -> (name: String)
    ensures
        name@ == script_file(app@, pid as nat),
{
    let mut name = sanitize_component(app);
    name.append("-updater-");
    push_decimal(&mut name, pid as u64);
    name.append(".ps1");
    name
}

/// Whether every character of the text is safe in a file name.
pub open spec fn all_safe(s: Seq<char>) -> bool {
    forall|i: int| 0 <= i < s.len() ==> safe_char(#[trigger] s[i])
}

/// A sanitized text is never empty, holds safe characters only, and stays as it is when
/// sanitized again.
pub proof fn law_sanitized_is_safe(s: Seq<char>)
    ensures
        sanitized(s).len() > 0,
        all_safe(sanitized(s)),
        sanitized(sanitized(s)) == sanitized(s),
{
    reveal_strlit("app");
    lemma_filter_safe(s);
    assert(all_safe("app"@));
    lemma_filter_keeps(sanitized(s));
}

proof fn lemma_filter_safe(s: Seq<char>)
    ensures
        all_safe(s.filter(|c: char| safe_char(c))),
    decreases s.len(),
{
    reveal(Seq::filter);
    if s.len() > 0 {
        lemma_filter_safe(s.drop_last());
    }
}

proof fn lemma_filter_keeps(s: Seq<char>)
    requires
        all_safe(s),
    ensures
        s.filter(|c: char| safe_char(c)) == s,
    decreases s.len(),
{
    reveal(Seq::filter);
    if s.len() > 0 {
        assert(safe_char(s.last()));
        assert forall|i: int| 0 <= i < s.drop_last().len() implies safe_char(
            #[trigger] s.drop_last()[i],
        ) by {
            assert(safe_char(s[i]));
        }
        lemma_filter_keeps(s.drop_last());
        assert(s =~= s.drop_last().push(s.last()));
    } else {
        assert(s.filter(|c: char| safe_char(c)) =~= s);
    }
}

proof fn lemma_decimal_safe(n: nat)
    ensures
        all_safe(decimal(n)),
    decreases n,
{
    if n >= 10 {
        lemma_decimal_safe(n / 10);
    }
}

proof fn lemma_safe_append(a: Seq<char>, b: Seq<char>)
    requires
        all_safe(a),
        all_safe(b),
    ensures
        all_safe(a + b),
{
}

/// The names of temporary files hold safe characters only, so none of them leaves the directory
/// it is put in.
pub proof fn law_file_names_are_safe(app: Seq<char>, version: Seq<char>, pid: nat)
    ensures
        all_safe(update_file(app, version, pid)),
        all_safe(script_file(app, pid)),
        !update_file(app, version, pid).contains('/'),
        !update_file(app, version, pid).contains('\\'),
        !script_file(app, pid).contains('/'),
        !script_file(app, pid).contains('\\'),
{
    reveal_strlit("-update-");
    reveal_strlit("-");
    reveal_strlit(".exe");
    reveal_strlit("-updater-");
    reveal_strlit(".ps1");
    law_sanitized_is_safe(app);
    law_sanitized_is_safe(version);
    lemma_decimal_safe(pid);
    let a = sanitized(app) + "-update-"@;
    lemma_safe_append(sanitized(app), "-update-"@);
    lemma_safe_append(a, decimal(pid));
    lemma_safe_append(a + decimal(pid), "-"@);
    lemma_safe_append(a + decimal(pid) + "-"@, sanitized(version));
    lemma_safe_append(a + decimal(pid) + "-"@ + sanitized(version), ".exe"@);
    let b = sanitized(app) + "-updater-"@;
    lemma_safe_append(sanitized(app), "-updater-"@);
    lemma_safe_append(b, decimal(pid));
    lemma_safe_append(b + decimal(pid), ".ps1"@);
}

/// Safe are the letters `a` to `z` and `A` to `Z`, the digits, the hyphen, the dot and the
/// underscore, by their code points, and no other character.
pub proof fn law_safe_char_by_code_point(c: char)
    ensures
        safe_char(c) <==> 97 <= c as int <= 122 || 65 <= c as int <= 90 || 48 <= c as int <= 57
            || c as int == 45 || c as int == 46 || c as int == 95,
{
}

/// A text of such characters stays as it is; an empty one becomes `app`.
pub proof fn law_safe_text_stays(s: Seq<char>)
    requires
        forall|i: int|
            0 <= i < s.len() ==> 97 <= #[trigger] s[i] as int <= 122 || 65 <= s[i] as int <= 90
                || 48 <= s[i] as int <= 57 || s[i] as int == 45 || s[i] as int == 46 || s[i] as int
                == 95,
    ensures
        s.len() > 0 ==> sanitized(s) == s,
        s.len() == 0 ==> sanitized(s) == seq!['a', 'p', 'p'],
{
    reveal_strlit("app");
    assert forall|i: int| 0 <= i < s.len() implies safe_char(#[trigger] s[i]) by {
        law_safe_char_by_code_point(s[i]);
    }
    lemma_filter_keeps(s);
    assert("app"@ =~= seq!['a', 'p', 'p']);
}

/// Any other character is dropped, wherever it stands, and changes nothing of the rest.
pub proof fn law_unsafe_character_is_dropped(a: Seq<char>, c: char, b: Seq<char>)
    requires
        !(97 <= c as int <= 122 || 65 <= c as int <= 90 || 48 <= c as int <= 57 || c as int == 45
            || c as int == 46 || c as int == 95),
    ensures
        sanitized(a + seq![c] + b) == sanitized(a + b),
{
    reveal(Seq::filter);
    let keep = |c: char| safe_char(c);
    law_safe_char_by_code_point(c);
    Seq::filter_distributes_over_add(a + seq![c], b, keep);
    Seq::filter_distributes_over_add(a, seq![c], keep);
    Seq::filter_distributes_over_add(a, b, keep);
    assert(seq![c].drop_last() =~= Seq::<char>::empty());
    assert(seq![c].drop_last().filter(keep) =~= Seq::<char>::empty());
    assert(seq![c].filter(keep) =~= Seq::<char>::empty());
    assert(a.filter(keep) + Seq::<char>::empty() =~= a.filter(keep));
}

/// What tells one temporary file from another: the update's file is named by the application, the
/// process and the version, the script's by the application and the process, and dropped
/// characters do not count.
pub proof fn law_file_names_tell_app_process_and_version(
    app: Seq<char>,
    version: Seq<char>,
    pid: nat,
)
    ensures
        update_file(app, version, pid) == sanitized(app) + seq![
            '-',
            'u',
            'p',
            'd',
            'a',
            't',
            'e',
            '-',
        ] + decimal(pid) + seq!['-'] + sanitized(version) + seq!['.', 'e', 'x', 'e'],
        script_file(app, pid) == sanitized(app) + seq![
            '-',
            'u',
            'p',
            'd',
            'a',
            't',
            'e',
            'r',
            '-',
        ] + decimal(pid) + seq!['.', 'p', 's', '1'],
        update_file(sanitized(app), sanitized(version), pid) == update_file(app, version, pid),
        script_file(sanitized(app), pid) == script_file(app, pid),
{
    reveal_strlit("-update-");
    reveal_strlit("-");
    reveal_strlit(".exe");
    reveal_strlit("-updater-");
    reveal_strlit(".ps1");
    law_sanitized_is_safe(app);
    law_sanitized_is_safe(version);
    assert("-update-"@ =~= seq!['-', 'u', 'p', 'd', 'a', 't', 'e', '-']);
    assert("-"@ =~= seq!['-']);
    assert(".exe"@ =~= seq!['.', 'e', 'x', 'e']);
    assert("-updater-"@ =~= seq!['-', 'u', 'p', 'd', 'a', 't', 'e', 'r', '-']);
    assert(".ps1"@ =~= seq!['.', 'p', 's', '1']);
}

} // verus!
