//! Addresses of web resources.
use crate::text::{
    before, chars_of, find_char, first_index, lemma_first_index, lemma_first_index_unique,
    string_of, without_prefix,
};
use vstd::prelude::*;
use vstd::slice::slice_subrange;

verus! {

/// The host and the path of an HTTPS address: the text between `https://` and the first slash
/// behind it, and the text from that slash on.
pub open spec fn https_parts(url: Seq<char>) -> Option<(Seq<char>, Seq<char>)> {
    let rest = url.skip("https://"@.len() as int);
    if "https://"@.is_prefix_of(url) && rest.contains('/') {
        Some((before(rest, '/'), rest.skip(first_index(rest, '/') as int)))
    } else {
        None
    }
}

/// Takes an HTTPS address apart into host and path.
pub fn split_https_url(url: &str) -> (parts: Option<(String, String)>)
    ensures
        match parts {
            Some((host, path)) => https_parts(url@) == Some((host@, path@)),
            None => https_parts(url@) is None,
        },
{
    let chars = chars_of(url);
    let rest = match without_prefix(chars.as_slice(), "https://") {
        Some(rest) => rest,
        None => {
            return None;
        },
    };
    match find_char(rest, '/') {
        Some(slash) => {
            let host = string_of(slice_subrange(rest, 0, slash));
            let path = string_of(slice_subrange(rest, slash, rest.len()));
            proof {
                assert(host@ =~= before(rest@, '/'));
                assert(path@ =~= rest@.skip(slash as int));
            }
            Some((host, path))
        },
        None => None,
    }
}

/// Host and path make up the address again; the host holds no slash and the path begins with one.
pub proof fn law_https_parts_make_up_the_address(url: Seq<char>)
    requires
        https_parts(url) is Some,
    ensures
        ({
            let (host, path) = https_parts(url)->0;
            &&& url == "https://"@ + host + path
            &&& !host.contains('/')
            &&& path.len() > 0
            &&& path[0] == '/'
        }),
{
    let scheme = "https://"@;
    let rest = url.skip(scheme.len() as int);
    let (host, path) = https_parts(url)->0;
    lemma_first_index(rest, '/');
    let k = choose|k: int| 0 <= k < rest.len() && rest[k] == '/';
    assert(first_index(rest, '/') <= k);
    assert(host + path =~= rest);
    assert(url.subrange(0, scheme.len() as int) == scheme);
    assert(url =~= scheme + rest);
    assert(url =~= scheme + host + path);
}

/// An address of an HTTPS host and a path is taken apart into these.
pub proof fn law_https_address_splits_into_its_parts(host: Seq<char>, path: Seq<char>)
    requires
        !host.contains('/'),
        path.len() > 0,
        path[0] == '/',
    ensures
        https_parts("https://"@ + host + path) == Some((host, path)),
{
    let scheme = "https://"@;
    let url = scheme + host + path;
    let rest = url.skip(scheme.len() as int);
    assert(rest =~= host + path);
    assert(scheme =~= url.subrange(0, scheme.len() as int));
    assert(rest[host.len() as int] == '/');
    assert forall|i: int| 0 <= i < host.len() implies rest[i] != '/' by {
        assert(rest[i] == host[i]);
        assert(host.contains(host[i]));
    }
    lemma_first_index_unique(rest, '/', host.len() as int);
    assert(before(rest, '/') =~= host);
    assert(rest.skip(host.len() as int) =~= path);
}

/// The UTF-16 code units of a character.
pub open spec fn utf16_units(c: char) -> Seq<u16> {
    let code = c as u32;
    if code < 0x10000 {
        seq![code as u16]
    } else {
        seq![
            (0xd800 + (code - 0x10000) / 0x400) as u16,
            (0xdc00 + (code - 0x10000) % 0x400) as u16,
        ]
    }
}

/// A text in UTF-16.
pub open spec fn utf16(s: Seq<char>) -> Seq<u16>
    decreases s.len(),
{
    if s.len() == 0 {
        Seq::empty()
    } else {
        utf16(s.drop_last()) + utf16_units(s.last())
    }
}

/// The text in UTF-16 with a closing zero, as Windows takes it.
pub fn wide(value: &str) -> (units: Vec<u16>)
    ensures
        units@ == utf16(value@).push(0),
{
    broadcast use vstd::utf8::char_is_scalar;

    let chars = chars_of(value);
    let mut units: Vec<u16> = Vec::new();
    let mut i: usize = 0;
    while i < chars.len()
        invariant
            chars@ == value@,
            i <= chars@.len(),
            units@ == utf16(chars@.take(i as int)),
        decreases chars@.len() - i,
    {
        let ghost done = units@;
        let code: u32 = chars[i] as u32;
        if code < 0x10000 {
            units.push(code as u16);
        } else {
            let high: u32 = (code - 0x10000) / 0x400;
            let low: u32 = (code - 0x10000) % 0x400;
            units.push((0xd800 + high) as u16);
            units.push((0xdc00 + low) as u16);
        }
        proof {
            assert(chars@.take(i + 1).drop_last() =~= chars@.take(i as int));
            assert(units@ =~= done + utf16_units(chars@[i as int]));
        }
        i = i + 1;
    }
    assert(chars@.take(i as int) =~= chars@);
    units.push(0);
    units
}

proof fn lemma_units(c: char)
    ensures
        utf16_units(c).len() == 1 || utf16_units(c).len() == 2,
        utf16_units(c).len() == 2 <==> 0xdc00 <= utf16_units(c).last() <= 0xdfff,
{
    vstd::utf8::char_is_scalar(c);
}

proof fn lemma_units_apart(c: char, d: char)
    requires
        utf16_units(c) == utf16_units(d),
    ensures
        c == d,
{
    vstd::utf8::char_is_scalar(c);
    vstd::utf8::char_is_scalar(d);
    lemma_units(c);
    lemma_units(d);
    let x = utf16_units(c);
    let y = utf16_units(d);
    assert(x[0] == y[0]);
    if x.len() == 2 {
        assert(x[1] == y[1]);
    }
}

/// Different texts differ in UTF-16: nothing is lost on the way to Windows.
pub proof fn law_utf16_tells_texts_apart(a: Seq<char>, b: Seq<char>)
    requires
        utf16(a) == utf16(b),
    ensures
        a == b,
    decreases a.len(),
{
    if a.len() > 0 && b.len() > 0 {
        let x = utf16_units(a.last());
        let y = utf16_units(b.last());
        let all = utf16(a);
        lemma_units(a.last());
        lemma_units(b.last());
        assert(all.last() == x.last());
        assert(all.last() == y.last());
        assert(x =~= all.skip(all.len() - x.len()));
        assert(y =~= all.skip(all.len() - y.len()));
        lemma_units_apart(a.last(), b.last());
        assert(utf16(a.drop_last()) =~= all.take(all.len() - x.len()));
        assert(utf16(b.drop_last()) =~= all.take(all.len() - y.len()));
        law_utf16_tells_texts_apart(a.drop_last(), b.drop_last());
        assert(a =~= a.drop_last().push(a.last()));
        assert(b =~= b.drop_last().push(b.last()));
    } else {
        if a.len() > 0 {
            lemma_units(a.last());
            assert(utf16(a).len() > 0);
        }
        if b.len() > 0 {
            lemma_units(b.last());
            assert(utf16(b).len() > 0);
        }
        assert(a =~= b);
    }
}

/// An address that does not begin with `https://`, or has no slash behind it, has no parts.
pub proof fn law_other_addresses_have_no_parts(url: Seq<char>)
    requires
        url.len() < 8 || !(url[0] == 'h' && url[1] == 't' && url[2] == 't' && url[3] == 'p'
            && url[4] == 's' && url[5] == ':' && url[6] == '/' && url[7] == '/') || forall|i: int|
            8 <= i < url.len() ==> url[i] != '/',
    ensures
        https_parts(url) is None,
{
    reveal_strlit("https://");
    let rest = url.skip(8);
    if "https://"@.is_prefix_of(url) {
        let front = url.subrange(0, 8);
        assert(front[0] == 'h' && front[1] == 't' && front[2] == 't' && front[3] == 'p' && front[4]
            == 's' && front[5] == ':' && front[6] == '/' && front[7] == '/');
        if rest.contains('/') {
            let k = choose|k: int| 0 <= k < rest.len() && rest[k] == '/';
            assert(url[k + 8] == '/');
        }
    }
}

/// A character of the basic plane is one unit, its code point. Any other is a high surrogate and a
/// low one, which count the code point from 0x10000 on.
pub proof fn law_units_by_code_point(c: char)
    ensures
        c as int <= 0xffff ==> utf16(seq![c]).len() == 1 && utf16(seq![c])[0] == c as int,
        c as int > 0xffff ==> {
            let units = utf16(seq![c]);
            &&& units.len() == 2
            &&& 0xd800 <= units[0] <= 0xdbff
            &&& 0xdc00 <= units[1] <= 0xdfff
            &&& c as int == 0x10000 + 0x400 * (units[0] - 0xd800) + (units[1] - 0xdc00)
        },
{
    broadcast use vstd::utf8::char_is_scalar;

    assert(utf16(seq![c]) =~= utf16(seq![c].drop_last()) + utf16_units(c));
    assert(seq![c].drop_last() =~= Seq::<char>::empty());
    assert(utf16(Seq::<char>::empty()) =~= Seq::<u16>::empty());
    assert(utf16(seq![c]) =~= utf16_units(c));
}

/// UTF-16 goes character by character, in their order.
pub proof fn law_units_of_a_text_in_parts(a: Seq<char>, b: Seq<char>)
    ensures
        utf16(a + b) == utf16(a) + utf16(b),
        utf16(Seq::<char>::empty()).len() == 0,
    decreases b.len(),
{
    if b.len() > 0 {
        assert((a + b).drop_last() =~= a + b.drop_last());
        law_units_of_a_text_in_parts(a, b.drop_last());
        assert(utf16(a + b) =~= utf16(a) + utf16(b));
    } else {
        assert(a + b =~= a);
        assert(utf16(a + b) =~= utf16(a) + utf16(b));
    }
}

} // verus!
