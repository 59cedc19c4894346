//! Link targets: percent-encoding of page names and the mapping from a
//! wiki link to the address it points at.
use vstd::prelude::*;
use vstd::utf8::*;

use crate::text::{
    chars_of, lemma_split_char_nonempty, slice_starts_with, split_char, starts_with, string_of,
    sub_chars,
};

verus! {

/// Bytes that percent-encoding leaves as they are: ASCII alphanumerics and `-`, `.`, `_`, `~`.
pub open spec fn is_unreserved(b: u8) -> bool {
    (0x30 <= b <= 0x39) || (0x41 <= b <= 0x5a) || (0x61 <= b <= 0x7a) || b == 0x2d || b == 0x2e
        || b == 0x5f || b == 0x7e
}

/// The upper-case hexadecimal digit for a value below 16.
pub open spec fn hex_digit(d: u8) -> char {
    if d < 10 {
        (0x30 + d) as char
    } else {
        (0x41 - 10 + d) as char
    }
}

/// Percent-encoding of a byte sequence: unreserved bytes kept, every other byte
/// written as `%` and two upper-case hexadecimal digits.
pub open spec fn percent_encode(bytes: Seq<u8>) -> Seq<char>
    decreases bytes.len(),
{
    if bytes.len() == 0 {
        Seq::<char>::empty()
    } else {
        let b = bytes[0];
        let head = if is_unreserved(b) {
            seq![b as char]
        } else {
            seq!['%', hex_digit(b / 16), hex_digit(b % 16)]
        };
        head + percent_encode(bytes.drop_first())
    }
}

/// The value of an ASCII hexadecimal digit, if the byte is one.
pub open spec fn hex_value(b: u8) -> Option<u8> {
    if 0x30 <= b <= 0x39 {
        Some((b - 0x30) as u8)
    } else if 0x41 <= b <= 0x46 {
        Some((b - 0x41 + 10) as u8)
    } else if 0x61 <= b <= 0x66 {
        Some((b - 0x61 + 10) as u8)
    } else {
        None
    }
}

/// Percent-decoding of a byte sequence: `%` followed by two hexadecimal digits
/// becomes the byte they denote; every other byte is kept.
pub open spec fn percent_decode(bytes: Seq<u8>) -> Seq<u8>
    decreases bytes.len(),
{
    if bytes.len() == 0 {
        Seq::<u8>::empty()
    } else if bytes[0] == 0x25 && bytes.len() >= 3 && hex_value(bytes[1]) is Some && hex_value(
        bytes[2],
    ) is Some {
        seq![(hex_value(bytes[1]).unwrap() * 16 + hex_value(bytes[2]).unwrap()) as u8]
            + percent_decode(bytes.subrange(3, bytes.len() as int))
    } else {
        seq![bytes[0]] + percent_decode(bytes.drop_first())
    }
}

/// The percent-encoding of the UTF-8 bytes of a text.
pub open spec fn url_encoded(s: Seq<char>) -> Seq<char> {
    percent_encode(encode_utf8(s))
}

/// The text that percent-decoding yields, if the decoded bytes are valid UTF-8.
pub open spec fn url_decoded(s: Seq<char>) -> Option<Seq<char>> {
    let bytes = percent_decode(encode_utf8(s));
    if valid_utf8(bytes) {
        Some(decode_utf8(bytes))
    } else {
        None
    }
}

/// Calls `urlencoding::encode`, which percent-encodes every UTF-8 byte of the text
/// except ASCII alphanumerics and `-`, `_`, `.`, `~`, with upper-case hexadecimal digits.
#[verifier::external_body]
pub(crate) fn url_encode(s: &str) -> (r: String)
    ensures
        r@ == url_encoded(s@),
{
    urlencoding::encode(s).into_owned()
}

/// Calls `urlencoding::decode`: a `%` followed by two hexadecimal digits becomes the
/// byte they denote, every other byte stays, and the result is `None` where the
/// bytes are not valid UTF-8.
#[verifier::external_body]
pub(crate) fn url_decode(s: &str) -> (r: Option<String>)
    ensures
        r matches Some(d) ==> url_decoded(s@) == Some(d@),
        r is None ==> url_decoded(s@) is None,
{
    match urlencoding::decode(s) {
        Ok(d) => Some(d.into_owned()),
        Err(_) => None,
    }
}

/// The part of a link before its first `:` (the whole link when it has none).
pub open spec fn link_scheme(link: Seq<char>) -> Seq<char> {
    split_char(link, ':')[0]
}

/// Whether `format_links` is defined on the link: the one link it cannot handle
/// is the bare word `files`, whose `files:` prefix is missing.
pub open spec fn format_links_defined(link: Seq<char>) -> bool {
    link != "files"@
}

/// Where a wiki link points: web links stay as they are, `files:` links go to the
/// uploaded-files area, every other link names a wiki page.
pub open spec fn spec_format_links(link: Seq<char>) -> Seq<char> {
    let scheme = link_scheme(link);
    if scheme == "http"@ || scheme == "https"@ {
        link
    } else if scheme == "files"@ {
        "/files/"@ + url_encoded(link.subrange(6, link.len() as int))
    } else {
        "/"@ + url_encoded(link)
    }
}

/// A `files:` link points into the uploaded-files area: `/files/` and the rest
/// of the link, percent-encoded.
pub proof fn law_file_links_point_to_uploads(rest: Seq<char>)
    ensures
        spec_format_links("files:"@ + rest) == "/files/"@ + url_encoded(rest),
        starts_with("/files/"@ + url_encoded(rest), "/files/"@),
{
    reveal_strlit("files:");
    reveal_strlit("files");
    reveal_strlit("/files/");
    reveal_strlit("http");
    reveal_strlit("https");
    let f = "files"@;
    assert(f =~= seq!['f', 'i', 'l', 'e', 's']);
    assert(f != "http"@ && f != "https"@) by {
        assert("http"@.len() == 4);
        assert("https"@[0] == 'h');
    }
    assert("files:"@ + rest =~= f + seq![':'] + rest);
    crate::text::lemma_split_concat(f, rest, ':');
    crate::text::lemma_split_no_sep_piece(f, ':');
    lemma_split_char_nonempty(rest, ':');
    assert(link_scheme("files:"@ + rest) == f);
    assert(("files:"@ + rest).subrange(6, ("files:"@ + rest).len() as int) =~= rest);
    let r = "/files/"@ + url_encoded(rest);
    assert(r.subrange(0, 7) =~= "/files/"@);
}

/// A link without a scheme names a wiki page: `/` and the link,
/// percent-encoded (a bare `http`, `https` or `files` is read as a scheme).
pub proof fn law_page_links_point_to_pages(link: Seq<char>)
    requires
        !link.contains(':'),
        link != "http"@,
        link != "https"@,
        link != "files"@,
    ensures
        spec_format_links(link) == "/"@ + url_encoded(link),
{
    crate::text::lemma_split_no_sep_piece(link, ':');
    assert(link_scheme(link) == link);
}

/// A web link (`http:` or `https:`) is its own address.
pub proof fn law_web_links_stay(scheme: Seq<char>, rest: Seq<char>)
    requires
        scheme == "http"@ || scheme == "https"@,
    ensures
        spec_format_links(scheme + ":"@ + rest) == scheme + ":"@ + rest,
{
    reveal_strlit("http");
    reveal_strlit("https");
    reveal_strlit(":");
    assert(scheme + ":"@ + rest =~= scheme + seq![':'] + rest);
    crate::text::lemma_split_concat(scheme, rest, ':');
    assert(!scheme.contains(':')) by {
        if scheme.contains(':') {
            let j = choose|j: int| 0 <= j < scheme.len() && scheme[j] == ':';
            assert(scheme[j] != ':');
        }
    }
    crate::text::lemma_split_no_sep_piece(scheme, ':');
    lemma_split_char_nonempty(rest, ':');
    assert(link_scheme(scheme + ":"@ + rest) == scheme);
}

/// Whether two character slices are equal.
pub fn chars_eq(a: &[char], b: &[char]) -> (r: bool)
    ensures
        r == (a@ == b@),
{
    if a.len() != b.len() {
        return false;
    }
    let r = slice_starts_with(a, b);
    proof {
        assert(a@.subrange(0, b@.len() as int) =~= a@);
        if r {
            assert(a@ =~= a@.subrange(0, b@.len() as int));
        }
    }
    r
}

/// Index of the first `c` in `v`, or the length of `v` when it has none.
pub fn index_of_char(v: &[char], c: char) -> (r: usize)
    ensures
        r <= v.len(),
        forall|j: int| 0 <= j < r ==> v@[j] != c,
        r == v.len() || v@[r as int] == c,
{
    let mut i: usize = 0;
    while i < v.len() && v[i] != c
        invariant
            i <= v.len(),
            forall|j: int| 0 <= j < i ==> v@[j] != c,
        decreases v.len() - i,
    {
        i += 1;
    }
    i
}

/// A text holding the separator splits into at least two pieces.
pub proof fn lemma_split_len_two(s: Seq<char>, c: char, j: int)
    requires
        0 <= j < s.len(),
        s[j] == c,
    ensures
        split_char(s, c).len() >= 2,
    decreases s.len(),
{
    lemma_split_char_nonempty(s.drop_last(), c);
    if s.last() != c {
        lemma_split_len_two(s.drop_last(), c, j);
    }
}

/// The first piece of a split ends at the first separator.
pub proof fn lemma_split_first_piece(s: Seq<char>, c: char, i: int)
    requires
        0 <= i <= s.len(),
        forall|j: int| 0 <= j < i ==> s[j] != c,
        i == s.len() || s[i] == c,
    ensures
        split_char(s, c)[0] == s.subrange(0, i),
    decreases s.len(),
{
    if i == s.len() {
        lemma_split_no_sep(s, c);
        assert(s.subrange(0, i) == s);
    } else if i == s.len() - 1 {
        lemma_split_no_sep(s.drop_last(), c);
        assert(s.subrange(0, i) == s.drop_last());
    } else {
        lemma_split_first_piece(s.drop_last(), c, i);
        lemma_split_len_two(s.drop_last(), c, i);
        assert(s.drop_last().subrange(0, i) == s.subrange(0, i));
    }
}

/// Without separators, the split is the whole text.
pub proof fn lemma_split_no_sep(s: Seq<char>, c: char)
    requires
        forall|j: int| 0 <= j < s.len() ==> s[j] != c,
    ensures
        split_char(s, c) == seq![s],
    decreases s.len(),
{
    if s.len() > 0 {
        lemma_split_no_sep(s.drop_last(), c);
        assert(s.drop_last().push(s.last()) == s);
        assert(split_char(s, c) =~= seq![s]);
    } else {
        assert(s =~= Seq::<char>::empty());
    }
}

/// Where a wiki link points, as an address.
pub fn format_links(link: &str) -> (r: String)
    requires
        format_links_defined(link@),
    ensures
        r@ == spec_format_links(link@),
{
    let v = chars_of(link);
    let k = index_of_char(v.as_slice(), ':');
    proof {
        lemma_split_first_piece(v@, ':', k as int);
    }
    let scheme = sub_chars(v.as_slice(), 0, k);
    let http = chars_of("http");
    let https = chars_of("https");
    let files = chars_of("files");
    if chars_eq(scheme.as_slice(), http.as_slice()) || chars_eq(
        scheme.as_slice(),
        https.as_slice(),
    ) {
        string_of(v.as_slice())
    } else if chars_eq(scheme.as_slice(), files.as_slice()) {
        proof {
            reveal_strlit("files");
        }
        assert(scheme@.len() == 5);
        assert(k < v.len()) by {
            if k == v.len() {
                assert(v@ =~= scheme@);
            }
        }
        let rest = string_of(sub_chars(v.as_slice(), 6, v.len()).as_slice());
        let mut out = String::from_str("/files/");
        let enc = url_encode(rest.as_str());
        out.append(enc.as_str());
        out
    } else {
        let mut out = String::from_str("/");
        let enc = url_encode(link);
        out.append(enc.as_str());
        out
    }
}

} // verus!
