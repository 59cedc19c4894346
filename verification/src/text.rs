//! Text primitives over the character view of strings: splitting, joining,
//! replacing, trimming and line handling, each with a specification over `Seq<char>`.
use vstd::prelude::*;

verus! {

/// `p` is a prefix of `s`.
pub open spec fn starts_with(s: Seq<char>, p: Seq<char>) -> bool {
    p.len() <= s.len() && s.subrange(0, p.len() as int) == p
}

/// `p` is a suffix of `s`.
pub open spec fn ends_with(s: Seq<char>, p: Seq<char>) -> bool {
    p.len() <= s.len() && s.subrange(s.len() - p.len(), s.len() as int) == p
}

/// `p` occurs in `s` starting at index `i`.
pub open spec fn occurs_at(s: Seq<char>, p: Seq<char>, i: int) -> bool {
    0 <= i && i + p.len() <= s.len() && s.subrange(i, i + p.len()) == p
}

/// `p` occurs somewhere in `s`.
pub open spec fn contains_seq(s: Seq<char>, p: Seq<char>) -> bool {
    exists|i: int| occurs_at(s, p, i)
}

/// Pieces of `s` between occurrences of the separator character `c`
/// (every occurrence separates; an empty text is one empty piece).
pub open spec fn split_char(s: Seq<char>, c: char) -> Seq<Seq<char>>
    decreases s.len(),
{
    if s.len() == 0 {
        seq![Seq::<char>::empty()]
    } else {
        let r = split_char(s.drop_last(), c);
        if s.last() == c {
            r.push(Seq::<char>::empty())
        } else {
            r.update(r.len() - 1, r.last().push(s.last()))
        }
    }
}

/// The pieces joined with `sep` between consecutive pieces.
pub open spec fn join(parts: Seq<Seq<char>>, sep: Seq<char>) -> Seq<char>
    decreases parts.len(),
{
    if parts.len() == 0 {
        Seq::<char>::empty()
    } else if parts.len() == 1 {
        parts[0]
    } else {
        join(parts.drop_last(), sep) + sep + parts.last()
    }
}

/// Every non-overlapping occurrence of `from` (found left to right) replaced by `to`.
pub open spec fn replace(s: Seq<char>, from: Seq<char>, to: Seq<char>) -> Seq<char>
    recommends
        from.len() > 0,
    decreases s.len(),
{
    if s.len() == 0 || from.len() == 0 {
        s
    } else if starts_with(s, from) {
        to + replace(s.subrange(from.len() as int, s.len() as int), from, to)
    } else {
        seq![s[0]] + replace(s.drop_first(), from, to)
    }
}

/// Removes one trailing carriage return.
pub open spec fn strip_cr(l: Seq<char>) -> Seq<char> {
    if l.len() > 0 && l.last() == '\r' {
        l.drop_last()
    } else {
        l
    }
}

/// The lines of a text as `str::lines` yields them: pieces between `'\n'`, a final
/// empty piece dropped, and a `'\r'` removed where it stood right before a `'\n'`.
pub open spec fn lines(s: Seq<char>) -> Seq<Seq<char>> {
    let parts = split_char(s, '\n');
    if s.len() == 0 || s.last() == '\n' {
        parts.drop_last().map_values(|l: Seq<char>| strip_cr(l))
    } else {
        parts.drop_last().map_values(|l: Seq<char>| strip_cr(l)).push(parts.last())
    }
}

/// Unicode `White_Space`, as `char::is_whitespace` defines it.
pub open spec fn is_whitespace(c: char) -> bool {
    ||| ('\u{9}' <= c && c <= '\u{d}')
    ||| c == ' '
    ||| c == '\u{85}'
    ||| c == '\u{a0}'
    ||| c == '\u{1680}'
    ||| ('\u{2000}' <= c && c <= '\u{200a}')
    ||| c == '\u{2028}'
    ||| c == '\u{2029}'
    ||| c == '\u{202f}'
    ||| c == '\u{205f}'
    ||| c == '\u{3000}'
}

/// Leading whitespace removed.
pub open spec fn trim_start(s: Seq<char>) -> Seq<char>
    decreases s.len(),
{
    if s.len() > 0 && is_whitespace(s[0]) {
        trim_start(s.drop_first())
    } else {
        s
    }
}

/// Trailing whitespace removed.
pub open spec fn trim_end(s: Seq<char>) -> Seq<char>
    decreases s.len(),
{
    if s.len() > 0 && is_whitespace(s.last()) {
        trim_end(s.drop_last())
    } else {
        s
    }
}

/// Whitespace removed at both ends, as `str::trim` does.
pub open spec fn trim(s: Seq<char>) -> Seq<char> {
    trim_end(trim_start(s))
}

/// Index of the first occurrence of `p` at or after `from`, if any.
pub open spec fn find_from(s: Seq<char>, p: Seq<char>, from: int) -> Option<int>
    decreases s.len() - from,
{
    if from < 0 || from + p.len() > s.len() {
        None
    } else if p.len() == 0 || occurs_at(s, p, from) {
        Some(from)
    } else {
        find_from(s, p, from + 1)
    }
}

/// Index of the first occurrence of `p` in `s`, if any.
pub open spec fn find(s: Seq<char>, p: Seq<char>) -> Option<int> {
    find_from(s, p, 0)
}

/// Appends one character (std's `String::push`).
#[verifier::external_body]
pub(crate) fn push_char(s: &mut String, c: char)
    ensures
        final(s)@ == old(s)@.push(c),
{
    s.push(c)
}

/// The characters of a string slice, in order.
pub fn chars_of(s: &str) -> (v: Vec<char>)
    ensures
        v@ == s@,
{
    let mut v: Vec<char> = Vec::new();
    for c in it: s.chars()
        invariant
            v@ == it.seq().take(it.index() as int),
            it.seq() == s@,
    {
        v.push(c);
    }
    v
}

/// A string made of the given characters.
pub fn string_of(v: &[char]) -> (s: String)
    ensures
        s@ == v@,
{
    let mut s = String::new();
    let mut i: usize = 0;
    while i < v.len()
        invariant
            i <= v.len(),
            s@ == v@.take(i as int),
        decreases v.len() - i,
    {
        push_char(&mut s, v[i]);
        i += 1;
        assert(v@.take(i as int) == v@.take(i - 1).push(v@[i - 1]));
    }
    assert(v@.take(v.len() as int) == v@);
    s
}

/// Whether `v` starts with `p`.
pub fn slice_starts_with(v: &[char], p: &[char]) -> (r: bool)
    ensures
        r == starts_with(v@, p@),
{
    if p.len() > v.len() {
        return false;
    }
    let mut i: usize = 0;
    while i < p.len()
        invariant
            p.len() <= v.len(),
            i <= p.len(),
            forall|j: int| 0 <= j < i ==> v@[j] == p@[j],
        decreases p.len() - i,
    {
        if v[i] != p[i] {
            assert(v@.subrange(0, p.len() as int)[i as int] != p@[i as int]);
            return false;
        }
        i += 1;
    }
    assert(v@.subrange(0, p.len() as int) =~= p@);
    true
}

/// Whether `p` occurs in `v` at index `at`.
pub fn slice_occurs_at(v: &[char], p: &[char], at: usize) -> (r: bool)
    ensures
        r == occurs_at(v@, p@, at as int),
{
    if at > v.len() || p.len() > v.len() - at {
        return false;
    }
    let mut i: usize = 0;
    while i < p.len()
        invariant
            at + p.len() <= v.len(),
            i <= p.len(),
            forall|j: int| 0 <= j < i ==> v@[at + j] == p@[j],
        decreases p.len() - i,
    {
        if v[at + i] != p[i] {
            assert(v@.subrange(at as int, at + p.len())[i as int] != p@[i as int]);
            return false;
        }
        i += 1;
    }
    assert(v@.subrange(at as int, at + p.len()) =~= p@);
    true
}

/// Whether `v` ends with `p`.
pub fn slice_ends_with(v: &[char], p: &[char]) -> (r: bool)
    ensures
        r == ends_with(v@, p@),
{
    if p.len() > v.len() {
        return false;
    }
    slice_occurs_at(v, p, v.len() - p.len())
}

/// Index of the first occurrence of `p` at or after `from`.
pub fn slice_find_from(v: &[char], p: &[char], from: usize) -> (r: Option<usize>)
    ensures
        r matches Some(i) ==> find_from(v@, p@, from as int) == Some(i as int),
        r is None ==> find_from(v@, p@, from as int) is None,
    decreases v.len() - from,
{
    if from > v.len() || p.len() > v.len() - from {
        return None;
    }
    if p.len() == 0 {
        assert(v@.subrange(from as int, from as int) =~= p@);
        return Some(from);
    }
    if slice_occurs_at(v, p, from) {
        Some(from)
    } else {
        slice_find_from(v, p, from + 1)
    }
}

/// Whether `p` occurs in `v`.
pub fn slice_contains(v: &[char], p: &[char]) -> (r: bool)
    ensures
        r == contains_seq(v@, p@),
{
    let r = slice_find_from(v, p, 0);
    proof {
        lemma_find_from_contains(v@, p@, 0);
    }
    r.is_some()
}

/// `find_from` succeeds exactly when `p` occurs at or after `from`, and then
/// names an occurrence.
pub proof fn lemma_find_from_contains(s: Seq<char>, p: Seq<char>, from: int)
    requires
        0 <= from,
    ensures
        find_from(s, p, from) is Some <==> exists|i: int| from <= i && occurs_at(s, p, i),
        find_from(s, p, from) matches Some(i) ==> from <= i && occurs_at(s, p, i)
            && forall|j: int| from <= j < i ==> !occurs_at(s, p, j),
    decreases s.len() - from,
{
    if from + p.len() > s.len() {
    } else if p.len() == 0 {
        assert(s.subrange(from, from) =~= p);
        assert(occurs_at(s, p, from));
    } else if occurs_at(s, p, from) {
        assert(occurs_at(s, p, from));
    } else {
        lemma_find_from_contains(s, p, from + 1);
        assert forall|i: int| from <= i && occurs_at(s, p, i) implies from + 1 <= i by {}
    }
}


/// The pieces of `v` between occurrences of `c`.
pub fn split_chars(v: &[char], c: char) -> (r: Vec<Vec<char>>)
    ensures
        r@.map_values(|p: Vec<char>| p@) == split_char(v@, c),
{
    let mut pieces: Vec<Vec<char>> = Vec::new();
    let mut cur: Vec<char> = Vec::new();
    let mut i: usize = 0;
    while i < v.len()
        invariant
            i <= v.len(),
            pieces@.map_values(|p: Vec<char>| p@).push(cur@) == split_char(v@.take(i as int), c),
        decreases v.len() - i,
    {
        let ghost prev = pieces@.map_values(|p: Vec<char>| p@).push(cur@);
        assert(v@.take(i + 1).drop_last() == v@.take(i as int));
        if v[i] == c {
            pieces.push(cur);
            cur = Vec::new();
            assert(pieces@.map_values(|p: Vec<char>| p@).push(cur@) =~= prev.push(Seq::empty()));
        } else {
            cur.push(v[i]);
            assert(pieces@.map_values(|p: Vec<char>| p@).push(cur@) =~= prev.update(
                prev.len() - 1,
                prev.last().push(v@[i as int]),
            ));
        }
        i += 1;
    }
    assert(v@.take(v.len() as int) == v@);
    pieces.push(cur);
    pieces
}

/// The pieces joined with `sep` between consecutive pieces.
pub fn join_chars(parts: &Vec<Vec<char>>, sep: &[char]) -> (r: Vec<char>)
    ensures
        r@ == join(parts@.map_values(|p: Vec<char>| p@), sep@),
{
    let ghost ps = parts@.map_values(|p: Vec<char>| p@);
    let mut out: Vec<char> = Vec::new();
    let mut i: usize = 0;
    while i < parts.len()
        invariant
            i <= parts.len(),
            ps == parts@.map_values(|p: Vec<char>| p@),
            out@ == join(ps.take(i as int), sep@),
        decreases parts.len() - i,
    {
        assert(ps.take(i + 1).drop_last() == ps.take(i as int));
        if i > 0 {
            append_chars(&mut out, sep);
        }
        append_chars(&mut out, parts[i].as_slice());
        i += 1;
    }
    assert(ps.take(parts.len() as int) == ps);
    out
}

/// Appends `w` to `v`.
pub fn append_chars(v: &mut Vec<char>, w: &[char])
    ensures
        final(v)@ == old(v)@ + w@,
{
    let ghost start = v@;
    let mut i: usize = 0;
    while i < w.len()
        invariant
            i <= w.len(),
            v@ == start + w@.take(i as int),
        decreases w.len() - i,
    {
        v.push(w[i]);
        i += 1;
        assert(w@.take(i as int) == w@.take(i - 1).push(w@[i - 1]));
    }
    assert(w@.take(w.len() as int) == w@);
}

/// A copy of the range `[lo, hi)` of `v`.
pub fn sub_chars(v: &[char], lo: usize, hi: usize) -> (r: Vec<char>)
    requires
        lo <= hi <= v.len(),
    ensures
        r@ == v@.subrange(lo as int, hi as int),
{
    let mut out: Vec<char> = Vec::new();
    let mut i: usize = lo;
    while i < hi
        invariant
            lo <= i <= hi <= v.len(),
            out@ == v@.subrange(lo as int, i as int),
        decreases hi - i,
    {
        out.push(v[i]);
        i += 1;
        assert(out@ =~= v@.subrange(lo as int, i as int));
    }
    out
}

/// Every non-overlapping occurrence of `from` replaced by `to`.
pub fn replace_chars(v: &[char], from: &[char], to: &[char]) -> (r: Vec<char>)
    requires
        from.len() > 0,
    ensures
        r@ == replace(v@, from@, to@),
{
    let mut out: Vec<char> = Vec::new();
    let mut i: usize = 0;
    assert(v@.subrange(0, v.len() as int) =~= v@);
    while i < v.len()
        invariant
            i <= v.len(),
            from.len() > 0,
            out@ + replace(v@.subrange(i as int, v.len() as int), from@, to@) == replace(
                v@,
                from@,
                to@,
            ),
        decreases v.len() - i,
    {
        let ghost rest = v@.subrange(i as int, v.len() as int);
        if slice_occurs_at(v, from, i) {
            assert(rest.subrange(0, from.len() as int) =~= v@.subrange(i as int, i + from.len()));
            assert(rest.subrange(from.len() as int, rest.len() as int) =~= v@.subrange(
                i + from.len(),
                v.len() as int,
            ));
            let ghost o = out@;
            append_chars(&mut out, to);
            i += from.len();
            assert(o + (to@ + replace(v@.subrange(i as int, v.len() as int), from@, to@))
                =~= out@ + replace(v@.subrange(i as int, v.len() as int), from@, to@));
        } else {
            assert(!starts_with(rest, from@)) by {
                if starts_with(rest, from@) {
                    assert(rest.subrange(0, from.len() as int) =~= v@.subrange(
                        i as int,
                        i + from.len(),
                    ));
                }
            }
            assert(rest.drop_first() =~= v@.subrange(i + 1, v.len() as int));
            let ghost o = out@;
            out.push(v[i]);
            i += 1;
            assert(o + (seq![v@[i - 1]] + replace(v@.subrange(i as int, v.len() as int), from@, to@))
                =~= out@ + replace(v@.subrange(i as int, v.len() as int), from@, to@));
        }
    }
    assert(out@ + replace(v@.subrange(v.len() as int, v.len() as int), from@, to@) =~= out@);
    out
}

/// Whether `c` is whitespace in the sense of `char::is_whitespace`.
pub fn char_is_whitespace(c: char) -> (r: bool)
    ensures
        r == is_whitespace(c),
{
    ('\u{9}' <= c && c <= '\u{d}') || c == ' ' || c == '\u{85}' || c == '\u{a0}' || c
        == '\u{1680}' || ('\u{2000}' <= c && c <= '\u{200a}') || c == '\u{2028}' || c
        == '\u{2029}' || c == '\u{202f}' || c == '\u{205f}' || c == '\u{3000}'
}

/// Whitespace removed at both ends.
pub fn trim_chars(v: &[char]) -> (r: Vec<char>)
    ensures
        r@ == trim(v@),
{
    let mut lo: usize = 0;
    assert(v@.subrange(0, v.len() as int) =~= v@);
    while lo < v.len() && char_is_whitespace(v[lo])
        invariant
            lo <= v.len(),
            trim_start(v@.subrange(lo as int, v.len() as int)) == trim_start(v@),
        decreases v.len() - lo,
    {
        assert(v@.subrange(lo as int, v.len() as int).drop_first() =~= v@.subrange(
            lo + 1,
            v.len() as int,
        ));
        lo += 1;
    }
    let ghost mid = v@.subrange(lo as int, v.len() as int);
    assert(trim_start(mid) == mid);
    let mut hi: usize = v.len();
    while hi > lo && char_is_whitespace(v[hi - 1])
        invariant
            lo <= hi <= v.len(),
            trim_end(v@.subrange(lo as int, hi as int)) == trim_end(mid),
        decreases hi - lo,
    {
        assert(v@.subrange(lo as int, hi as int).drop_last() =~= v@.subrange(
            lo as int,
            hi - 1,
        ));
        hi -= 1;
    }
    let r = sub_chars(v, lo, hi);
    assert(trim_end(r@) == r@);
    r
}

/// The lines of a text, as `str::lines` yields them.
pub fn lines_of(v: &[char]) -> (r: Vec<Vec<char>>)
    ensures
        r@.map_values(|l: Vec<char>| l@) == lines(v@),
{
    let parts = split_chars(v, '\n');
    let ghost ps = parts@.map_values(|p: Vec<char>| p@);
    assert(parts.len() >= 1) by {
        lemma_split_char_nonempty(v@, '\n');
    }
    let n = parts.len() - 1;
    let mut out: Vec<Vec<char>> = Vec::new();
    let mut i: usize = 0;
    while i < n
        invariant
            i <= n,
            n + 1 == parts.len(),
            ps == parts@.map_values(|p: Vec<char>| p@),
            out@.map_values(|l: Vec<char>| l@) == ps.take(i as int).map_values(
                |l: Seq<char>| strip_cr(l),
            ),
        decreases n - i,
    {
        let p = &parts[i];
        let line = if p.len() > 0 && p[p.len() - 1] == '\r' {
            sub_chars(p.as_slice(), 0, p.len() - 1)
        } else {
            sub_chars(p.as_slice(), 0, p.len())
        };
        assert(line@ == strip_cr(ps[i as int]));
        assert(ps.take(i + 1) =~= ps.take(i as int).push(ps[i as int]));
        let ghost old_m = out@.map_values(|l: Vec<char>| l@);
        let ghost line_v = line@;
        out.push(line);
        assert(out@.map_values(|l: Vec<char>| l@) =~= old_m.push(line_v));
        i += 1;
        assert(out@.map_values(|l: Vec<char>| l@) =~= ps.take(i as int).map_values(
            |l: Seq<char>| strip_cr(l),
        ));
    }
    assert(ps.take(n as int) =~= ps.drop_last());
    assert(out@.map_values(|l: Vec<char>| l@) == ps.drop_last().map_values(
        |l: Seq<char>| strip_cr(l),
    ));
    if v.len() == 0 || v[v.len() - 1] == '\n' {
        out
    } else {
        let last = sub_chars(parts[n].as_slice(), 0, parts[n].len());
        let ghost old_m = out@.map_values(|l: Vec<char>| l@);
        let ghost last_v = last@;
        out.push(last);
        assert(out@.map_values(|l: Vec<char>| l@) =~= old_m.push(last_v));
        assert(parts[n as int]@ == ps.last());
        assert(last_v =~= ps.last());
        assert(old_m == ps.drop_last().map_values(|l: Seq<char>| strip_cr(l)));
        assert(out@.map_values(|l: Vec<char>| l@) =~= ps.drop_last().map_values(
            |l: Seq<char>| strip_cr(l),
        ).push(ps.last()));
        out
    }
}

/// `split_char` always yields at least one piece.
pub proof fn lemma_split_char_nonempty(s: Seq<char>, c: char)
    ensures
        split_char(s, c).len() >= 1,
    decreases s.len(),
{
    if s.len() > 0 {
        lemma_split_char_nonempty(s.drop_last(), c);
    }
}

/// The number of bytes of a character in UTF-8.
pub fn utf8_width(c: char) -> (r: usize)
    ensures
        r == vstd::utf8::encode_scalar(c as u32).len(),
        1 <= r <= 4,
{
    proof {
        broadcast use vstd::utf8::char_is_scalar;
        assert(vstd::utf8::is_scalar(c as u32));
    }
    let u = c as u32;
    if u <= 0x7f {
        1
    } else if u <= 0x7ff {
        2
    } else if u <= 0xffff {
        3
    } else {
        4
    }
}

/// Whether the UTF-8 encoding of `v` takes at most `bound` bytes.
pub fn utf8_len_at_most(v: &[char], bound: usize) -> (r: bool)
    ensures
        r == (vstd::utf8::encode_utf8(v@).len() <= bound),
{
    let mut total: usize = 0;
    let mut i: usize = v.len();
    assert(v@.subrange(i as int, v.len() as int) =~= Seq::<char>::empty());
    while i > 0
        invariant
            i <= v.len(),
            total <= bound,
            total == vstd::utf8::encode_utf8(v@.subrange(i as int, v.len() as int)).len(),
        decreases i,
    {
        let w = utf8_width(v[i - 1]);
        assert(v@.subrange(i - 1, v.len() as int).drop_first() =~= v@.subrange(
            i as int,
            v.len() as int,
        ));
        if w > bound - total {
            proof {
                lemma_utf8_len_suffix_le(v@, i - 1);
            }
            return false;
        }
        total += w;
        i -= 1;
    }
    assert(v@.subrange(0, v.len() as int) =~= v@);
    true
}

/// The encoding of a text is at least as long as that of any of its suffixes.
pub proof fn lemma_utf8_len_suffix_le(s: Seq<char>, i: int)
    requires
        0 <= i <= s.len(),
    ensures
        vstd::utf8::encode_utf8(s.subrange(i, s.len() as int)).len() <= vstd::utf8::encode_utf8(
            s,
        ).len(),
    decreases i,
{
    if i > 0 {
        lemma_utf8_len_suffix_le(s, i - 1);
        assert(s.subrange(i - 1, s.len() as int).drop_first() =~= s.subrange(i, s.len() as int));
    } else {
        assert(s.subrange(0, s.len() as int) =~= s);
    }
}

/// `s` with every non-overlapping occurrence of `from` replaced by `to`.
pub fn replace_str(s: &str, from: &str, to: &str) -> (r: String)
    requires
        from@.len() > 0,
    ensures
        r@ == replace(s@, from@, to@),
{
    let v = chars_of(s);
    let f = chars_of(from);
    let t = chars_of(to);
    let r = replace_chars(v.as_slice(), f.as_slice(), t.as_slice());
    string_of(r.as_slice())
}

/// The character of a decimal digit.
pub open spec fn digit_char(d: int) -> char {
    if d == 0 {
        '0'
    } else if d == 1 {
        '1'
    } else if d == 2 {
        '2'
    } else if d == 3 {
        '3'
    } else if d == 4 {
        '4'
    } else if d == 5 {
        '5'
    } else if d == 6 {
        '6'
    } else if d == 7 {
        '7'
    } else if d == 8 {
        '8'
    } else {
        '9'
    }
}

/// The decimal digits of `n`.
pub open spec fn decimal(n: nat) -> Seq<char>
    decreases n,
{
    if n < 10 {
        seq![digit_char(n as int)]
    } else {
        decimal(n / 10).push(digit_char((n % 10) as int))
    }
}

/// Appends the decimal digits of `n`.
pub fn push_decimal(out: &mut String, n: usize)
    ensures
        final(out)@ == old(out)@ + decimal(n as nat),
    decreases n,
{
    if n >= 10 {
        push_decimal(out, n / 10);
    }
    let d = n % 10;
    let c = if d == 0 {
        '0'
    } else if d == 1 {
        '1'
    } else if d == 2 {
        '2'
    } else if d == 3 {
        '3'
    } else if d == 4 {
        '4'
    } else if d == 5 {
        '5'
    } else if d == 6 {
        '6'
    } else if d == 7 {
        '7'
    } else if d == 8 {
        '8'
    } else {
        '9'
    };
    push_char(out, c);
}


/// Joining after appending text to the last piece appends it to the whole.
pub proof fn lemma_join_extend_last(parts: Seq<Seq<char>>, sep: Seq<char>, q: Seq<char>)
    requires
        parts.len() > 0,
    ensures
        join(parts.update(parts.len() - 1, parts.last() + q), sep) == join(parts, sep) + q,
{
    let n = parts.update(parts.len() - 1, parts.last() + q);
    if parts.len() > 1 {
        assert(n.drop_last() =~= parts.drop_last());
        assert(join(n, sep) == join(n.drop_last(), sep) + sep + n.last());
        assert(join(n, sep) =~= join(parts, sep) + q);
    }
}

/// Splitting at a character and joining with it gives the text back.
pub proof fn lemma_join_split(s: Seq<char>, c: char)
    ensures
        join(split_char(s, c), seq![c]) == s,
    decreases s.len(),
{
    if s.len() == 0 {
        assert(join(seq![Seq::<char>::empty()], seq![c]) == Seq::<char>::empty());
    } else {
        let d = s.drop_last();
        lemma_join_split(d, c);
        lemma_split_char_nonempty(d, c);
        let r = split_char(d, c);
        if s.last() == c {
            let p = r.push(Seq::<char>::empty());
            assert(p.drop_last() =~= r);
            assert(join(p, seq![c]) == join(r, seq![c]) + seq![c] + Seq::<char>::empty());
            assert(s =~= d + seq![c]);
        } else {
            lemma_join_extend_last(r, seq![c], seq![s.last()]);
            assert(r.last().push(s.last()) =~= r.last() + seq![s.last()]);
            assert(s =~= d + seq![s.last()]);
        }
    }
}

/// Splitting a joined text at its separator character gives the pieces back,
/// where no piece holds that character.
pub proof fn lemma_split_join(parts: Seq<Seq<char>>, c: char)
    requires
        parts.len() > 0,
        forall|i: int| 0 <= i < parts.len() ==> !(#[trigger] parts[i]).contains(c),
    ensures
        split_char(join(parts, seq![c]), c) == parts,
    decreases parts.len(),
{
    if parts.len() == 1 {
        lemma_split_no_sep_piece(parts[0], c);
        assert(split_char(parts[0], c) =~= parts);
    } else {
        let d = parts.drop_last();
        lemma_split_join(d, c);
        let x = join(d, seq![c]);
        lemma_split_append_sep(x, c);
        lemma_split_append_piece(x.push(c), parts.last(), c);
        assert(join(parts, seq![c]) =~= x.push(c) + parts.last());
        assert(split_char(x.push(c), c) == d.push(Seq::<char>::empty()));
        assert(d.push(Seq::<char>::empty()).update(d.len() as int, parts.last()) =~= parts);
    }
}

/// A text without the separator is one piece.
pub proof fn lemma_split_no_sep_piece(s: Seq<char>, c: char)
    requires
        !s.contains(c),
    ensures
        split_char(s, c) == seq![s],
    decreases s.len(),
{
    if s.len() > 0 {
        assert(!s.drop_last().contains(c)) by {
            if s.drop_last().contains(c) {
                let j = choose|j: int| 0 <= j < s.drop_last().len() && s.drop_last()[j] == c;
                assert(s[j] == c);
            }
        }
        lemma_split_no_sep_piece(s.drop_last(), c);
        assert(s.last() != c) by {
            assert(s[s.len() - 1] == s.last());
        }
        assert(s.drop_last().push(s.last()) =~= s);
        assert(seq![s.drop_last()].update(0, s.drop_last().push(s.last())) =~= seq![s]);
    } else {
        assert(s =~= Seq::<char>::empty());
    }
}

/// A separator at the end starts an empty piece.
pub proof fn lemma_split_append_sep(s: Seq<char>, c: char)
    ensures
        split_char(s.push(c), c) == split_char(s, c).push(Seq::<char>::empty()),
{
    assert(s.push(c).drop_last() =~= s);
}

/// Text without the separator appended joins the last piece.
pub proof fn lemma_split_append_piece(s: Seq<char>, q: Seq<char>, c: char)
    requires
        !q.contains(c),
    ensures
        split_char(s + q, c) == split_char(s, c).update(
            split_char(s, c).len() - 1,
            split_char(s, c).last() + q,
        ),
    decreases q.len(),
{
    lemma_split_char_nonempty(s, c);
    if q.len() == 0 {
        assert(s + q =~= s);
        assert(split_char(s, c).last() + q =~= split_char(s, c).last());
        assert(split_char(s, c).update(split_char(s, c).len() - 1, split_char(s, c).last()) =~= split_char(
            s,
            c,
        ));
    } else {
        let qd = q.drop_last();
        assert(!qd.contains(c)) by {
            if qd.contains(c) {
                let j = choose|j: int| 0 <= j < qd.len() && qd[j] == c;
                assert(q[j] == c);
            }
        }
        lemma_split_append_piece(s, qd, c);
        assert((s + q).drop_last() =~= s + qd);
        assert((s + q).last() == q.last());
        assert(q.last() != c) by {
            assert(q[q.len() - 1] == q.last());
        }
        let r = split_char(s, c);
        lemma_split_char_nonempty(s + qd, c);
        assert(split_char(s + qd, c).last() == r.last() + qd);
        assert((r.last() + qd).push(q.last()) =~= r.last() + q);
        assert(split_char(s + q, c) =~= r.update(r.len() - 1, r.last() + q));
    }
}


/// No piece of a split holds the separator.
pub proof fn lemma_split_pieces_no_sep(s: Seq<char>, c: char)
    ensures
        forall|i: int| 0 <= i < split_char(s, c).len() ==> !(#[trigger] split_char(s, c)[i]).contains(c),
    decreases s.len(),
{
    if s.len() > 0 {
        let d = s.drop_last();
        lemma_split_pieces_no_sep(d, c);
        lemma_split_char_nonempty(d, c);
        let r = split_char(d, c);
        assert forall|i: int| 0 <= i < split_char(s, c).len() implies !(#[trigger] split_char(s, c)[i]).contains(c) by {
            if s.last() == c {
                if i < r.len() {
                    assert(split_char(s, c)[i] == r[i]);
                } else {
                    assert(split_char(s, c)[i] =~= Seq::<char>::empty());
                }
            } else {
                if i < r.len() - 1 {
                    assert(split_char(s, c)[i] == r[i]);
                } else {
                    let l = r.last().push(s.last());
                    assert(split_char(s, c)[i] == l);
                    assert(!r[r.len() - 1].contains(c));
                    if l.contains(c) {
                        let j = choose|j: int| 0 <= j < l.len() && l[j] == c;
                        if j < r.last().len() {
                            assert(r.last()[j] == c);
                        }
                    }
                }
            }
        }
    } else {
        assert forall|i: int| 0 <= i < split_char(s, c).len() implies !(#[trigger] split_char(s, c)[i]).contains(c) by {
            assert(split_char(s, c)[i] =~= Seq::<char>::empty());
        }
    }
}

/// No line holds a newline.
pub proof fn lemma_lines_no_newline(s: Seq<char>)
    ensures
        forall|i: int| 0 <= i < lines(s).len() ==> !(#[trigger] lines(s)[i]).contains('\n'),
{
    lemma_split_pieces_no_sep(s, '\n');
    let parts = split_char(s, '\n');
    lemma_split_char_nonempty(s, '\n');
    assert forall|i: int| 0 <= i < lines(s).len() implies !(#[trigger] lines(s)[i]).contains('\n') by {
        let p = parts[i];
        assert(!p.contains('\n'));
        if i < parts.len() - 1 {
            assert(lines(s)[i] == strip_cr(p));
            if strip_cr(p).contains('\n') {
                let j = choose|j: int| 0 <= j < strip_cr(p).len() && strip_cr(p)[j] == '\n';
                assert(p[j] == '\n');
            }
        } else {
            assert(lines(s)[i] == p);
        }
    }
}

/// Joining pieces without newlines with newlines and taking the lines gives no
/// more lines than pieces.
pub proof fn lemma_lines_join_len(a: Seq<Seq<char>>)
    requires
        forall|i: int| 0 <= i < a.len() ==> !(#[trigger] a[i]).contains('\n'),
    ensures
        lines(join(a, seq!['\n'])).len() <= a.len(),
{
    if a.len() == 0 {
        assert(join(a, seq!['\n']) =~= Seq::<char>::empty());
        lemma_split_char_nonempty(Seq::<char>::empty(), '\n');
    } else {
        lemma_split_join(a, '\n');
    }
}


/// Splitting text joined at a separator splits each side.
pub proof fn lemma_split_concat(a: Seq<char>, c: Seq<char>, sep: char)
    ensures
        split_char(a + seq![sep] + c, sep) == split_char(a, sep) + split_char(c, sep),
    decreases c.len(),
{
    lemma_split_char_nonempty(a, sep);
    if c.len() == 0 {
        assert(a + seq![sep] + c =~= a.push(sep));
        assert(a.push(sep).drop_last() =~= a);
        assert(split_char(c, sep) =~= seq![Seq::<char>::empty()]);
        assert(split_char(a, sep).push(Seq::<char>::empty()) =~= split_char(a, sep) + seq![
            Seq::<char>::empty(),
        ]);
    } else {
        let d = c.drop_last();
        lemma_split_concat(a, d, sep);
        lemma_split_char_nonempty(d, sep);
        let whole = a + seq![sep] + c;
        assert(whole.drop_last() =~= a + seq![sep] + d);
        assert(whole.last() == c.last());
        let l = split_char(a, sep);
        let r = split_char(d, sep);
        if c.last() == sep {
            assert((l + r).push(Seq::<char>::empty()) =~= l + r.push(Seq::<char>::empty()));
        } else {
            let lr = l + r;
            assert(lr.update(lr.len() - 1, lr.last().push(c.last())) =~= l + r.update(
                r.len() - 1,
                r.last().push(c.last()),
            ));
        }
    }
}

} // verus!
