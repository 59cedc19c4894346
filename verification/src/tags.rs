//! A note's tag list, as it is written in a header (`[first, second]`) and as a
//! list of values.
use vstd::prelude::*;

use crate::html::strs;
use crate::text::{
    chars_of, is_whitespace, join, lemma_split_join, split_char, split_chars, string_of,
    sub_chars, trim, trim_chars, trim_start,
};

verus! {

/// The tags of a trimmed piece list: each piece trimmed, empty pieces dropped.
pub open spec fn tag_values(parts: Seq<Seq<char>>) -> Seq<Seq<char>>
    decreases parts.len(),
{
    if parts.len() == 0 {
        Seq::<Seq<char>>::empty()
    } else {
        let rest = tag_values(parts.drop_last());
        let t = trim(parts.last());
        if t.len() > 0 {
            rest.push(t)
        } else {
            rest
        }
    }
}

/// `s` without one leading `[` and one trailing `]`, where they are there.
pub open spec fn strip_brackets(s: Seq<char>) -> Seq<char> {
    let a = if s.len() > 0 && s[0] == '[' {
        s.subrange(1, s.len() as int)
    } else {
        s
    };
    if a.len() > 0 && a[a.len() - 1] == ']' {
        a.subrange(0, a.len() - 1)
    } else {
        a
    }
}

/// The tags written in `raw`: the text inside optional brackets, split at commas,
/// each tag trimmed, empty ones dropped.
pub open spec fn parse_tags(raw: Seq<char>) -> Seq<Seq<char>> {
    tag_values(split_char(strip_brackets(trim(raw)), ','))
}

/// The header form of a tag list: `[a, b, c]`.
pub open spec fn tags_text(values: Seq<Seq<char>>) -> Seq<char> {
    "["@ + join(values, ", "@) + "]"@
}

/// A tag list.
pub struct TagsArray {
    pub values: Vec<String>,
}

/// Joins strings with a separator.
pub fn join_strings(parts: &Vec<String>, sep: &str) -> (r: String)
    ensures
        r@ == join(strs(parts@), sep@),
{
    let ghost ps = strs(parts@);
    let mut out = String::new();
    let mut i: usize = 0;
    while i < parts.len()
        invariant
            i <= parts.len(),
            ps == strs(parts@),
            out@ == join(ps.take(i as int), sep@),
        decreases parts.len() - i,
    {
        let ghost before = out@;
        if i > 0 {
            out.append(sep);
        }
        out.append(parts[i].as_str());
        proof {
            let t = ps.take(i as int + 1);
            assert(t.drop_last() =~= ps.take(i as int));
            assert(t.last() == parts@[i as int]@);
            if i == 0 {
                assert(t.len() == 1);
                assert(join(ps.take(0), sep@) =~= Seq::<char>::empty());
                assert(out@ =~= parts@[0]@);
            }
        }
        i += 1;
    }
    assert(ps.take(parts.len() as int) =~= ps);
    out
}

impl TagsArray {
    /// Reads a tag list from its header form.
    pub fn new(raw: &str) -> (r: TagsArray)
        ensures
            strs(r.values@) == parse_tags(raw@),
    {
        let t = trim_chars(chars_of(raw).as_slice());
        let a = if t.len() > 0 && t[0] == '[' {
            sub_chars(t.as_slice(), 1, t.len())
        } else {
            t
        };
        let b = if a.len() > 0 && a[a.len() - 1] == ']' {
            sub_chars(a.as_slice(), 0, a.len() - 1)
        } else {
            a
        };
        assert(b@ == strip_brackets(trim(raw@)));
        let parts = split_chars(b.as_slice(), ',');
        let ghost ps = parts@.map_values(|p: Vec<char>| p@);
        let mut values: Vec<String> = Vec::new();
        let mut i: usize = 0;
        while i < parts.len()
            invariant
                i <= parts.len(),
                ps == parts@.map_values(|p: Vec<char>| p@),
                strs(values@) == tag_values(ps.take(i as int)),
            decreases parts.len() - i,
        {
            let piece = trim_chars(parts[i].as_slice());
            let ghost before = strs(values@);
            proof {
                assert(ps.take(i as int + 1).drop_last() =~= ps.take(i as int));
                assert(ps.take(i as int + 1).last() == parts@[i as int]@);
            }
            if piece.len() > 0 {
                values.push(string_of(piece.as_slice()));
                assert(strs(values@) =~= before.push(piece@));
            }
            i += 1;
        }
        assert(ps.take(parts.len() as int) =~= ps);
        TagsArray { values }
    }

    /// A tag list holding the given tags.
    pub fn from_values(values: Vec<String>) -> (r: TagsArray)
        ensures
            r.values@ == values@,
    {
        TagsArray { values }
    }

    /// The header form of the list.
    pub fn write(&self) -> (r: String)
        ensures
            r@ == tags_text(strs(self.values@)),
    {
        let mut s = String::from_str("[");
        let inner = join_strings(&self.values, ", ");
        s.append(inner.as_str());
        s.append("]");
        assert(s@ =~= tags_text(strs(self.values@)));
        s
    }
}


/// A clean tag: not empty, no whitespace at its ends, no comma.
pub open spec fn is_clean_tag(t: Seq<char>) -> bool {
    t.len() > 0 && trim(t) == t && !t.contains(',')
}

/// The pieces of a written tag list between its commas: each tag after the
/// first keeps the space written before it.
pub open spec fn spaced(values: Seq<Seq<char>>) -> Seq<Seq<char>> {
    Seq::new(values.len(), |i: int| if i == 0 { values[0] } else { seq![' '] + values[i] })
}

/// Joining with `", "` is joining the spaced pieces with `","`.
proof fn lemma_join_spaced(values: Seq<Seq<char>>)
    requires
        values.len() > 0,
    ensures
        join(values, ", "@) == join(spaced(values), seq![',']),
    decreases values.len(),
{
    reveal_strlit(", ");
    if values.len() > 1 {
        let d = values.drop_last();
        lemma_join_spaced(d);
        assert(spaced(values).drop_last() =~= spaced(d));
        assert(spaced(values).last() == seq![' '] + values.last());
        assert(", "@ =~= seq![','] + seq![' ']);
        assert(join(values, ", "@) =~= join(spaced(values), seq![',']));
    } else {
        assert(spaced(values) =~= values);
    }
}

/// A text that starts and ends with non-whitespace is its own trim.
proof fn lemma_trim_unchanged(s: Seq<char>)
    requires
        s.len() > 0,
        !is_whitespace(s[0]),
        !is_whitespace(s.last()),
    ensures
        trim(s) == s,
{
}

/// The tags of the spaced pieces are the clean tags themselves.
proof fn lemma_tag_values_spaced(values: Seq<Seq<char>>)
    requires
        values.len() > 0,
        forall|i: int| 0 <= i < values.len() ==> is_clean_tag(#[trigger] values[i]),
    ensures
        tag_values(spaced(values)) == values,
    decreases values.len(),
{
    let sp = spaced(values);
    if values.len() > 1 {
        let d = values.drop_last();
        lemma_tag_values_spaced(d);
        assert(sp.drop_last() =~= spaced(d));
        let v = values.last();
        assert(is_clean_tag(values[values.len() - 1]));
        assert((seq![' '] + v).drop_first() =~= v);
        assert(trim_start(seq![' '] + v) == trim_start(v));
        assert(trim(sp.last()) == v);
        assert(tag_values(sp) == tag_values(sp.drop_last()).push(trim(sp.last())));
        assert(d.push(v) =~= values);
    } else {
        assert(is_clean_tag(values[0]));
        assert(sp.drop_last() =~= Seq::<Seq<char>>::empty());
        assert(sp.last() == values[0]);
        assert(tag_values(sp) == tag_values(sp.drop_last()).push(trim(sp.last())));
        assert(seq![values[0]] =~= values);
        assert(Seq::<Seq<char>>::empty().push(values[0]) =~= values);
    }
}

/// A list of clean tags, written in a header and read back, is the same list.
pub proof fn law_tags_round_trip(values: Seq<Seq<char>>)
    requires
        forall|i: int| 0 <= i < values.len() ==> is_clean_tag(#[trigger] values[i]),
    ensures
        parse_tags(tags_text(values)) == values,
{
    reveal_strlit("[");
    reveal_strlit("]");
    let inner = join(values, ", "@);
    let w = tags_text(values);
    assert(w =~= seq!['['] + inner + seq![']']);
    lemma_trim_unchanged(w);
    assert(w.subrange(1, w.len() as int) =~= inner + seq![']']);
    assert(strip_brackets(w) =~= inner);
    assert(parse_tags(w) == tag_values(split_char(inner, ',')));
    if values.len() == 0 {
        assert(inner =~= Seq::<char>::empty());
        assert(split_char(inner, ',') == seq![Seq::<char>::empty()]);
        let p = seq![Seq::<char>::empty()];
        assert(p.drop_last() =~= Seq::<Seq<char>>::empty());
        assert(trim(Seq::<char>::empty()) =~= Seq::<char>::empty());
        assert(tag_values(p) == tag_values(p.drop_last()));
        assert(values =~= Seq::<Seq<char>>::empty());
    } else {
        lemma_join_spaced(values);
        let sp = spaced(values);
        assert forall|i: int| 0 <= i < sp.len() implies !(#[trigger] sp[i]).contains(',') by {
            assert(is_clean_tag(values[i]));
            if i > 0 && sp[i].contains(',') {
                let j = choose|j: int| 0 <= j < sp[i].len() && sp[i][j] == ',';
                assert(j > 0);
                assert(values[i][j - 1] == ',');
            }
        }
        lemma_split_join(sp, ',');
        assert(split_char(inner, ',') == sp);
        lemma_tag_values_spaced(values);
    }
}

} // verus!
