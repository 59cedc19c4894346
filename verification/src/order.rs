//! The order of strings: lexicographic by characters, which is the order of
//! their UTF-8 bytes.
use vstd::prelude::*;
use vstd::relations::{sorted_by, total_ordering};

use crate::html::strs;
use crate::text::chars_of;

verus! {

/// `a` comes before `b` when compared from position `i` on.
pub open spec fn less_from(a: Seq<char>, b: Seq<char>, i: int) -> bool
    decreases a.len() - i,
{
    if i >= a.len() {
        i < b.len()
    } else if i >= b.len() {
        false
    } else if a[i] != b[i] {
        (a[i] as int) < (b[i] as int)
    } else {
        less_from(a, b, i + 1)
    }
}

/// `a` comes before `b`.
pub open spec fn str_less(a: Seq<char>, b: Seq<char>) -> bool {
    less_from(a, b, 0)
}

/// No string comes before itself, and of two strings at most one comes first.
pub proof fn lemma_less_from_asym(a: Seq<char>, b: Seq<char>, i: int)
    requires
        0 <= i,
    ensures
        !less_from(a, a, i),
        less_from(a, b, i) ==> !less_from(b, a, i),
    decreases a.len() - i,
{
    if i < a.len() && i < b.len() {
        lemma_less_from_asym(a, b, i + 1);
    }
    if i < a.len() {
        lemma_less_from_asym(a, a, i + 1);
    }
}

/// The order is transitive.
pub proof fn lemma_less_from_trans(a: Seq<char>, b: Seq<char>, c: Seq<char>, i: int)
    requires
        0 <= i,
        less_from(a, b, i),
        less_from(b, c, i),
    ensures
        less_from(a, c, i),
    decreases a.len() - i,
{
    if i < a.len() && i < b.len() && i < c.len() && a[i] == b[i] && b[i] == c[i] {
        lemma_less_from_trans(a, b, c, i + 1);
    }
}

/// Two strings that agree before `i` and differ are ordered one way or the other.
pub proof fn lemma_less_from_total(a: Seq<char>, b: Seq<char>, i: int)
    requires
        0 <= i <= a.len(),
        i <= b.len(),
        a != b,
        forall|j: int| 0 <= j < i ==> a[j] == b[j],
    ensures
        less_from(a, b, i) || less_from(b, a, i),
    decreases a.len() - i,
{
    if i == a.len() && i == b.len() {
        assert(a =~= b);
    } else if i < a.len() && i < b.len() {
        if a[i] == b[i] {
            lemma_less_from_total(a, b, i + 1);
        } else {
            assert((a[i] as int) != (b[i] as int));
        }
    }
}

/// The order on strings is a strict total order.
pub proof fn lemma_str_order(a: Seq<char>, b: Seq<char>, c: Seq<char>)
    ensures
        !str_less(a, a),
        str_less(a, b) ==> !str_less(b, a),
        str_less(a, b) && str_less(b, c) ==> str_less(a, c),
        a != b ==> str_less(a, b) || str_less(b, a),
{
    lemma_less_from_asym(a, b, 0);
    if str_less(a, b) && str_less(b, c) {
        lemma_less_from_trans(a, b, c, 0);
    }
    if a != b {
        lemma_less_from_total(a, b, 0);
    }
}

/// Compares two strings given as characters.
pub fn chars_less(a: &[char], b: &[char]) -> (r: bool)
    ensures
        r == str_less(a@, b@),
{
    let mut i: usize = 0;
    while i < a.len() && i < b.len() && a[i] == b[i]
        invariant
            i <= a.len(),
            i <= b.len(),
            less_from(a@, b@, i as int) == less_from(a@, b@, 0),
        decreases a.len() - i,
    {
        i += 1;
    }
    if i >= a.len() {
        i < b.len()
    } else if i >= b.len() {
        false
    } else {
        a[i] < b[i]
    }
}


/// `a` comes before `b` or equals it.
pub open spec fn str_le(a: Seq<char>, b: Seq<char>) -> bool {
    a == b || str_less(a, b)
}

/// The order as a relation.
pub open spec fn str_leq() -> spec_fn(Seq<char>, Seq<char>) -> bool {
    |a: Seq<char>, b: Seq<char>| str_le(a, b)
}

/// `str_le` is a total order.
pub proof fn lemma_str_leq_total()
    ensures
        total_ordering(str_leq()),
{
    assert forall|a: Seq<char>, b: Seq<char>, c: Seq<char>|
        #[trigger] str_leq()(a, b) && #[trigger] str_leq()(b, c) implies str_leq()(a, c) by {
        lemma_str_order(a, b, c);
    }
    assert forall|a: Seq<char>, b: Seq<char>|
        #[trigger] str_leq()(a, b) && #[trigger] str_leq()(b, a) implies a == b by {
        lemma_str_order(a, b, a);
    }
    assert forall|a: Seq<char>, b: Seq<char>| #[trigger] str_leq()(a, b) || str_leq()(b, a) by {
        lemma_str_order(a, b, a);
    }
}

/// `s` with each run of equal neighbours cut down to one.
pub open spec fn dedup(s: Seq<Seq<char>>) -> Seq<Seq<char>>
    decreases s.len(),
{
    if s.len() <= 1 {
        s
    } else if s.last() == s[s.len() - 2] {
        dedup(s.drop_last())
    } else {
        dedup(s.drop_last()).push(s.last())
    }
}

/// The last element survives `dedup`.
proof fn lemma_dedup_last(s: Seq<Seq<char>>)
    requires
        s.len() > 0,
    ensures
        dedup(s).len() > 0,
        dedup(s).last() == s.last(),
    decreases s.len(),
{
    if s.len() > 1 && s.last() == s[s.len() - 2] {
        lemma_dedup_last(s.drop_last());
    }
}

/// Cuts each run of equal neighbours in `v` down to one.
pub fn dedup_strings(v: &Vec<String>) -> (r: Vec<String>)
    ensures
        strs(r@) == dedup(strs(v@)),
{
    let ghost vs = strs(v@);
    let mut out: Vec<String> = Vec::new();
    let mut i: usize = 0;
    while i < v.len()
        invariant
            i <= v.len(),
            vs == strs(v@),
            strs(out@) == dedup(vs.take(i as int)),
        decreases v.len() - i,
    {
        let ghost before = strs(out@);
        let ghost t = vs.take(i as int + 1);
        assert(t.drop_last() =~= vs.take(i as int));
        assert(t.last() == v@[i as int]@);
        let cur = chars_of(v[i].as_str());
        let same = if i > 0 {
            let prev = chars_of(v[i - 1].as_str());
            assert(t[t.len() - 2] == v@[i - 1]@);
            crate::urls::chars_eq(cur.as_slice(), prev.as_slice())
        } else {
            false
        };
        if !same {
            out.push(v[i].clone());
            assert(strs(out@) =~= before.push(v@[i as int]@));
        }
        i += 1;
    }
    assert(vs.take(v.len() as int) =~= vs);
    out
}

/// Whether string `a` comes before the characters `b`.
fn string_less(a: &String, b: &[char]) -> (r: bool)
    ensures
        r == str_less(a@, b@),
{
    let y = chars_of(a.as_str());
    chars_less(y.as_slice(), b)
}

/// Sorts strings in their order.
pub fn sort_strings(v: &Vec<String>) -> (r: Vec<String>)
    ensures
        strs(r@) == strs(v@).sort_by(str_leq()),
{
    broadcast use vstd::seq_lib::group_to_multiset_ensures;
    let ghost vs = strs(v@);
    let mut out: Vec<String> = Vec::new();
    let mut i: usize = 0;
    proof {
        lemma_str_leq_total();
    }
    while i < v.len()
        invariant
            i <= v.len(),
            vs == strs(v@),
            total_ordering(str_leq()),
            sorted_by(strs(out@), str_leq()),
            strs(out@).to_multiset() == vs.take(i as int).to_multiset(),
        decreases v.len() - i,
    {
        let x = chars_of(v[i].as_str());
        let mut p: usize = 0;
        while p < out.len() && string_less(&out[p], x.as_slice())
            invariant
                p <= out.len(),
                x@ == vs[i as int],
                forall|j: int| 0 <= j < p ==> str_less(strs(out@)[j], x@),
            decreases out.len() - p,
        {
            p += 1;
        }
        let ghost before = strs(out@);
        out.insert(p, v[i].clone());
        proof {
            assert(strs(out@) =~= before.insert(p as int, vs[i as int]));
            vstd::seq_lib::to_multiset_insert(before, p as int, vs[i as int]);
            assert(vs.take(i as int + 1) =~= vs.take(i as int).push(vs[i as int]));
            vstd::seq_lib::to_multiset_build(vs.take(i as int), vs[i as int]);
            assert(v@[i as int]@ == vs[i as int]);
            assert forall|a: int, b: int| 0 <= a < b < strs(out@).len() implies #[trigger] str_leq()(
                strs(out@)[a],
                strs(out@)[b],
            ) by {
                let n = strs(out@);
                if a < p && b == p {
                } else if a == p {
                    if p < before.len() {
                        lemma_str_order(n[b], x@, n[b]);
                        lemma_str_order(before[p as int], n[b], x@);
                        if !str_le(x@, before[p as int]) {
                            lemma_str_order(before[p as int], x@, before[p as int]);
                        }
                        if b > p + 1 {
                            assert(str_leq()(before[p as int], before[b - 1]));
                            lemma_str_order(x@, before[p as int], before[b - 1]);
                        }
                    }
                } else {
                    let a2 = if a < p { a } else { a - 1 };
                    let b2 = if b < p { b } else { b - 1 };
                    assert(n[a] == before[a2]);
                    assert(n[b] == before[b2]);
                }
            }
        }
        i += 1;
    }
    proof {
        assert(vs.take(v.len() as int) =~= vs);
        vs.lemma_sort_by_ensures(str_leq());
        vstd::seq_lib::lemma_sorted_unique(strs(out@), vs.sort_by(str_leq()), str_leq());
    }
    out
}

} // verus!
