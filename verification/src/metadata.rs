//! Note metadata: an ordered table of `key: value` pairs with distinct keys.
use vstd::prelude::*;

use crate::text::{chars_of, contains_seq, find, find_from, join, occurs_at, slice_find_from, sub_chars};
use crate::urls::chars_eq;

verus! {

/// A table of metadata entries.
pub type Entries = Seq<(Seq<char>, Seq<char>)>;

/// Entries with pairwise distinct keys.
pub open spec fn keys_distinct(e: Entries) -> bool {
    forall|i: int, j: int| 0 <= i < j < e.len() ==> e[i].0 != e[j].0
}

/// The index of the entry with key `k`, if any.
pub open spec fn index_of_key(e: Entries, k: Seq<char>) -> Option<int>
    decreases e.len(),
{
    if e.len() == 0 {
        None
    } else if e.last().0 == k {
        Some(e.len() - 1)
    } else {
        index_of_key(e.drop_last(), k)
    }
}

/// The value stored under `k`, if any.
pub open spec fn lookup(e: Entries, k: Seq<char>) -> Option<Seq<char>> {
    match index_of_key(e, k) {
        Some(i) => Some(e[i].1),
        None => None,
    }
}

/// The table after storing `v` under `k`: an existing entry keeps its place and
/// takes the new value, a new key is added at the end.
pub open spec fn insert_entry(e: Entries, k: Seq<char>, v: Seq<char>) -> Entries {
    match index_of_key(e, k) {
        Some(i) => e.update(i, (k, v)),
        None => e.push((k, v)),
    }
}

/// The table without the entry for `k`.
pub open spec fn remove_entry(e: Entries, k: Seq<char>) -> Entries {
    match index_of_key(e, k) {
        Some(i) => e.remove(i),
        None => e,
    }
}

/// Where a header line's key ends: its first `": "`.
pub open spec fn key_end(line: Seq<char>) -> Option<int> {
    find(line, ": "@)
}

/// Whether a header line has a key and a value.
pub open spec fn is_header_line(line: Seq<char>) -> bool {
    key_end(line) is Some
}

/// The key of a header line: what stands before its first `": "`.
pub open spec fn header_key(line: Seq<char>) -> Seq<char> {
    line.take(key_end(line).unwrap())
}

/// The value of a header line: what follows its first `": "`.
pub open spec fn header_value(line: Seq<char>) -> Seq<char> {
    line.skip(key_end(line).unwrap() + 2)
}

/// The entries written one per line as `key: value`.
pub open spec fn entries_text(e: Entries) -> Seq<char>
    decreases e.len(),
{
    if e.len() == 0 {
        Seq::<char>::empty()
    } else {
        entries_text(e.drop_last()) + e.last().0 + ": "@ + e.last().1 + "\n"@
    }
}

/// Splits a header line at its first `": "` into key and value.
pub fn split_header_line(line: &[char]) -> (r: Option<(Vec<char>, Vec<char>)>)
    ensures
        r is Some <==> is_header_line(line@),
        r matches Some(kv) ==> kv.0@ == header_key(line@) && kv.1@ == header_value(line@),
{
    let sep = chars_of(": ");
    match slice_find_from(line, sep.as_slice(), 0) {
        Some(i) => {
            assert(sep@.len() == 2) by {
                reveal_strlit(": ");
            }
            proof {
                crate::text::lemma_find_from_contains(line@, sep@, 0);
            }
            assert(i + 2 <= line@.len());
            assert(i + 2 <= line.len());
            let k = sub_chars(line, 0, i);
            let v = sub_chars(line, i + 2, line.len());
            assert(k@ =~= header_key(line@));
            assert(v@ =~= header_value(line@));
            Some((k, v))
        },
        None => None,
    }
}

/// `index_of_key` finds exactly the entries whose key is `k`.
pub proof fn lemma_index_of_key(e: Entries, k: Seq<char>)
    ensures
        index_of_key(e, k) matches Some(i) ==> 0 <= i < e.len() && e[i].0 == k,
        index_of_key(e, k) is None ==> forall|j: int| 0 <= j < e.len() ==> e[j].0 != k,
        keys_distinct(e) ==> forall|j: int| 0 <= j < e.len() && e[j].0 == k ==> index_of_key(e, k)
            == Some(j),
    decreases e.len(),
{
    if e.len() > 0 {
        let d = e.drop_last();
        lemma_index_of_key(d, k);
        assert forall|j: int| 0 <= j < d.len() implies d[j] == e[j] by {}
        if keys_distinct(e) {
            assert(keys_distinct(d));
        }
    }
}

/// Reading after storing: the stored key gives the stored value, other keys
/// what they gave before.
pub proof fn lemma_lookup_insert(e: Entries, k: Seq<char>, v: Seq<char>, k2: Seq<char>)
    requires
        keys_distinct(e),
    ensures
        lookup(insert_entry(e, k, v), k) == Some(v),
        k2 != k ==> lookup(insert_entry(e, k, v), k2) == lookup(e, k2),
{
    lemma_index_of_key(e, k);
    lemma_index_of_key(e, k2);
    lemma_insert_distinct(e, k, v);
    let n = insert_entry(e, k, v);
    lemma_index_of_key(n, k);
    lemma_index_of_key(n, k2);
    if let Some(i) = index_of_key(e, k) {
        assert(n[i] == (k, v));
    } else {
        assert(n[e.len() as int] == (k, v));
    }
    if k2 != k {
        if let Some(j) = index_of_key(e, k2) {
            assert(n[j] == e[j]);
        }
        if let Some(j) = index_of_key(n, k2) {
            assert(n[j].0 == k2);
            if j < e.len() {
                assert(n[j] == e[j]);
            }
        }
    }
}

/// Storing keeps keys distinct.
pub proof fn lemma_insert_distinct(e: Entries, k: Seq<char>, v: Seq<char>)
    requires
        keys_distinct(e),
    ensures
        keys_distinct(insert_entry(e, k, v)),
{
    lemma_index_of_key(e, k);
}

/// Removing keeps keys distinct.
pub proof fn lemma_remove_distinct(e: Entries, k: Seq<char>)
    requires
        keys_distinct(e),
    ensures
        keys_distinct(remove_entry(e, k)),
{
    lemma_index_of_key(e, k);
    if let Some(i) = index_of_key(e, k) {
        assert forall|a: int, b: int| 0 <= a < b < e.remove(i).len() implies e.remove(i)[a].0
            != e.remove(i)[b].0 by {
            let a2 = if a < i { a } else { a + 1 };
            let b2 = if b < i { b } else { b + 1 };
            assert(e.remove(i)[a] == e[a2]);
            assert(e.remove(i)[b] == e[b2]);
        }
    }
}

/// Metadata of a note: `key: value` pairs with distinct keys, in the order they
/// were first stored.
#[derive(Debug)]
pub struct Metadata {
    entries: Vec<(String, String)>,
}

impl View for Metadata {
    type V = Entries;

    closed spec fn view(&self) -> Entries {
        self.entries@.map_values(|p: (String, String)| (p.0@, p.1@))
    }
}

impl Metadata {
    #[verifier::type_invariant]
    spec fn inv(self) -> bool {
        keys_distinct(self@)
    }

    /// An empty table.
    pub fn new() -> (r: Metadata)
        ensures
            r@ == Seq::<(Seq<char>, Seq<char>)>::empty(),
    {
        let r = Metadata { entries: Vec::new() };
        assert(r@ =~= Seq::<(Seq<char>, Seq<char>)>::empty());
        r
    }

    /// The number of entries.
    pub fn len(&self) -> (r: usize)
        ensures
            r == self@.len(),
    {
        self.entries.len()
    }

    /// Whether there are no entries.
    pub fn is_empty(&self) -> (r: bool)
        ensures
            r == (self@.len() == 0),
    {
        self.entries.len() == 0
    }

    /// The key and value of entry `i`.
    pub fn entry(&self, i: usize) -> (r: (&String, &String))
        requires
            i < self@.len(),
        ensures
            r.0@ == self@[i as int].0,
            r.1@ == self@[i as int].1,
    {
        (&self.entries[i].0, &self.entries[i].1)
    }

    /// Where the key `k` is stored.
    fn position(&self, k: &str) -> (r: Option<usize>)
        ensures
            r matches Some(i) ==> index_of_key(self@, k@) == Some(i as int),
            r is None ==> index_of_key(self@, k@) is None,
    {
        proof {
            use_type_invariant(self);
            lemma_index_of_key(self@, k@);
        }
        let kv = chars_of(k);
        let mut i: usize = 0;
        while i < self.entries.len()
            invariant
                i <= self.entries.len(),
                kv@ == k@,
                self@.len() == self.entries.len(),
                keys_distinct(self@),
                forall|j: int| 0 <= j < i ==> self@[j].0 != k@,
                index_of_key(self@, k@) is None ==> forall|j: int| 0 <= j < self@.len() ==> self@[j].0
                    != k@,
                forall|j: int| 0 <= j < self@.len() && self@[j].0 == k@ ==> index_of_key(self@, k@)
                    == Some(j),
            decreases self.entries.len() - i,
        {
            let ek = chars_of(self.entries[i].0.as_str());
            assert(self@[i as int] == (self.entries@[i as int].0@, self.entries@[i as int].1@));
            assert(ek@ == self@[i as int].0);
            if chars_eq(ek.as_slice(), kv.as_slice()) {
                return Some(i);
            }
            i += 1;
        }
        None
    }

    /// The value stored under `k`.
    pub fn get(&self, k: &str) -> (r: Option<&String>)
        ensures
            r matches Some(v) ==> lookup(self@, k@) == Some(v@),
            r is None ==> lookup(self@, k@) is None,
    {
        proof {
            lemma_index_of_key(self@, k@);
        }
        match self.position(k) {
            Some(i) => {
                assert(self@[i as int] == (self.entries@[i as int].0@, self.entries@[i as int].1@));
                Some(&self.entries[i].1)
            },
            None => None,
        }
    }

    /// Stores `v` under `k`.
    pub fn insert(&mut self, k: String, v: String)
        ensures
            final(self)@ == insert_entry(old(self)@, k@, v@),
            keys_distinct(final(self)@),
    {
        proof {
            use_type_invariant(&*self);
            lemma_insert_distinct(self@, k@, v@);
        }
        let pos = self.position(k.as_str());
        proof {
            lemma_index_of_key(self@, k@);
        }
        let ghost kk = k@;
        let ghost vv = v@;
        let mut entries: Vec<(String, String)> = Vec::new();
        std::mem::swap(&mut entries, &mut self.entries);
        let ghost before = entries@.map_values(|p: (String, String)| (p.0@, p.1@));
        match pos {
            Some(i) => {
                entries.set(i, (k, v));
                assert(entries@.map_values(|p: (String, String)| (p.0@, p.1@)) =~= before.update(
                    i as int,
                    (kk, vv),
                ));
            },
            None => {
                entries.push((k, v));
                assert(entries@.map_values(|p: (String, String)| (p.0@, p.1@)) =~= before.push(
                    (kk, vv),
                ));
            },
        }
        self.entries = entries;
    }

    /// Removes the entry for `k`, if there is one.
    pub fn remove(&mut self, k: &str)
        ensures
            final(self)@ == remove_entry(old(self)@, k@),
            keys_distinct(final(self)@),
    {
        proof {
            use_type_invariant(&*self);
            lemma_remove_distinct(self@, k@);
        }
        let pos = self.position(k);
        proof {
            lemma_index_of_key(self@, k@);
        }
        match pos {
            Some(i) => {
                let mut entries: Vec<(String, String)> = Vec::new();
                std::mem::swap(&mut entries, &mut self.entries);
                let ghost before = entries@.map_values(|p: (String, String)| (p.0@, p.1@));
                entries.remove(i);
                assert(entries@.map_values(|p: (String, String)| (p.0@, p.1@)) =~= before.remove(
                    i as int,
                ));
                self.entries = entries;
            },
            None => {},
        }
    }

    /// A copy of the table.
    pub fn duplicate(&self) -> (r: Metadata)
        ensures
            r@ == self@,
    {
        proof {
            use_type_invariant(self);
        }
        let mut entries: Vec<(String, String)> = Vec::new();
        let mut i: usize = 0;
        while i < self.entries.len()
            invariant
                i <= self.entries.len(),
                self@.len() == self.entries.len(),
                keys_distinct(self@),
                entries@.map_values(|p: (String, String)| (p.0@, p.1@)) == self@.take(i as int),
            decreases self.entries.len() - i,
        {
            let ghost before = entries@.map_values(|p: (String, String)| (p.0@, p.1@));
            let k = self.entries[i].0.clone();
            let v = self.entries[i].1.clone();
            entries.push((k, v));
            assert(self@[i as int] == (self.entries@[i as int].0@, self.entries@[i as int].1@));
            assert(entries@.map_values(|p: (String, String)| (p.0@, p.1@)) =~= before.push(
                self@[i as int],
            ));
            assert(entries@.map_values(|p: (String, String)| (p.0@, p.1@)) =~= self@.take(
                i as int + 1,
            ));
            i += 1;
        }
        assert(self@.take(self@.len() as int) =~= self@);
        Metadata { entries }
    }

    /// Appends the entries, one `key: value` line each, to `out`.
    pub fn write_entries(&self, out: &mut String)
        ensures
            final(out)@ == old(out)@ + entries_text(self@),
    {
        let ghost start = out@;
        let mut i: usize = 0;
        while i < self.entries.len()
            invariant
                i <= self.entries.len(),
                self@.len() == self.entries.len(),
                out@ == start + entries_text(self@.take(i as int)),
            decreases self.entries.len() - i,
        {
            assert(self@[i as int] == (self.entries@[i as int].0@, self.entries@[i as int].1@));
            out.append(self.entries[i].0.as_str());
            out.append(": ");
            out.append(self.entries[i].1.as_str());
            out.append("\n");
            assert(self@.take(i as int + 1).drop_last() =~= self@.take(i as int));
            i += 1;
        }
        assert(self@.take(self@.len() as int) =~= self@);
    }
}


/// The line an entry is written as.
pub open spec fn entry_line(p: (Seq<char>, Seq<char>)) -> Seq<char> {
    p.0 + ": "@ + p.1
}

/// The lines the entries are written as.
pub open spec fn entry_lines(e: Entries) -> Seq<Seq<char>> {
    e.map_values(|p: (Seq<char>, Seq<char>)| entry_line(p))
}

/// An entry that reads back as written: its key holds no `": "`, neither key
/// nor value a newline, and the value does not end in a carriage return.
pub open spec fn printable_entry(p: (Seq<char>, Seq<char>)) -> bool {
    &&& !contains_seq(p.0, ": "@)
    &&& !p.0.contains('\n')
    &&& !p.1.contains('\n')
    &&& !(p.1.len() > 0 && p.1.last() == '\r')
}

/// The entries, one line each, are the lines joined by newlines with a final
/// newline.
pub proof fn lemma_entries_text(e: Entries)
    requires
        e.len() > 0,
    ensures
        entries_text(e) == join(entry_lines(e), "\n"@) + "\n"@,
    decreases e.len(),
{
    let d = e.drop_last();
    assert(entry_lines(e).drop_last() =~= entry_lines(d));
    assert(entry_lines(e).last() == entry_line(e.last()));
    if d.len() > 0 {
        lemma_entries_text(d);
    } else {
        assert(entries_text(d) =~= Seq::<char>::empty());
        assert(entry_lines(e).len() == 1);
    }
}

/// An entry's line reads back as the entry.
pub proof fn lemma_entry_line_reads_back(p: (Seq<char>, Seq<char>))
    requires
        !contains_seq(p.0, ": "@),
    ensures
        is_header_line(entry_line(p)),
        header_key(entry_line(p)) == p.0,
        header_value(entry_line(p)) == p.1,
{
    reveal_strlit(": ");
    let l = entry_line(p);
    let k = p.0.len() as int;
    let sep = ": "@;
    assert(l.subrange(k, k + 2) =~= sep);
    assert(occurs_at(l, sep, k));
    crate::text::lemma_find_from_contains(l, sep, 0);
    assert forall|j: int| 0 <= j < k implies !occurs_at(l, sep, j) by {
        if occurs_at(l, sep, j) {
            if j + 2 <= k {
                assert(p.0.subrange(j, j + 2) =~= l.subrange(j, j + 2));
                assert(occurs_at(p.0, sep, j));
            } else {
                assert(l[j + 1] == l.subrange(j, j + 2)[1]);
                assert(l[j + 1] == ':');
            }
        }
    }
    let found = find_from(l, sep, 0).unwrap();
    assert(found == k) by {
        if found < k {
            assert(!occurs_at(l, sep, found));
        }
        if found > k {
            assert(!occurs_at(l, sep, k));
        }
    }
    assert(l.take(k) =~= p.0);
    assert(l.skip(k + 2) =~= p.1);
}

} // verus!
