//! The backlink and tag store: for each link target or tag, the titles of the
//! notes that point at it, kept in the order of the keys.
use vstd::prelude::*;

use crate::headers::clone_strings;
use crate::html::strs;
use crate::order::{chars_less, lemma_str_order, str_less};
use crate::text::chars_of;
use crate::urls::chars_eq;

verus! {

/// The store's contents: keys with their lists of titles.
pub type StoreEntries = Seq<(Seq<char>, Seq<Seq<char>>)>;

/// Keys in strictly increasing order.
pub open spec fn sorted_keys(e: StoreEntries) -> bool {
    forall|i: int, j: int| 0 <= i < j < e.len() ==> str_less(e[i].0, e[j].0)
}

/// The first index at or after `i` whose key does not come before `k`.
pub open spec fn lower_bound(e: StoreEntries, k: Seq<char>, i: int) -> int
    decreases e.len() - i,
{
    if i >= e.len() {
        e.len() as int
    } else if str_less(e[i].0, k) {
        lower_bound(e, k, i + 1)
    } else {
        i
    }
}

/// Where key `k` belongs in the store.
pub open spec fn slot(e: StoreEntries, k: Seq<char>) -> int {
    lower_bound(e, k, 0)
}

/// Whether the store has key `k`.
pub open spec fn has_key(e: StoreEntries, k: Seq<char>) -> bool {
    slot(e, k) < e.len() && e[slot(e, k)].0 == k
}

/// The titles stored under `k`, if any.
pub open spec fn store_get(e: StoreEntries, k: Seq<char>) -> Option<Seq<Seq<char>>> {
    if has_key(e, k) {
        Some(e[slot(e, k)].1)
    } else {
        None
    }
}

/// The store with `v` stored under `k`, in the place of the key's old list or as
/// a new key in its place in the order.
pub open spec fn store_set(e: StoreEntries, k: Seq<char>, v: Seq<Seq<char>>) -> StoreEntries {
    if has_key(e, k) {
        e.update(slot(e, k), (k, v))
    } else {
        e.insert(slot(e, k), (k, v))
    }
}

/// The store with title `t` appended to the list of `k` (a new list if `k` is new).
pub open spec fn store_add(e: StoreEntries, k: Seq<char>, t: Seq<char>) -> StoreEntries {
    match store_get(e, k) {
        Some(v) => store_set(e, k, v.push(t)),
        None => store_set(e, k, seq![t]),
    }
}

/// The store without key `k`.
pub open spec fn store_remove(e: StoreEntries, k: Seq<char>) -> StoreEntries {
    if has_key(e, k) {
        e.remove(slot(e, k))
    } else {
        e
    }
}

/// `lower_bound` does not go back.
proof fn lemma_lower_bound_ge(e: StoreEntries, k: Seq<char>, i: int)
    requires
        0 <= i,
    ensures
        i <= lower_bound(e, k, i) || (i > e.len() && lower_bound(e, k, i) == e.len()),
        lower_bound(e, k, i) <= e.len() || i > e.len(),
        forall|j: int| i <= j < lower_bound(e, k, i) ==> str_less(e[j].0, k),
        lower_bound(e, k, i) < e.len() ==> !str_less(e[lower_bound(e, k, i)].0, k),
    decreases e.len() - i,
{
    if i < e.len() && str_less(e[i].0, k) {
        lemma_lower_bound_ge(e, k, i + 1);
    }
}

/// In a sorted store the keys before the slot of `k` come before `k`, the ones
/// from it on do not, and `k` is in the store only at its slot.
pub proof fn lemma_slot(e: StoreEntries, k: Seq<char>)
    requires
        sorted_keys(e),
    ensures
        0 <= slot(e, k) <= e.len(),
        forall|j: int| 0 <= j < slot(e, k) ==> str_less(e[j].0, k),
        forall|j: int| slot(e, k) <= j < e.len() ==> !str_less(e[j].0, k),
        forall|j: int| slot(e, k) < j < e.len() ==> str_less(k, e[j].0),
        !has_key(e, k) ==> forall|j: int| slot(e, k) <= j < e.len() ==> str_less(k, e[j].0),
        forall|j: int| 0 <= j < e.len() && e[j].0 == k ==> j == slot(e, k) && has_key(e, k),
{
    lemma_lower_bound_ge(e, k, 0);
    let p = slot(e, k);
    assert forall|j: int| p <= j < e.len() implies !str_less(e[j].0, k) by {
        if j > p {
            lemma_str_order(e[p].0, e[j].0, k);
        }
    }
    assert forall|j: int| p < j < e.len() implies str_less(k, e[j].0) by {
        lemma_str_order(e[p].0, k, e[j].0);
        lemma_str_order(k, e[p].0, e[j].0);
        lemma_str_order(e[j].0, k, e[j].0);
    }
    assert forall|j: int| !has_key(e, k) && p <= j < e.len() implies str_less(k, e[j].0) by {
        lemma_str_order(e[p].0, k, e[j].0);
        lemma_str_order(k, e[j].0, k);
    }
    assert forall|j: int| 0 <= j < e.len() && e[j].0 == k implies j == p && has_key(e, k) by {
        lemma_str_order(k, k, k);
        if j > p {
            lemma_str_order(k, e[j].0, k);
        }
    }
}

/// Reads the store through its entries: `store_get` finds the entry whose key is `k`.
pub proof fn lemma_get(e: StoreEntries, k: Seq<char>)
    requires
        sorted_keys(e),
    ensures
        store_get(e, k) is Some <==> exists|j: int| 0 <= j < e.len() && e[j].0 == k,
        forall|j: int| 0 <= j < e.len() && e[j].0 == k ==> store_get(e, k) == Some(e[j].1),
{
    lemma_slot(e, k);
    if has_key(e, k) {
        assert(e[slot(e, k)].0 == k);
    }
}

/// Storing keeps the keys sorted, stores `v` under `k` and leaves the other keys.
pub proof fn lemma_set(e: StoreEntries, k: Seq<char>, v: Seq<Seq<char>>)
    requires
        sorted_keys(e),
    ensures
        sorted_keys(store_set(e, k, v)),
        store_get(store_set(e, k, v), k) == Some(v),
        forall|k2: Seq<char>| k2 != k ==> store_get(store_set(e, k, v), k2) == store_get(e, k2),
{
    lemma_slot(e, k);
    let p = slot(e, k);
    let n = store_set(e, k, v);
    if has_key(e, k) {
        assert(sorted_keys(n));
    } else {
        assert forall|i: int, j: int| 0 <= i < j < n.len() implies str_less(n[i].0, n[j].0) by {
            if j == p {
                assert(n[i] == e[i]);
            } else if i == p {
                assert(n[j] == e[j - 1]);
            } else {
                let i2 = if i < p { i } else { i - 1 };
                let j2 = if j < p { j } else { j - 1 };
                assert(n[i] == e[i2]);
                assert(n[j] == e[j2]);
            }
        }
    }
    lemma_get(n, k);
    assert(n[p] == (k, v));
    assert forall|k2: Seq<char>| k2 != k implies store_get(n, k2) == store_get(e, k2) by {
        lemma_get(n, k2);
        lemma_get(e, k2);
        if store_get(e, k2) is Some {
            let j = choose|j: int| 0 <= j < e.len() && e[j].0 == k2;
            let j2 = if has_key(e, k) || j < p { j } else { j + 1 };
            assert(n[j2] == e[j]);
        }
        if store_get(n, k2) is Some {
            let j = choose|j: int| 0 <= j < n.len() && n[j].0 == k2;
            let j2 = if has_key(e, k) || j < p { j } else { j - 1 };
            assert(n[j] == e[j2]);
        }
    }
}

/// Removing keeps the keys sorted, drops `k` and leaves the other keys.
pub proof fn lemma_remove(e: StoreEntries, k: Seq<char>)
    requires
        sorted_keys(e),
    ensures
        sorted_keys(store_remove(e, k)),
        store_get(store_remove(e, k), k) is None,
        forall|k2: Seq<char>| k2 != k ==> store_get(store_remove(e, k), k2) == store_get(e, k2),
{
    lemma_slot(e, k);
    let p = slot(e, k);
    let n = store_remove(e, k);
    if has_key(e, k) {
        assert forall|i: int, j: int| 0 <= i < j < n.len() implies str_less(n[i].0, n[j].0) by {
            let i2 = if i < p { i } else { i + 1 };
            let j2 = if j < p { j } else { j + 1 };
            assert(n[i] == e[i2]);
            assert(n[j] == e[j2]);
        }
    }
    lemma_get(n, k);
    assert forall|j: int| 0 <= j < n.len() implies n[j].0 != k by {
        if has_key(e, k) {
            let j2 = if j < p { j } else { j + 1 };
            assert(n[j] == e[j2]);
        }
    }
    assert forall|k2: Seq<char>| k2 != k implies store_get(n, k2) == store_get(e, k2) by {
        lemma_get(n, k2);
        lemma_get(e, k2);
        if store_get(e, k2) is Some {
            let j = choose|j: int| 0 <= j < e.len() && e[j].0 == k2;
            if has_key(e, k) {
                let j2 = if j < p { j } else { j - 1 };
                assert(n[j2] == e[j]);
            }
        }
        if store_get(n, k2) is Some {
            let j = choose|j: int| 0 <= j < n.len() && n[j].0 == k2;
            if has_key(e, k) {
                let j2 = if j < p { j } else { j + 1 };
                assert(n[j] == e[j2]);
            }
        }
    }
}

/// Links or tags with the titles of the notes that point at them, ordered by key.
#[derive(Debug)]
pub struct LinkStore {
    entries: Vec<(String, Vec<String>)>,
}

impl View for LinkStore {
    type V = StoreEntries;

    closed spec fn view(&self) -> StoreEntries {
        self.entries@.map_values(|p: (String, Vec<String>)| (p.0@, strs(p.1@)))
    }
}

impl LinkStore {
    #[verifier::type_invariant]
    spec fn inv(self) -> bool {
        sorted_keys(self@)
    }

    /// An empty store.
    pub fn new() -> (r: LinkStore)
        ensures
            r@ == Seq::<(Seq<char>, Seq<Seq<char>>)>::empty(),
    {
        let r = LinkStore { entries: Vec::new() };
        assert(r@ =~= Seq::<(Seq<char>, Seq<Seq<char>>)>::empty());
        r
    }

    /// The number of keys.
    pub fn len(&self) -> (r: usize)
        ensures
            r == self@.len(),
            sorted_keys(self@),
    {
        proof {
            use_type_invariant(self);
        }
        self.entries.len()
    }

    /// The key at index `i`.
    pub fn key(&self, i: usize) -> (r: &String)
        requires
            i < self@.len(),
        ensures
            r@ == self@[i as int].0,
    {
        assert(self@[i as int] == (self.entries@[i as int].0@, strs(self.entries@[i as int].1@)));
        &self.entries[i].0
    }

    /// The titles stored under the key at index `i`.
    pub fn titles(&self, i: usize) -> (r: &Vec<String>)
        requires
            i < self@.len(),
        ensures
            strs(r@) == self@[i as int].1,
    {
        assert(self@[i as int] == (self.entries@[i as int].0@, strs(self.entries@[i as int].1@)));
        &self.entries[i].1
    }

    /// The slot of `k` and whether `k` is there.
    fn locate(&self, k: &str) -> (r: (usize, bool))
        ensures
            r.0 == slot(self@, k@),
            r.1 == has_key(self@, k@),
            sorted_keys(self@),
    {
        proof {
            use_type_invariant(self);
        }
        let kv = chars_of(k);
        let mut i: usize = 0;
        while i < self.entries.len()
            invariant
                i <= self.entries.len(),
                kv@ == k@,
                self@.len() == self.entries.len(),
                sorted_keys(self@),
                lower_bound(self@, k@, i as int) == slot(self@, k@),
            decreases self.entries.len() - i,
        {
            assert(self@[i as int] == (self.entries@[i as int].0@, strs(
                self.entries@[i as int].1@,
            )));
            let ki = chars_of(self.entries[i].0.as_str());
            if !chars_less(ki.as_slice(), kv.as_slice()) {
                let found = chars_eq(ki.as_slice(), kv.as_slice());
                return (i, found);
            }
            i += 1;
        }
        (i, false)
    }

    /// The titles stored under `k`.
    pub fn get(&self, k: &str) -> (r: Option<&Vec<String>>)
        ensures
            r matches Some(v) ==> store_get(self@, k@) == Some(strs(v@)),
            r is None ==> store_get(self@, k@) is None,
    {
        let (p, found) = self.locate(k);
        if found {
            assert(self@[p as int] == (self.entries@[p as int].0@, strs(
                self.entries@[p as int].1@,
            )));
            Some(&self.entries[p].1)
        } else {
            None
        }
    }

    /// Stores `v` under `k`, replacing what was there.
    pub fn insert(&mut self, k: String, v: Vec<String>)
        ensures
            final(self)@ == store_set(old(self)@, k@, strs(v@)),
    {
        let (p, found) = self.locate(k.as_str());
        proof {
            lemma_set(self@, k@, strs(v@));
            lemma_slot(self@, k@);
        }
        let ghost kk = k@;
        let ghost vv = strs(v@);
        let mut entries: Vec<(String, Vec<String>)> = Vec::new();
        std::mem::swap(&mut entries, &mut self.entries);
        let ghost before = entries@.map_values(
            |p: (String, Vec<String>)| (p.0@, strs(p.1@)),
        );
        assert(before.len() == entries.len());
        if found {
            entries.set(p, (k, v));
            assert(entries@.map_values(|p: (String, Vec<String>)| (p.0@, strs(p.1@))) =~= before.update(
                p as int,
                (kk, vv),
            ));
        } else {
            entries.insert(p, (k, v));
            assert(entries@.map_values(|p: (String, Vec<String>)| (p.0@, strs(p.1@))) =~= before.insert(
                p as int,
                (kk, vv),
            ));
        }
        self.entries = entries;
    }

    /// Appends title `t` to the list of `k`, starting a list if `k` is new.
    pub fn add(&mut self, k: &str, t: &str)
        ensures
            final(self)@ == store_add(old(self)@, k@, t@),
    {
        let list = match self.get(k) {
            Some(v) => {
                let mut w = clone_strings(v);
                w.push(t.to_string());
                assert(strs(w@) =~= strs(v@).push(t@));
                w
            },
            None => {
                let mut w: Vec<String> = Vec::new();
                w.push(t.to_string());
                assert(strs(w@) =~= seq![t@]);
                w
            },
        };
        self.insert(k.to_string(), list);
    }

    /// Removes key `k`.
    pub fn remove(&mut self, k: &str)
        ensures
            final(self)@ == store_remove(old(self)@, k@),
    {
        let (p, found) = self.locate(k);
        proof {
            lemma_remove(self@, k@);
        }
        if found {
            let mut entries: Vec<(String, Vec<String>)> = Vec::new();
            std::mem::swap(&mut entries, &mut self.entries);
            let ghost before = entries@.map_values(
                |p: (String, Vec<String>)| (p.0@, strs(p.1@)),
            );
            entries.remove(p);
            assert(entries@.map_values(|p: (String, Vec<String>)| (p.0@, strs(p.1@))) =~= before.remove(
                p as int,
            ));
            self.entries = entries;
        }
    }
}

} // verus!
