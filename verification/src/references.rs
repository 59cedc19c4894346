//! Keeping the backlink store in step with the notes: adding a note's links,
//! removing a deleted note, moving a renamed one.
use vstd::prelude::*;

use crate::headers::clone_strings;
use crate::html::{spec_to_html, strs, to_html_defined};
use crate::meta::NoteMeta;
use crate::store::{
    lemma_remove, lemma_set, sorted_keys, store_add, store_get, store_remove,
    store_set, LinkStore, StoreEntries,
};
use crate::templates::{page_tags, to_template};
use crate::text::{chars_of, push_char, replace, replace_str};

verus! {

/// The store after adding title `t` under each of `links`, in order.
pub open spec fn add_all(e: StoreEntries, links: Seq<Seq<char>>, t: Seq<char>) -> StoreEntries
    decreases links.len(),
{
    if links.len() == 0 {
        e
    } else {
        store_add(add_all(e, links.drop_last(), t), links.last(), t)
    }
}

/// The store built from notes given as titles with their links and tags.
pub open spec fn build_store(notes: Seq<(Seq<char>, Seq<Seq<char>>)>) -> StoreEntries
    decreases notes.len(),
{
    if notes.len() == 0 {
        Seq::<(Seq<char>, Seq<Seq<char>>)>::empty()
    } else {
        add_all(build_store(notes.drop_last()), notes.last().1, notes.last().0)
    }
}

/// `v` without the titles equal to `t`.
pub open spec fn without(v: Seq<Seq<char>>, t: Seq<char>) -> Seq<Seq<char>>
    decreases v.len(),
{
    if v.len() == 0 {
        v
    } else if v.last() == t {
        without(v.drop_last(), t)
    } else {
        without(v.drop_last(), t).push(v.last())
    }
}

/// The store with title `t` dropped from the list of `k`, where that list holds it.
pub open spec fn drop_title(e: StoreEntries, k: Seq<char>, t: Seq<char>) -> StoreEntries {
    match store_get(e, k) {
        Some(v) => if v.contains(t) {
            store_set(e, k, without(v, t))
        } else {
            e
        },
        None => e,
    }
}

/// The store with title `t` dropped from the lists of each of `keys`, in order.
pub open spec fn drop_title_all(e: StoreEntries, keys: Seq<Seq<char>>, t: Seq<char>) -> StoreEntries
    decreases keys.len(),
{
    if keys.len() == 0 {
        e
    } else {
        drop_title(drop_title_all(e, keys.drop_last(), t), keys.last(), t)
    }
}

/// The store once a note titled `t` with these links and tags is gone: `t` is
/// dropped from the lists of its links, then of its tags, and its own key goes.
pub open spec fn store_delete(
    e: StoreEntries,
    t: Seq<char>,
    outlinks: Seq<Seq<char>>,
    tags: Seq<Seq<char>>,
) -> StoreEntries {
    store_remove(drop_title_all(drop_title_all(e, outlinks, t), tags, t), t)
}

/// The store once note `old` is called `new`: the list under `old` moves to `new`.
pub open spec fn store_rename(e: StoreEntries, new: Seq<char>, old: Seq<char>) -> StoreEntries {
    match store_get(e, old) {
        Some(v) => store_remove(store_set(e, new, v), old),
        None => e,
    }
}

/// The stores of a build: tags and backlinks.
pub struct RefBuilder {
    pub tag_map: LinkStore,
    pub backlinks: LinkStore,
}

impl RefBuilder {
    /// Two empty stores.
    pub fn new() -> (r: RefBuilder)
        ensures
            r.tag_map@.len() == 0,
            r.backlinks@.len() == 0,
    {
        RefBuilder { tag_map: LinkStore::new(), backlinks: LinkStore::new() }
    }
}

/// Records that the note titled `title` points at each of `links_and_tags`.
pub fn add_to_global_store(title: &str, links_and_tags: &Vec<String>, backlinks: &mut LinkStore)
    ensures
        final(backlinks)@ == add_all(old(backlinks)@, strs(links_and_tags@), title@),
{
    let ghost ls = strs(links_and_tags@);
    let ghost start = backlinks@;
    let mut i: usize = 0;
    while i < links_and_tags.len()
        invariant
            i <= links_and_tags.len(),
            ls == strs(links_and_tags@),
            backlinks@ == add_all(start, ls.take(i as int), title@),
        decreases links_and_tags.len() - i,
    {
        backlinks.add(links_and_tags[i].as_str(), title);
        assert(ls.take(i as int + 1).drop_last() =~= ls.take(i as int));
        i += 1;
    }
    assert(ls.take(links_and_tags.len() as int) =~= ls);
}

/// Records a note's links again after an edit.
pub fn update_global_store(current_title: &str, links_and_tags: &Vec<String>, links: &mut LinkStore)
    ensures
        final(links)@ == add_all(old(links)@, strs(links_and_tags@), current_title@),
{
    add_to_global_store(current_title, links_and_tags, links);
}

/// Builds the store from notes given as titles with their links and tags.
pub fn create_global_store(notes: &Vec<(String, Vec<String>)>) -> (r: LinkStore)
    ensures
        r@ == build_store(notes@.map_values(|n: (String, Vec<String>)| (n.0@, strs(n.1@)))),
{
    let ghost ns = notes@.map_values(|n: (String, Vec<String>)| (n.0@, strs(n.1@)));
    let mut backlinks = LinkStore::new();
    let mut i: usize = 0;
    assert(ns.take(0) =~= Seq::<(Seq<char>, Seq<Seq<char>>)>::empty());
    while i < notes.len()
        invariant
            i <= notes.len(),
            ns == notes@.map_values(|n: (String, Vec<String>)| (n.0@, strs(n.1@))),
            backlinks@ == build_store(ns.take(i as int)),
        decreases notes.len() - i,
    {
        add_to_global_store(notes[i].0.as_str(), &notes[i].1, &mut backlinks);
        assert(ns.take(i as int + 1).drop_last() =~= ns.take(i as int));
        assert(ns[i as int] == (notes@[i as int].0@, strs(notes@[i as int].1@)));
        i += 1;
    }
    assert(ns.take(notes.len() as int) =~= ns);
    backlinks
}

/// `v` without the titles equal to `t`, in order.
pub fn filter_titles(v: &Vec<String>, t: &str) -> (r: Vec<String>)
    ensures
        strs(r@) == without(strs(v@), t@),
{
    let ghost vs = strs(v@);
    let tv = crate::text::chars_of(t);
    let mut out: Vec<String> = Vec::new();
    let mut i: usize = 0;
    while i < v.len()
        invariant
            i <= v.len(),
            vs == strs(v@),
            tv@ == t@,
            strs(out@) == without(vs.take(i as int), t@),
        decreases v.len() - i,
    {
        let ghost before = strs(out@);
        assert(vs.take(i as int + 1).drop_last() =~= vs.take(i as int));
        assert(vs.take(i as int + 1).last() == v@[i as int]@);
        let cv = crate::text::chars_of(v[i].as_str());
        if !crate::urls::chars_eq(cv.as_slice(), tv.as_slice()) {
            out.push(v[i].clone());
            assert(strs(out@) =~= before.push(v@[i as int]@));
        }
        i += 1;
    }
    assert(vs.take(v.len() as int) =~= vs);
    out
}

/// Whether `v` holds a title equal to `t`.
pub fn holds_title(v: &Vec<String>, t: &str) -> (r: bool)
    ensures
        r == strs(v@).contains(t@),
{
    let tv = crate::text::chars_of(t);
    let mut i: usize = 0;
    while i < v.len()
        invariant
            i <= v.len(),
            tv@ == t@,
            forall|j: int| 0 <= j < i ==> v@[j]@ != t@,
        decreases v.len() - i,
    {
        let cv = crate::text::chars_of(v[i].as_str());
        if crate::urls::chars_eq(cv.as_slice(), tv.as_slice()) {
            assert(strs(v@)[i as int] == t@);
            return true;
        }
        i += 1;
    }
    assert(!strs(v@).contains(t@)) by {
        assert forall|j: int| 0 <= j < strs(v@).len() implies strs(v@)[j] != t@ by {
            assert(strs(v@)[j] == v@[j]@);
        }
    }
    false
}

/// Drops title `t` from the lists of each of `keys`.
fn drop_title_from_keys(t: &str, keys: &Vec<String>, links: &mut LinkStore)
    ensures
        final(links)@ == drop_title_all(old(links)@, strs(keys@), t@),
{
    let ghost ks = strs(keys@);
    let ghost start = links@;
    let mut i: usize = 0;
    while i < keys.len()
        invariant
            i <= keys.len(),
            ks == strs(keys@),
            links@ == drop_title_all(start, ks.take(i as int), t@),
        decreases keys.len() - i,
    {
        assert(ks.take(i as int + 1).drop_last() =~= ks.take(i as int));
        assert(ks.take(i as int + 1).last() == keys@[i as int]@);
        let replacement = match links.get(keys[i].as_str()) {
            Some(exists) => if holds_title(exists, t) {
                Some(filter_titles(exists, t))
            } else {
                None
            },
            None => None,
        };
        match replacement {
            Some(filtered) => links.insert(keys[i].clone(), filtered),
            None => {},
        }
        i += 1;
    }
    assert(ks.take(keys.len() as int) =~= ks);
}

/// Removes the note titled `title`, whose links and tags are given, from the store.
pub fn remove_references(title: &str, outlinks: &Vec<String>, tags: &Vec<String>, links: &mut LinkStore)
    ensures
        final(links)@ == store_delete(old(links)@, title@, strs(outlinks@), strs(tags@)),
{
    drop_title_from_keys(title, outlinks, links);
    drop_title_from_keys(title, tags, links);
    links.remove(title);
}

/// Removes a deleted note from the store: its title leaves the lists of the links
/// its body holds and of its tags, and its own key goes.
pub fn delete_from_global_store(title: &str, note: &NoteMeta, links: &mut LinkStore)
    requires
        to_html_defined(note.content@),
    ensures
        final(links)@ == store_delete(
            old(links)@,
            title@,
            spec_to_html(note.content@).1,
            page_tags(note.metadata@),
        ),
{
    let templatted = to_template(note);
    remove_references(title, &templatted.outlinks, &templatted.page.tags, links);
}

/// A text with `sep` before, between and after its characters.
pub open spec fn interleave(s: Seq<char>, sep: Seq<char>) -> Seq<char>
    decreases s.len(),
{
    if s.len() == 0 {
        sep
    } else {
        interleave(s.drop_last(), sep) + seq![s.last()] + sep
    }
}

/// The text of a note that links to a renamed note, as `str::replace` makes it:
/// every occurrence of the old title, left to right, replaced by the new one;
/// an empty old title puts the new one around every character.
pub open spec fn relinked(raw: Seq<char>, old_title: Seq<char>, new_title: Seq<char>) -> Seq<char> {
    if old_title.len() == 0 {
        interleave(raw, new_title)
    } else {
        replace(raw, old_title, new_title)
    }
}

/// Rewrites the text of a note that links to a renamed note so that its links
/// name the new title.
pub fn relink(raw: &str, old_title: &str, new_title: &str) -> (r: String)
    ensures
        r@ == relinked(raw@, old_title@, new_title@),
{
    if old_title.unicode_len() > 0 {
        return replace_str(raw, old_title, new_title);
    }
    let v = chars_of(raw);
    let mut out = new_title.to_string();
    let mut i: usize = 0;
    while i < v.len()
        invariant
            i <= v.len(),
            v@ == raw@,
            out@ == interleave(v@.take(i as int), new_title@),
        decreases v.len() - i,
    {
        assert(v@.take(i as int + 1).drop_last() =~= v@.take(i as int));
        push_char(&mut out, v[i]);
        out.append(new_title);
        i += 1;
    }
    assert(v@.take(v.len() as int) =~= v@);
    out
}

/// Moves the list of a renamed note from its old title to its new one, and gives
/// back the titles of the notes that link to it (their text still names the old
/// title), if there are any.
pub fn rename_in_global_store(current_title: &str, old_title: &str, backlinks: &mut LinkStore) -> (r:
    Option<Vec<String>>)
    ensures
        final(backlinks)@ == store_rename(old(backlinks)@, current_title@, old_title@),
        r matches Some(v) ==> store_get(old(backlinks)@, old_title@) == Some(strs(v@)),
        r is None ==> store_get(old(backlinks)@, old_title@) is None,
{
    let linked = match backlinks.get(old_title) {
        Some(linked_pages) => Some(clone_strings(linked_pages)),
        None => None,
    };
    match linked {
        Some(pages) => {
            let copy = clone_strings(&pages);
            backlinks.insert(current_title.to_string(), copy);
            backlinks.remove(old_title);
            Some(pages)
        },
        None => None,
    }
}



/// A list is there and holds title `t`.
pub open spec fn lists_title(o: Option<Seq<Seq<char>>>, t: Seq<char>) -> bool {
    match o {
        Some(v) => v.contains(t),
        None => false,
    }
}

/// No list there holds title `t`.
pub open spec fn lacks_title(o: Option<Seq<Seq<char>>>, t: Seq<char>) -> bool {
    match o {
        Some(v) => !v.contains(t),
        None => true,
    }
}

/// Once a note's links are recorded, the list under each of its links holds
/// the note's title, and the lists of other keys are as they were.
pub proof fn law_add_records_title(e: StoreEntries, links: Seq<Seq<char>>, t: Seq<char>)
    requires
        sorted_keys(e),
    ensures
        sorted_keys(add_all(e, links, t)),
        forall|i: int| 0 <= i < links.len() ==> lists_title(
            #[trigger] store_get(add_all(e, links, t), links[i]),
            t,
        ),
        forall|k: Seq<char>| !links.contains(k) ==> #[trigger] store_get(add_all(e, links, t), k)
            == store_get(e, k),
    decreases links.len(),
{
    if links.len() > 0 {
        let d = links.drop_last();
        let prev = add_all(e, d, t);
        law_add_records_title(e, d, t);
        let k = links.last();
        let v = match store_get(prev, k) {
            Some(v) => v.push(t),
            None => seq![t],
        };
        let n = add_all(e, links, t);
        assert(n == store_set(prev, k, v));
        lemma_set(prev, k, v);
        assert(v.contains(t)) by {
            assert(v[v.len() - 1] == t);
        }
        assert forall|i: int| 0 <= i < links.len() implies lists_title(
            #[trigger] store_get(n, links[i]),
            t,
        ) by {
            if links[i] != k {
                assert(d[i] == links[i]);
                assert(lists_title(store_get(prev, d[i]), t));
            }
        }
        assert forall|k2: Seq<char>| !links.contains(k2) implies #[trigger] store_get(n, k2)
            == store_get(e, k2) by {
            assert(links[links.len() - 1] == k);
            assert(k2 != k);
            assert(!d.contains(k2)) by {
                if d.contains(k2) {
                    let j = choose|j: int| 0 <= j < d.len() && d[j] == k2;
                    assert(links[j] == k2);
                }
            }
            assert(store_get(prev, k2) == store_get(e, k2));
        }
    }
}

/// A pushed sequence holds the old elements and the new one.
pub proof fn lemma_contains_push(s: Seq<Seq<char>>, a: Seq<char>, x: Seq<char>)
    ensures
        s.push(a).contains(x) <==> (s.contains(x) || a == x),
{
    if s.contains(x) {
        let j = choose|j: int| 0 <= j < s.len() && s[j] == x;
        assert(s.push(a)[j] == x);
    }
    if a == x {
        assert(s.push(a)[s.len() as int] == x);
    }
    if s.push(a).contains(x) {
        let j = choose|j: int| 0 <= j < s.push(a).len() && s.push(a)[j] == x;
        if j < s.len() {
            assert(s[j] == x);
        }
    }
}

/// `without` drops exactly the titles equal to `t`.
pub proof fn lemma_without(v: Seq<Seq<char>>, t: Seq<char>)
    ensures
        !without(v, t).contains(t),
        forall|x: Seq<char>| x != t ==> (#[trigger] without(v, t).contains(x) <==> v.contains(x)),
    decreases v.len(),
{
    if v.len() > 0 {
        let d = v.drop_last();
        lemma_without(d, t);
        let w = without(d, t);
        assert(v =~= d.push(v.last()));
        if v.last() != t {
            lemma_contains_push(w, v.last(), t);
        }
        assert forall|x: Seq<char>| x != t implies (#[trigger] without(v, t).contains(x) <==> v.contains(x)) by {
            lemma_contains_push(d, v.last(), x);
            lemma_contains_push(w, v.last(), x);
            assert(w.contains(x) <==> d.contains(x));
        }
    }
}

/// Dropping a title from the lists of some keys: afterwards no list under those
/// keys holds it, other keys are as they were, and the keys stay sorted.
pub proof fn lemma_drop_title_all(e: StoreEntries, keys: Seq<Seq<char>>, t: Seq<char>)
    requires
        sorted_keys(e),
    ensures
        sorted_keys(drop_title_all(e, keys, t)),
        forall|i: int| 0 <= i < keys.len() ==> lacks_title(
            #[trigger] store_get(drop_title_all(e, keys, t), keys[i]),
            t,
        ),
        forall|k: Seq<char>| !keys.contains(k) ==> #[trigger] store_get(drop_title_all(e, keys, t), k)
            == store_get(e, k),
    decreases keys.len(),
{
    if keys.len() > 0 {
        let d = keys.drop_last();
        let prev = drop_title_all(e, d, t);
        lemma_drop_title_all(e, d, t);
        let k = keys.last();
        let n = drop_title_all(e, keys, t);
        assert(n == drop_title(prev, k, t));
        let changed = match store_get(prev, k) {
            Some(v) => v.contains(t),
            None => false,
        };
        if changed {
            let v = store_get(prev, k).unwrap();
            assert(n == store_set(prev, k, without(v, t)));
            lemma_set(prev, k, without(v, t));
            lemma_without(v, t);
        } else {
            assert(n == prev);
        }
        assert(lacks_title(store_get(n, k), t));
        assert forall|i: int| 0 <= i < keys.len() implies lacks_title(
            #[trigger] store_get(n, keys[i]),
            t,
        ) by {
            if keys[i] != k {
                assert(d[i] == keys[i]);
                assert(lacks_title(store_get(prev, d[i]), t));
                assert(store_get(n, keys[i]) == store_get(prev, keys[i]));
            }
        }
        assert forall|k2: Seq<char>| !keys.contains(k2) implies #[trigger] store_get(n, k2)
            == store_get(e, k2) by {
            assert(keys[keys.len() - 1] == k);
            assert(k2 != k);
            assert(!d.contains(k2)) by {
                if d.contains(k2) {
                    let j = choose|j: int| 0 <= j < d.len() && d[j] == k2;
                    assert(keys[j] == k2);
                }
            }
            assert(store_get(prev, k2) == store_get(e, k2));
            assert(store_get(n, k2) == store_get(prev, k2));
        }
    }
}

/// Once a note is deleted, its own key is gone, no list under its links or tags
/// holds its title, and keys it did not point at are as they were.
pub proof fn law_delete_forgets_title(
    e: StoreEntries,
    t: Seq<char>,
    outlinks: Seq<Seq<char>>,
    tags: Seq<Seq<char>>,
)
    requires
        sorted_keys(e),
    ensures
        sorted_keys(store_delete(e, t, outlinks, tags)),
        store_get(store_delete(e, t, outlinks, tags), t) is None,
        forall|k: Seq<char>| (outlinks.contains(k) || tags.contains(k)) ==> lacks_title(
            #[trigger] store_get(store_delete(e, t, outlinks, tags), k),
            t,
        ),
        forall|k: Seq<char>| k != t && !outlinks.contains(k) && !tags.contains(k) ==> #[trigger] store_get(
            store_delete(e, t, outlinks, tags),
            k,
        ) == store_get(e, k),
{
    let a = drop_title_all(e, outlinks, t);
    let b = drop_title_all(a, tags, t);
    lemma_drop_title_all(e, outlinks, t);
    lemma_drop_title_all(a, tags, t);
    lemma_remove(b, t);
    let n = store_delete(e, t, outlinks, tags);
    assert(n == store_remove(b, t));
    assert forall|k: Seq<char>| (outlinks.contains(k) || tags.contains(k)) implies lacks_title(
        #[trigger] store_get(n, k),
        t,
    ) by {
        if k != t {
            assert(store_get(n, k) == store_get(b, k));
            if tags.contains(k) {
                let j = choose|j: int| 0 <= j < tags.len() && tags[j] == k;
                assert(lacks_title(store_get(b, tags[j]), t));
            } else {
                let j = choose|j: int| 0 <= j < outlinks.len() && outlinks[j] == k;
                assert(lacks_title(store_get(a, outlinks[j]), t));
                assert(store_get(b, k) == store_get(a, k));
            }
        }
    }
    assert forall|k: Seq<char>| k != t && !outlinks.contains(k) && !tags.contains(k) implies #[trigger] store_get(
        n,
        k,
    ) == store_get(e, k) by {
        assert(store_get(n, k) == store_get(b, k));
        assert(store_get(b, k) == store_get(a, k));
        assert(store_get(a, k) == store_get(e, k));
    }
}

/// Once a note is renamed, its list is under the new title and not the old
/// one, and other keys are as they were.
pub proof fn law_rename_moves_list(e: StoreEntries, new: Seq<char>, old: Seq<char>)
    requires
        sorted_keys(e),
        new != old,
    ensures
        sorted_keys(store_rename(e, new, old)),
        store_get(store_rename(e, new, old), new) == (match store_get(e, old) {
            Some(v) => Some(v),
            None => store_get(e, new),
        }),
        store_get(e, old) is Some ==> store_get(store_rename(e, new, old), old) is None,
        forall|k: Seq<char>| k != new && k != old ==> #[trigger] store_get(store_rename(e, new, old), k)
            == store_get(e, k),
{
    if let Some(v) = store_get(e, old) {
        lemma_set(e, new, v);
        lemma_remove(store_set(e, new, v), old);
    }
}

} // verus!
