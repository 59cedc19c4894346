use tendril::meta::NoteMeta;
use tendril::references::{
    add_to_global_store, create_global_store, delete_from_global_store, filter_titles,
    holds_title, relink, remove_references, rename_in_global_store, update_global_store, RefBuilder,
};
use tendril::store::LinkStore;
use tendril::templates::to_template;

fn s(v: &[&str]) -> Vec<String> {
    v.iter().map(|x| x.to_string()).collect()
}

/// A note's links followed by its tags.
fn note_links_and_tags(note: &NoteMeta) -> Vec<String> {
    let parsed = to_template(note);
    let mut all = parsed.outlinks.clone();
    all.extend(parsed.page.tags.iter().cloned());
    all
}

fn keys(store: &LinkStore) -> Vec<String> {
    (0..store.len()).map(|i| store.key(i).clone()).collect()
}

#[test]
fn store_keeps_keys_in_order() {
    let mut store = LinkStore::new();
    store.add("pear", "A");
    store.add("apple", "B");
    store.add("Zebra", "C");
    store.add("apple", "D");
    assert_eq!(keys(&store), s(&["Zebra", "apple", "pear"]));
    assert_eq!(store.get("apple"), Some(&s(&["B", "D"])));
    assert_eq!(store.get("kiwi"), None);
    store.insert("apple".into(), s(&["E"]));
    assert_eq!(store.titles(1), &s(&["E"]));
    store.remove("apple");
    store.remove("missing");
    assert_eq!(keys(&store), s(&["Zebra", "pear"]));
}

#[test]
fn recorded_links_list_the_linking_note() {
    let mut store = LinkStore::new();
    add_to_global_store("note", &s(&["b", "a", "b"]), &mut store);
    assert_eq!(keys(&store), s(&["a", "b"]));
    assert_eq!(store.get("a"), Some(&s(&["note"])));
    assert_eq!(store.get("b"), Some(&s(&["note", "note"])));
    update_global_store("other", &s(&["a"]), &mut store);
    assert_eq!(store.get("a"), Some(&s(&["note", "other"])));
}

#[test]
fn store_is_built_from_notes() {
    let notes = vec![("n1".to_string(), s(&["x"])), ("n2".to_string(), s(&["x", "y"]))];
    let store = create_global_store(&notes);
    assert_eq!(store.get("x"), Some(&s(&["n1", "n2"])));
    assert_eq!(store.get("y"), Some(&s(&["n2"])));
    let builder = RefBuilder::new();
    assert_eq!(builder.tag_map.len(), 0);
    assert_eq!(builder.backlinks.len(), 0);
}

#[test]
fn titles_are_filtered_and_found() {
    let v = s(&["a", "b", "a"]);
    assert_eq!(filter_titles(&v, "a"), s(&["b"]));
    assert!(holds_title(&v, "b"));
    assert!(!holds_title(&v, "c"));
}

#[test]
fn deleted_note_leaves_the_store() {
    let mut store = LinkStore::new();
    add_to_global_store("gone", &s(&["x", "tag"]), &mut store);
    add_to_global_store("kept", &s(&["x"]), &mut store);
    add_to_global_store("kept", &s(&["gone"]), &mut store);
    remove_references("gone", &s(&["x"]), &s(&["tag"]), &mut store);
    assert_eq!(store.get("x"), Some(&s(&["kept"])));
    assert_eq!(store.get("tag"), Some(&s(&[])));
    assert_eq!(store.get("gone"), None);
}

#[test]
fn deletes_from_global_store() {
    let title = "Logical reality";
    let mut store = LinkStore::new();
    store.insert(title.into(), s(&["wiki page"]));
    let note = NoteMeta::from_string("---\ntitle: Logical reality\n---\nA note.".into());
    delete_from_global_store(title, &note, &mut store);
    assert_eq!(store.get(title), None);
}

#[test]
fn renames_note_succesfully() {
    let title = "Logical reality";
    let new_title = "reality building";
    let mut store = LinkStore::new();
    store.insert(title.into(), s(&["wiki page"]));
    let linking = rename_in_global_store(new_title, title, &mut store);
    assert_eq!(linking, Some(s(&["wiki page"])));
    assert_eq!(store.get(title), None);
    assert_eq!(store.get(new_title), Some(&s(&["wiki page"])));
}

#[test]
fn updates_note_succesfully() {
    let title = "Logical reality";
    let mut store = LinkStore::new();
    store.insert(title.into(), s(&["wiki page"]));
    // The links and tags of the note "Logical reality"; its fixture file is not
    // at hand, so the note is written out here.
    let note = NoteMeta::from_string(
        "---\ntitle: Logical reality\ntags: [philosophy]\n---\nSee [[wiki page]].".into(),
    );
    let links_and_tags = note_links_and_tags(&note);
    assert_eq!(links_and_tags, s(&["wiki page", "philosophy"]));
    update_global_store(title, &links_and_tags, &mut store);
    assert_eq!(store.get(title), Some(&s(&["wiki page"])));
}

#[test]
fn renamed_notes_are_relinked() {
    assert_eq!(relink("see [[Old]] and Old.", "Old", "New"), "see [[New]] and New.");
    assert_eq!(relink("ab", "", "x"), "xaxbx");
    assert_eq!(relink("nothing here", "Old", "New"), "nothing here");
}

#[test]
fn renaming_an_unknown_note_changes_nothing() {
    let mut store = LinkStore::new();
    store.add("a", "b");
    assert_eq!(rename_in_global_store("new", "old", &mut store), None);
    assert_eq!(keys(&store), s(&["a"]));
}
