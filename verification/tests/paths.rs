use tendril::paths::{
    get_archive_file_path, get_archive_location, get_file_path, get_search_file_index_location,
    get_search_index_location, get_todo_location, normalize_wiki_location, parse_location,
};
use tendril::persist::{
    append_journal_entry, new_journal, plan_write, title_on_disk, id_from_created, WriteTarget,
};
use tendril::metadata::Metadata;
use tendril::patch::PatchData;
use tendril::headers::NoteHeader;

#[test]
fn mod_formats_wiki_location() {
    assert_eq!(parse_location("./wiki", "test"), "./wiki/");
    assert_eq!(parse_location("~/wiki", "test"), "test/wiki/");
    assert_eq!(parse_location("/user/~/wiki", "test"), "/user/test/wiki/");
}

#[test]
fn fs_formats_wiki_location() {
    assert_eq!(normalize_wiki_location("./wiki", "test"), "./wiki/");
    assert_eq!(normalize_wiki_location("~/wiki", "test"), "test/wiki/");
    assert_eq!(normalize_wiki_location("/user/~/wiki", "test"), "/user/test/wiki/");
}

#[test]
fn data_files_live_under_the_data_directory() {
    assert_eq!(get_search_index_location("/data"), "/data/search-index");
    assert_eq!(get_search_file_index_location("/data"), "/data/search-index/file_index");
    assert_eq!(get_archive_location("/data"), "/data/archive");
    assert_eq!(get_archive_file_path("/data", "Page"), "/data/archive/Page");
    assert_eq!(get_todo_location("/data/"), "/data/todo.txt");
}

#[test]
fn notes_are_text_files_named_by_title() {
    assert_eq!(get_file_path("/wiki/", "My Note"), "/wiki/My Note.txt");
    assert_eq!(get_file_path("/wiki", "v1.2 notes"), "/wiki/v1.txt");
}

fn patch(title: &str, old_title: &str, meta: &[(&str, &str)]) -> PatchData {
    let mut metadata = Metadata::new();
    for (k, v) in meta {
        metadata.insert(k.to_string(), v.to_string());
    }
    PatchData {
        body: "B".into(),
        tags: vec!["t".into()],
        title: title.into(),
        old_title: old_title.into(),
        metadata,
    }
}

#[test]
fn new_notes_are_created_with_ids() {
    let plan = plan_write(&patch("N", "", &[]), false, "20240101120000");
    assert_eq!(plan.target, WriteTarget::Create);
    assert_eq!(
        plan.note,
        "title: N\ntags: [t]\ncreated: 20240101120000\nid: 20240101120000\n\nB"
    );
}

#[test]
fn edited_notes_get_modified_and_ids() {
    let plan = plan_write(
        &patch("N", "N", &[("created", "2022-01-03T10:20:30+00:00")]),
        true,
        "20240101120000",
    );
    assert_eq!(plan.target, WriteTarget::Overwrite);
    assert_eq!(
        plan.note,
        "created: 2022-01-03T10:20:30+00:00\ntitle: N\ntags: [t]\nmodified: 20240101120000\nid: 20220103102030\n\nB"
    );
    let plan = plan_write(&patch("N", "", &[("created", "long ago")]), true, "now");
    assert!(plan.note.contains("id: long ago\n"));
    let plan = plan_write(&patch("N", "", &[]), true, "now");
    assert_eq!(plan.note, "title: N\ntags: [t]\nmodified: now\ncreated: now\nid: now\n\nB");
}

#[test]
fn renamed_notes_move() {
    let data = patch("New", "Old", &[("created", "c"), ("id", "1")]);
    assert_eq!(title_on_disk(&data), "Old");
    let plan = plan_write(&data, true, "now");
    assert_eq!(plan.target, WriteTarget::Rename);
    assert_eq!(plan.note, "created: c\nid: 1\ntitle: New\ntags: [t]\nmodified: now\n\nB");
    assert_eq!(title_on_disk(&patch("Same", "", &[])), "Same");
}

#[test]
fn ids_come_from_creation_times() {
    assert_eq!(id_from_created("x", Some("y".into())), "y");
    assert_eq!(id_from_created("x", None), "x");
}

#[test]
fn journal_entries_are_appended() {
    assert_eq!(append_journal_entry("old", "10:00", "hi"), "old\n\n[10:00] hi");
    assert_eq!(
        new_journal("2024-01-01", "2024-01-01T10:00:00+01:00", "10:00", "hi"),
        "\n---\ntitle: 2024-01-01\ntags: [daily notes]\ncreated: 2024-01-01T10:00:00+01:00\n---\n[10:00] hi\n"
    );
}

#[test]
fn written_notes_read_back_their_metadata() {
    let data = patch("Renamed", "Old", &[("created", "c"), ("id", "1")]);
    let plan = plan_write(&data, true, "now");
    let note = NoteHeader::from_string(plan.note);
    assert_eq!(note.metadata.get("title").map(|s| s.as_str()), Some("Renamed"));
    assert_eq!(note.metadata.get("tags").map(|s| s.as_str()), Some("[t]"));
    assert_eq!(note.metadata.get("modified").map(|s| s.as_str()), Some("now"));
    // Content lines are read back each behind a newline.
    assert_eq!(note.content, "\nB");
}
