use tendril::jobs::{new_from_url_note, plan_job, Step};
use tendril::messages::{split_string, EditPageData, Message};
use tendril::metadata::Metadata;
use tendril::patch::PatchData;
use tendril::persist::WriteWikiError;
use tendril::runners::{
    bookmark_fallback, bookmark_outcome, bookmark_patch, bookmark_request, cache_text,
    archive_job, decoded_title, delete_job, edit_archive_job, edit_outcome, error_location_of, filter_cache_file,
    nested_path, page_location_of, show_error_message, styles_body, update_mru, APIRunner,
};
use tendril::todo::{delete_task, insert_task, replace_task, task_lines};

fn s(v: &[&str]) -> Vec<String> {
    v.iter().map(|x| x.to_string()).collect()
}

fn form(pairs: &[(&str, &str)]) -> Metadata {
    let mut m = Metadata::new();
    for (k, v) in pairs {
        m.insert(k.to_string(), v.to_string());
    }
    m
}

#[test]
fn version_is_the_package_version() {
    assert_eq!(APIRunner::get_version(), "0.1.0");
}

#[test]
fn cache_lines_drop_a_title() {
    assert_eq!(filter_cache_file("a\nb\na\nc", "a"), s(&["b", "c"]));
    assert_eq!(filter_cache_file("", "a"), s(&[]));
    assert_eq!(cache_text(&s(&["x", "y"])), "x\ny");
}

#[test]
fn opened_note_goes_first_in_recent_list() {
    assert_eq!(update_mru("b\nc\nd", "old", "c"), s(&["c", "b", "d"]));
    assert_eq!(update_mru("b\nold\nd", "old", "new"), s(&["new", "b", "d"]));
    let full = "1\n2\n3\n4\n5\n6\n7\n8";
    let updated = update_mru(full, "", "9");
    assert_eq!(updated, s(&["9", "1", "2", "3", "4", "5", "6", "7"]));
    assert_eq!(updated.len(), 8);
}

#[test]
fn error_page_message_has_a_default() {
    assert_eq!(show_error_message(&form(&[("msg", "bad")])), "bad");
    assert_eq!(show_error_message(&form(&[])), "Error could not be determined.");
}

#[test]
fn style_sheet_uses_crlf_in_editor() {
    assert_eq!(styles_body("a\nb\n"), "a\r\nb\r\n");
}

#[test]
fn locations_are_url_encoded() {
    assert_eq!(page_location_of("My Page"), "/My%20Page");
    assert_eq!(error_location_of("bad thing"), "/error?msg=bad%20thing");
}

#[test]
fn nested_paths_decode_the_sub_path() {
    assert_eq!(nested_path("main", "sub%20page"), Some("main/sub page".to_string()));
    assert_eq!(nested_path("main", "%FF"), None);
    assert_eq!(decoded_title("A%20B"), Some("A B".to_string()));
}

#[test]
fn bookmark_form_gives_url_and_tags() {
    let (url, tags) = bookmark_request(&form(&[("url", "http://x"), ("tags", "a,b")]));
    assert_eq!(url, "http://x");
    assert_eq!(tags, s(&["a", "b", "bookmark"]));
}

#[test]
fn bookmark_patch_cleans_the_title() {
    let p = bookmark_patch("http://x".into(), "A: title?", "<p>b</p>".into(), s(&["t"]));
    assert_eq!(p.title, "A title");
    assert_eq!(p.body, "<p>b</p>");
    assert_eq!(p.old_title, "");
    assert_eq!(p.metadata.get("url"), Some(&"http://x".to_string()));
    assert_eq!(p.metadata.get("content-type"), Some(&"html".to_string()));
}

fn patch(title: &str, old_title: &str, tags: &[&str], url: Option<&str>) -> PatchData {
    let mut metadata = Metadata::new();
    if let Some(u) = url {
        metadata.insert("url".into(), u.into());
    }
    PatchData { body: String::new(), tags: s(tags), title: title.into(), old_title: old_title.into(), metadata }
}

#[test]
fn bookmark_outcomes_queue_jobs_or_report() {
    let (jobs, location) = bookmark_outcome(patch("T x", "", &[], None), "text".into(), Ok(()));
    assert_eq!(location, "/T%20x");
    assert_eq!(jobs.len(), 2);
    assert!(matches!(&jobs[0], Message::Patch { patch } if patch.title == "T x"));
    assert!(matches!(&jobs[1], Message::ArchiveBody { title, body } if title == "T x" && body == "text"));
    let (jobs, location) = bookmark_outcome(patch("T", "", &[], None), "text".into(), Err("Unknown".into()));
    assert!(jobs.is_empty());
    assert_eq!(location, "/error?msg=Unknown");
    let (job, location) = bookmark_fallback("u".into(), s(&["t"]));
    assert!(matches!(job, Message::NewFromUrl { url, tags } if url == "u" && tags == s(&["t"])));
    assert_eq!(location, "/bookmark");
}

#[test]
fn bookmark_edits_ask_for_archives() {
    let renamed = edit_archive_job(&patch("New", "Old", &["Bookmark"], Some("http://u")));
    assert!(matches!(renamed, Some(Message::ArchiveMove { old_title, new_title }) if old_title == "Old" && new_title == "New"));
    let fresh = edit_archive_job(&patch("T", "", &["x", "BOOKMARK"], Some("http://u")));
    assert!(matches!(fresh, Some(Message::Archive { url, title }) if url == "http://u" && title == "T"));
    assert!(edit_archive_job(&patch("T", "", &["bookmark"], None)).is_none());
    assert!(edit_archive_job(&patch("T", "", &["notes"], Some("http://u"))).is_none());
}

#[test]
fn archive_jobs_come_from_lowered_tags() {
    let p = patch("T", "", &["Bookmark"], Some("http://u"));
    assert!(matches!(archive_job(&p, &s(&["bookmark"])), Some(Message::Archive { .. })));
    assert!(archive_job(&p, &s(&["Bookmark"])).is_none());
}

#[test]
fn written_edits_are_queued_as_patches() {
    let (job, result) = edit_outcome(patch("T", "", &["a"], None), Ok(()));
    assert!(matches!(job, Some(Message::Patch { patch }) if patch.title == "T"));
    assert!(result.is_ok());
    let (job, result) = edit_outcome(patch("T", "", &["a"], None), Err(WriteWikiError::TitleInvalid));
    assert!(job.is_none());
    assert!(matches!(result, Err(WriteWikiError::TitleInvalid)));
}

#[test]
fn delete_form_names_the_note() {
    assert!(matches!(delete_job(&form(&[("title", "Gone")])), Message::Delete { title } if title == "Gone"));
}

#[test]
fn edit_form_is_read() {
    let data = EditPageData::from_form(&form(&[("title", "T"), ("tags", "a,b"), ("body", "B")]));
    assert_eq!(data.title, "T");
    assert_eq!(data.old_title, "");
    assert_eq!(data.tags, s(&["a", "b"]));
    assert_eq!(data.body, "B");
    let empty = EditPageData::from_form(&form(&[]));
    assert!(empty.tags.is_empty());
    assert_eq!(split_string("a,,b", ','), s(&["a", "", "b"]));
}

#[test]
fn jobs_are_planned() {
    let steps = plan_job(Message::Patch { patch: patch("New", "Old", &[], None) });
    assert_eq!(steps.len(), 4);
    assert!(matches!(&steps[2], Step::RenameLinks { new_title, old_title } if new_title == "New" && old_title == "Old"));
    assert!(matches!(&steps[3], Step::UpdateMru { old_title, title } if old_title == "Old" && title == "New"));
    let steps = plan_job(Message::Patch { patch: patch("T", "", &[], None) });
    assert_eq!(steps.len(), 3);
    assert!(matches!(&steps[0], Step::UpdateLinks { .. }));
    assert!(matches!(&steps[1], Step::PatchSearch { title } if title == "T"));
    assert!(matches!(plan_job(Message::Rebuild)[0], Step::RebuildLinks));
    assert!(matches!(&plan_job(Message::Delete { title: "x".into() })[0], Step::DeleteNote { title } if title == "x"));
    assert!(plan_job(Message::ArchiveBody { title: "a".into(), body: "b".into() }).is_empty());
}

#[test]
fn fetched_pages_get_a_note() {
    let p = new_from_url_note("http://u".into(), "a.b: c", s(&["t"]));
    assert_eq!(p.title, "ab: c");
    assert_eq!(p.body, "");
    assert_eq!(p.metadata.get("url"), Some(&"http://u".to_string()));
}

#[test]
fn task_list_lines_are_edited() {
    let file = "one\ntwo\nthree";
    assert_eq!(task_lines(file), s(&["one", "two", "three"]));
    assert_eq!(delete_task(file, 1), "one\nthree");
    assert_eq!(delete_task(file, 9), "one\ntwo\nthree");
    assert_eq!(insert_task(file, "zero"), "zero\none\ntwo\nthree");
    assert_eq!(replace_task(file, 2, "3"), "one\ntwo\n3");
}
