use tendril::headers::{NoteHeader, clone_strings};
use tendril::meta::{parse_meta, NoteMeta};
use tendril::metadata::Metadata;
use tendril::patch::PatchData;
use tendril::tags::TagsArray;
use tendril::templates::{to_template, update_templatted_pages};

fn entries(m: &Metadata) -> Vec<(String, String)> {
    let mut out = Vec::new();
    for i in 0..m.len() {
        let (k, v) = m.entry(i);
        out.push((k.clone(), v.clone()));
    }
    out
}

fn pair(k: &str, v: &str) -> (String, String) {
    (k.to_string(), v.to_string())
}

#[test]
fn metadata_keeps_first_position_and_last_value() {
    let mut m = Metadata::new();
    assert!(m.is_empty());
    m.insert("title".into(), "A".into());
    m.insert("tags".into(), "[x]".into());
    m.insert("title".into(), "B".into());
    assert_eq!(entries(&m), vec![pair("title", "B"), pair("tags", "[x]")]);
    assert_eq!(m.get("title"), Some(&"B".to_string()));
    assert_eq!(m.get("missing"), None);
    m.remove("title");
    assert_eq!(entries(&m), vec![pair("tags", "[x]")]);
    m.remove("title");
    assert_eq!(m.len(), 1);
    let copy = m.duplicate();
    assert_eq!(entries(&copy), entries(&m));
}

#[test]
fn header_note_parses_header_and_content() {
    let note = NoteHeader::from_string(
        "title: Hello\ntags: [a, b]\nurl: http://x.com: port\n\nBody line\n\nsecond".into(),
    );
    assert_eq!(
        entries(&note.metadata),
        vec![pair("title", "Hello"), pair("tags", "[a, b]"), pair("url", "http://x.com: port")]
    );
    assert_eq!(note.content, "\nBody line\nsecond");
}

#[test]
fn header_note_prints_header_blank_line_and_content() {
    let note = NoteHeader::from_string("title: Hello\n\nBody".into());
    assert_eq!(note.into_string(), "title: Hello\n\n\nBody");
}

#[test]
fn header_note_reads_back_what_it_prints() {
    let note = NoteHeader::from_string("title: Hello\ntags: [a]\n\nOne\nTwo".into());
    let again = NoteHeader::from_string(note.into_string());
    assert_eq!(entries(&again.metadata), vec![pair("title", "Hello"), pair("tags", "[a]")]);
    assert_eq!(again.content, "\nOne\nTwo");
}

#[test]
fn header_parse_meta_reads_lines() {
    let lines = vec!["title: T".to_string(), "".to_string(), "text".to_string()];
    let note = tendril::headers::parse_meta(&lines, "test");
    assert_eq!(entries(&note.metadata), vec![pair("title", "T")]);
    assert_eq!(note.content, "\ntext");
}

#[test]
fn fenced_note_parses_between_fences() {
    let note = NoteMeta::from_string("ignored\n---\ntitle: Hi\n---\ntext\n---\nmore".into());
    assert_eq!(entries(&note.metadata), vec![pair("title", "Hi")]);
    assert_eq!(note.content, "\ntext\nmore");
}

#[test]
fn fenced_parse_meta_reads_lines() {
    let lines: Vec<String> = vec!["---".into(), "a: 1".into(), "---".into(), "x".into()];
    let note = parse_meta(&lines, "marker");
    assert_eq!(entries(&note.metadata), vec![pair("a", "1")]);
    assert_eq!(note.content, "\nx");
}

#[test]
fn fenced_note_prints_with_fences() {
    let note = NoteMeta::from_string("---\ntitle: Hi\n---\ntext".into());
    assert_eq!(note.into_string(), "---\ntitle: Hi\n---\n\ntext");
}

#[test]
fn fenced_note_metadata_reads_back() {
    let mut metadata = Metadata::new();
    metadata.insert("title".into(), "Hi: there".into());
    metadata.insert("tags".into(), "[a, b]".into());
    let note = NoteMeta { metadata, content: "\n---\nbody\n\nend".into() };
    let again = NoteMeta::from_string(note.into_string());
    assert_eq!(
        entries(&again.metadata),
        vec![pair("title", "Hi: there"), pair("tags", "[a, b]")]
    );
}

fn patch(title: &str, old_title: &str, tags: Vec<&str>) -> PatchData {
    let mut metadata = Metadata::new();
    metadata.insert("author".into(), "me".into());
    PatchData {
        body: "Body".into(),
        tags: tags.into_iter().map(|t| t.to_string()).collect(),
        title: title.into(),
        old_title: old_title.into(),
        metadata,
    }
}

#[test]
fn notes_from_edits_store_title_and_tags() {
    let p = patch("Note", "", vec!["a", "b"]);
    let header = NoteHeader::from_patch_ref(&p);
    assert_eq!(
        entries(&header.metadata),
        vec![pair("author", "me"), pair("title", "Note"), pair("tags", "[a, b]")]
    );
    assert_eq!(header.content, "Body");
    let owned = NoteHeader::from_patch(patch("Note", "", vec!["a", "b"]));
    assert_eq!(entries(&owned.metadata), entries(&header.metadata));
    let meta = NoteMeta::from_patch(patch("Note", "", vec![]));
    assert_eq!(
        entries(&meta.metadata),
        vec![pair("author", "me"), pair("title", "Note"), pair("tags", "[]")]
    );
    assert_eq!(meta.content, "Body");
}

#[test]
fn notes_become_edits_of_themselves() {
    let note = NoteHeader::from_string("title: T\ntags: [x, y]\n\nBody".into());
    let p = note.into_patch();
    assert_eq!(p.title, "T");
    assert_eq!(p.old_title, "T");
    assert_eq!(p.tags, vec!["x".to_string(), "y".to_string()]);
    assert_eq!(p.body, "\nBody");
    assert_eq!(p.metadata.len(), 2);
}

#[test]
fn patch_knows_renames() {
    assert!(patch("New", "Old", vec![]).is_rename());
    assert!(!patch("Same", "Same", vec![]).is_rename());
    assert!(!patch("New", "", vec![]).is_rename());
}

#[test]
fn tags_parse_and_write() {
    let t = TagsArray::new(" [a, b,  c , ,] ");
    assert_eq!(t.values, vec!["a".to_string(), "b".to_string(), "c".to_string()]);
    assert_eq!(t.write(), "[a, b, c]");
    assert_eq!(TagsArray::new("plain").values, vec!["plain".to_string()]);
    assert!(TagsArray::new("[]").values.is_empty());
    assert_eq!(TagsArray::from_values(vec![]).write(), "[]");
}

#[test]
fn written_tags_read_back_the_same() {
    let values = vec!["daily notes".to_string(), "x".to_string()];
    let written = TagsArray::from_values(clone_strings(&values)).write();
    assert_eq!(written, "[daily notes, x]");
    assert_eq!(TagsArray::new(&written).values, values);
}

#[test]
fn templates_take_title_tags_and_rendered_body() {
    let note = NoteMeta::from_string("---\ntitle: Page\ntags: [t1]\nicon: i.png\n---\nSee [[Other page]]".into());
    let parsed = to_template(&note);
    assert_eq!(parsed.page.title, "Page");
    assert_eq!(parsed.page.tags, vec!["t1".to_string()]);
    assert_eq!(entries(&parsed.page.metadata), vec![pair("icon", "i.png")]);
    assert_eq!(parsed.outlinks, vec!["Other page".to_string()]);
    assert_eq!(parsed.page.raw_md, "\nSee [[Other page]]");
    assert_eq!(
        parsed.page.body,
        "<div class=\"text-block\"></div><div class=\"text-block\">See <a href=\"/Other%20page\">Other page</a></div>"
    );
    let mut pages = Vec::new();
    update_templatted_pages(parsed.page, &mut pages);
    assert_eq!(pages.len(), 1);
}

#[test]
fn templates_default_to_untitled() {
    let note = NoteMeta::default();
    let parsed = to_template(&note);
    assert_eq!(parsed.page.title, "Untitled");
    assert!(parsed.page.tags.is_empty());
}
