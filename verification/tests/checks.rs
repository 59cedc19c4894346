use tendril::headers::header_text_ok;
use tendril::html::html_defined;
use tendril::meta::meta_text_ok;
use tendril::metadata::Metadata;
use tendril::pages::{
    IndexPage, LinkPage, NewPage, PageList, SearchResult, SearchResultsContextPage,
    StaticSitePage, TagIndex,
};
use tendril::render::{includes_ok, linkable, IncludeFiles};
use tendril::search::tokenize;
use tendril::setup::Builder;
use tendril::store::LinkStore;
use tendril::templates::TemplattedPage;

fn s(v: &[&str]) -> Vec<String> {
    v.iter().map(|x| x.to_string()).collect()
}

fn inc() -> IncludeFiles {
    IncludeFiles { search: "S".into(), styles: "C".into(), meta: "M".into(), footer: "F".into() }
}

fn page(title: &str) -> TemplattedPage {
    TemplattedPage {
        title: title.into(),
        body: "B".into(),
        tags: vec![],
        raw_md: String::new(),
        metadata: Metadata::new(),
    }
}

#[test]
fn rendering_is_defined_except_on_bad_links() {
    assert!(html_defined("plain text\n# heading\n[[a page]] and [[Link]]"));
    assert!(!html_defined("see [[files| here]]"));
    assert!(!html_defined("see [[text|files]]"));
}

#[test]
fn header_lines_are_checked() {
    assert!(header_text_ok("title: A\n\nanything goes: here\nor here"));
    assert!(!header_text_ok("title: A\nbroken\n\nbody"));
    assert!(meta_text_ok("before\n---\ntitle: A\n---\nafter"));
    assert!(!meta_text_ok("---\nbroken\n---"));
}

#[test]
fn include_lines_are_checked() {
    assert!(includes_ok("a\n<%= include \"footer\" %>", None));
    assert!(!includes_ok("<%= include footer %>", None));
    assert!(!includes_ok("<%= include \"meta\" %>", None));
    let p = page("T");
    assert!(includes_ok("<%= include \"meta\" %>", Some(&p)));
    assert!(linkable(&s(&["a", "b"])));
    assert!(!linkable(&s(&["a", "files"])));
}

#[test]
fn static_pages_render_only_when_they_can() {
    let p = page("T");
    let ok = StaticSitePage::new(&p, None).try_render("<%= content %>", "<%= title %>", &inc());
    assert_eq!(ok, Some("T".to_string()));
    let bad = StaticSitePage::new(&p, None).try_render("<%= include bad %>", "", &inc());
    assert_eq!(bad, None);
    let links = s(&["files"]);
    let unlinkable = StaticSitePage::new(&p, Some(&links)).try_render("x", "", &inc());
    assert_eq!(unlinkable, None);
}

#[test]
fn index_pages_render() {
    let mut store = LinkStore::new();
    store.add("k", "v");
    assert_eq!(
        LinkPage::new(store).render("<%= link_content %>", &inc()),
        "<h2>k</h2><ul><li><a href=\"/v\">v</a></li></ul>"
    );
    let mut tags = LinkStore::new();
    tags.add("k", "v");
    assert_eq!(
        TagIndex::new(tags).render("<%= tag_idx %>", &inc()),
        "<h2><a href=\"/tags/k\" class=\"block\">k</a></h2><ul><li><a href=\"/v\">v</a></li></ul>"
    );
    let list = PageList::new(vec![("a".to_string(), s(&["x"]))]);
    assert_eq!(
        list.render("<%= sidebar %><%= content %><%= nav %>", "S", "N", &inc()),
        "S<tr><td><a href=\"a\">a</a></td><td style=\"text-align: center;\">1</td></tr>N"
    );
}

#[test]
fn new_note_page_renders() {
    let page = NewPage::new(None, Some("Home".into()), None);
    let out = page.render(
        "<%= page_title %>|<%= content %>|<%= action_params %>|<%= linkto %>|<%= mru %>|<%= sidebar %>",
        "SB",
        "<%= title %>:<%= body %>:<%= metadata %>:<%= links %>",
        "MRU",
        "20240101",
        &inc(),
    );
    assert_eq!(out, "New Entry|20240101:<div class=\"text-block\"></div>::||[[Home]]|MRU|SB");
}

#[test]
fn home_page_renders() {
    let home = IndexPage::new("me".into(), "h".into(), "2024-01-01".into());
    let out = home.render(
        "<%= updateCheck %>[<%= user %>@<%= host %>]<%= nav %><%= content %><%= title %>",
        "N",
        false,
        "TODAY",
        &inc(),
    );
    assert_eq!(out, "[me@h]NTODAY2024-01-01");
}

#[test]
fn search_context_page_lists_matches() {
    let page = SearchResultsContextPage::new(vec![SearchResult {
        location: "A b".into(),
        matched_text: "text".into(),
    }]);
    assert_eq!(
        page.render_pages(),
        "<li><h4><a href=\"/A%20b\">A b</a></h4><p>text</p></li>"
    );
}

#[test]
fn builds_start_empty() {
    let b = Builder::new();
    assert_eq!(b.backlinks.len(), 0);
    assert!(b.pages.is_empty());
}

#[test]
fn search_terms_are_never_stop_words() {
    let terms = tokenize("The cat and the hat were in a box");
    assert_eq!(terms, s(&["cat", "hat", "box"]));
}
