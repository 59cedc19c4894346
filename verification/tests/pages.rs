use tendril::metadata::Metadata;
use tendril::pages::{
    render_body, sorted_backlinks, BookmarkAddPage, ErrorPage, FileUploader, HelpPage, IndexPage,
    LinkPage, LoginPage, NewPage, OpenSearchPage, PageList, SearchPage, SearchResultsPage,
    StaticSitePage, StylesPage, TagIndex, TagPage, TasksPage, UploadedFilesPage, WikiPage,
    WikiTemplates,
};
use tendril::persist::ReadPageError;
use tendril::render::{
    fill, get_template_location, parse_includes, render_includes, render_page_backlinks,
    render_page_metadata, render_tag_list, IncludeFiles,
};
use tendril::store::LinkStore;
use tendril::templates::TemplattedPage;

fn s(v: &[&str]) -> Vec<String> {
    v.iter().map(|x| x.to_string()).collect()
}

fn inc() -> IncludeFiles {
    IncludeFiles {
        search: "SEARCH".into(),
        styles: "STYLES".into(),
        meta: "<title><%= title %></title><%= desc %><link href=\"<%= icon %>\">".into(),
        footer: "FOOTER".into(),
    }
}

fn page(title: &str, body: &str, tags: &[&str]) -> TemplattedPage {
    TemplattedPage {
        title: title.into(),
        body: body.into(),
        tags: s(tags),
        raw_md: String::new(),
        metadata: Metadata::new(),
    }
}

#[test]
fn include_lines_name_their_files() {
    assert_eq!(parse_includes("  <%= include \"footer\" %>  "), "footer");
    assert_eq!(get_template_location("main"), "templates/main.html");
    assert_eq!(get_template_location("style.css"), "templates/style.css");
}

#[test]
fn includes_are_replaced_line_by_line() {
    let ctx = "<html>\n<%= include \"search\" %>\n<%= include \"unknown\" %>\nend";
    assert_eq!(render_includes(ctx, None, &inc()), "<html>\nSEARCH\n\nend");
    let mut p = page("T", "", &[]);
    p.metadata.insert("icon".into(), "i.png".into());
    assert_eq!(
        render_includes("<%= include \"meta\" %>", Some(&p), &inc()),
        "<title>T</title><link href=\"/files/i.png\">"
    );
    let q = page("Q", "", &[]);
    assert_eq!(
        render_includes("<%= include \"meta\" %>", Some(&q), &inc()),
        "<title>Q</title><link href=\"static/favicon.ico\">"
    );
}

#[test]
fn slots_are_filled() {
    assert_eq!(fill("a <%= x %> b <%= x %>", "x", "1"), "a 1 b 1");
    assert_eq!(fill("none", "x", "1"), "none");
}

#[test]
fn metadata_table_shows_each_kind_of_value() {
    let mut m = Metadata::new();
    m.insert("created".into(), "2022-01-03T10:20:30+00:00".into());
    m.insert("modified".into(), "yesterday".into());
    m.insert("cover".into(), "http://img".into());
    m.insert("isbn".into(), "123".into());
    m.insert("source".into(), "https://x.org".into());
    m.insert("author".into(), "Me".into());
    m.insert("cover".into(), "local.png".into());
    assert_eq!(
        render_page_metadata(&m),
        "<dt>created</dt><dd>2022-01-03 10:20</dd>\
<dt>modified</dt><dd>yesterday</dd>\
<dt>cover</dt>\
<dt>isbn</dt><dd>123<br><img src=\"https://covers.openlibrary.org/b/isbn/123-M.jpg\"></dd>\
<dt>source</dt><dd><a href=\"https://x.org\">https://x.org</a></dd>\
<dt>author</dt><dd>Me</dd>"
    );
    assert_eq!(render_page_metadata(&Metadata::new()), "");
}

#[test]
fn backlinks_section_lists_links() {
    assert_eq!(render_page_backlinks(&s(&[])), "");
    assert_eq!(
        render_page_backlinks(&s(&["A b", "https://x"])),
        "\n<section class=\"backlinks-container\">\n  <hr />\n  <h3>Mentioned in:</h3>\n  <div class=\"backlinks\"><a href=\"/A%20b\">A b</a>\n<a href=\"https://x\">https://x</a></div>\n</section>\n"
    );
}

#[test]
fn tag_list_links_tags() {
    assert_eq!(
        render_tag_list(&s(&["a", "b"])),
        "<li><a href=\"a\">#a</a></li>\n<li><a href=\"b\">#b</a></li>"
    );
}

#[test]
fn simple_pages_fill_their_slots() {
    let i = inc();
    assert_eq!(ErrorPage::new("oops".into()).render("E: <%= msg %>", &i), "E: oops");
    assert_eq!(
        OpenSearchPage::new("me".into(), "h".into()).render("<%= user %>@<%= host %>", &i),
        "me@h"
    );
    assert_eq!(LoginPage::new().render("login", &i), "login");
    assert_eq!(SearchPage::new().render("<%= include \"search\" %>", &i), "SEARCH");
    assert_eq!(
        StylesPage::new("css".into()).render("<%= body %>|<%= sidebar %>|<%= nav %>", "SB", "NAV", &i),
        "css|SB|NAV"
    );
    assert_eq!(BookmarkAddPage::new().render("<%= nav %>", "N", &i), "N");
    assert_eq!(FileUploader::new().render("<%= sidebar %><%= nav %>", "S", "N", &i), "SN");
    assert_eq!(HelpPage::new().render("<%= sidebar %><%= nav %>", "S", "N", &i), "SN");
}

#[test]
fn list_pages_render_their_items() {
    let i = inc();
    let tasks = TasksPage::new(s(&["<li>a</li>", "<li>b</li>"]));
    assert_eq!(tasks.render_tasks(), "<li>a</li><li>b</li>");
    assert_eq!(tasks.render("<%= tasks %>", &i), "<li>a</li><li>b</li>");
    let files = UploadedFilesPage::new(s(&["f.png"]));
    assert_eq!(files.render_entries(), "<a href=\"/files/f.png\">f.png</a>");
    assert_eq!(files.render("[<%= entries %>]", &i), "[<a href=\"/files/f.png\">f.png</a>]");
    let tag = TagPage::new("t".into(), s(&["p1", "p2"]));
    assert_eq!(
        tag.render("<%= title %>:<%= tags %>", &i),
        "t:<li><a href=\"/p1\">p1</a></li>\n<li><a href=\"/p2\">p2</a></li>"
    );
    let list = PageList::new(vec![("a".to_string(), s(&["x", "y"])), ("b".to_string(), s(&[]))]);
    assert_eq!(
        list.render_rows(),
        "<tr><td><a href=\"a\">a</a></td><td style=\"text-align: center;\">2</td></tr>\n<tr><td><a href=\"b\">b</a></td><td style=\"text-align: center;\">0</td></tr>"
    );
}

#[test]
fn search_results_show_count_and_time() {
    let empty = SearchResultsPage::new(s(&[]), 0, "1ms".into());
    assert_eq!(empty.render_result_header(), "<h3>No search results.</h3>");
    assert_eq!(empty.render_pages(), "");
    let found = SearchResultsPage::new(s(&["My Page"]), 12, "3.5ms".into());
    assert_eq!(
        found.render_result_header(),
        "<h4><strong>12</strong> results in <strong>3.5ms</strong>"
    );
    assert_eq!(
        found.render_pages(),
        "<li><div class=\"result\"><h2><a href=\"/My%20Page\">My Page</a></h2><button class=\"expand\">&#9660;</button></div></li>"
    );
    assert_eq!(
        found.render("<%= result_header %><%= nav %>", "N", &inc()),
        "<h4><strong>12</strong> results in <strong>3.5ms</strong>N"
    );
}

#[test]
fn link_and_tag_indexes_go_by_key() {
    let mut store = LinkStore::new();
    store.add("b", "x");
    store.add("a", "y");
    store.add("a", "y");
    let links = LinkPage::new(store);
    assert_eq!(
        links.create_link_content(),
        "<h2>a</h2><ul><li><a href=\"/y\">y</a></li></ul><h2>b</h2><ul><li><a href=\"/x\">x</a></li></ul>"
    );
    let mut tags = LinkStore::new();
    tags.add("t", "p");
    let index = TagIndex::new(tags);
    assert_eq!(
        index.render_tag_body(),
        "<h2><a href=\"/tags/t\" class=\"block\">t</a></h2><ul><li><a href=\"/p\">p</a></li></ul>"
    );
}

#[test]
fn new_page_names_its_note() {
    let blank = NewPage::new(None, None, None);
    assert_eq!(blank.get_page_title(), "New Entry");
    assert_eq!(blank.get_note_title("20240101000000"), "20240101000000");
    assert_eq!(blank.get_linkto(), "");
    let titled = NewPage::new(Some("Idea".into()), Some("Home".into()), Some("x=1".into()));
    assert_eq!(titled.get_page_title(), "Idea");
    assert_eq!(titled.get_note_title("now"), "Idea");
    assert_eq!(titled.get_linkto(), "[[Home]]");
}

#[test]
fn backlinks_are_deduplicated_and_sorted() {
    let links = s(&["b", "b", "a", "c", "a"]);
    assert_eq!(sorted_backlinks(Some(&links)), s(&["a", "a", "b", "c"]));
    assert_eq!(sorted_backlinks(None), s(&[]));
}

#[test]
fn page_body_is_shown_unchanged() {
    let p = page("T", "line one\nline two\n", &[]);
    assert_eq!(render_body(&p), "line one\nline two\n");
}

#[test]
fn wiki_page_fills_its_templates() {
    let p = page("T", "B", &["x"]);
    let links = s(&["L"]);
    let t = WikiTemplates {
        main: "<%= sidebar %>|<%= content %>|<%= nav %>".into(),
        content: "<%= title %>:<%= body %>:<%= tags %>:<%= metadata %><%= links %>".into(),
        nav: "N".into(),
        sidebar: "S".into(),
    };
    let out = WikiPage::new(&p, Some(&links)).render(&t, &inc());
    assert!(out.starts_with("S|T:B:<li><a href=\"x\">#x</a></li>:\n<section"));
    assert!(out.ends_with("|N"));
    let stat = StaticSitePage::new(&p, None).render("<%= content %>", "<%= title %>/<%= body %>", &inc());
    assert_eq!(stat, "T/B");
}

#[test]
fn home_page_shows_today() {
    let home = IndexPage::new("me".into(), "host".into(), "2024-01-01".into());
    assert_eq!(home.check_updates(false), "");
    assert!(home.check_updates(true).contains("update-check.js"));
    let content = "<%= title %>|<%= body %>|<%= tags %>|<%= metadata %>|<%= links %>";
    assert_eq!(
        home.render_today(content, Err(ReadPageError::PageNotFoundError), None),
        "2024-01-01|<div class=\"text-block\"></div>|||"
    );
    assert_eq!(home.render_today(content, Err(ReadPageError::Unknown), None), "");
    let p = page("2024-01-01", "Today", &[]);
    assert_eq!(home.render_today(content, Ok(&p), None), "2024-01-01|Today|||");
}
