//! The pages of the wiki: what each one shows, and how its template is filled.
//! The templates themselves are read from disk by the caller.
use vstd::prelude::*;

use crate::html::strs;
use crate::order::{dedup, dedup_strings, sort_strings, str_leq};
use crate::render::{
    all_linkable, backlinks_html, fill, filled, includes_defined, includes_html, includes_ok,
    inc_view, linkable, metadata_html, page_view, render_includes, render_page_backlinks,
    render_page_metadata, render_tag_list, tags_html, IncludeFiles,
};
use crate::store::{LinkStore, StoreEntries};
use crate::tags::join_strings;
use crate::persist::ReadPageError;
use crate::templates::TemplattedPage;
use crate::text::{decimal, join, push_decimal};
use crate::urls::{format_links, spec_format_links};

verus! {

/// A template with no page behind it, its includes replaced.
pub open spec fn plain(ctx: Seq<char>, inc: &IncludeFiles) -> Seq<char> {
    includes_html(ctx, None, inc_view(inc))
}

/// Replaces the include lines of a template that has no page behind it.
fn render_plain(ctx: &str, inc: &IncludeFiles) -> (r: String)
    requires
        includes_defined(ctx@, None),
    ensures
        r@ == plain(ctx@, inc),
{
    render_includes(ctx, None, inc)
}

/// The error page.
pub struct ErrorPage {
    pub msg: String,
}

impl ErrorPage {
    /// A page showing `msg`.
    pub fn new(msg: String) -> (r: ErrorPage)
        ensures
            r.msg == msg,
    {
        ErrorPage { msg }
    }

    /// The page: the message in its slot.
    pub fn render(&self, template: &str, inc: &IncludeFiles) -> (r: String)
        requires
            includes_defined(filled(template@, "msg"@, self.msg@), None),
        ensures
            r@ == plain(filled(template@, "msg"@, self.msg@), inc),
    {
        let ctx = fill(template, "msg", self.msg.as_str());
        render_plain(ctx.as_str(), inc)
    }
}

/// The OpenSearch description.
pub struct OpenSearchPage {
    pub user: String,
    pub host: String,
}

impl OpenSearchPage {
    /// The description for a user's wiki at a host.
    pub fn new(user: String, host: String) -> (r: OpenSearchPage)
        ensures
            r.user == user,
            r.host == host,
    {
        OpenSearchPage { user, host }
    }

    /// The description: user and host in their slots.
    pub fn render(&self, template: &str, inc: &IncludeFiles) -> (r: String)
        requires
            includes_defined(filled(filled(template@, "user"@, self.user@), "host"@, self.host@), None),
        ensures
            r@ == plain(filled(filled(template@, "user"@, self.user@), "host"@, self.host@), inc),
    {
        let a = fill(template, "user", self.user.as_str());
        let b = fill(a.as_str(), "host", self.host.as_str());
        render_plain(b.as_str(), inc)
    }
}

/// The login page.
pub struct LoginPage {}

impl LoginPage {
    /// The login page.
    pub fn new() -> (r: LoginPage) {
        LoginPage {  }
    }

    /// The page: its template with includes.
    pub fn render(&self, template: &str, inc: &IncludeFiles) -> (r: String)
        requires
            includes_defined(template@, None),
        ensures
            r@ == plain(template@, inc),
    {
        render_plain(template, inc)
    }
}

/// The search page.
pub struct SearchPage {}

impl SearchPage {
    /// The search page.
    pub fn new() -> (r: SearchPage) {
        SearchPage {  }
    }

    /// The page: its template with includes.
    pub fn render(&self, template: &str, inc: &IncludeFiles) -> (r: String)
        requires
            includes_defined(template@, None),
        ensures
            r@ == plain(template@, inc),
    {
        render_plain(template, inc)
    }
}

/// A page whose sidebar and navigation are filled in after its includes.
pub open spec fn with_nav(ctx: Seq<char>, nav: Seq<char>, inc: &IncludeFiles) -> Seq<char> {
    filled(plain(ctx, inc), "nav"@, nav)
}

/// The user style editor.
pub struct StylesPage {
    pub body: String,
}

impl StylesPage {
    /// The editor showing a style sheet.
    pub fn new(body: String) -> (r: StylesPage)
        ensures
            r.body == body,
    {
        StylesPage { body }
    }

    /// The page: style sheet and sidebar in their slots, then the navigation.
    pub fn render(&self, template: &str, sidebar: &str, nav: &str, inc: &IncludeFiles) -> (r: String)
        requires
            includes_defined(
                filled(filled(template@, "body"@, self.body@), "sidebar"@, sidebar@),
                None,
            ),
        ensures
            r@ == with_nav(
                filled(filled(template@, "body"@, self.body@), "sidebar"@, sidebar@),
                nav@,
                inc,
            ),
    {
        let a = fill(template, "body", self.body.as_str());
        let b = fill(a.as_str(), "sidebar", sidebar);
        let c = render_plain(b.as_str(), inc);
        fill(c.as_str(), "nav", nav)
    }
}

/// The task list page.
pub struct TasksPage {
    pub tasks: Vec<String>,
}

impl TasksPage {
    /// The page listing rendered tasks.
    pub fn new(entries: Vec<String>) -> (r: TasksPage)
        ensures
            r.tasks == entries,
    {
        TasksPage { tasks: entries }
    }

    /// The tasks, one after another.
    pub fn render_tasks(&self) -> (r: String)
        ensures
            r@ == join(strs(self.tasks@), Seq::<char>::empty()),
    {
        let none = String::new();
        join_strings(&self.tasks, none.as_str())
    }

    /// The page: the tasks in their slot.
    pub fn render(&self, template: &str, inc: &IncludeFiles) -> (r: String)
        requires
            includes_defined(
                filled(template@, "tasks"@, join(strs(self.tasks@), Seq::<char>::empty())),
                None,
            ),
        ensures
            r@ == plain(
                filled(template@, "tasks"@, join(strs(self.tasks@), Seq::<char>::empty())),
                inc,
            ),
    {
        let tasks = self.render_tasks();
        let ctx = fill(template, "tasks", tasks.as_str());
        render_plain(ctx.as_str(), inc)
    }
}

/// The page for adding a bookmark.
pub struct BookmarkAddPage {}

impl BookmarkAddPage {
    /// The page for adding a bookmark.
    pub fn new() -> (r: BookmarkAddPage) {
        BookmarkAddPage {  }
    }

    /// The page: its template with includes, then the navigation.
    pub fn render(&self, template: &str, nav: &str, inc: &IncludeFiles) -> (r: String)
        requires
            includes_defined(template@, None),
        ensures
            r@ == with_nav(template@, nav@, inc),
    {
        let c = render_plain(template, inc);
        fill(c.as_str(), "nav", nav)
    }
}

/// The upload page.
pub struct FileUploader {}

impl FileUploader {
    /// The upload page.
    pub fn new() -> (r: FileUploader) {
        FileUploader {  }
    }

    /// The page: the sidebar in its slot, then the navigation.
    pub fn render(&self, template: &str, sidebar: &str, nav: &str, inc: &IncludeFiles) -> (r: String)
        requires
            includes_defined(filled(template@, "sidebar"@, sidebar@), None),
        ensures
            r@ == with_nav(filled(template@, "sidebar"@, sidebar@), nav@, inc),
    {
        let a = fill(template, "sidebar", sidebar);
        let c = render_plain(a.as_str(), inc);
        fill(c.as_str(), "nav", nav)
    }
}

/// The help page.
pub struct HelpPage {}

impl HelpPage {
    /// The help page.
    pub fn new() -> (r: HelpPage) {
        HelpPage {  }
    }

    /// The page: the sidebar in its slot, then the navigation.
    pub fn render(&self, template: &str, sidebar: &str, nav: &str, inc: &IncludeFiles) -> (r: String)
        requires
            includes_defined(filled(template@, "sidebar"@, sidebar@), None),
        ensures
            r@ == with_nav(filled(template@, "sidebar"@, sidebar@), nav@, inc),
    {
        let a = fill(template, "sidebar", sidebar);
        let c = render_plain(a.as_str(), inc);
        fill(c.as_str(), "nav", nav)
    }
}

/// An uploaded file in the list of uploads.
pub open spec fn upload_item(e: Seq<char>) -> Seq<char> {
    "<a href=\"/files/"@ + e + "\">"@ + e + "</a>"@
}

/// The list of uploads.
pub open spec fn uploads_html(es: Seq<Seq<char>>) -> Seq<char> {
    join(es.map_values(|e: Seq<char>| upload_item(e)), Seq::<char>::empty())
}

/// The page listing uploaded files.
pub struct UploadedFilesPage {
    pub entries: Vec<String>,
}

impl UploadedFilesPage {
    /// The page listing the given files.
    pub fn new(entries: Vec<String>) -> (r: UploadedFilesPage)
        ensures
            r.entries == entries,
    {
        UploadedFilesPage { entries }
    }

    /// The links to the files.
    pub fn render_entries(&self) -> (r: String)
        ensures
            r@ == uploads_html(strs(self.entries@)),
    {
        let ghost es = strs(self.entries@);
        let mut items: Vec<String> = Vec::new();
        let mut i: usize = 0;
        while i < self.entries.len()
            invariant
                i <= self.entries.len(),
                es == strs(self.entries@),
                strs(items@) == es.take(i as int).map_values(|e: Seq<char>| upload_item(e)),
            decreases self.entries.len() - i,
        {
            let e = self.entries[i].as_str();
            let mut item = String::from_str("<a href=\"/files/");
            item.append(e);
            item.append("\">");
            item.append(e);
            item.append("</a>");
            assert(es[i as int] == e@);
            let ghost before = strs(items@);
            items.push(item);
            assert(strs(items@) =~= before.push(upload_item(es[i as int])));
            assert(es.take(i as int + 1) =~= es.take(i as int).push(es[i as int]));
            i += 1;
        }
        assert(es.take(self.entries.len() as int) =~= es);
        let none = String::new();
        join_strings(&items, none.as_str())
    }

    /// The page: the links in their slot.
    pub fn render(&self, template: &str, inc: &IncludeFiles) -> (r: String)
        requires
            includes_defined(filled(template@, "entries"@, uploads_html(strs(self.entries@))), None),
        ensures
            r@ == plain(filled(template@, "entries"@, uploads_html(strs(self.entries@))), inc),
    {
        let entries = self.render_entries();
        let ctx = fill(template, "entries", entries.as_str());
        render_plain(ctx.as_str(), inc)
    }
}

/// A page in a tag's list.
pub open spec fn tag_page_item(t: Seq<char>) -> Seq<char> {
    "<li><a href=\"/"@ + t + "\">"@ + t + "</a></li>"@
}

/// A tag's list of pages.
pub open spec fn tag_pages_html(ts: Seq<Seq<char>>) -> Seq<char> {
    join(ts.map_values(|t: Seq<char>| tag_page_item(t)), "\n"@)
}

/// The page of a tag.
pub struct TagPage {
    pub title: String,
    pub tags: Vec<String>,
}

impl TagPage {
    /// The page of tag `title` listing the given pages.
    pub fn new(title: String, tags: Vec<String>) -> (r: TagPage)
        ensures
            r.title == title,
            r.tags == tags,
    {
        TagPage { title, tags }
    }

    /// The list of pages.
    pub fn render_tag_pages(&self) -> (r: String)
        ensures
            r@ == tag_pages_html(strs(self.tags@)),
    {
        let ghost ts = strs(self.tags@);
        let mut items: Vec<String> = Vec::new();
        let mut i: usize = 0;
        while i < self.tags.len()
            invariant
                i <= self.tags.len(),
                ts == strs(self.tags@),
                strs(items@) == ts.take(i as int).map_values(|t: Seq<char>| tag_page_item(t)),
            decreases self.tags.len() - i,
        {
            let t = self.tags[i].as_str();
            let mut item = String::from_str("<li><a href=\"/");
            item.append(t);
            item.append("\">");
            item.append(t);
            item.append("</a></li>");
            assert(ts[i as int] == t@);
            let ghost before = strs(items@);
            items.push(item);
            assert(strs(items@) =~= before.push(tag_page_item(ts[i as int])));
            assert(ts.take(i as int + 1) =~= ts.take(i as int).push(ts[i as int]));
            i += 1;
        }
        assert(ts.take(self.tags.len() as int) =~= ts);
        join_strings(&items, "\n")
    }

    /// The page: the title and the list in their slots.
    pub fn render(&self, template: &str, inc: &IncludeFiles) -> (r: String)
        requires
            includes_defined(
                filled(
                    filled(template@, "title"@, self.title@),
                    "tags"@,
                    tag_pages_html(strs(self.tags@)),
                ),
                None,
            ),
        ensures
            r@ == plain(
                filled(
                    filled(template@, "title"@, self.title@),
                    "tags"@,
                    tag_pages_html(strs(self.tags@)),
                ),
                inc,
            ),
    {
        let list = self.render_tag_pages();
        let a = fill(template, "title", self.title.as_str());
        let b = fill(a.as_str(), "tags", list.as_str());
        render_plain(b.as_str(), inc)
    }
}

/// A search result.
pub open spec fn result_item(p: Seq<char>) -> Seq<char> {
    "<li><div class=\"result\"><h2><a href=\""@ + spec_format_links(p) + "\">"@ + p
        + "</a></h2><button class=\"expand\">&#9660;</button></div></li>"@
}

/// The list of search results.
pub open spec fn results_html(ps: Seq<Seq<char>>) -> Seq<char> {
    join(ps.map_values(|p: Seq<char>| result_item(p)), Seq::<char>::empty())
}

/// The heading of the search results.
pub open spec fn result_header_html(empty: bool, num_results: nat, time: Seq<char>) -> Seq<char> {
    if empty {
        "<h3>No search results.</h3>"@
    } else {
        "<h4><strong>"@ + decimal(num_results) + "</strong> results in <strong>"@ + time
            + "</strong>"@
    }
}

/// The page of search results.
pub struct SearchResultsPage {
    pub pages: Vec<String>,
    pub num_results: usize,
    /// How long the search took, as written for people.
    pub time: String,
}

impl SearchResultsPage {
    /// The page of the given results.
    pub fn new(pages: Vec<String>, num_results: usize, time: String) -> (r: SearchResultsPage)
        ensures
            r.pages == pages,
            r.num_results == num_results,
            r.time == time,
    {
        SearchResultsPage { pages, num_results, time }
    }

    /// The results, one after another.
    pub fn render_pages(&self) -> (r: String)
        requires
            all_linkable(strs(self.pages@)),
        ensures
            r@ == results_html(strs(self.pages@)),
    {
        let ghost ps = strs(self.pages@);
        let mut items: Vec<String> = Vec::new();
        let mut i: usize = 0;
        while i < self.pages.len()
            invariant
                i <= self.pages.len(),
                ps == strs(self.pages@),
                all_linkable(ps),
                strs(items@) == ps.take(i as int).map_values(|p: Seq<char>| result_item(p)),
            decreases self.pages.len() - i,
        {
            let p = self.pages[i].as_str();
            assert(ps[i as int] == p@);
            let mut item = String::from_str("<li><div class=\"result\"><h2><a href=\"");
            item.append(format_links(p).as_str());
            item.append("\">");
            item.append(p);
            item.append("</a></h2><button class=\"expand\">&#9660;</button></div></li>");
            let ghost before = strs(items@);
            items.push(item);
            assert(strs(items@) =~= before.push(result_item(ps[i as int])));
            assert(ps.take(i as int + 1) =~= ps.take(i as int).push(ps[i as int]));
            i += 1;
        }
        assert(ps.take(self.pages.len() as int) =~= ps);
        let none = String::new();
        join_strings(&items, none.as_str())
    }

    /// The heading: the number of results and the time taken, or that there
    /// were none.
    pub fn render_result_header(&self) -> (r: String)
        ensures
            r@ == result_header_html(self.pages@.len() == 0, self.num_results as nat, self.time@),
    {
        if self.pages.len() == 0 {
            return String::from_str("<h3>No search results.</h3>");
        }
        let mut s = String::from_str("<h4><strong>");
        push_decimal(&mut s, self.num_results);
        s.append("</strong> results in <strong>");
        s.append(self.time.as_str());
        s.append("</strong>");
        s
    }

    /// The page: results and heading in their slots, then the navigation.
    pub fn render(&self, template: &str, nav: &str, inc: &IncludeFiles) -> (r: String)
        requires
            all_linkable(strs(self.pages@)),
            includes_defined(
                filled(
                    filled(template@, "pages"@, results_html(strs(self.pages@))),
                    "result_header"@,
                    result_header_html(self.pages@.len() == 0, self.num_results as nat, self.time@),
                ),
                None,
            ),
        ensures
            r@ == with_nav(
                filled(
                    filled(template@, "pages"@, results_html(strs(self.pages@))),
                    "result_header"@,
                    result_header_html(self.pages@.len() == 0, self.num_results as nat, self.time@),
                ),
                nav@,
                inc,
            ),
    {
        let pages = self.render_pages();
        let header = self.render_result_header();
        let a = fill(template, "pages", pages.as_str());
        let b = fill(a.as_str(), "result_header", header.as_str());
        let c = render_plain(b.as_str(), inc);
        fill(c.as_str(), "nav", nav)
    }
}

/// A link in a list of links.
pub open spec fn link_item(l: Seq<char>) -> Seq<char> {
    "<li><a href=\""@ + spec_format_links(l) + "\">"@ + l + "</a></li>"@
}

/// A list of links, with runs of repeats cut to one.
pub open spec fn links_html(ls: Seq<Seq<char>>) -> Seq<char> {
    join(dedup(ls).map_values(|l: Seq<char>| link_item(l)), Seq::<char>::empty())
}

/// Every list of the store can be linked to.
pub open spec fn store_linkable(e: StoreEntries) -> bool {
    forall|i: int| 0 <= i < e.len() ==> all_linkable(#[trigger] e[i].1)
}

/// Renders a list of links, with runs of repeats cut to one.
fn render_link_items(links: &Vec<String>) -> (r: String)
    requires
        all_linkable(strs(links@)),
    ensures
        r@ == links_html(strs(links@)),
{
    let unique = dedup_strings(links);
    proof {
        lemma_dedup_linkable(strs(links@));
    }
    let ghost ls = strs(unique@);
    let mut items: Vec<String> = Vec::new();
    let mut i: usize = 0;
    while i < unique.len()
        invariant
            i <= unique.len(),
            ls == strs(unique@),
            all_linkable(ls),
            strs(items@) == ls.take(i as int).map_values(|l: Seq<char>| link_item(l)),
        decreases unique.len() - i,
    {
        let l = unique[i].as_str();
        assert(ls[i as int] == l@);
        let mut item = String::from_str("<li><a href=\"");
        item.append(format_links(l).as_str());
        item.append("\">");
        item.append(l);
        item.append("</a></li>");
        let ghost before = strs(items@);
        items.push(item);
        assert(strs(items@) =~= before.push(link_item(ls[i as int])));
        assert(ls.take(i as int + 1) =~= ls.take(i as int).push(ls[i as int]));
        i += 1;
    }
    assert(ls.take(unique.len() as int) =~= ls);
    let none = String::new();
    join_strings(&items, none.as_str())
}

/// `dedup` keeps only elements of its argument.
pub proof fn lemma_dedup_elements(s: Seq<Seq<char>>)
    ensures
        forall|i: int| 0 <= i < dedup(s).len() ==> s.contains(#[trigger] dedup(s)[i]),
    decreases s.len(),
{
    if s.len() > 1 {
        lemma_dedup_elements(s.drop_last());
        let d = dedup(s.drop_last());
        assert forall|i: int| 0 <= i < dedup(s).len() implies s.contains(#[trigger] dedup(s)[i]) by {
            if i < d.len() {
                assert(s.drop_last().contains(d[i]));
                let j = choose|j: int| 0 <= j < s.drop_last().len() && s.drop_last()[j] == d[i];
                assert(s[j] == dedup(s)[i]);
            } else {
                assert(s[s.len() - 1] == dedup(s)[i]);
            }
        }
    } else {
        assert forall|i: int| 0 <= i < dedup(s).len() implies s.contains(#[trigger] dedup(s)[i]) by {
            assert(s[i] == dedup(s)[i]);
        }
    }
}

/// Cutting repeats keeps a list linkable.
proof fn lemma_dedup_linkable(s: Seq<Seq<char>>)
    requires
        all_linkable(s),
    ensures
        all_linkable(dedup(s)),
{
    lemma_dedup_elements(s);
    assert forall|i: int| 0 <= i < dedup(s).len() implies crate::urls::format_links_defined(
        #[trigger] dedup(s)[i],
    ) by {
        assert(s.contains(dedup(s)[i]));
        let j = choose|j: int| 0 <= j < s.len() && s[j] == dedup(s)[i];
        assert(crate::urls::format_links_defined(s[j]));
    }
}

/// A link target's section of the links page.
pub open spec fn link_section(k: Seq<char>, ls: Seq<Seq<char>>) -> Seq<char> {
    "<h2>"@ + k + "</h2><ul>"@ + links_html(ls) + "</ul>"@
}

/// A tag's section of the tag index.
pub open spec fn tag_section(k: Seq<char>, ls: Seq<Seq<char>>) -> Seq<char> {
    "<h2><a href=\"/tags/"@ + k + "\" class=\"block\">"@ + k + "</a></h2><ul>"@ + links_html(ls)
        + "</ul>"@
}

/// The page of all links, by target.
pub struct LinkPage {
    pub links: LinkStore,
}

impl LinkPage {
    /// The page of the given store.
    pub fn new(links: LinkStore) -> (r: LinkPage)
        ensures
            r.links@ == links@,
    {
        LinkPage { links }
    }

    /// A section per target, in the order of the targets.
    pub fn create_link_content(&self) -> (r: String)
        requires
            store_linkable(self.links@),
        ensures
            r@ == join(
                self.links@.map_values(|p: (Seq<char>, Seq<Seq<char>>)| link_section(p.0, p.1)),
                Seq::<char>::empty(),
            ),
    {
        let ghost e = self.links@;
        let mut items: Vec<String> = Vec::new();
        let mut i: usize = 0;
        while i < self.links.len()
            invariant
                i <= e.len(),
                e == self.links@,
                store_linkable(e),
                strs(items@) == e.take(i as int).map_values(
                    |p: (Seq<char>, Seq<Seq<char>>)| link_section(p.0, p.1),
                ),
            decreases e.len() - i,
        {
            let key = self.links.key(i);
            let titles = self.links.titles(i);
            assert(all_linkable(e[i as int].1));
            let mut html = String::from_str("<h2>");
            html.append(key.as_str());
            html.append("</h2><ul>");
            html.append(render_link_items(titles).as_str());
            html.append("</ul>");
            let ghost before = strs(items@);
            items.push(html);
            assert(strs(items@) =~= before.push(link_section(e[i as int].0, e[i as int].1)));
            assert(e.take(i as int + 1) =~= e.take(i as int).push(e[i as int]));
            i += 1;
        }
        assert(e.take(e.len() as int) =~= e);
        let none = String::new();
        join_strings(&items, none.as_str())
    }
}

/// The index of all tags.
pub struct TagIndex {
    pub tags: LinkStore,
}

impl TagIndex {
    /// The index of the given tag store.
    pub fn new(tags: LinkStore) -> (r: TagIndex)
        ensures
            r.tags@ == tags@,
    {
        TagIndex { tags }
    }

    /// A section per tag, in the order of the tags.
    pub fn render_tag_body(&self) -> (r: String)
        requires
            store_linkable(self.tags@),
        ensures
            r@ == join(
                self.tags@.map_values(|p: (Seq<char>, Seq<Seq<char>>)| tag_section(p.0, p.1)),
                Seq::<char>::empty(),
            ),
    {
        let ghost e = self.tags@;
        let mut items: Vec<String> = Vec::new();
        let mut i: usize = 0;
        while i < self.tags.len()
            invariant
                i <= e.len(),
                e == self.tags@,
                store_linkable(e),
                strs(items@) == e.take(i as int).map_values(
                    |p: (Seq<char>, Seq<Seq<char>>)| tag_section(p.0, p.1),
                ),
            decreases e.len() - i,
        {
            let key = self.tags.key(i);
            let titles = self.tags.titles(i);
            assert(all_linkable(e[i as int].1));
            let mut html = String::from_str("<h2><a href=\"/tags/");
            html.append(key.as_str());
            html.append("\" class=\"block\">");
            html.append(key.as_str());
            html.append("</a></h2><ul>");
            html.append(render_link_items(titles).as_str());
            html.append("</ul>");
            let ghost before = strs(items@);
            items.push(html);
            assert(strs(items@) =~= before.push(tag_section(e[i as int].0, e[i as int].1)));
            assert(e.take(i as int + 1) =~= e.take(i as int).push(e[i as int]));
            i += 1;
        }
        assert(e.take(e.len() as int) =~= e);
        let none = String::new();
        join_strings(&items, none.as_str())
    }
}

/// A row of the page list: a page and how many pages it has in its list.
pub open spec fn page_row(name: Seq<char>, count: nat) -> Seq<char> {
    "<tr><td><a href=\""@ + name + "\">"@ + name + "</a></td><td style=\"text-align: center;\">"@
        + decimal(count) + "</td></tr>"@
}

/// The list of pages with the length of each one's list.
pub struct PageList {
    pub entries: Vec<(String, Vec<String>)>,
}

impl PageList {
    /// The list of the given pages.
    pub fn new(entries: Vec<(String, Vec<String>)>) -> (r: PageList)
        ensures
            r.entries == entries,
    {
        PageList { entries }
    }

    /// A row per page, one per line.
    pub fn render_rows(&self) -> (r: String)
        ensures
            r@ == join(
                self.entries@.map_values(
                    |p: (String, Vec<String>)| page_row(p.0@, p.1@.len() as nat),
                ),
                "\n"@,
            ),
    {
        let ghost rows = self.entries@.map_values(
            |p: (String, Vec<String>)| page_row(p.0@, p.1@.len() as nat),
        );
        let mut items: Vec<String> = Vec::new();
        let mut i: usize = 0;
        while i < self.entries.len()
            invariant
                i <= self.entries.len(),
                rows == self.entries@.map_values(
                    |p: (String, Vec<String>)| page_row(p.0@, p.1@.len() as nat),
                ),
                strs(items@) == rows.take(i as int),
            decreases self.entries.len() - i,
        {
            let name = self.entries[i].0.as_str();
            let mut row = String::from_str("<tr><td><a href=\"");
            row.append(name);
            row.append("\">");
            row.append(name);
            row.append("</a></td><td style=\"text-align: center;\">");
            push_decimal(&mut row, self.entries[i].1.len());
            row.append("</td></tr>");
            let ghost before = strs(items@);
            items.push(row);
            assert(strs(items@) =~= before.push(rows[i as int]));
            assert(rows.take(i as int + 1) =~= rows.take(i as int).push(rows[i as int]));
            i += 1;
        }
        assert(rows.take(self.entries.len() as int) =~= rows);
        join_strings(&items, "\n")
    }
}

/// The title of the new-note page: the note's title, or `New Entry`.
pub open spec fn new_page_title(title: Option<Seq<char>>) -> Seq<char> {
    match title {
        Some(t) => t,
        None => "New Entry"@,
    }
}

/// The link a new note starts with: `[[linkto]]`, or nothing.
pub open spec fn new_page_linkto(linkto: Option<Seq<char>>) -> Seq<char> {
    match linkto {
        Some(l) => "[["@ + l + "]]"@,
        None => Seq::<char>::empty(),
    }
}

/// The view of an optional string.
pub open spec fn opt_view(o: Option<String>) -> Option<Seq<char>> {
    match o {
        Some(s) => Some(s@),
        None => None,
    }
}

/// The page for writing a new note.
pub struct NewPage {
    pub title: Option<String>,
    pub linkto: Option<String>,
    pub action_params: Option<String>,
}

impl NewPage {
    /// The page for a note with an optional title, link and form action.
    pub fn new(title: Option<String>, linkto: Option<String>, action_params: Option<String>) -> (r:
        NewPage)
        ensures
            r.title == title,
            r.linkto == linkto,
            r.action_params == action_params,
    {
        NewPage { title, linkto, action_params }
    }

    /// The page's title.
    pub fn get_page_title(&self) -> (r: String)
        ensures
            r@ == new_page_title(opt_view(self.title)),
    {
        match &self.title {
            Some(t) => t.clone(),
            None => String::from_str("New Entry"),
        }
    }

    /// The new note's title: the given one, or the time now (given, in the
    /// id format).
    pub fn get_note_title(&self, now: &str) -> (r: String)
        ensures
            r@ == match opt_view(self.title) {
                Some(t) => t,
                None => now@,
            },
    {
        match &self.title {
            Some(t) => t.clone(),
            None => now.to_string(),
        }
    }

    /// The link the note starts with.
    pub fn get_linkto(&self) -> (r: String)
        ensures
            r@ == new_page_linkto(opt_view(self.linkto)),
    {
        match &self.linkto {
            Some(l) => {
                let mut s = String::from_str("[[");
                s.append(l.as_str());
                s.append("]]");
                s
            },
            None => String::new(),
        }
    }
}

/// A wiki page's backlinks as shown: repeats cut, then sorted.
pub open spec fn shown_backlinks(links: Option<Seq<Seq<char>>>) -> Seq<Seq<char>> {
    match links {
        Some(ls) => dedup(ls).sort_by(str_leq()),
        None => Seq::<Seq<char>>::empty(),
    }
}

/// A wiki page's backlinks, repeats cut and sorted.
pub fn sorted_backlinks(links: Option<&Vec<String>>) -> (r: Vec<String>)
    ensures
        strs(r@) == shown_backlinks(match links {
            Some(v) => Some(strs(v@)),
            None => None,
        }),
{
    match links {
        Some(v) => {
            let d = dedup_strings(v);
            sort_strings(&d)
        },
        None => {
            let r: Vec<String> = Vec::new();
            assert(strs(r@) =~= Seq::<Seq<char>>::empty());
            r
        },
    }
}

/// The body of a wiki page: its lines joined again, which is the body itself.
pub fn render_body(page: &TemplattedPage) -> (r: String)
    ensures
        r@ == join(crate::text::split_char(page.body@, '\n'), "\n"@),
{
    let parts = crate::messages::split_string(page.body.as_str(), '\n');
    join_strings(&parts, "\n")
}


/// The templates a wiki page is made of.
pub struct WikiTemplates {
    pub main: String,
    pub content: String,
    pub nav: String,
    pub sidebar: String,
}

/// A wiki page before its includes: sidebar, content, tags, backlinks, body and
/// metadata in their slots.
pub open spec fn wiki_ctx(
    main: Seq<char>,
    sidebar: Seq<char>,
    content: Seq<char>,
    page: &TemplattedPage,
    links: Seq<Seq<char>>,
) -> Seq<char> {
    filled(
        filled(
            filled(
                filled(
                    filled(filled(main, "sidebar"@, sidebar), "content"@, content),
                    "tags"@,
                    tags_html(strs(page.tags@)),
                ),
                "links"@,
                backlinks_html(links),
            ),
            "body"@,
            join(crate::text::split_char(page.body@, '\n'), "\n"@),
        ),
        "metadata"@,
        metadata_html(page.metadata@),
    )
}

/// A note's page.
pub struct WikiPage<'a> {
    pub page: &'a TemplattedPage,
    pub links: Option<&'a Vec<String>>,
}

impl<'a> WikiPage<'a> {
    /// The page of a note with the titles of the notes that link to it.
    pub fn new(page: &'a TemplattedPage, links: Option<&'a Vec<String>>) -> (r: WikiPage<'a>)
        ensures
            r.page == page,
            r.links == links,
    {
        WikiPage { page, links }
    }

    /// The backlinks as shown.
    pub open spec fn shown(&self) -> Seq<Seq<char>> {
        shown_backlinks(match self.links {
            Some(v) => Some(strs(v@)),
            None => None,
        })
    }

    /// The page: the note in the templates' slots, its includes, then the
    /// navigation and the title.
    pub fn render(&self, t: &WikiTemplates, inc: &IncludeFiles) -> (r: String)
        requires
            all_linkable(self.shown()),
            includes_defined(
                wiki_ctx(t.main@, t.sidebar@, t.content@, self.page, self.shown()),
                page_view(Some(self.page)),
            ),
        ensures
            r@ == filled(
                filled(
                    includes_html(
                        wiki_ctx(t.main@, t.sidebar@, t.content@, self.page, self.shown()),
                        page_view(Some(self.page)),
                        inc_view(inc),
                    ),
                    "nav"@,
                    t.nav@,
                ),
                "title"@,
                self.page.title@,
            ),
    {
        let backlinks = sorted_backlinks(self.links);
        let tag_string = render_tag_list(&self.page.tags);
        let a = fill(t.main.as_str(), "sidebar", t.sidebar.as_str());
        let b = fill(a.as_str(), "content", t.content.as_str());
        let c = fill(b.as_str(), "tags", tag_string.as_str());
        let d = fill(c.as_str(), "links", render_page_backlinks(&backlinks).as_str());
        let e = fill(d.as_str(), "body", render_body(self.page).as_str());
        let f = fill(e.as_str(), "metadata", render_page_metadata(&self.page.metadata).as_str());
        let g = render_includes(f.as_str(), Some(self.page), inc);
        let h = fill(g.as_str(), "nav", t.nav.as_str());
        fill(h.as_str(), "title", self.page.title.as_str())
    }
}

/// A page of the static site before its includes.
pub open spec fn static_ctx(
    main: Seq<char>,
    content: Seq<char>,
    page: &TemplattedPage,
    links: Seq<Seq<char>>,
) -> Seq<char> {
    filled(
        filled(
            filled(
                filled(
                    filled(filled(main, "content"@, content), "body"@, page.body@),
                    "tags"@,
                    tags_html(strs(page.tags@)),
                ),
                "links"@,
                backlinks_html(links),
            ),
            "title"@,
            page.title@,
        ),
        "metadata"@,
        metadata_html(page.metadata@),
    )
}

/// A note's page on the static site.
pub struct StaticSitePage<'a> {
    pub page: &'a TemplattedPage,
    pub links: Option<&'a Vec<String>>,
}

impl<'a> StaticSitePage<'a> {
    /// The page of a note with the titles of the notes that link to it.
    pub fn new(page: &'a TemplattedPage, links: Option<&'a Vec<String>>) -> (r: StaticSitePage<'a>)
        ensures
            r.page == page,
            r.links == links,
    {
        StaticSitePage { page, links }
    }

    /// The backlinks as shown.
    pub open spec fn shown(&self) -> Seq<Seq<char>> {
        shown_backlinks(match self.links {
            Some(v) => Some(strs(v@)),
            None => None,
        })
    }

    /// The page before its includes.
    fn fill_templates(&self, backlinks: &Vec<String>, main: &str, content: &str) -> (r: String)
        requires
            all_linkable(strs(backlinks@)),
        ensures
            r@ == static_ctx(main@, content@, self.page, strs(backlinks@)),
    {
        let tag_string = render_tag_list(&self.page.tags);
        let a = fill(main, "content", content);
        let b = fill(a.as_str(), "body", self.page.body.as_str());
        let c = fill(b.as_str(), "tags", tag_string.as_str());
        let d = fill(c.as_str(), "links", render_page_backlinks(backlinks).as_str());
        let e = fill(d.as_str(), "title", self.page.title.as_str());
        fill(e.as_str(), "metadata", render_page_metadata(&self.page.metadata).as_str())
    }

    /// The page: the note in the templates' slots, then its includes.
    pub fn render(&self, main: &str, content: &str, inc: &IncludeFiles) -> (r: String)
        requires
            all_linkable(self.shown()),
            includes_defined(
                static_ctx(main@, content@, self.page, self.shown()),
                page_view(Some(self.page)),
            ),
        ensures
            r@ == includes_html(
                static_ctx(main@, content@, self.page, self.shown()),
                page_view(Some(self.page)),
                inc_view(inc),
            ),
    {
        let backlinks = sorted_backlinks(self.links);
        let f = self.fill_templates(&backlinks, main, content);
        render_includes(f.as_str(), Some(self.page), inc)
    }

    /// The page, where its backlinks can be linked to and its templates' include
    /// lines are well formed; nothing otherwise.
    pub fn try_render(&self, main: &str, content: &str, inc: &IncludeFiles) -> (r: Option<String>)
        ensures
            r is Some <==> (all_linkable(self.shown()) && includes_defined(
                static_ctx(main@, content@, self.page, self.shown()),
                page_view(Some(self.page)),
            )),
            r matches Some(s) ==> s@ == includes_html(
                static_ctx(main@, content@, self.page, self.shown()),
                page_view(Some(self.page)),
                inc_view(inc),
            ),
    {
        let backlinks = sorted_backlinks(self.links);
        if !linkable(&backlinks) {
            return None;
        }
        let f = self.fill_templates(&backlinks, main, content);
        if !includes_ok(f.as_str(), Some(self.page)) {
            return None;
        }
        Some(self.render(main, content, inc))
    }
}

/// The content of the home page for today's note: the note where it was read,
/// an empty note where there is none yet, and nothing where reading failed.
pub open spec fn today_html(
    content: Seq<char>,
    today: Seq<char>,
    note: Result<&TemplattedPage, ReadPageError>,
    links: Seq<Seq<char>>,
) -> Seq<char> {
    match note {
        Ok(page) => filled(
            filled(
                filled(
                    filled(filled(content, "title"@, today), "body"@, page.body@),
                    "tags"@,
                    tags_html(strs(page.tags@)),
                ),
                "metadata"@,
                metadata_html(page.metadata@),
            ),
            "links"@,
            backlinks_html(links),
        ),
        Err(ReadPageError::PageNotFoundError) => filled(
            filled(
                filled(
                    filled(
                        filled(content, "title"@, today),
                        "body"@,
                        "<div class=\"text-block\"></div>"@,
                    ),
                    "tags"@,
                    Seq::<char>::empty(),
                ),
                "metadata"@,
                Seq::<char>::empty(),
            ),
            "links"@,
            Seq::<char>::empty(),
        ),
        Err(_) => Seq::<char>::empty(),
    }
}

/// The home page.
pub struct IndexPage {
    pub user: String,
    pub host: String,
    pub today: String,
}

impl IndexPage {
    /// The home page of a user's wiki at a host, on the given day.
    pub fn new(user: String, host: String, today: String) -> (r: IndexPage)
        ensures
            r.user == user,
            r.host == host,
            r.today == today,
    {
        IndexPage { user, host, today }
    }

    /// The script that checks for updates, where that is switched on.
    pub fn check_updates(&self, check_for_updates: bool) -> (r: String)
        ensures
            r@ == if check_for_updates {
                "<script src=\"static/update-check.js\" type=\"module\"></script>"@
            } else {
                Seq::<char>::empty()
            },
    {
        if check_for_updates {
            String::from_str("<script src=\"static/update-check.js\" type=\"module\"></script>")
        } else {
            String::new()
        }
    }

    /// Today's note on the home page, given the result of reading it and the
    /// titles of the notes that link to it.
    pub fn render_today(
        &self,
        content: &str,
        note: Result<&TemplattedPage, ReadPageError>,
        links: Option<&Vec<String>>,
    ) -> (r: String)
        requires
            all_linkable(
                shown_backlinks(
                    Some(
                        match links {
                            Some(v) => strs(v@),
                            None => Seq::<Seq<char>>::empty(),
                        },
                    ),
                ),
            ),
        ensures
            r@ == today_html(
                content@,
                self.today@,
                note,
                shown_backlinks(
                    Some(
                        match links {
                            Some(v) => strs(v@),
                            None => Seq::<Seq<char>>::empty(),
                        },
                    ),
                ),
            ),
    {
        let none = String::new();
        match note {
            Ok(page) => {
                let empty: Vec<String> = Vec::new();
                assert(strs(empty@) =~= Seq::<Seq<char>>::empty());
                let all = match links {
                    Some(v) => v,
                    None => &empty,
                };
                let backlinks = sorted_backlinks(Some(all));
                let tag_string = render_tag_list(&page.tags);
                let a = fill(content, "title", self.today.as_str());
                let b = fill(a.as_str(), "body", page.body.as_str());
                let c = fill(b.as_str(), "tags", tag_string.as_str());
                let d = fill(c.as_str(), "metadata", render_page_metadata(&page.metadata).as_str());
                fill(d.as_str(), "links", render_page_backlinks(&backlinks).as_str())
            },
            Err(ReadPageError::PageNotFoundError) => {
                let a = fill(content, "title", self.today.as_str());
                let b = fill(a.as_str(), "body", "<div class=\"text-block\"></div>");
                let c = fill(b.as_str(), "tags", none.as_str());
                let d = fill(c.as_str(), "metadata", none.as_str());
                fill(d.as_str(), "links", none.as_str())
            },
            Err(_) => String::new(),
        }
    }
}


/// A page shows its note's body as it is.
pub proof fn law_body_shown_unchanged(body: Seq<char>)
    ensures
        join(crate::text::split_char(body, '\n'), "\n"@) == body,
{
    reveal_strlit("\n");
    assert("\n"@ =~= seq!['\n']);
    crate::text::lemma_join_split(body, '\n');
}

/// The backlinks a page shows are in order, and are the distinct neighbours of
/// the links it was given.
pub proof fn law_backlinks_sorted(links: Seq<Seq<char>>)
    ensures
        vstd::relations::sorted_by(shown_backlinks(Some(links)), str_leq()),
        shown_backlinks(Some(links)).to_multiset() == dedup(links).to_multiset(),
{
    crate::order::lemma_str_leq_total();
    dedup(links).lemma_sort_by_ensures(str_leq());
}


impl LinkPage {
    /// The page: the sections in their slot.
    pub fn render(&self, template: &str, inc: &IncludeFiles) -> (r: String)
        requires
            store_linkable(self.links@),
            includes_defined(
                filled(
                    template@,
                    "link_content"@,
                    join(
                        self.links@.map_values(
                            |p: (Seq<char>, Seq<Seq<char>>)| link_section(p.0, p.1),
                        ),
                        Seq::<char>::empty(),
                    ),
                ),
                None,
            ),
        ensures
            r@ == plain(
                filled(
                    template@,
                    "link_content"@,
                    join(
                        self.links@.map_values(
                            |p: (Seq<char>, Seq<Seq<char>>)| link_section(p.0, p.1),
                        ),
                        Seq::<char>::empty(),
                    ),
                ),
                inc,
            ),
    {
        let content = self.create_link_content();
        let ctx = fill(template, "link_content", content.as_str());
        render_plain(ctx.as_str(), inc)
    }
}

impl TagIndex {
    /// The page: the sections in their slot.
    pub fn render(&self, template: &str, inc: &IncludeFiles) -> (r: String)
        requires
            store_linkable(self.tags@),
            includes_defined(
                filled(
                    template@,
                    "tag_idx"@,
                    join(
                        self.tags@.map_values(
                            |p: (Seq<char>, Seq<Seq<char>>)| tag_section(p.0, p.1),
                        ),
                        Seq::<char>::empty(),
                    ),
                ),
                None,
            ),
        ensures
            r@ == plain(
                filled(
                    template@,
                    "tag_idx"@,
                    join(
                        self.tags@.map_values(
                            |p: (Seq<char>, Seq<Seq<char>>)| tag_section(p.0, p.1),
                        ),
                        Seq::<char>::empty(),
                    ),
                ),
                inc,
            ),
    {
        let body = self.render_tag_body();
        let ctx = fill(template, "tag_idx", body.as_str());
        render_plain(ctx.as_str(), inc)
    }
}

/// The rows of a page list.
pub open spec fn rows_html(entries: Seq<(String, Vec<String>)>) -> Seq<char> {
    join(entries.map_values(|p: (String, Vec<String>)| page_row(p.0@, p.1@.len() as nat)), "\n"@)
}

impl PageList {
    /// The page: sidebar and rows in their slots, then the navigation.
    pub fn render(&self, template: &str, sidebar: &str, nav: &str, inc: &IncludeFiles) -> (r: String)
        requires
            includes_defined(
                filled(
                    filled(template@, "sidebar"@, sidebar@),
                    "content"@,
                    rows_html(self.entries@),
                ),
                None,
            ),
        ensures
            r@ == with_nav(
                filled(
                    filled(template@, "sidebar"@, sidebar@),
                    "content"@,
                    rows_html(self.entries@),
                ),
                nav@,
                inc,
            ),
    {
        let rows = self.render_rows();
        let a = fill(template, "sidebar", sidebar);
        let b = fill(a.as_str(), "content", rows.as_str());
        let c = render_plain(b.as_str(), inc);
        fill(c.as_str(), "nav", nav)
    }
}

/// The content block of a new note: an empty body, its title, and no metadata
/// or links.
pub open spec fn new_note_content(content: Seq<char>, note_title: Seq<char>) -> Seq<char> {
    filled(
        filled(
            filled(
                filled(content, "body"@, "<div class=\"text-block\"></div>"@),
                "title"@,
                note_title,
            ),
            "metadata"@,
            Seq::<char>::empty(),
        ),
        "links"@,
        Seq::<char>::empty(),
    )
}

/// The new-note page before its includes.
pub open spec fn new_page_ctx(
    page: &NewPage,
    template: Seq<char>,
    sidebar: Seq<char>,
    content: Seq<char>,
    mru: Seq<char>,
    now: Seq<char>,
) -> Seq<char> {
    let note_title = match opt_view(page.title) {
        Some(t) => t,
        None => now,
    };
    filled(
        filled(
            filled(
                filled(
                    filled(
                        filled(template, "sidebar"@, sidebar),
                        "content"@,
                        new_note_content(content, note_title),
                    ),
                    "page_title"@,
                    new_page_title(opt_view(page.title)),
                ),
                "action_params"@,
                match opt_view(page.action_params) {
                    Some(a) => a,
                    None => Seq::<char>::empty(),
                },
            ),
            "linkto"@,
            new_page_linkto(opt_view(page.linkto)),
        ),
        "mru"@,
        mru,
    )
}

impl NewPage {
    /// The page: the note's blank content, title, form action, link and the
    /// recently-used list in their slots, then its includes.
    pub fn render(
        &self,
        template: &str,
        sidebar: &str,
        content: &str,
        mru: &str,
        now: &str,
        inc: &IncludeFiles,
    ) -> (r: String)
        requires
            includes_defined(new_page_ctx(self, template@, sidebar@, content@, mru@, now@), None),
        ensures
            r@ == plain(new_page_ctx(self, template@, sidebar@, content@, mru@, now@), inc),
    {
        let none = String::new();
        let note_title = self.get_note_title(now);
        let c1 = fill(content, "body", "<div class=\"text-block\"></div>");
        let c2 = fill(c1.as_str(), "title", note_title.as_str());
        let c3 = fill(c2.as_str(), "metadata", none.as_str());
        let c4 = fill(c3.as_str(), "links", none.as_str());
        let action = match &self.action_params {
            Some(a) => a.clone(),
            None => String::new(),
        };
        let a = fill(template, "sidebar", sidebar);
        let b = fill(a.as_str(), "content", c4.as_str());
        let c = fill(b.as_str(), "page_title", self.get_page_title().as_str());
        let d = fill(c.as_str(), "action_params", action.as_str());
        let e = fill(d.as_str(), "linkto", self.get_linkto().as_str());
        let f = fill(e.as_str(), "mru", mru);
        render_plain(f.as_str(), inc)
    }
}

/// The home page before its includes.
pub open spec fn index_ctx(
    page: &IndexPage,
    template: Seq<char>,
    nav: Seq<char>,
    check: Seq<char>,
    today: Seq<char>,
) -> Seq<char> {
    filled(
        filled(
            filled(filled(filled(template, "updateCheck"@, check), "user"@, page.user@), "host"@, page.host@),
            "nav"@,
            nav,
        ),
        "content"@,
        today,
    )
}

impl IndexPage {
    /// The home page: the update check, user, host, navigation and today's note
    /// in their slots, its includes, then the day as its title.
    pub fn render(
        &self,
        template: &str,
        nav: &str,
        check_for_updates: bool,
        today: &str,
        inc: &IncludeFiles,
    ) -> (r: String)
        requires
            includes_defined(
                index_ctx(
                    self,
                    template@,
                    nav@,
                    if check_for_updates {
                        "<script src=\"static/update-check.js\" type=\"module\"></script>"@
                    } else {
                        Seq::<char>::empty()
                    },
                    today@,
                ),
                None,
            ),
        ensures
            r@ == filled(
                plain(
                    index_ctx(
                        self,
                        template@,
                        nav@,
                        if check_for_updates {
                            "<script src=\"static/update-check.js\" type=\"module\"></script>"@
                        } else {
                            Seq::<char>::empty()
                        },
                        today@,
                    ),
                    inc,
                ),
                "title"@,
                self.today@,
            ),
    {
        let check = self.check_updates(check_for_updates);
        let a = fill(template, "updateCheck", check.as_str());
        let b = fill(a.as_str(), "user", self.user.as_str());
        let c = fill(b.as_str(), "host", self.host.as_str());
        let d = fill(c.as_str(), "nav", nav);
        let e = fill(d.as_str(), "content", today);
        let f = render_plain(e.as_str(), inc);
        fill(f.as_str(), "title", self.today.as_str())
    }
}

/// A search result with the text around the match.
#[derive(Debug)]
pub struct SearchResult {
    pub location: String,
    pub matched_text: String,
}

/// A search result in its context.
pub open spec fn context_item(location: Seq<char>, matched: Seq<char>) -> Seq<char> {
    "<li><h4><a href=\""@ + spec_format_links(location) + "\">"@ + location + "</a></h4><p>"@
        + matched + "</p></li>"@
}

/// The page of search results with their context.
pub struct SearchResultsContextPage {
    pub pages: Vec<SearchResult>,
}

impl SearchResultsContextPage {
    /// The page of the given results.
    pub fn new(pages: Vec<SearchResult>) -> (r: SearchResultsContextPage)
        ensures
            r.pages == pages,
    {
        SearchResultsContextPage { pages }
    }

    /// The results, one after another.
    pub fn render_pages(&self) -> (r: String)
        requires
            forall|i: int| 0 <= i < self.pages@.len() ==> crate::urls::format_links_defined(
                (#[trigger] self.pages@[i]).location@,
            ),
        ensures
            r@ == join(
                self.pages@.map_values(|p: SearchResult| context_item(p.location@, p.matched_text@)),
                Seq::<char>::empty(),
            ),
    {
        let ghost items_spec = self.pages@.map_values(
            |p: SearchResult| context_item(p.location@, p.matched_text@),
        );
        let mut items: Vec<String> = Vec::new();
        let mut i: usize = 0;
        while i < self.pages.len()
            invariant
                i <= self.pages.len(),
                items_spec == self.pages@.map_values(
                    |p: SearchResult| context_item(p.location@, p.matched_text@),
                ),
                forall|k: int| 0 <= k < self.pages@.len() ==> crate::urls::format_links_defined(
                    (#[trigger] self.pages@[k]).location@,
                ),
                strs(items@) == items_spec.take(i as int),
            decreases self.pages.len() - i,
        {
            let p = &self.pages[i];
            let mut item = String::from_str("<li><h4><a href=\"");
            item.append(format_links(p.location.as_str()).as_str());
            item.append("\">");
            item.append(p.location.as_str());
            item.append("</a></h4><p>");
            item.append(p.matched_text.as_str());
            item.append("</p></li>");
            let ghost before = strs(items@);
            items.push(item);
            assert(strs(items@) =~= before.push(items_spec[i as int]));
            assert(items_spec.take(i as int + 1) =~= items_spec.take(i as int).push(items_spec[i as int]));
            i += 1;
        }
        assert(items_spec.take(self.pages.len() as int) =~= items_spec);
        let none = String::new();
        join_strings(&items, none.as_str())
    }
}

} // verus!
