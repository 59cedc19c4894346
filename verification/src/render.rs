//! The pieces of a rendered page: include lines, the metadata table, backlinks,
//! tag lists, and template filling.
use vstd::prelude::*;

use crate::html::strs;
use crate::metadata::{lookup, Entries, Metadata};
use crate::tags::join_strings;
use crate::templates::TemplattedPage;
use crate::text::{
    chars_of, contains_seq, ends_with, join, lines, lines_of, replace,
    replace_str, slice_contains, slice_ends_with, slice_starts_with, starts_with, string_of,
    sub_chars, trim, trim_chars,
};
use crate::urls::{format_links, format_links_defined, spec_format_links};

verus! {

/// Whether pages are rendered for the static site or served.
#[derive(Debug, Clone, Copy, PartialEq, Eq, Structural)]
pub enum CompileState {
    Static,
    Dynamic,
}

/// The opening of an include line.
pub open spec fn include_open() -> Seq<char> {
    "<%= include \""@
}

/// The closing of an include line.
pub open spec fn include_close() -> Seq<char> {
    "\" %>"@
}

/// An include line names a file: trimmed, it opens and closes as an include.
pub open spec fn is_include_line(s: Seq<char>) -> bool {
    let t = trim(s);
    starts_with(t, include_open()) && ends_with(t.skip(include_open().len() as int), include_close())
}

/// The file an include line names.
pub open spec fn included_name(s: Seq<char>) -> Seq<char> {
    let u = trim(s).skip(include_open().len() as int);
    u.take(u.len() - include_close().len())
}

/// The name of the file an include line (`<%= include "name" %>`) brings in.
pub fn parse_includes(include_line: &str) -> (r: String)
    requires
        is_include_line(include_line@),
    ensures
        r@ == included_name(include_line@),
{
    proof {
        reveal_strlit("<%= include \"");
        reveal_strlit("\" %>");
    }
    let t = trim_chars(chars_of(include_line).as_slice());
    let open = chars_of("<%= include \"");
    let close = chars_of("\" %>");
    let u = sub_chars(t.as_slice(), open.len(), t.len());
    let name = sub_chars(u.as_slice(), 0, u.len() - close.len());
    assert(u@ =~= trim(include_line@).skip(include_open().len() as int));
    string_of(name.as_slice())
}

/// Where a template is found: its name under `templates/`, with `.html` added
/// to a name without a dot.
pub open spec fn template_location(requested_file: Seq<char>) -> Seq<char> {
    if requested_file.contains('.') {
        "templates/"@ + requested_file
    } else {
        "templates/"@ + requested_file + ".html"@
    }
}

/// The path of a template file.
pub fn get_template_location(requested_file: &str) -> (r: String)
    ensures
        r@ == template_location(requested_file@),
{
    let v = chars_of(requested_file);
    let mut has_dot = false;
    let mut i: usize = 0;
    while i < v.len()
        invariant
            i <= v.len(),
            has_dot == (exists|j: int| 0 <= j < i && v@[j] == '.'),
        decreases v.len() - i,
    {
        if v[i] == '.' {
            has_dot = true;
        }
        i += 1;
    }
    let mut out = String::from_str("templates/");
    out.append(requested_file);
    if !has_dot {
        out.append(".html");
    }
    out
}

/// A value that links out: it starts with `http` or `file://`.
pub open spec fn is_web_value(v: Seq<char>) -> bool {
    starts_with(v, "http"@) || starts_with(v, "file://"@)
}

/// What a timestamp reads as in another format: chrono's `DateTime<FixedOffset>`
/// parsed from `value` and formatted with `format`, if `value` parses.
pub uninterp spec fn reformatted_timestamp(value: Seq<char>, format: Seq<char>) -> Option<Seq<char>>;

/// Reads `value` as a timestamp with an offset and writes it in `format`
/// (chrono's `str::parse::<DateTime<FixedOffset>>` and `DateTime::format`).
/// Nothing is claimed of the text beyond its name; the formats allowed are
/// those the library writes, which chrono accepts.
#[verifier::external_body]
pub(crate) fn reformat_timestamp(value: &str, format: &str) -> (r: Option<String>)
    requires
        format@ == "%Y-%m-%d %H:%M"@ || format@ == "%Y%m%d%H%M%S"@,
    ensures
        r matches Some(s) ==> reformatted_timestamp(value@, format@) == Some(s@),
        r is None ==> reformatted_timestamp(value@, format@) is None,
{
    match value.parse::<chrono::DateTime<chrono::FixedOffset>>() {
        Ok(dt) => Some(dt.format(format).to_string()),
        Err(_) => None,
    }
}

/// The table cell of a metadata value. Dates show as reformatted where they
/// parse, covers as images (if they link out), ISBNs with their cover, links as
/// anchors, and anything else as it is.
pub open spec fn metadata_value_html(k: Seq<char>, v: Seq<char>, date: Option<Seq<char>>) -> Seq<
    char,
> {
    if k == "modified"@ || k == "created"@ {
        "<dd>"@ + (match date {
            Some(d) => d,
            None => v,
        }) + "</dd>"@
    } else if k == "cover"@ {
        if is_web_value(v) {
            "<dd><img src=\""@ + v + "\"></dd>"@
        } else {
            Seq::<char>::empty()
        }
    } else if k == "isbn"@ {
        "<dd>"@ + v + "<br><img src=\"https://covers.openlibrary.org/b/isbn/"@ + v
            + "-M.jpg\"></dd>"@
    } else if is_web_value(v) {
        "<dd><a href=\""@ + v + "\">"@ + v + "</a></dd>"@
    } else {
        "<dd>"@ + v + "</dd>"@
    }
}

/// A cover that is a web address or a local file shows as an image of it, and a
/// page's metadata table gains exactly that entry for it.
pub proof fn law_web_covers_show_as_images(e: Entries, v: Seq<char>)
    requires
        starts_with(v, "http"@) || starts_with(v, "file://"@),
    ensures
        metadata_value_html("cover"@, v, reformatted_timestamp(v, "%Y-%m-%d %H:%M"@))
            == "<dd><img src=\""@ + v + "\"></dd>"@,
        metadata_html(e.push(("cover"@, v))) == metadata_html(e) + "<dt>cover</dt><dd><img src=\""@
            + v + "\"></dd>"@,
{
    reveal_strlit("cover");
    reveal_strlit("modified");
    reveal_strlit("created");
    reveal_strlit("<dt>");
    reveal_strlit("</dt>");
    reveal_strlit("<dt>cover</dt><dd><img src=\"");
    reveal_strlit("<dd><img src=\"");
    assert("cover"@ != "modified"@ && "cover"@ != "created"@) by {
        assert("modified"@.len() == 8);
        assert("created"@.len() == 7);
    }
    let x = e.push(("cover"@, v));
    assert(x.drop_last() =~= e);
    assert("<dt>"@ + "cover"@ + "</dt>"@ + "<dd><img src=\""@ =~= "<dt>cover</dt><dd><img src=\""@);
}

/// One metadata entry as a term and its description.
pub open spec fn metadata_item_html(k: Seq<char>, v: Seq<char>, date: Option<Seq<char>>) -> Seq<
    char,
> {
    "<dt>"@ + k + "</dt>"@ + metadata_value_html(k, v, date)
}

/// The metadata table of a page.
pub open spec fn metadata_html(e: Entries) -> Seq<char>
    decreases e.len(),
{
    if e.len() == 0 {
        Seq::<char>::empty()
    } else {
        metadata_html(e.drop_last()) + metadata_item_html(
            e.last().0,
            e.last().1,
            reformatted_timestamp(e.last().1, "%Y-%m-%d %H:%M"@),
        )
    }
}

/// One metadata entry, given the reformatted date of its value (used for the
/// `modified` and `created` keys).
pub fn render_metadata_item(k: &str, v: &str, date: Option<String>) -> (r: String)
    ensures
        r@ == metadata_item_html(k@, v@, match date {
            Some(d) => Some(d@),
            None => None,
        }),
{
    let kv = chars_of(k);
    let vv = chars_of(v);
    let mut out = String::from_str("<dt>");
    out.append(k);
    out.append("</dt>");
    let modified = chars_of("modified");
    let created = chars_of("created");
    let cover = chars_of("cover");
    let isbn = chars_of("isbn");
    let http = chars_of("http");
    let file = chars_of("file://");
    let web = slice_starts_with(vv.as_slice(), http.as_slice()) || slice_starts_with(
        vv.as_slice(),
        file.as_slice(),
    );
    if crate::urls::chars_eq(kv.as_slice(), modified.as_slice()) || crate::urls::chars_eq(
        kv.as_slice(),
        created.as_slice(),
    ) {
        out.append("<dd>");
        match date {
            Some(d) => out.append(d.as_str()),
            None => out.append(v),
        }
        out.append("</dd>");
    } else if crate::urls::chars_eq(kv.as_slice(), cover.as_slice()) {
        if web {
            out.append("<dd><img src=\"");
            out.append(v);
            out.append("\"></dd>");
        }
    } else if crate::urls::chars_eq(kv.as_slice(), isbn.as_slice()) {
        out.append("<dd>");
        out.append(v);
        out.append("<br><img src=\"https://covers.openlibrary.org/b/isbn/");
        out.append(v);
        out.append("-M.jpg\"></dd>");
    } else if web {
        out.append("<dd><a href=\"");
        out.append(v);
        out.append("\">");
        out.append(v);
        out.append("</a></dd>");
    } else {
        out.append("<dd>");
        out.append(v);
        out.append("</dd>");
    }
    out
}

/// The metadata table of a page, in the order of its entries.
pub fn render_page_metadata(metadata: &Metadata) -> (r: String)
    ensures
        r@ == metadata_html(metadata@),
{
    let mut out = String::new();
    let mut i: usize = 0;
    while i < metadata.len()
        invariant
            i <= metadata@.len(),
            out@ == metadata_html(metadata@.take(i as int)),
        decreases metadata@.len() - i,
    {
        let (k, v) = metadata.entry(i);
        let kv = chars_of(k.as_str());
        let modified = chars_of("modified");
        let created = chars_of("created");
        let date = if crate::urls::chars_eq(kv.as_slice(), modified.as_slice())
            || crate::urls::chars_eq(kv.as_slice(), created.as_slice()) {
            reformat_timestamp(v.as_str(), "%Y-%m-%d %H:%M")
        } else {
            None
        };
        let item = render_metadata_item(k.as_str(), v.as_str(), date);
        out.append(item.as_str());
        assert(metadata@.take(i as int + 1).drop_last() =~= metadata@.take(i as int));
        i += 1;
    }
    assert(metadata@.take(metadata@.len() as int) =~= metadata@);
    out
}

/// A backlink.
pub open spec fn backlink_item(l: Seq<char>) -> Seq<char> {
    "<a href=\""@ + spec_format_links(l) + "\">"@ + l + "</a>"@
}

/// Every title can be linked to.
pub open spec fn all_linkable(ls: Seq<Seq<char>>) -> bool {
    forall|i: int| 0 <= i < ls.len() ==> format_links_defined(#[trigger] ls[i])
}

/// The "Mentioned in" section of a page, empty where nothing links to it.
pub open spec fn backlinks_html(ls: Seq<Seq<char>>) -> Seq<char> {
    if ls.len() == 0 {
        Seq::<char>::empty()
    } else {
        "\n<section class=\"backlinks-container\">\n  <hr />\n  <h3>Mentioned in:</h3>\n  <div class=\"backlinks\">"@
            + join(ls.map_values(|l: Seq<char>| backlink_item(l)), "\n"@)
            + "</div>\n</section>\n"@
    }
}

/// The "Mentioned in" section of a page.
pub fn render_page_backlinks(links: &Vec<String>) -> (r: String)
    requires
        all_linkable(strs(links@)),
    ensures
        r@ == backlinks_html(strs(links@)),
{
    if links.len() == 0 {
        return String::new();
    }
    let ghost ls = strs(links@);
    let mut items: Vec<String> = Vec::new();
    let mut i: usize = 0;
    while i < links.len()
        invariant
            i <= links.len(),
            ls == strs(links@),
            all_linkable(ls),
            strs(items@) == ls.take(i as int).map_values(|l: Seq<char>| backlink_item(l)),
        decreases links.len() - i,
    {
        let l = links[i].as_str();
        assert(ls[i as int] == l@);
        let mut item = String::from_str("<a href=\"");
        item.append(format_links(l).as_str());
        item.append("\">");
        item.append(l);
        item.append("</a>");
        assert(item@ == backlink_item(ls[i as int]));
        let ghost before = strs(items@);
        items.push(item);
        assert(strs(items@) =~= before.push(backlink_item(ls[i as int])));
        assert(ls.take(i as int + 1) =~= ls.take(i as int).push(ls[i as int]));
        assert(strs(items@) =~= ls.take(i as int + 1).map_values(|l: Seq<char>| backlink_item(l)));
        i += 1;
    }
    assert(ls.take(links.len() as int) =~= ls);
    let mut out = String::from_str(
        "\n<section class=\"backlinks-container\">\n  <hr />\n  <h3>Mentioned in:</h3>\n  <div class=\"backlinks\">",
    );
    out.append(join_strings(&items, "\n").as_str());
    out.append("</div>\n</section>\n");
    out
}

/// A tag in a page's tag list.
pub open spec fn tag_item(t: Seq<char>) -> Seq<char> {
    "<li><a href=\""@ + t + "\">#"@ + t + "</a></li>"@
}

/// A page's tag list.
pub open spec fn tags_html(tags: Seq<Seq<char>>) -> Seq<char> {
    join(tags.map_values(|t: Seq<char>| tag_item(t)), "\n"@)
}

/// A page's tag list.
pub fn render_tag_list(tags: &Vec<String>) -> (r: String)
    ensures
        r@ == tags_html(strs(tags@)),
{
    let ghost ts = strs(tags@);
    let mut items: Vec<String> = Vec::new();
    let mut i: usize = 0;
    while i < tags.len()
        invariant
            i <= tags.len(),
            ts == strs(tags@),
            strs(items@) == ts.take(i as int).map_values(|t: Seq<char>| tag_item(t)),
        decreases tags.len() - i,
    {
        let t = tags[i].as_str();
        assert(ts[i as int] == t@);
        let mut item = String::from_str("<li><a href=\"");
        item.append(t);
        item.append("\">#");
        item.append(t);
        item.append("</a></li>");
        assert(item@ == tag_item(ts[i as int]));
        let ghost before = strs(items@);
        items.push(item);
        assert(strs(items@) =~= before.push(tag_item(ts[i as int])));
        assert(ts.take(i as int + 1) =~= ts.take(i as int).push(ts[i as int]));
        assert(strs(items@) =~= ts.take(i as int + 1).map_values(|t: Seq<char>| tag_item(t)));
        i += 1;
    }
    assert(ts.take(tags.len() as int) =~= ts);
    join_strings(&items, "\n")
}


/// A template slot: `<%= key %>`.
pub open spec fn slot(key: Seq<char>) -> Seq<char> {
    "<%= "@ + key + " %>"@
}

/// `ctx` with every `<%= key %>` slot filled with `value`.
pub open spec fn filled(ctx: Seq<char>, key: Seq<char>, value: Seq<char>) -> Seq<char> {
    replace(ctx, slot(key), value)
}

/// Fills every `<%= key %>` slot of `ctx` with `value`.
pub fn fill(ctx: &str, key: &str, value: &str) -> (r: String)
    ensures
        r@ == filled(ctx@, key@, value@),
{
    let mut s = String::from_str("<%= ");
    s.append(key);
    s.append(" %>");
    proof {
        reveal_strlit("<%= ");
    }
    assert(s@.len() > 0);
    replace_str(ctx, s.as_str(), value)
}

/// The template files that include lines bring in.
pub struct IncludeFiles {
    pub search: String,
    pub styles: String,
    pub meta: String,
    pub footer: String,
}

/// The icon of a page: its `icon` entry under `/files/`, or the site icon.
pub open spec fn icon_path(e: Entries) -> Seq<char> {
    match lookup(e, "icon"@) {
        Some(icon) => "/files/"@ + icon,
        None => "static/favicon.ico"@,
    }
}

/// The `meta` include filled for a page with this title and metadata. Pages
/// carry no description, so its slot is left empty.
pub open spec fn meta_include(meta: Seq<char>, title: Seq<char>, e: Entries) -> Seq<char> {
    filled(filled(filled(meta, "title"@, title), "desc"@, Seq::<char>::empty()), "icon"@, icon_path(e))
}

/// What an include names: one of the known files (the `meta` one filled for the
/// page), or nothing.
pub open spec fn included_file(
    name: Seq<char>,
    page: Option<(Seq<char>, Entries)>,
    inc: (Seq<char>, Seq<char>, Seq<char>, Seq<char>),
) -> Seq<char> {
    if name == "search"@ {
        inc.0
    } else if name == "styles"@ {
        inc.1
    } else if name == "meta"@ {
        meta_include(inc.2, page.unwrap().0, page.unwrap().1)
    } else if name == "footer"@ {
        inc.3
    } else {
        Seq::<char>::empty()
    }
}

/// A line that asks for an include.
pub open spec fn asks_include(line: Seq<char>) -> bool {
    contains_seq(line, "<%= include"@)
}

/// A line of a rendered template: an include line gives way to what it names.
pub open spec fn include_line_html(
    line: Seq<char>,
    page: Option<(Seq<char>, Entries)>,
    inc: (Seq<char>, Seq<char>, Seq<char>, Seq<char>),
) -> Seq<char> {
    if asks_include(line) {
        included_file(included_name(line), page, inc)
    } else {
        line
    }
}

/// Every include line among `ls` is well formed, and a page is given where one
/// asks for the `meta` include.
pub open spec fn line_includes_defined(ls: Seq<Seq<char>>, page: Option<(Seq<char>, Entries)>) -> bool {
    forall|i: int|
        0 <= i < ls.len() && asks_include(#[trigger] ls[i]) ==> is_include_line(ls[i]) && (
        included_name(ls[i]) == "meta"@ ==> page is Some)
}

/// Every include line of `ctx` is well formed, and a page is given where one
/// asks for the `meta` include.
pub open spec fn includes_defined(ctx: Seq<char>, page: Option<(Seq<char>, Entries)>) -> bool {
    line_includes_defined(lines(ctx), page)
}

/// The template with its include lines replaced, lines joined by newlines.
pub open spec fn includes_html(
    ctx: Seq<char>,
    page: Option<(Seq<char>, Entries)>,
    inc: (Seq<char>, Seq<char>, Seq<char>, Seq<char>),
) -> Seq<char> {
    join(lines(ctx).map_values(|l: Seq<char>| include_line_html(l, page, inc)), "\n"@)
}

/// The title and metadata of a page, if one is given.
pub open spec fn page_view(page: Option<&TemplattedPage>) -> Option<(Seq<char>, Entries)> {
    match page {
        Some(p) => Some((p.title@, p.metadata@)),
        None => None,
    }
}

/// The views of the include files.
pub open spec fn inc_view(inc: &IncludeFiles) -> (Seq<char>, Seq<char>, Seq<char>, Seq<char>) {
    (inc.search@, inc.styles@, inc.meta@, inc.footer@)
}

/// The file an include line brings in.
fn process_included_file(file: &str, page: Option<&TemplattedPage>, inc: &IncludeFiles) -> (r:
    String)
    requires
        file@ == "meta"@ ==> page is Some,
    ensures
        r@ == included_file(file@, page_view(page), inc_view(inc)),
{
    let f = chars_of(file);
    if crate::urls::chars_eq(f.as_slice(), chars_of("search").as_slice()) {
        inc.search.clone()
    } else if crate::urls::chars_eq(f.as_slice(), chars_of("styles").as_slice()) {
        inc.styles.clone()
    } else if crate::urls::chars_eq(f.as_slice(), chars_of("meta").as_slice()) {
        match page {
            Some(p) => {
                let icon = match p.metadata.get("icon") {
                    Some(icon) => {
                        let mut s = String::from_str("/files/");
                        s.append(icon.as_str());
                        s
                    },
                    None => String::from_str("static/favicon.ico"),
                };
                let a = fill(inc.meta.as_str(), "title", p.title.as_str());
                let none = String::new();
                let b = fill(a.as_str(), "desc", none.as_str());
                assert(b@ == filled(a@, "desc"@, Seq::<char>::empty()));
                let c = fill(b.as_str(), "icon", icon.as_str());
                assert(icon@ == icon_path(p.metadata@));
                assert(c@ == meta_include(inc.meta@, p.title@, p.metadata@));
                c
            },
            None => String::new(),
        }
    } else if crate::urls::chars_eq(f.as_slice(), chars_of("footer").as_slice()) {
        inc.footer.clone()
    } else {
        String::new()
    }
}

/// One line of a template, with an include replaced by the file it names.
fn render_include_line(
    line: &Vec<char>,
    marker: &Vec<char>,
    page: Option<&TemplattedPage>,
    inc: &IncludeFiles,
) -> (r: String)
    requires
        marker@ == "<%= include"@,
        asks_include(line@) ==> is_include_line(line@) && (included_name(line@) == "meta"@
            ==> page is Some),
    ensures
        r@ == include_line_html(line@, page_view(page), inc_view(inc)),
{
    let text = string_of(line.as_slice());
    if slice_contains(line.as_slice(), marker.as_slice()) {
        let name = parse_includes(text.as_str());
        process_included_file(name.as_str(), page, inc)
    } else {
        text
    }
}

/// Renders template lines, replacing include lines with the files they name.
fn render_include_lines(ls: &Vec<Vec<char>>, page: Option<&TemplattedPage>, inc: &IncludeFiles) -> (r:
    Vec<String>)
    requires
        line_includes_defined(ls@.map_values(|l: Vec<char>| l@), page_view(page)),
    ensures
        strs(r@) == ls@.map_values(|l: Vec<char>| l@).map_values(
            |l: Seq<char>| include_line_html(l, page_view(page), inc_view(inc)),
        ),
{
    let ghost pv = page_view(page);
    let ghost iv = inc_view(inc);
    let ghost lv = ls@.map_values(|l: Vec<char>| l@);
    let marker = chars_of("<%= include");
    let mut out: Vec<String> = Vec::new();
    let mut i: usize = 0;
    while i < ls.len()
        invariant
            i <= ls.len(),
            lv == ls@.map_values(|l: Vec<char>| l@),
            marker@ == "<%= include"@,
            pv == page_view(page),
            iv == inc_view(inc),
            line_includes_defined(lv, pv),
            strs(out@) == lv.take(i as int).map_values(|l: Seq<char>| include_line_html(l, pv, iv)),
        decreases ls.len() - i,
    {
        assert(lv[i as int] == ls@[i as int]@);
        let item = render_include_line(&ls[i], &marker, page, inc);
        let ghost before = strs(out@);
        out.push(item);
        assert(strs(out@) =~= before.push(include_line_html(lv[i as int], pv, iv)));
        assert(lv.take(i as int + 1) =~= lv.take(i as int).push(lv[i as int]));
        i += 1;
    }
    assert(lv.take(ls.len() as int) =~= lv);
    out
}

/// Replaces each include line of a template with the file it names.
pub fn render_includes(ctx: &str, page: Option<&TemplattedPage>, inc: &IncludeFiles) -> (r: String)
    requires
        includes_defined(ctx@, page_view(page)),
    ensures
        r@ == includes_html(ctx@, page_view(page), inc_view(inc)),
{
    let v = chars_of(ctx);
    let ls = lines_of(v.as_slice());
    let out = render_include_lines(&ls, page, inc);
    join_strings(&out, "\n")
}


/// Whether every title can be linked to.
pub fn linkable(links: &Vec<String>) -> (r: bool)
    ensures
        r == all_linkable(strs(links@)),
{
    let files = chars_of("files");
    let mut i: usize = 0;
    while i < links.len()
        invariant
            i <= links.len(),
            files@ == "files"@,
            forall|j: int| 0 <= j < i ==> format_links_defined(#[trigger] strs(links@)[j]),
        decreases links.len() - i,
    {
        let l = chars_of(links[i].as_str());
        assert(strs(links@)[i as int] == links@[i as int]@);
        if crate::urls::chars_eq(l.as_slice(), files.as_slice()) {
            return false;
        }
        i += 1;
    }
    true
}

/// Whether one line's include, if it asks for one, is well formed (and has a
/// page where it asks for the `meta` include).
fn include_line_ok(line: &Vec<char>, marker: &Vec<char>, has_page: bool) -> (r: bool)
    requires
        marker@ == "<%= include"@,
    ensures
        r == (asks_include(line@) ==> is_include_line(line@) && (included_name(line@) == "meta"@
            ==> has_page)),
{
    if !slice_contains(line.as_slice(), marker.as_slice()) {
        return true;
    }
    proof {
        reveal_strlit("<%= include \"");
        reveal_strlit("\" %>");
    }
    let t = trim_chars(line.as_slice());
    let open = chars_of("<%= include \"");
    let close = chars_of("\" %>");
    if !slice_starts_with(t.as_slice(), open.as_slice()) {
        return false;
    }
    let u = sub_chars(t.as_slice(), open.len(), t.len());
    assert(u@ =~= trim(line@).skip(include_open().len() as int));
    if !slice_ends_with(u.as_slice(), close.as_slice()) {
        return false;
    }
    let name = sub_chars(u.as_slice(), 0, u.len() - close.len());
    assert(name@ =~= included_name(line@));
    let meta = chars_of("meta");
    !crate::urls::chars_eq(name.as_slice(), meta.as_slice()) || has_page
}

/// Whether `render_includes` is defined on a template and page.
pub fn includes_ok(ctx: &str, page: Option<&TemplattedPage>) -> (r: bool)
    ensures
        r == includes_defined(ctx@, page_view(page)),
{
    let v = chars_of(ctx);
    let ls = lines_of(v.as_slice());
    let ghost lv = ls@.map_values(|l: Vec<char>| l@);
    let marker = chars_of("<%= include");
    let has_page = page.is_some();
    let mut i: usize = 0;
    while i < ls.len()
        invariant
            i <= ls.len(),
            lv == ls@.map_values(|l: Vec<char>| l@),
            lv == lines(ctx@),
            marker@ == "<%= include"@,
            has_page == page_view(page) is Some,
            forall|j: int|
                0 <= j < i && asks_include(#[trigger] lv[j]) ==> is_include_line(lv[j]) && (
                included_name(lv[j]) == "meta"@ ==> page_view(page) is Some),
        decreases ls.len() - i,
    {
        assert(lv[i as int] == ls@[i as int]@);
        if !include_line_ok(&ls[i], &marker, has_page) {
            return false;
        }
        i += 1;
    }
    true
}

} // verus!
