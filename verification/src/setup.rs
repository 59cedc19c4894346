//! Building and installing the wiki: converting old notes, reading the answers
//! of the setup questions, the static site's index, and reading notes into the
//! page list and the backlink store.
use vstd::prelude::*;

use crate::headers::{header_parse_defined, header_text, NoteHeader};
use crate::html::{spec_to_html, strs, to_html_defined};
use crate::meta::NoteMeta;
use crate::metadata::{insert_entry, lookup, Entries};
use crate::paths::{parse_location, spec_parse_location};
use crate::references::{add_all, add_to_global_store};
use crate::store::LinkStore;
use crate::tags::join_strings;
use crate::templates::{page_tags, page_title, to_template, update_templatted_pages, TemplattedPage};
use crate::text::{
    chars_of, contains_seq, join, lines, lines_of, replace, replace_str, slice_contains,
    slice_ends_with, starts_with, string_of,
};
use crate::urls::chars_eq;

verus! {

/// A line of an old note as the new format has it: the fence that opened the
/// header (or an empty first line) goes, as does a fence on the second line;
/// other fences become an empty line; headings lose their extra `#`s.
pub open spec fn migrated_line(idx: int, line: Seq<char>) -> Option<Seq<char>> {
    if idx == 0 && (line == "---"@ || line.len() == 0) {
        None
    } else if line == "---"@ {
        if idx == 1 {
            None
        } else {
            Some("\n"@)
        }
    } else if starts_with(line, "#"@) {
        Some("# "@ + replace(line, "#"@, Seq::<char>::empty()))
    } else {
        Some(line)
    }
}

/// The kept lines, from line `from` on.
pub open spec fn migrated_lines(ls: Seq<Seq<char>>) -> Seq<Seq<char>>
    decreases ls.len(),
{
    if ls.len() == 0 {
        Seq::<Seq<char>>::empty()
    } else {
        let rest = migrated_lines(ls.drop_last());
        match migrated_line(ls.len() - 1, ls.last()) {
            Some(l) => rest.push(l),
            None => rest,
        }
    }
}

/// An old note's text in the new format.
pub open spec fn migrated_text(contents: Seq<char>) -> Seq<char> {
    join(migrated_lines(lines(contents)), "\n"@)
}

/// Converts one line.
fn migrate_line(idx: usize, line: &Vec<char>) -> (r: Option<String>)
    ensures
        r matches Some(s) ==> migrated_line(idx as int, line@) == Some(s@),
        r is None ==> migrated_line(idx as int, line@) is None,
{
    proof {
        reveal_strlit("---");
        reveal_strlit("#");
    }
    let fence = chars_of("---");
    let is_fence = chars_eq(line.as_slice(), fence.as_slice());
    if idx == 0 && (is_fence || line.len() == 0) {
        return None;
    }
    if is_fence {
        if idx == 1 {
            return None;
        }
        return Some(String::from_str("\n"));
    }
    if line.len() > 0 && line[0] == '#' {
        assert(starts_with(line@, "#"@)) by {
            assert(line@.subrange(0, 1) =~= "#"@);
        }
        let text = string_of(line.as_slice());
        let none = String::new();
        let cleaned = replace_str(text.as_str(), "#", none.as_str());
        let mut formatted = String::from_str("# ");
        formatted.append(cleaned.as_str());
        return Some(formatted);
    }
    proof {
        if line@.len() > 0 {
            assert(line@.subrange(0, 1)[0] == line@[0]);
        }
    }
    assert(!starts_with(line@, "#"@));
    Some(string_of(line.as_slice()))
}

/// Converts an old note's text to the new format.
pub fn migrate_text(contents: &str) -> (r: String)
    ensures
        r@ == migrated_text(contents@),
{
    let v = chars_of(contents);
    let ls = lines_of(v.as_slice());
    let ghost lv = ls@.map_values(|l: Vec<char>| l@);
    let mut out: Vec<String> = Vec::new();
    let mut i: usize = 0;
    while i < ls.len()
        invariant
            i <= ls.len(),
            lv == ls@.map_values(|l: Vec<char>| l@),
            strs(out@) == migrated_lines(lv.take(i as int)),
        decreases ls.len() - i,
    {
        let ghost before = strs(out@);
        assert(lv.take(i as int + 1).drop_last() =~= lv.take(i as int));
        assert(lv.take(i as int + 1).last() == ls@[i as int]@);
        match migrate_line(i, &ls[i]) {
            Some(l) => {
                out.push(l);
                assert(strs(out@) =~= before.push(migrated_line(i as int, lv[i as int]).unwrap()));
            },
            None => {},
        }
        i += 1;
    }
    assert(lv.take(ls.len() as int) =~= lv);
    join_strings(&out, "\n")
}

/// The metadata of a converted note: a bookmark (its tags mention `bookmark`)
/// has the HTML content type.
pub open spec fn migrated_entries(e: Entries) -> Entries {
    match lookup(e, "tags"@) {
        Some(tags) => if contains_seq(tags, "bookmark"@) && lookup(e, "content-type"@) != Some(
            "html"@,
        ) {
            insert_entry(e, "content-type"@, "html"@)
        } else {
            e
        },
        None => e,
    }
}

/// Converts an old note to the new format and reads it.
pub fn migrate_note(contents: &str) -> (r: String)
    requires
        header_parse_defined(lines(migrated_text(contents@))),
    ensures
        r@ == header_text(
            migrated_entries(crate::headers::header_parse(lines(migrated_text(contents@))).1),
            crate::headers::header_parse(lines(migrated_text(contents@))).2,
        ),
{
    let text = migrate_text(contents);
    let mut note = NoteHeader::from_string(text);
    let bookmark = chars_of("bookmark");
    let html = chars_of("html");
    let needs_type = match note.metadata.get("tags") {
        Some(tags) => {
            let tv = chars_of(tags.as_str());
            if slice_contains(tv.as_slice(), bookmark.as_slice()) {
                match note.metadata.get("content-type") {
                    Some(ct) => {
                        let cv = chars_of(ct.as_str());
                        !chars_eq(cv.as_slice(), html.as_slice())
                    },
                    None => true,
                }
            } else {
                false
            }
        },
        None => false,
    };
    if needs_type {
        note.metadata.insert(String::from_str("content-type"), String::from_str("html"));
    }
    note.into_string()
}

/// What the conversion does with a file.
#[derive(Debug, PartialEq, Eq, Structural)]
pub enum MigrationAction {
    /// The task list moves to the data directory.
    MoveTodo,
    /// A markdown note is converted.
    Convert,
    /// Anything else stays as it is.
    Keep,
}

/// What the conversion does with a file of this name.
pub open spec fn migration_action_of(file_name: Seq<char>) -> MigrationAction {
    if file_name == "todo.txt"@ {
        MigrationAction::MoveTodo
    } else if crate::text::ends_with(file_name, "md"@) {
        MigrationAction::Convert
    } else {
        MigrationAction::Keep
    }
}

/// What the conversion does with a file of this name.
pub fn migration_action(file_name: &str) -> (r: MigrationAction)
    ensures
        r == migration_action_of(file_name@),
{
    let f = chars_of(file_name);
    if chars_eq(f.as_slice(), chars_of("todo.txt").as_slice()) {
        MigrationAction::MoveTodo
    } else if slice_ends_with(f.as_slice(), chars_of("md").as_slice()) {
        MigrationAction::Convert
    } else {
        MigrationAction::Keep
    }
}

/// An answer to a yes-or-no question, without its line end, says yes.
pub open spec fn says_yes(answer: Seq<char>) -> bool {
    answer == "y"@ || answer == "t"@ || answer == "true"@ || answer == "yes"@
}

/// An answer line: it ends with a newline.
pub open spec fn is_answer_line(s: Seq<char>) -> bool {
    s.len() > 0 && s.last() == '\n'
}

/// Whether the answer to "use git to sync" turns syncing on.
pub fn wants_sync(answer: &str) -> (r: bool)
    requires
        is_answer_line(answer@),
    ensures
        r == says_yes(answer@.drop_last()),
{
    let v = chars_of(answer);
    let a = crate::text::sub_chars(v.as_slice(), 0, v.len() - 1);
    assert(a@ =~= answer@.drop_last());
    chars_eq(a.as_slice(), chars_of("y").as_slice()) || chars_eq(a.as_slice(), chars_of("t").as_slice())
        || chars_eq(a.as_slice(), chars_of("true").as_slice()) || chars_eq(
        a.as_slice(),
        chars_of("yes").as_slice(),
    )
}

/// Whether the answer to "use a password" asks for one.
pub fn wants_password(answer: &str) -> (r: bool)
    requires
        is_answer_line(answer@),
    ensures
        r == (says_yes(answer@.drop_last()) || answer@.drop_last() == "\n"@),
{
    let v = chars_of(answer);
    let a = crate::text::sub_chars(v.as_slice(), 0, v.len() - 1);
    assert(a@ =~= answer@.drop_last());
    wants_sync(answer) || chars_eq(a.as_slice(), chars_of("\n").as_slice())
}

/// An answer without its line end, if it has one.
pub open spec fn without_newline(s: Seq<char>) -> Option<Seq<char>> {
    if is_answer_line(s) {
        Some(s.drop_last())
    } else {
        None
    }
}

/// The answer, or `default` where it was left empty.
pub open spec fn answer_or(s: Seq<char>, default: Seq<char>) -> Seq<char> {
    if s == "\n"@ {
        default
    } else {
        match without_newline(s) {
            Some(a) => a,
            None => s,
        }
    }
}

/// The options a setup ends with.
pub struct ConfigOptions {
    pub wiki_location: String,
    pub media_location: String,
    pub enable_sync: bool,
    pub branch: String,
    pub user: String,
}

/// Strips one trailing newline, if there is one.
fn strip_newline(s: &str) -> (r: String)
    ensures
        r@ == match without_newline(s@) {
            Some(a) => a,
            None => s@,
        },
{
    let v = chars_of(s);
    if v.len() > 0 && v[v.len() - 1] == '\n' {
        let a = crate::text::sub_chars(v.as_slice(), 0, v.len() - 1);
        assert(a@ =~= s@.drop_last());
        string_of(a.as_slice())
    } else {
        s.to_string()
    }
}

/// Whether a text is exactly one newline.
fn is_blank_answer(s: &str) -> (r: bool)
    ensures
        r == (s@ == "\n"@),
{
    let v = chars_of(s);
    chars_eq(v.as_slice(), chars_of("\n").as_slice())
}

/// Reads the answers of the setup. Empty answers take the defaults: the wiki
/// in `~/wiki/`, media in `~/wiki_media/`, the `main` branch, and the user's
/// name. An unfinished media answer falls back to the raw wiki answer.
pub fn config_options(
    username: &str,
    location: &str,
    media_location: &str,
    should_sync: &str,
    git_branch: &str,
    default_user: &str,
    home: &str,
) -> (r: ConfigOptions)
    requires
        is_answer_line(should_sync@),
    ensures
        r.enable_sync == says_yes(should_sync@.drop_last()),
        r.wiki_location@ == spec_parse_location(answer_or(location@, "~/wiki/"@), home@),
        r.media_location@ == spec_parse_location(
            if media_location@ == "\n"@ {
                "~/wiki_media/"@
            } else {
                match without_newline(media_location@) {
                    Some(a) => a,
                    None => location@,
                }
            },
            home@,
        ),
        r.branch@ == answer_or(git_branch@, "main"@),
        r.user@ == answer_or(username@, default_user@),
{
    let enable_sync = wants_sync(should_sync);
    let loc = if is_blank_answer(location) {
        String::from_str("~/wiki/")
    } else {
        strip_newline(location)
    };
    let wiki_location = parse_location(loc.as_str(), home);
    let media = if is_blank_answer(media_location) {
        String::from_str("~/wiki_media/")
    } else {
        let v = chars_of(media_location);
        if v.len() > 0 && v[v.len() - 1] == '\n' {
            strip_newline(media_location)
        } else {
            location.to_string()
        }
    };
    let media_location = parse_location(media.as_str(), home);
    let branch = if is_blank_answer(git_branch) {
        String::from_str("main")
    } else {
        strip_newline(git_branch)
    };
    let user = if is_blank_answer(username) {
        default_user.to_string()
    } else {
        strip_newline(username)
    };
    ConfigOptions { wiki_location, media_location, enable_sync, branch, user }
}

/// The sync settings of the configuration.
#[derive(Debug)]
pub struct Sync {
    pub use_git: bool,
    pub sync_interval: u8,
    pub branch: String,
}

/// The general settings of the configuration.
#[derive(Debug)]
pub struct General {
    pub wiki_location: String,
    pub port: u16,
    pub user: String,
    pub pass: String,
    pub version: String,
    pub media_location: String,
    pub host: String,
}

/// The configuration.
#[derive(Debug)]
pub struct Config {
    pub general: General,
    pub sync: Sync,
}

/// The configuration written at setup: the default one with the answers put in,
/// and the hash of the password chosen at setup, if one was.
pub fn apply_options(default_conf: Config, options: ConfigOptions, hashed_pass: Option<String>) -> (r: Config)
    ensures
        r.general.user == options.user,
        r.general.wiki_location == options.wiki_location,
        r.general.media_location == options.media_location,
        r.sync.use_git == options.enable_sync,
        r.sync.branch == options.branch,
        r.general.port == default_conf.general.port,
        r.general.pass == match hashed_pass {
            Some(p) => p,
            None => default_conf.general.pass,
        },
        r.general.version == default_conf.general.version,
        r.general.host == default_conf.general.host,
        r.sync.sync_interval == default_conf.sync.sync_interval,
{
    let mut conf = default_conf;
    conf.general.user = options.user;
    conf.general.wiki_location = options.wiki_location;
    conf.general.media_location = options.media_location;
    conf.sync.use_git = options.enable_sync;
    conf.sync.branch = options.branch;
    if let Some(p) = hashed_pass {
        conf.general.pass = p;
    }
    conf
}

/// Whether `git status -s` printed anything, which means there is something to
/// sync.
pub fn needs_sync(status_output: &str) -> (r: bool)
    ensures
        r == (lines(status_output@).len() > 0),
{
    let v = chars_of(status_output);
    let ls = lines_of(v.as_slice());
    ls.len() > 0
}

/// An entry of the static site's index.
pub open spec fn index_item(title: Seq<char>) -> Seq<char> {
    "<li><a href=\""@ + title + "\">"@ + title + "</a></li>"@
}

/// The body of the static site's index page.
pub open spec fn index_body(titles: Seq<Seq<char>>) -> Seq<char> {
    "<h1>Pages</h1><ul style=\"margin: 1rem 0rem;\">"@ + join(
        titles.map_values(|t: Seq<char>| index_item(t)),
        Seq::<char>::empty(),
    ) + "</ul>"@
}

/// The body of the static site's index page, listing the pages' titles.
pub fn static_index_body(pages: &Vec<TemplattedPage>) -> (r: String)
    ensures
        r@ == index_body(pages@.map_values(|p: TemplattedPage| p.title@)),
{
    let ghost ts = pages@.map_values(|p: TemplattedPage| p.title@);
    let mut items: Vec<String> = Vec::new();
    let mut i: usize = 0;
    while i < pages.len()
        invariant
            i <= pages.len(),
            ts == pages@.map_values(|p: TemplattedPage| p.title@),
            strs(items@) == ts.take(i as int).map_values(|t: Seq<char>| index_item(t)),
        decreases pages.len() - i,
    {
        let t = pages[i].title.as_str();
        let mut item = String::from_str("<li><a href=\"");
        item.append(t);
        item.append("\">");
        item.append(t);
        item.append("</a></li>");
        assert(ts[i as int] == t@);
        assert(item@ == index_item(ts[i as int]));
        let ghost before = strs(items@);
        items.push(item);
        assert(strs(items@) =~= before.push(index_item(ts[i as int])));
        assert(ts.take(i as int + 1) =~= ts.take(i as int).push(ts[i as int]));
        i += 1;
    }
    assert(ts.take(pages.len() as int) =~= ts);
    let none = String::new();
    let mut out = String::from_str("<h1>Pages</h1><ul style=\"margin: 1rem 0rem;\">");
    out.append(join_strings(&items, none.as_str()).as_str());
    out.append("</ul>");
    out
}

/// The directory and file of a page of the static site: `/` in the title
/// becomes `-`.
pub fn static_page_location(title: &str) -> (r: (String, String))
    ensures
        r.0@ == "public/"@ + replace(title@, "/"@, "-"@),
        r.1@ == "public/"@ + replace(title@, "/"@, "-"@) + "/index.html"@,
{
    proof {
        reveal_strlit("/");
    }
    let formatted = replace_str(title, "/", "-");
    let mut dir = String::from_str("public/");
    dir.append(formatted.as_str());
    let mut file = String::from_str("public/");
    file.append(formatted.as_str());
    file.append("/index.html");
    (dir, file)
}

/// Reads a note into the build: its title is recorded under each of its links
/// and tags, and its page joins the page list.
pub fn process_note(note: &NoteMeta, backlinks: &mut LinkStore, pages: &mut Vec<TemplattedPage>)
    requires
        to_html_defined(note.content@),
    ensures
        final(backlinks)@ == add_all(
            old(backlinks)@,
            spec_to_html(note.content@).1 + page_tags(note.metadata@),
            page_title(note.metadata@),
        ),
        final(pages)@.len() == old(pages)@.len() + 1,
        final(pages)@.drop_last() == old(pages)@,
        final(pages)@.last().title@ == page_title(note.metadata@),
{
    let templatted = to_template(note);
    let mut links = crate::headers::clone_strings(&templatted.outlinks);
    let ghost a = strs(links@);
    let mut k: usize = 0;
    while k < templatted.page.tags.len()
        invariant
            k <= templatted.page.tags.len(),
            strs(links@) == a + strs(templatted.page.tags@).take(k as int),
        decreases templatted.page.tags.len() - k,
    {
        let ghost before = strs(links@);
        links.push(templatted.page.tags[k].clone());
        assert(strs(links@) =~= before.push(templatted.page.tags@[k as int]@));
        assert(strs(templatted.page.tags@).take(k as int + 1) =~= strs(templatted.page.tags@).take(
            k as int,
        ).push(templatted.page.tags@[k as int]@));
        assert(strs(links@) =~= a + strs(templatted.page.tags@).take(k as int + 1));
        k += 1;
    }
    assert(strs(templatted.page.tags@).take(templatted.page.tags.len() as int) =~= strs(
        templatted.page.tags@,
    ));
    add_to_global_store(templatted.page.title.as_str(), &links, backlinks);
    update_templatted_pages(templatted.page, pages);
}


/// What a build collects: the backlink store and the pages.
pub struct Builder {
    pub backlinks: LinkStore,
    pub pages: Vec<TemplattedPage>,
}

impl Builder {
    /// An empty build.
    pub fn new() -> (r: Builder)
        ensures
            r.backlinks@.len() == 0,
            r.pages@.len() == 0,
    {
        Builder { backlinks: LinkStore::new(), pages: Vec::new() }
    }
}

} // verus!
