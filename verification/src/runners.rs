//! Decisions of the task runners: page titles for bookmarked pages, the list of
//! most recently used notes, and what an edit asks the job queue to do.
use vstd::prelude::*;
use vstd::utf8::{decode_utf8, encode_utf8, is_char_boundary};

use crate::html::strs;
use crate::messages::{split_string, strings_of, Message};
use crate::metadata::{lookup, Entries, Metadata};
use crate::patch::PatchData;
use crate::persist::WriteWikiError;
use crate::references::{filter_titles, without};
use crate::search::{lowercase, to_lowercase};
use crate::tags::join_strings;
use crate::text::{
    chars_of, join, lines, lines_of, replace, replace_str, split_char, string_of, trim,
    trim_chars, utf8_len_at_most,
};
use crate::urls::{chars_eq, url_decode, url_decoded, url_encode, url_encoded};

verus! {

/// Characters that a bookmark's title loses: `? \ / | : ; > < , .`, newline, `$`, `&`.
pub open spec fn is_title_removed(c: char) -> bool {
    c == '?' || c == '\\' || c == '/' || c == '|' || c == ':' || c == ';' || c == '>' || c == '<'
        || c == ',' || c == '.' || c == '\n' || c == '$' || c == '&'
}

/// A text without the characters that titles lose.
pub open spec fn strip_title_chars(s: Seq<char>) -> Seq<char>
    decreases s.len(),
{
    if s.len() == 0 {
        s
    } else if is_title_removed(s.last()) {
        strip_title_chars(s.drop_last())
    } else {
        strip_title_chars(s.drop_last()).push(s.last())
    }
}

/// Calls the `regex` crate to delete every match of
/// `\?|\\|/|\||:|;|>|<|,|\.|\n|\$|&`, each of which is one such character.
#[verifier::external_body]
pub(crate) fn remove_title_chars(s: &str) -> (r: String)
    ensures
        r@ == strip_title_chars(s@),
{
    let re = regex::Regex::new(r"\?|\\|/|\||:|;|>|<|,|\.|\n|\$|&").unwrap();
    re.replace_all(s, "").into_owned()
}

/// Whether `normalize_title` is defined on a title: a title that is more than 50
/// bytes long once cleaned must have a character boundary at byte 50.
pub open spec fn normalize_title_defined(title: Seq<char>) -> bool {
    let b = encode_utf8(strip_title_chars(title));
    b.len() > 50 ==> is_char_boundary(b, 50)
}

/// The file-system friendly title of a page: forbidden characters removed, and a
/// title that would run more than 10 bytes past 50 bytes cut at byte 50, trimmed,
/// and ended with an ellipsis.
pub open spec fn spec_normalize_title(title: Seq<char>) -> Seq<char> {
    let n = strip_title_chars(title);
    let b = encode_utf8(n);
    if b.len() > 50 && b.len() - 50 > 10 {
        trim(decode_utf8(b.subrange(0, 50))) + "..."@
    } else {
        n
    }
}

/// Makes a page title safe to use as a file name.
pub fn normalize_title(title: &str) -> (r: String)
    requires
        normalize_title_defined(title@),
    ensures
        r@ == spec_normalize_title(title@),
{
    let normalized = remove_title_chars(title);
    let nv = chars_of(normalized.as_str());
    proof {
        broadcast use vstd::utf8::encode_utf8_valid_utf8;
    }
    if !utf8_len_at_most(nv.as_slice(), 50) {
        let (shortened, rest) = normalized.as_str().split_at(50);
        let rv = chars_of(rest);
        proof {
            vstd::utf8::encode_utf8_decode_utf8(shortened@);
            vstd::utf8::encode_utf8_decode_utf8(rest@);
        }
        if !utf8_len_at_most(rv.as_slice(), 10) {
            let sv = chars_of(shortened);
            let t = trim_chars(sv.as_slice());
            let mut out = string_of(t.as_slice());
            out.append("...");
            return out;
        }
    }
    normalized
}


/// The lines of the recently-used cache other than `title`.
pub open spec fn cache_without(recent: Seq<char>, title: Seq<char>) -> Seq<Seq<char>> {
    without(lines(recent), title)
}

/// The lines of the recently-used cache other than `title`.
pub fn filter_cache_file(recent: &str, title: &str) -> (r: Vec<String>)
    ensures
        strs(r@) == cache_without(recent@, title@),
{
    let v = chars_of(recent);
    let ls = lines_of(v.as_slice());
    let lines_v = strings_of(&ls);
    filter_titles(&lines_v, title)
}

/// The recently-used list once `current` is opened (having been `old`): both
/// titles leave the list, the oldest entry goes if eight or more remain, and
/// `current` comes first.
pub open spec fn updated_mru(recent: Seq<char>, old: Seq<char>, current: Seq<char>) -> Seq<
    Seq<char>,
> {
    let a = cache_without(recent, current);
    let b = cache_without(join(a, "\n"@), old);
    let c = if b.len() >= 8 {
        b.drop_last()
    } else {
        b
    };
    seq![current] + c
}

/// The recently-used list once `current_title` is opened.
pub fn update_mru(recent: &str, old_title: &str, current_title: &str) -> (r: Vec<String>)
    ensures
        strs(r@) == updated_mru(recent@, old_title@, current_title@),
{
    let filtered = filter_cache_file(recent, current_title);
    let joined = join_strings(&filtered, "\n");
    let mut filtered = filter_cache_file(joined.as_str(), old_title);
    if filtered.len() >= 8 {
        filtered.pop();
    }
    let ghost rest = strs(filtered@);
    filtered.insert(0, current_title.to_string());
    assert(strs(filtered@) =~= seq![current_title@] + rest);
    filtered
}

/// The text of the recently-used cache: its titles, one per line.
pub fn cache_text(filtered: &Vec<String>) -> (r: String)
    ensures
        r@ == join(strs(filtered@), "\n"@),
{
    join_strings(filtered, "\n")
}

/// The runner of the API's jobs: uploads, note reads, search and styles.
pub struct APIRunner {}

/// Why an upload failed.
#[derive(Debug, PartialEq, Eq, Structural)]
pub enum FileError {
    FormBodyRead,
    FileWrite,
}

impl APIRunner {
    /// The version of this program.
    pub fn get_version() -> (r: String)
        ensures
            r@ == "0.1.0"@,
    {
        String::from_str("0.1.0")
    }
}

/// The runner of bookmark jobs.
pub struct BookmarkRunner {}

/// The runner of the static pages: uploads, styles and the error page.
pub struct StaticPageRunner {}

/// The runner of note jobs: showing, editing, appending and deleting notes.
pub struct WikiRunner {}

/// The runner of the task list.
pub struct TodoRunner {}

/// A task to add to the task list.
#[derive(Debug)]
pub struct NewTask {
    pub content: String,
}

/// The message of the error page: the `msg` parameter, or a default.
pub open spec fn error_message_text(params: Entries) -> Seq<char> {
    match lookup(params, "msg"@) {
        Some(m) => m,
        None => "Error could not be determined."@,
    }
}

/// The message of the error page.
pub fn show_error_message(params: &Metadata) -> (r: String)
    ensures
        r@ == error_message_text(params@),
{
    match params.get("msg") {
        Some(m) => m.clone(),
        None => String::from_str("Error could not be determined."),
    }
}

/// The user style sheet as the style editor shows it: line ends as `\r\n`.
pub fn styles_body(body: &str) -> (r: String)
    ensures
        r@ == replace(body@, "\n"@, "\r\n"@),
{
    proof {
        reveal_strlit("\n");
    }
    replace_str(body, "\n", "\r\n")
}

/// Where a page is served: `/` and its title, URL-encoded.
pub open spec fn page_location(title: Seq<char>) -> Seq<char> {
    "/"@ + url_encoded(title)
}

/// Where a page is served.
pub fn page_location_of(title: &str) -> (r: String)
    ensures
        r@ == page_location(title@),
{
    let mut s = String::from_str("/");
    s.append(url_encode(title).as_str());
    s
}

/// Where the error page for a message is served.
pub open spec fn error_location(msg: Seq<char>) -> Seq<char> {
    "/error?msg="@ + url_encoded(msg)
}

/// Where the error page for a message is served.
pub fn error_location_of(msg: &str) -> (r: String)
    ensures
        r@ == error_location(msg@),
{
    let mut s = String::from_str("/error?msg=");
    s.append(url_encode(msg).as_str());
    s
}

/// The tags of a bookmark: those of the form, cut at commas, and `bookmark`.
pub open spec fn bookmark_tags(raw: Seq<char>) -> Seq<Seq<char>> {
    split_char(raw, ',').push("bookmark"@)
}

/// The URL and tags of a bookmark form, which must have both fields.
pub fn bookmark_request(form_body: &Metadata) -> (r: (String, Vec<String>))
    requires
        lookup(form_body@, "url"@) is Some,
        lookup(form_body@, "tags"@) is Some,
    ensures
        r.0@ == lookup(form_body@, "url"@).unwrap(),
        strs(r.1@) == bookmark_tags(lookup(form_body@, "tags"@).unwrap()),
{
    let url = match form_body.get("url") {
        Some(u) => u.clone(),
        None => String::new(),
    };
    let mut tags = match form_body.get("tags") {
        Some(t) => split_string(t.as_str(), ','),
        None => Vec::new(),
    };
    let ghost before = strs(tags@);
    tags.push(String::from_str("bookmark"));
    assert(strs(tags@) =~= before.push("bookmark"@));
    (url, tags)
}

/// The note of a bookmarked page: its cleaned body, the given tags, the page's
/// title made safe, and its URL with an HTML content type as metadata.
pub fn bookmark_patch(url: String, page_title: &str, body: String, tags: Vec<String>) -> (r: PatchData)
    requires
        normalize_title_defined(page_title@),
    ensures
        r.body@ == body@,
        r.tags@ == tags@,
        r.title@ == spec_normalize_title(page_title@),
        r.old_title@.len() == 0,
        r.metadata@ == seq![("url"@, url@), ("content-type"@, "html"@)],
{
    let mut metadata = Metadata::new();
    let ghost u = url@;
    metadata.insert(String::from_str("url"), url);
    assert(metadata@ =~= seq![("url"@, u)]);
    proof {
        reveal_strlit("url");
        reveal_strlit("content-type");
        assert("url"@.len() == 3);
        assert("content-type"@.len() == 12);
        assert("url"@ != "content-type"@);
        assert(seq![("url"@, u)].drop_last() =~= Seq::<(Seq<char>, Seq<char>)>::empty());
        assert(crate::metadata::index_of_key(Seq::<(Seq<char>, Seq<char>)>::empty(), "content-type"@) is None);
        assert(crate::metadata::index_of_key(seq![("url"@, u)], "content-type"@) is None);
    }
    metadata.insert(String::from_str("content-type"), String::from_str("html"));
    assert(metadata@ =~= seq![("url"@, u), ("content-type"@, "html"@)]);
    let title = normalize_title(page_title);
    PatchData { body, tags, title, old_title: String::new(), metadata }
}

/// What follows a bookmark's write: once written, the note's edit and its
/// archived text are queued and the browser goes to the new page; if the write
/// failed (with the given message), to the error page.
pub fn bookmark_outcome(patch: PatchData, archive_body: String, written: Result<(), String>) -> (r: (
    Vec<Message>,
    String,
))
    ensures
        written is Ok ==> r.0.len() == 2 && r.1@ == page_location(patch.title@),
        written is Ok ==> (r.0[0] matches Message::Patch { patch: p } && p == patch),
        written is Ok ==> (r.0[1] matches Message::ArchiveBody { title: t, body: b } && t@
            == patch.title@ && b == archive_body),
        written matches Err(e) ==> r.0.len() == 0 && r.1@ == error_location(e@),
{
    match written {
        Ok(()) => {
            let location = page_location_of(patch.title.as_str());
            let title = patch.title.clone();
            let mut jobs: Vec<Message> = Vec::new();
            jobs.push(Message::Patch { patch });
            jobs.push(Message::ArchiveBody { title, body: archive_body });
            (jobs, location)
        },
        Err(e) => (Vec::new(), error_location_of(e.as_str())),
    }
}

/// What follows a bookmark whose page could not be fetched in time: a job to
/// fetch it later, and the bookmark page.
pub fn bookmark_fallback(url: String, tags: Vec<String>) -> (r: (Message, String))
    ensures
        r.0 == (Message::NewFromUrl { url, tags }),
        r.1@ == "/bookmark"@,
{
    (Message::NewFromUrl { url, tags }, String::from_str("/bookmark"))
}

/// The archive job an edit asks for, given its tags lower-cased: a bookmark
/// (a tag `bookmark`) with a URL has its archive moved when it is renamed, and
/// fetched again otherwise.
pub fn archive_job(body: &PatchData, lowered_tags: &Vec<String>) -> (r: Option<Message>)
    ensures
        !(strs(lowered_tags@).contains("bookmark"@) && lookup(body.metadata@, "url"@) is Some)
            ==> r is None,
        strs(lowered_tags@).contains("bookmark"@) && lookup(body.metadata@, "url"@) is Some
            && body.renames() ==> (r matches Some(Message::ArchiveMove { old_title: o, new_title: n })
            && o@ == body.old_title@ && n@ == body.title@),
        strs(lowered_tags@).contains("bookmark"@) && lookup(body.metadata@, "url"@) is Some
            && !body.renames() ==> (r matches Some(Message::Archive { url: u, title: t }) && u@
            == lookup(body.metadata@, "url"@).unwrap() && t@ == body.title@),
{
    let bookmark = chars_of("bookmark");
    let mut found = false;
    let mut i: usize = 0;
    while i < lowered_tags.len()
        invariant
            i <= lowered_tags.len(),
            bookmark@ == "bookmark"@,
            found == exists|j: int| 0 <= j < i && strs(lowered_tags@)[j] == "bookmark"@,
        decreases lowered_tags.len() - i,
    {
        let lv = chars_of(lowered_tags[i].as_str());
        assert(strs(lowered_tags@)[i as int] == lowered_tags@[i as int]@);
        if chars_eq(lv.as_slice(), bookmark.as_slice()) {
            found = true;
        }
        i += 1;
    }
    assert(found == strs(lowered_tags@).contains("bookmark"@));
    if found {
        match body.metadata.get("url") {
            Some(url) => {
                if body.is_rename() {
                    Some(Message::ArchiveMove { old_title: body.old_title.clone(), new_title: body.title.clone() })
                } else {
                    Some(Message::Archive { url: url.clone(), title: body.title.clone() })
                }
            },
            None => None,
        }
    } else {
        None
    }
}

/// An edit is of a bookmark when one of its tags, lowercased, is `bookmark`.
pub open spec fn is_bookmark(tags: Seq<Seq<char>>) -> bool {
    tags.map_values(|t: Seq<char>| lowercase(t)).contains("bookmark"@)
}

/// The archive job an edit asks for: a bookmark with a URL has its archive moved
/// when it is renamed, and fetched again otherwise.
pub fn edit_archive_job(body: &PatchData) -> (r: Option<Message>)
    ensures
        !(is_bookmark(strs(body.tags@)) && lookup(body.metadata@, "url"@) is Some) ==> r is None,
        is_bookmark(strs(body.tags@)) && lookup(body.metadata@, "url"@) is Some && body.renames()
            ==> (r matches Some(Message::ArchiveMove { old_title: o, new_title: n }) && o@
            == body.old_title@ && n@ == body.title@),
        is_bookmark(strs(body.tags@)) && lookup(body.metadata@, "url"@) is Some && !body.renames()
            ==> (r matches Some(Message::Archive { url: u, title: t }) && u@ == lookup(
            body.metadata@,
            "url"@,
        ).unwrap() && t@ == body.title@),
{
    let ghost ts = strs(body.tags@);
    let mut lowered: Vec<String> = Vec::new();
    let mut i: usize = 0;
    while i < body.tags.len()
        invariant
            i <= body.tags.len(),
            ts == strs(body.tags@),
            strs(lowered@) == ts.take(i as int).map_values(|t: Seq<char>| lowercase(t)),
        decreases body.tags.len() - i,
    {
        let lower = to_lowercase(body.tags[i].as_str());
        let ghost before = strs(lowered@);
        lowered.push(lower);
        assert(strs(lowered@) =~= before.push(lowercase(ts[i as int])));
        assert(ts.take(i as int + 1).map_values(|t: Seq<char>| lowercase(t)) =~= ts.take(
            i as int,
        ).map_values(|t: Seq<char>| lowercase(t)).push(lowercase(ts[i as int])));
        i += 1;
    }
    assert(ts.take(body.tags.len() as int) =~= ts);
    archive_job(body, &lowered)
}

/// What an edit leads to once its write is done: a written edit is queued as a
/// patch and succeeds; a failed write queues nothing and gives its error.
pub fn edit_outcome(body: PatchData, written: Result<(), WriteWikiError>) -> (r: (
    Option<Message>,
    Result<(), WriteWikiError>,
))
    ensures
        written is Ok ==> r.0 == Some(Message::Patch { patch: body }) && r.1 is Ok,
        written is Err ==> r.0 is None && r.1 == written,
{
    match written {
        Ok(()) => (Some(Message::Patch { patch: body }), Ok(())),
        Err(e) => (None, Err(e)),
    }
}

/// The job of a delete form, which must name the note.
pub fn delete_job(form_body: &Metadata) -> (r: Message)
    requires
        lookup(form_body@, "title"@) is Some,
    ensures
        r matches Message::Delete { title: t } && t@ == lookup(form_body@, "title"@).unwrap(),
{
    match form_body.get("title") {
        Some(t) => Message::Delete { title: t.clone() },
        None => Message::Delete { title: String::new() },
    }
}


/// Dropping a title keeps the other titles and does not lengthen a list.
proof fn lemma_without_shrinks(v: Seq<Seq<char>>, t: Seq<char>)
    ensures
        without(v, t).len() <= v.len(),
        forall|i: int| 0 <= i < without(v, t).len() ==> v.contains(#[trigger] without(v, t)[i]),
    decreases v.len(),
{
    crate::references::lemma_without(v, t);
    if v.len() > 0 {
        lemma_without_shrinks(v.drop_last(), t);
    }
    assert forall|i: int| 0 <= i < without(v, t).len() implies v.contains(#[trigger] without(v, t)[i]) by {
        let x = without(v, t)[i];
        assert(without(v, t).contains(x));
        assert(x != t);
    }
}

/// The cache's lines other than a title hold no newline and are no more than
/// the cache's lines.
proof fn lemma_cache_without(recent: Seq<char>, t: Seq<char>)
    ensures
        cache_without(recent, t).len() <= lines(recent).len(),
        forall|i: int| 0 <= i < cache_without(recent, t).len() ==> !(#[trigger] cache_without(
            recent,
            t,
        )[i]).contains('\n'),
{
    crate::text::lemma_lines_no_newline(recent);
    lemma_without_shrinks(lines(recent), t);
    assert forall|i: int| 0 <= i < cache_without(recent, t).len() implies !(#[trigger] cache_without(
        recent,
        t,
    )[i]).contains('\n') by {
        let x = cache_without(recent, t)[i];
        assert(lines(recent).contains(x));
        let j = choose|j: int| 0 <= j < lines(recent).len() && lines(recent)[j] == x;
        assert(!lines(recent)[j].contains('\n'));
    }
}

/// The note just opened heads the recently-used list, and a cache of at most
/// eight notes stays at most eight long.
pub proof fn law_mru_head(recent: Seq<char>, old: Seq<char>, current: Seq<char>)
    ensures
        updated_mru(recent, old, current)[0] == current,
        lines(recent).len() <= 8 ==> updated_mru(recent, old, current).len() <= 8,
{
    reveal_strlit("\n");
    assert("\n"@ =~= seq!['\n']);
    let a = cache_without(recent, current);
    lemma_cache_without(recent, current);
    crate::text::lemma_lines_join_len(a);
    lemma_cache_without(join(a, "\n"@), old);
}


/// The path of a note under another: the main path, `/`, and the sub path
/// URL-decoded, if it decodes.
pub open spec fn nested_path_of(main_path: Seq<char>, sub_path: Seq<char>) -> Option<Seq<char>> {
    match url_decoded(sub_path) {
        Some(d) => Some(main_path + "/"@ + d),
        None => None,
    }
}

/// The path of a note under another, if the sub path decodes.
pub fn nested_path(main_path: &str, sub_path: &str) -> (r: Option<String>)
    ensures
        r matches Some(p) ==> nested_path_of(main_path@, sub_path@) == Some(p@),
        r is None ==> nested_path_of(main_path@, sub_path@) is None,
{
    match url_decode(sub_path) {
        Some(d) => {
            let mut p = main_path.to_string();
            p.append("/");
            p.append(d.as_str());
            Some(p)
        },
        None => None,
    }
}

/// The title of a note asked for by its URL-encoded path, if it decodes.
pub fn decoded_title(path: &str) -> (r: Option<String>)
    ensures
        r matches Some(t) ==> url_decoded(path@) == Some(t@),
        r is None ==> url_decoded(path@) is None,
{
    url_decode(path)
}


/// A cleaned title holds none of the characters that titles lose.
pub proof fn law_cleaned_title_is_safe(title: Seq<char>)
    ensures
        forall|i: int| 0 <= i < strip_title_chars(title).len() ==> !is_title_removed(
            #[trigger] strip_title_chars(title)[i],
        ),
    decreases title.len(),
{
    if title.len() > 0 {
        law_cleaned_title_is_safe(title.drop_last());
        let p = strip_title_chars(title.drop_last());
        assert forall|i: int| 0 <= i < strip_title_chars(title).len() implies !is_title_removed(
            #[trigger] strip_title_chars(title)[i],
        ) by {
            if i < p.len() {
                assert(strip_title_chars(title)[i] == p[i]);
            }
        }
    }
}

} // verus!
