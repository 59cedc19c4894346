//! Where the wiki keeps its files: notes, archives, the search index, the task
//! list, and the wiki directory named in the configuration.
use vstd::prelude::*;

use crate::text::{chars_of, ends_with, push_char, replace, replace_str};

verus! {

/// The path `base` with `part` pushed onto it, as std's `PathBuf::push` makes it.
pub uninterp spec fn pushed_path(base: Seq<char>, part: Seq<char>) -> Seq<char>;

/// The path with its extension set, as std's `PathBuf::set_extension` makes it.
pub uninterp spec fn with_extension(path: Seq<char>, ext: Seq<char>) -> Seq<char>;

/// Pushes `part` onto the path `base` (std's `PathBuf::push`): the result is a
/// function of the two paths on the target the library is built for. Not said:
/// std's rules differ between targets (the separator, and which paths are
/// absolute and so replace `base`), so the name stands for one target's rules.
#[verifier::external_body]
fn push_path(base: &str, part: &str) -> (r: String)
    ensures
        r@ == pushed_path(base@, part@),
{
    let mut p = std::path::PathBuf::from(base);
    p.push(part);
    p.to_string_lossy().into_owned()
}

/// Sets the extension of a path (std's `PathBuf::set_extension`): the result is
/// a function of the path and the extension on the target the library is built
/// for. std panics when the extension holds a path separator, so one with a
/// slash or a backslash (the separators of Unix and Windows) is left out. Not said: where the
/// file name starts depends on the target's separator.
#[verifier::external_body]
fn set_extension(path: &str, ext: &str) -> (r: String)
    requires
        !ext@.contains('/'),
        !ext@.contains('\\'),
    ensures
        r@ == with_extension(path@, ext@),
{
    let mut p = std::path::PathBuf::from(path);
    p.set_extension(ext);
    p.to_string_lossy().into_owned()
}

/// Where the search index lives under the data directory.
pub fn get_search_index_location(data_dir: &str) -> (r: String)
    ensures
        r@ == pushed_path(data_dir@, "search-index"@),
{
    push_path(data_dir, "search-index")
}

/// Where the index of each file's search terms lives under the data directory.
pub fn get_search_file_index_location(data_dir: &str) -> (r: String)
    ensures
        r@ == pushed_path(pushed_path(data_dir@, "search-index"@), "file_index"@),
{
    let idx = push_path(data_dir, "search-index");
    push_path(idx.as_str(), "file_index")
}

/// Where archived pages live under the data directory.
pub fn get_archive_location(data_dir: &str) -> (r: String)
    ensures
        r@ == pushed_path(data_dir@, "archive"@),
{
    push_path(data_dir, "archive")
}

/// Where the archive of a page lives.
pub fn get_archive_file_path(data_dir: &str, title: &str) -> (r: String)
    ensures
        r@ == pushed_path(pushed_path(data_dir@, "archive"@), title@),
{
    let archive = get_archive_location(data_dir);
    push_path(archive.as_str(), title)
}

/// Where the task list lives under the data directory.
pub fn get_todo_location(data_dir: &str) -> (r: String)
    ensures
        r@ == pushed_path(data_dir@, "todo.txt"@),
{
    push_path(data_dir, "todo.txt")
}

/// Where a note is stored in the wiki: its title with the `txt` extension.
pub fn get_file_path(wiki_location: &str, requested_file: &str) -> (r: String)
    ensures
        r@ == with_extension(pushed_path(wiki_location@, requested_file@), "txt"@),
{
    let p = push_path(wiki_location, requested_file);
    proof {
        reveal_strlit("txt");
        assert("txt"@ =~= seq!['t', 'x', 't']);
    }
    set_extension(p.as_str(), "txt")
}

/// A configured location with `~` read as the home directory and a trailing
/// separator.
pub open spec fn spec_parse_location(location: Seq<char>, home: Seq<char>) -> Seq<char> {
    let loc = if location.contains('~') {
        replace(location, "~"@, home)
    } else {
        location
    };
    if ends_with(loc, "/"@) {
        loc
    } else {
        loc.push('/')
    }
}

/// Reads a configured location, given the home directory.
pub fn parse_location(location: &str, home: &str) -> (r: String)
    ensures
        r@ == spec_parse_location(location@, home@),
{
    let v = chars_of(location);
    let mut has_tilde = false;
    let mut i: usize = 0;
    while i < v.len()
        invariant
            i <= v.len(),
            v@ == location@,
            has_tilde == (exists|j: int| 0 <= j < i && v@[j] == '~'),
        decreases v.len() - i,
    {
        if v[i] == '~' {
            has_tilde = true;
        }
        i += 1;
    }
    proof {
        reveal_strlit("~");
        reveal_strlit("/");
    }
    let mut loc = if has_tilde {
        replace_str(location, "~", home)
    } else {
        location.to_string()
    };
    let lv = chars_of(loc.as_str());
    let slash = chars_of("/");
    if !crate::text::slice_ends_with(lv.as_slice(), slash.as_slice()) {
        push_char(&mut loc, '/');
    }
    loc
}

/// The wiki's directory as configured, given the home directory.
pub fn normalize_wiki_location(wiki_location: &str, home: &str) -> (r: String)
    ensures
        r@ == spec_parse_location(wiki_location@, home@),
{
    parse_location(wiki_location, home)
}

} // verus!
