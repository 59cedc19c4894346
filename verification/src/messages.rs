//! The jobs that the task runners hand to the job queue, and the edit form.
use vstd::prelude::*;

use crate::html::strs;
use crate::metadata::{lookup, Entries, Metadata};
use crate::patch::PatchData;
use crate::text::{chars_of, split_char, split_chars, string_of};

verus! {

/// A job for the queue.
#[derive(Debug)]
pub enum Message {
    Patch { patch: PatchData },
    Rebuild,
    Delete { title: String },
    Archive { url: String, title: String },
    ArchiveMove { old_title: String, new_title: String },
    NewFromUrl { url: String, tags: Vec<String> },
    ArchiveBody { title: String, body: String },
    VerifyDataInstallation { dataset: Vec<String>, install_location: String },
}

/// The fields of the edit form.
#[derive(Debug)]
pub struct EditPageData {
    pub body: String,
    pub tags: Vec<String>,
    pub title: String,
    pub old_title: String,
}

/// A form field, or the empty text where it is missing.
pub open spec fn field_or_empty(form: Entries, k: Seq<char>) -> Seq<char> {
    match lookup(form, k) {
        Some(v) => v,
        None => Seq::<char>::empty(),
    }
}

/// The tags of the form: its `tags` field cut at each comma, or none.
pub open spec fn form_tags(form: Entries) -> Seq<Seq<char>> {
    match lookup(form, "tags"@) {
        Some(v) => split_char(v, ','),
        None => Seq::<Seq<char>>::empty(),
    }
}

/// Copies a form field.
fn form_field(form: &Metadata, k: &str) -> (r: String)
    ensures
        r@ == field_or_empty(form@, k@),
{
    match form.get(k) {
        Some(v) => v.clone(),
        None => String::new(),
    }
}

/// Strings made of character vectors.
pub fn strings_of(parts: &Vec<Vec<char>>) -> (r: Vec<String>)
    ensures
        strs(r@) == parts@.map_values(|p: Vec<char>| p@),
{
    let ghost ps = parts@.map_values(|p: Vec<char>| p@);
    let mut out: Vec<String> = Vec::new();
    let mut i: usize = 0;
    while i < parts.len()
        invariant
            i <= parts.len(),
            ps == parts@.map_values(|p: Vec<char>| p@),
            strs(out@) == ps.take(i as int),
        decreases parts.len() - i,
    {
        let ghost before = strs(out@);
        out.push(string_of(parts[i].as_slice()));
        assert(ps[i as int] == parts@[i as int]@);
        assert(strs(out@) =~= before.push(ps[i as int]));
        assert(ps.take(i as int + 1) =~= ps.take(i as int).push(ps[i as int]));
        i += 1;
    }
    assert(ps.take(parts.len() as int) =~= ps);
    out
}

/// Cuts a text at each occurrence of `c`.
pub fn split_string(s: &str, c: char) -> (r: Vec<String>)
    ensures
        strs(r@) == split_char(s@, c),
{
    let v = chars_of(s);
    let parts = split_chars(v.as_slice(), c);
    strings_of(&parts)
}

impl EditPageData {
    /// Reads the edit form: title, old title, tags (cut at commas) and body,
    /// each empty where the form lacks it.
    pub fn from_form(form_body: &Metadata) -> (r: EditPageData)
        ensures
            r.title@ == field_or_empty(form_body@, "title"@),
            r.old_title@ == field_or_empty(form_body@, "old_title"@),
            strs(r.tags@) == form_tags(form_body@),
            r.body@ == field_or_empty(form_body@, "body"@),
    {
        let title = form_field(form_body, "title");
        let old_title = form_field(form_body, "old_title");
        let body = form_field(form_body, "body");
        let tags = match form_body.get("tags") {
            Some(v) => split_string(v.as_str(), ','),
            None => {
                let t: Vec<String> = Vec::new();
                assert(strs(t@) =~= Seq::<Seq<char>>::empty());
                t
            },
        };
        EditPageData { body, tags, title, old_title }
    }
}

} // verus!
