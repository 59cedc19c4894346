//! A note made ready for its page: title, tags, rendered body and the metadata
//! that the page shows.
use vstd::prelude::*;

use crate::html::{spec_to_html, strs, to_html, to_html_defined};
use crate::meta::NoteMeta;
use crate::metadata::{lookup, remove_entry, Entries, Metadata};
use crate::tags::{parse_tags, TagsArray};

verus! {

/// A note ready for its page.
#[derive(Debug)]
pub struct TemplattedPage {
    pub title: String,
    pub body: String,
    pub tags: Vec<String>,
    pub raw_md: String,
    pub metadata: Metadata,
}

/// A page and the links its body holds.
pub struct ParsedTemplate {
    pub outlinks: Vec<String>,
    pub page: TemplattedPage,
}

/// A note's title: its `title` entry, or `Untitled`.
pub open spec fn page_title(e: Entries) -> Seq<char> {
    match lookup(e, "title"@) {
        Some(t) => t,
        None => "Untitled"@,
    }
}

/// A note's tags: those written in its `tags` entry, if it has one.
pub open spec fn page_tags(e: Entries) -> Seq<Seq<char>> {
    match lookup(e, "tags"@) {
        Some(raw) => parse_tags(raw),
        None => Seq::<Seq<char>>::empty(),
    }
}

/// The metadata a page lists: all but the title and the tags, which it shows
/// elsewhere.
pub open spec fn page_metadata(e: Entries) -> Entries {
    remove_entry(remove_entry(e, "title"@), "tags"@)
}

/// Readies a note for its page.
pub fn to_template(note: &NoteMeta) -> (r: ParsedTemplate)
    requires
        to_html_defined(note.content@),
    ensures
        r.page.title@ == page_title(note.metadata@),
        strs(r.page.tags@) == page_tags(note.metadata@),
        r.page.body@ == spec_to_html(note.content@).0,
        strs(r.outlinks@) == spec_to_html(note.content@).1,
        r.page.metadata@ == page_metadata(note.metadata@),
        r.page.raw_md@ == note.content@,
{
    let html = to_html(note.content.as_str());
    let title = match note.metadata.get("title") {
        Some(t) => t.clone(),
        None => String::from_str("Untitled"),
    };
    let tags = match note.metadata.get("tags") {
        None => {
            let v: Vec<String> = Vec::new();
            assert(strs(v@) =~= Seq::<Seq<char>>::empty());
            v
        },
        Some(raw_tags) => TagsArray::new(raw_tags.as_str()).values,
    };
    let mut rendered_metadata = note.metadata.duplicate();
    rendered_metadata.remove("title");
    rendered_metadata.remove("tags");
    let page = TemplattedPage {
        title,
        tags,
        body: html.body,
        metadata: rendered_metadata,
        raw_md: note.content.clone(),
    };
    ParsedTemplate { outlinks: html.outlinks, page }
}

/// Adds a page to the parsed pages.
pub fn update_templatted_pages(page: TemplattedPage, pages: &mut Vec<TemplattedPage>)
    ensures
        final(pages)@ == old(pages)@.push(page),
{
    pages.push(page);
}

} // verus!
