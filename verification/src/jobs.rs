//! The job queue's decisions: which steps each job takes, and the note made for
//! a page fetched later.
use vstd::prelude::*;

use crate::messages::Message;
use crate::metadata::Metadata;
use crate::patch::PatchData;

verus! {

/// A step of a job. The worker performs it.
#[derive(Debug)]
pub enum Step {
    /// Rebuild the tag and backlink store from the wiki.
    RebuildLinks,
    /// Record the links of the edited note in the store.
    UpdateLinks { patch: PatchData },
    /// Re-index the edited note for search.
    PatchSearch { title: String },
    /// Move the store's list of a renamed note and relink the notes that name it.
    RenameLinks { new_title: String, old_title: String },
    /// Put the note first in the recently-used list.
    UpdateMru { old_title: String, title: String },
    /// Delete the note, its store entries, its search entries and its archive.
    DeleteNote { title: String },
    /// Fetch a page, archive its text and index it.
    ArchivePage { url: String, title: String },
    /// Move a page's archive to its new title.
    MoveArchive { old_title: String, new_title: String },
    /// Fetch a page, archive it and make a note for it.
    BookmarkFromUrl { url: String, tags: Vec<String> },
}

/// The steps of an edit: the store and the search index take the note, a
/// renamed note's store entry moves, and the note goes first in the
/// recently-used list.
pub open spec fn patch_steps_ok(patch: PatchData, steps: Seq<Step>) -> bool {
    let renames = patch.renames();
    &&& steps.len() == if renames { 4int } else { 3int }
    &&& steps[0] matches Step::UpdateLinks { patch: p } && p == patch
    &&& steps[1] matches Step::PatchSearch { title: t } && t@ == patch.title@
    &&& renames ==> (steps[2] matches Step::RenameLinks { new_title: n, old_title: o } && n@
        == patch.title@ && o@ == patch.old_title@)
    &&& steps.last() matches Step::UpdateMru { old_title: o, title: t } && o@ == patch.old_title@
        && t@ == patch.title@
}

/// The steps a job takes.
pub fn plan_job(message: Message) -> (r: Vec<Step>)
    ensures
        message is Rebuild ==> r@ == seq![Step::RebuildLinks],
        message matches Message::Patch { patch } ==> patch_steps_ok(patch, r@),
        message matches Message::Delete { title } ==> r@ == seq![Step::DeleteNote { title }],
        message matches Message::Archive { url, title } ==> r@ == seq![
            Step::ArchivePage { url, title },
        ],
        message matches Message::ArchiveMove { old_title, new_title } ==> r@ == seq![
            Step::MoveArchive { old_title, new_title },
        ],
        message matches Message::NewFromUrl { url, tags } ==> r@ == seq![
            Step::BookmarkFromUrl { url, tags },
        ],
        message is ArchiveBody ==> r@.len() == 0,
        message is VerifyDataInstallation ==> r@.len() == 0,
{
    let mut steps: Vec<Step> = Vec::new();
    match message {
        Message::Rebuild => {
            steps.push(Step::RebuildLinks);
        },
        Message::Patch { patch } => {
            let renames = patch.is_rename();
            let title = patch.title.clone();
            let old_title = patch.old_title.clone();
            steps.push(Step::UpdateLinks { patch });
            steps.push(Step::PatchSearch { title: title.clone() });
            if renames {
                steps.push(Step::RenameLinks { new_title: title.clone(), old_title: old_title.clone() });
            }
            steps.push(Step::UpdateMru { old_title, title });
        },
        Message::Delete { title } => {
            steps.push(Step::DeleteNote { title });
        },
        Message::Archive { url, title } => {
            steps.push(Step::ArchivePage { url, title });
        },
        Message::ArchiveMove { old_title, new_title } => {
            steps.push(Step::MoveArchive { old_title, new_title });
        },
        Message::NewFromUrl { url, tags } => {
            steps.push(Step::BookmarkFromUrl { url, tags });
        },
        Message::ArchiveBody { .. } => {},
        Message::VerifyDataInstallation { .. } => {},
    }
    steps
}

/// Characters that the title of a page fetched later loses (the first one only):
/// `? \ / | : ; > < , .`.
pub open spec fn is_fetched_title_char(c: char) -> bool {
    c == '?' || c == '\\' || c == '/' || c == '|' || c == ':' || c == ';' || c == '>' || c == '<'
        || c == ','
        || c == '.'
}

/// `s` without its first character that titles lose.
pub open spec fn without_first_title_char(s: Seq<char>) -> Seq<char>
    decreases s.len(),
{
    if s.len() == 0 {
        s
    } else if is_fetched_title_char(s[0]) {
        s.drop_first()
    } else {
        seq![s[0]] + without_first_title_char(s.drop_first())
    }
}

/// Calls the `regex` crate to delete the first match of
/// `\?|\\|/|\||:|;|>|<|,|\.`, each match being one such character.
#[verifier::external_body]
fn remove_first_title_char(s: &str) -> (r: String)
    ensures
        r@ == without_first_title_char(s@),
{
    let re = regex::Regex::new(r"\?|\\|/|\||:|;|>|<|,|\.").unwrap();
    re.replace(s, "").into_owned()
}

/// The note made for a page fetched later: no body, the given tags, the page's
/// title less its first forbidden character, and its URL as metadata.
pub fn new_from_url_note(url: String, page_title: &str, tags: Vec<String>) -> (r: PatchData)
    ensures
        r.body@.len() == 0,
        r.tags@ == tags@,
        r.title@ == without_first_title_char(page_title@),
        r.old_title@.len() == 0,
        r.metadata@ == seq![("url"@, url@)],
{
    let mut metadata = Metadata::new();
    let ghost u = url@;
    metadata.insert(String::from_str("url"), url);
    assert(metadata@ =~= seq![("url"@, u)]);
    let title = remove_first_title_char(page_title);
    PatchData { body: String::new(), tags, title, old_title: String::new(), metadata }
}

} // verus!
