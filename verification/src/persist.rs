//! Storing notes: what a write puts on disk and where, the errors of reads and
//! writes, and the daily journal's text.
use vstd::prelude::*;

use crate::headers::{header_text, NoteHeader};
use crate::html::strs;
use crate::meta::patch_entries;
use crate::metadata::{
    insert_entry, keys_distinct, lemma_insert_distinct, lemma_lookup_insert, lookup, printable_entry,
    Entries,
};
use crate::patch::PatchData;
use crate::render::{reformat_timestamp, reformatted_timestamp};

verus! {

/// std's I/O error, carried by write errors.
#[verifier::external_type_specification]
#[verifier::external_body]
pub struct ExIoError(std::io::Error);

/// Why a note could not be written.
#[derive(Debug)]
pub enum WriteWikiError {
    TitleInvalid,
    WriteError(std::io::Error),
    Unknown,
}

/// Why a page could not be read.
#[derive(Debug)]
pub enum ReadPageError {
    DecodeError,
    DeserializationError,
    PageNotFoundError,
    Unknown,
}

/// Where a write puts a note.
#[derive(Debug, PartialEq, Eq, Structural)]
pub enum WriteTarget {
    /// A new file under the note's title.
    Create,
    /// The file under the old title, renamed to the new one.
    Rename,
    /// The file under the note's title, written over.
    Overwrite,
}

/// A write: the note's text and where it goes.
pub struct WritePlan {
    pub note: String,
    pub target: WriteTarget,
}

/// The title under which a note is stored before an edit.
pub open spec fn stored_title(data: &PatchData) -> Seq<char> {
    if data.renames() {
        data.old_title@
    } else {
        data.title@
    }
}

/// The title under which the note of an edit is stored now.
pub fn title_on_disk(data: &PatchData) -> (r: &String)
    ensures
        r@ == stored_title(data),
{
    if data.is_rename() {
        &data.old_title
    } else {
        &data.title
    }
}

/// The format of note ids and timestamps.
pub open spec fn id_format() -> Seq<char> {
    "%Y%m%d%H%M%S"@
}

/// The id of a note created at `created`: the time in the id format where it
/// parses, else the text as it is.
pub open spec fn id_of(created: Seq<char>, parsed: Option<Seq<char>>) -> Seq<char> {
    match parsed {
        Some(p) => p,
        None => created,
    }
}

/// The id of a note, given its creation time in the id format where it parses.
pub fn id_from_created(created: &str, parsed: Option<String>) -> (r: String)
    ensures
        r@ == id_of(created@, match parsed {
            Some(p) => Some(p@),
            None => None,
        }),
{
    match parsed {
        Some(p) => p,
        None => created.to_string(),
    }
}

/// The metadata a write stores. A new note gets `created` and `id` set to now;
/// an existing one gets `modified`, and, if it lacks them, `created` and `id`
/// (now), then an `id` made from its creation time.
pub open spec fn written_entries(data: &PatchData, exists: bool, now: Seq<char>) -> Entries {
    let base = patch_entries(data.metadata@, data.title@, strs(data.tags@));
    if !exists && data.old_title@.len() == 0 {
        insert_entry(insert_entry(base, "created"@, now), "id"@, now)
    } else {
        let e1 = insert_entry(base, "modified"@, now);
        let e2 = if lookup(e1, "created"@) is None {
            insert_entry(insert_entry(e1, "created"@, now), "id"@, now)
        } else {
            e1
        };
        if lookup(e2, "id"@) is None {
            let c = lookup(e2, "created"@).unwrap();
            insert_entry(e2, "id"@, id_of(c, reformatted_timestamp(c, id_format())))
        } else {
            e2
        }
    }
}

/// Where a write puts the note.
pub open spec fn write_target(data: &PatchData, exists: bool) -> WriteTarget {
    if !exists && data.old_title@.len() == 0 {
        WriteTarget::Create
    } else if data.renames() {
        WriteTarget::Rename
    } else {
        WriteTarget::Overwrite
    }
}

/// What writing an edit puts on disk, given whether the stored file exists and
/// the time now (in the id format).
pub fn plan_write(data: &PatchData, exists: bool, now: &str) -> (r: WritePlan)
    ensures
        r.note@ == header_text(written_entries(data, exists, now@), data.body@),
        r.target == write_target(data, exists),
{
    let mut note_meta = NoteHeader::from_patch_ref(data);
    if !exists && data.old_title.as_str().unicode_len() == 0 {
        note_meta.metadata.insert(String::from_str("created"), now.to_string());
        note_meta.metadata.insert(String::from_str("id"), now.to_string());
        let note = note_meta.into_string();
        return WritePlan { note, target: WriteTarget::Create };
    }
    note_meta.metadata.insert(String::from_str("modified"), now.to_string());
    let ghost e1 = note_meta.metadata@;
    if note_meta.metadata.get("created").is_none() {
        note_meta.metadata.insert(String::from_str("created"), now.to_string());
        let ghost ec = note_meta.metadata@;
        note_meta.metadata.insert(String::from_str("id"), now.to_string());
        proof {
            reveal_strlit("created");
            reveal_strlit("id");
            assert("created"@.len() == 7);
            assert("id"@.len() == 2);
            lemma_lookup_insert(ec, "id"@, now@, "created"@);
        }
    }
    let ghost e2 = note_meta.metadata@;
    assert(keys_distinct(e2));
    if note_meta.metadata.get("id").is_none() {
        let created_time = match note_meta.metadata.get("created") {
            Some(c) => c.clone(),
            None => String::new(),
        };
        let parsed = reformat_timestamp(created_time.as_str(), "%Y%m%d%H%M%S");
        let id = id_from_created(created_time.as_str(), parsed);
        note_meta.metadata.insert(String::from_str("id"), id);
    }
    let target = if data.is_rename() {
        WriteTarget::Rename
    } else {
        WriteTarget::Overwrite
    };
    let note = note_meta.into_string();
    WritePlan { note, target }
}

/// A journal file with an entry appended: a blank line, then `[time] entry`.
pub open spec fn journal_appended(existing: Seq<char>, time: Seq<char>, entry: Seq<char>) -> Seq<
    char,
> {
    existing + "\n\n["@ + time + "] "@ + entry
}

/// Appends an entry to a day's journal.
pub fn append_journal_entry(existing: &str, time: &str, entry: &str) -> (r: String)
    ensures
        r@ == journal_appended(existing@, time@, entry@),
{
    let mut s = existing.to_string();
    s.append("\n\n[");
    s.append(time);
    s.append("] ");
    s.append(entry);
    s
}

/// A new day's journal with its first entry.
pub open spec fn journal_started(day: Seq<char>, created: Seq<char>, time: Seq<char>, entry: Seq<
    char,
>) -> Seq<char> {
    "\n---\ntitle: "@ + day + "\ntags: [daily notes]\ncreated: "@ + created + "\n---\n["@ + time
        + "] "@ + entry + "\n"@
}

/// Starts a day's journal with its first entry.
pub fn new_journal(day: &str, created: &str, time: &str, entry: &str) -> (r: String)
    ensures
        r@ == journal_started(day@, created@, time@, entry@),
{
    let mut s = String::from_str("\n---\ntitle: ");
    s.append(day);
    s.append("\ntags: [daily notes]\ncreated: ");
    s.append(created);
    s.append("\n---\n[");
    s.append(time);
    s.append("] ");
    s.append(entry);
    s.append("\n");
    s
}


/// The metadata a write stores has distinct keys, and it gives the edit's title
/// and tags.
pub proof fn lemma_written_entries(data: &PatchData, exists: bool, now: Seq<char>)
    requires
        keys_distinct(data.metadata@),
    ensures
        keys_distinct(written_entries(data, exists, now)),
        lookup(written_entries(data, exists, now), "title"@) == Some(data.title@),
        lookup(written_entries(data, exists, now), "tags"@) == Some(
            crate::tags::tags_text(strs(data.tags@)),
        ),
{
    reveal_strlit("title");
    reveal_strlit("tags");
    reveal_strlit("created");
    reveal_strlit("id");
    reveal_strlit("modified");
    assert("title"@.len() == 5 && "tags"@.len() == 4 && "created"@.len() == 7 && "id"@.len() == 2
        && "modified"@.len() == 8);
    let m = data.metadata@;
    let t = crate::tags::tags_text(strs(data.tags@));
    let b1 = insert_entry(m, "title"@, data.title@);
    lemma_insert_distinct(m, "title"@, data.title@);
    lemma_lookup_insert(m, "title"@, data.title@, "tags"@);
    let base = insert_entry(b1, "tags"@, t);
    lemma_insert_distinct(b1, "tags"@, t);
    lemma_lookup_insert(b1, "tags"@, t, "title"@);
    assert(base == crate::meta::patch_entries(m, data.title@, strs(data.tags@)));
    assert forall|x: Entries, k: Seq<char>, v: Seq<char>|
        keys_distinct(x) && k != "title"@ && k != "tags"@ implies #[trigger] keys_distinct(
            insert_entry(x, k, v),
        ) && lookup(insert_entry(x, k, v), "title"@) == lookup(x, "title"@) && lookup(
            insert_entry(x, k, v),
            "tags"@,
        ) == lookup(x, "tags"@) by {
        lemma_insert_distinct(x, k, v);
        lemma_lookup_insert(x, k, v, "title"@);
        lemma_lookup_insert(x, k, v, "tags"@);
    }
    let w = written_entries(data, exists, now);
    if !exists && data.old_title@.len() == 0 {
        let a = insert_entry(base, "created"@, now);
        assert(keys_distinct(a));
        assert(w == insert_entry(a, "id"@, now));
    } else {
        let e1 = insert_entry(base, "modified"@, now);
        assert(keys_distinct(e1));
        let e2 = if lookup(e1, "created"@) is None {
            let a = insert_entry(e1, "created"@, now);
            assert(keys_distinct(a));
            insert_entry(a, "id"@, now)
        } else {
            e1
        };
        assert(keys_distinct(e2));
        if lookup(e2, "id"@) is None {
            let c = lookup(e2, "created"@).unwrap();
            assert(w == insert_entry(e2, "id"@, id_of(c, reformatted_timestamp(c, id_format()))));
        }
    }
}

/// A written note, read back, has the metadata the write stored (whatever the
/// body), so its title and tags are the edit's.
pub proof fn law_written_note_reads_back(data: &PatchData, exists: bool, now: Seq<char>)
    requires
        keys_distinct(data.metadata@),
        forall|i: int|
            0 <= i < written_entries(data, exists, now).len() ==> printable_entry(
                #[trigger] written_entries(data, exists, now)[i],
            ),
    ensures
        crate::headers::header_parse_defined(
            crate::text::lines(header_text(written_entries(data, exists, now), data.body@)),
        ),
        crate::headers::header_parse(
            crate::text::lines(header_text(written_entries(data, exists, now), data.body@)),
        ).1 == written_entries(data, exists, now),
        lookup(
            crate::headers::header_parse(
                crate::text::lines(header_text(written_entries(data, exists, now), data.body@)),
            ).1,
            "title"@,
        ) == Some(data.title@),
{
    lemma_written_entries(data, exists, now);
    crate::headers::law_metadata_reads_back(written_entries(data, exists, now), data.body@);
}

} // verus!
