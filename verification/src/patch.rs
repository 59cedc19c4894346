//! The data of an edit to a note, as the task runners pass it around.
use vstd::prelude::*;

use crate::metadata::Metadata;

verus! {

/// An edit to a note: its new body, tags and title, the title it had before (empty
/// for a new note), and its other metadata.
#[derive(Debug)]
pub struct PatchData {
    pub body: String,
    pub tags: Vec<String>,
    pub title: String,
    pub old_title: String,
    pub metadata: Metadata,
}

impl PatchData {
    /// Whether the edit renames an existing note.
    pub open spec fn renames(&self) -> bool {
        self.old_title@ != self.title@ && self.old_title@.len() > 0
    }

    /// Whether the edit renames an existing note.
    pub fn is_rename(&self) -> (r: bool)
        ensures
            r == self.renames(),
    {
        let a = crate::text::chars_of(self.old_title.as_str());
        let b = crate::text::chars_of(self.title.as_str());
        !crate::urls::chars_eq(a.as_slice(), b.as_slice()) && a.len() > 0
    }
}

} // verus!
