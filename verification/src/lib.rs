//! A personal wiki's logic: note headers and metadata, the wiki-link markup
//! language, the backlink store, search tokenisation, page rendering helpers
//! and the small decisions of the task runners.
use vstd::prelude::*;

pub mod text;
pub mod urls;
pub mod machine;
pub mod html;
pub mod search;
pub mod runners;
pub mod metadata;
pub mod tags;
pub mod patch;
pub mod meta;
pub mod headers;
pub mod templates;
pub mod order;
pub mod store;
pub mod references;
pub mod render;
pub mod messages;
pub mod paths;
pub mod persist;
pub mod setup;
pub mod jobs;
pub mod pages;
pub mod todo;
pub mod server_config;
pub mod embeds;
pub mod index_store;

verus! {
} // verus!
