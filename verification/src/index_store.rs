//! What the search engine keeps beside its notes: the term list stored for
//! each indexed file (in bincode) and the text of archived pages once they are
//! decompressed.
use vstd::prelude::*;
use vstd::utf8::{decode_utf8, valid_utf8};

use crate::html::strs;
use crate::text::{chars_of, ends_with, slice_ends_with};

verus! {

/// bincode's error.
#[verifier::external_type_specification]
#[verifier::external_body]
pub struct ExBincodeErrorKind(bincode::ErrorKind);

/// Why the search index could not be read or written.
#[derive(Debug)]
pub enum SearchIndexErr {
    /// The stored file is missing.
    NotExistErr,
    /// bincode could not read or write the stored value.
    DeserErr(Box<bincode::ErrorKind>),
    /// The stored file could not be written.
    WriteErr(String),
}

/// The bytes that bincode writes for a list of terms (`None`: it fails).
pub uninterp spec fn bincode_terms(terms: Seq<Seq<char>>) -> Option<Seq<u8>>;

/// The list of terms that bincode reads from bytes (`None`: it fails).
pub uninterp spec fn bincode_read_terms(bytes: Seq<u8>) -> Option<Seq<Seq<char>>>;

/// bincode's `serialize` on a list of strings. The contract only names its
/// result: the bytes, or the failure, are `bincode_terms` of the strings.
#[verifier::external_body]
fn serialize_terms(terms: &Vec<String>) -> (r: Result<Vec<u8>, Box<bincode::ErrorKind>>)
    ensures
        match r {
            Ok(b) => bincode_terms(strs(terms@)) == Some(b@),
            Err(_) => bincode_terms(strs(terms@)) is None,
        },
{
    bincode::serialize(terms)
}

/// bincode's `deserialize` into a list of strings. The contract names its
/// result (the strings, or the failure, are `bincode_read_terms` of the bytes)
/// and states what the crate's documentation promises: bytes that `serialize`
/// wrote for a list read back as that list.
#[verifier::external_body]
fn deserialize_terms(bytes: &[u8]) -> (r: Result<Vec<String>, Box<bincode::ErrorKind>>)
    ensures
        match r {
            Ok(t) => bincode_read_terms(bytes@) == Some(strs(t@)),
            Err(_) => bincode_read_terms(bytes@) is None,
        },
        r is Err ==> forall|t: Seq<Seq<char>>| #[trigger] bincode_terms(t) != Some(bytes@),
        r matches Ok(v) ==> forall|t: Seq<Seq<char>>|
            #[trigger] bincode_terms(t) == Some(bytes@) ==> strs(v@) == t,
{
    bincode::deserialize(bytes)
}

/// The stored form of a file's term list; a bincode failure is a
/// `DeserErr`.
pub fn encode_term_index(terms: &Vec<String>) -> (r: Result<Vec<u8>, SearchIndexErr>)
    ensures
        match r {
            Ok(b) => bincode_terms(strs(terms@)) == Some(b@),
            Err(e) => bincode_terms(strs(terms@)) is None && e is DeserErr,
        },
{
    match serialize_terms(terms) {
        Ok(b) => Ok(b),
        Err(e) => Err(SearchIndexErr::DeserErr(e)),
    }
}

/// A file's term list read from its stored form; a bincode failure is a
/// `DeserErr`. A stored form that `encode_term_index` made reads back as the
/// list it was made from.
pub fn decode_term_index(bytes: &[u8]) -> (r: Result<Vec<String>, SearchIndexErr>)
    ensures
        match r {
            Ok(t) => bincode_read_terms(bytes@) == Some(strs(t@)),
            Err(e) => bincode_read_terms(bytes@) is None && e is DeserErr,
        },
        forall|t: Seq<Seq<char>>|
            #[trigger] bincode_terms(t) == Some(bytes@) ==> (r matches Ok(v) && strs(v@) == t),
{
    match deserialize_terms(bytes) {
        Ok(t) => Ok(t),
        Err(e) => Err(SearchIndexErr::DeserErr(e)),
    }
}

/// std's `String::from_utf8`: the text that the bytes encode, when they are
/// valid UTF-8, and nothing otherwise.
#[verifier::external_body]
fn utf8_text(bytes: Vec<u8>) -> (r: Option<String>)
    ensures
        match r {
            Some(s) => valid_utf8(bytes@) && s@ == decode_utf8(bytes@),
            None => !valid_utf8(bytes@),
        },
{
    String::from_utf8(bytes).ok()
}

/// What an archived page gives the search index.
pub enum ArchiveText {
    /// The page's text.
    Text(String),
    /// The stored bytes are no BZip2 stream.
    Undecodable,
    /// The decompressed bytes are not UTF-8 text.
    NotText,
}

/// What an archived page gives, from the result of decompressing it with
/// BZip2 (`None`: the decoder refused the stored bytes). The decoding itself
/// stands with the file reads: compression's decoder fails an internal debug
/// assertion on well-formed streams, so no function here calls it.
pub fn decoded_archive_text(decoded: Option<Vec<u8>>) -> (r: ArchiveText)
    ensures
        match decoded {
            None => r is Undecodable,
            Some(d) => if valid_utf8(d@) {
                r matches ArchiveText::Text(t) && t@ == decode_utf8(d@)
            } else {
                r is NotText
            },
        },
{
    match decoded {
        None => ArchiveText::Undecodable,
        Some(d) => match utf8_text(d) {
            Some(t) => ArchiveText::Text(t),
            None => ArchiveText::NotText,
        },
    }
}

/// Whether an archived file is indexed: PDFs are not.
pub fn is_indexed_archive(file_name: &str) -> (r: bool)
    ensures
        r == !ends_with(file_name@, "pdf"@),
{
    let name = chars_of(file_name);
    let pdf = chars_of("pdf");
    !slice_ends_with(name.as_slice(), pdf.as_slice())
}

} // verus!
