//! The content type of an object: the one the caller names, or a guess from
//! the key's extension.

use vstd::prelude::*;
use vstd::string::*;

verus! {

/// The media type that the `mime_guess` crate gives for the extension of
/// `key`; `application/octet-stream` where it knows none.
pub uninterp spec fn guessed_content_type(key: Seq<char>) -> Seq<char>;

/// The content type of an object stored under `key`: `supplied` where the
/// caller names one, the guess otherwise.
pub open spec fn resolved_content_type(key: Seq<char>, supplied: Option<Seq<char>>) -> Seq<char> {
    match supplied {
        Some(t) => t,
        None => guessed_content_type(key),
    }
}

/// `mime_guess::from_path(key).first_or_octet_stream()`, as text: the first
/// media type in the crate's table for the extension of `key`, in lower
/// case, or `application/octet-stream`. It reads no file and depends on
/// `key` alone.
#[verifier::external_body]
fn guess_content_type(key: &str) -> (mime: String)
    ensures
        mime@ == guessed_content_type(key@),
{
    mime_guess::from_path(key).first_or_octet_stream().to_string()
}

/// The content type of an object stored under `key`: the one the caller
/// named, or else the guess from the key's extension.
pub fn resolve_content_type(key: &str, supplied: Option<&str>) -> (content_type: String)
    ensures
        content_type@ == resolved_content_type(
            key@,
            match supplied {
                Some(t) => Some(t@),
                None => None,
            },
        ),
{
    match supplied {
        Some(t) => t.to_owned(),
        None => guess_content_type(key),
    }
}

} // verus!
