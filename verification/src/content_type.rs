//! Content types of served files, inferred from the file's extension.

use vstd::prelude::*;

verus! {

/// The media type that `mime_guess` associates with the extension of `path`,
/// or `None` where the path has no extension or the extension is not in its
/// table.
pub uninterp spec fn guessed_mime_type(path: Seq<char>) -> Option<Seq<char>>;

/// The media type of plain text, the fallback for unknown extensions.
pub open spec fn text_plain() -> Seq<char> {
    "text/plain"@
}

/// The media type under which a file at `path` is served, given what the
/// extension table says about the path.
pub open spec fn mime_or_default(guess: Option<Seq<char>>) -> Seq<char> {
    match guess {
        Some(mime) => mime,
        None => text_plain(),
    }
}

/// Calls `mime_guess::guess_mime_type_opt`. The lookup reads nothing but the
/// path's text and the table compiled into `mime_guess`, so its result is the
/// value of `guessed_mime_type` at that path.
#[verifier::external_body]
pub(crate) fn guess_mime_type(path: &str) -> (guess: Option<String>)
    ensures
        guess.deep_view() == guessed_mime_type(path@),
{
    #[allow(deprecated)]
    match mime_guess::guess_mime_type_opt(path) {
        Some(mime) => Some(mime.as_ref().to_string()),
        None => None,
    }
}

/// Gives `mime::TEXT_PLAIN` as text, which is `text/plain`.
#[verifier::external_body]
pub(crate) fn default_mime_type() -> (mime: String)
    ensures
        mime@ == text_plain(),
{
    mime::TEXT_PLAIN.as_ref().to_string()
}

/// Chooses the content type from the outcome of the extension lookup: the
/// guessed type where there is one, plain text otherwise.
pub fn content_type_from_guess(guess: Option<String>) -> (mime: String)
    ensures
        mime@ == mime_or_default(guess.deep_view()),
{
    match guess {
        Some(mime) => mime,
        None => default_mime_type(),
    }
}

/// Infers the content type of the file at `path` from its extension. Never
/// fails: an unknown or missing extension yields plain text.
pub fn mime_for_path(path: &str) -> (mime: String)
    ensures
        mime@ == mime_or_default(guessed_mime_type(path@)),
{
    content_type_from_guess(guess_mime_type(path))
}

} // verus!
