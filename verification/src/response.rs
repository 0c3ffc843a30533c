//! Responses: what a request for a file is answered with, once the outcome
//! of reading the file is known.

use vstd::prelude::*;
use vstd::string::*;
use vstd::utf8::{encode_utf8, is_ascii_chars, is_ascii_chars_encode_utf8};

use crate::content_type::{
    content_type_from_guess, default_mime_type, guess_mime_type, guessed_mime_type,
    mime_or_default, text_plain,
};

verus! {

/// Status of a response that carries the file.
pub const OK: u16 = 200;

/// Status with which a malformed path capture is answered.
pub const BAD_REQUEST: u16 = 400;

/// Status for a file that may not be read.
pub const FORBIDDEN: u16 = 403;

/// Status for a file that does not exist.
pub const NOT_FOUND: u16 = 404;

/// Status for any other failure to read.
pub const INTERNAL_SERVER_ERROR: u16 = 500;

/// Why a file could not be read.
#[derive(Clone, Copy, Debug, PartialEq, Eq)]
pub enum ReadError {
    /// Nothing exists at the path.
    NotFound,
    /// The path exists, but permission to read it is missing.
    PermissionDenied,
    /// Any other failure of the filesystem.
    Other,
}

/// The payload of a response and the media type it is labelled with.
#[derive(Clone, Debug)]
pub struct Body {
    pub content: Vec<u8>,
    pub content_type: String,
}

/// A status code and, optionally, a body.
#[derive(Clone, Debug)]
pub struct Response {
    pub status: u16,
    pub body: Option<Body>,
}

/// A response as a mathematical value.
pub struct ResponseView {
    pub status: u16,
    pub body: Option<(Seq<u8>, Seq<char>)>,
}

impl View for Response {
    type V = ResponseView;

    open spec fn view(&self) -> ResponseView {
        ResponseView {
            status: self.status,
            body: match self.body {
                Some(body) => Some((body.content@, body.content_type@)),
                None => None,
            },
        }
    }
}

/// The status that reports a failed read.
pub open spec fn status_of(error: ReadError) -> u16 {
    match error {
        ReadError::NotFound => NOT_FOUND,
        ReadError::PermissionDenied => FORBIDDEN,
        ReadError::Other => INTERNAL_SERVER_ERROR,
    }
}

/// The statuses that report a failed read.
pub open spec fn is_error_status(status: u16) -> bool {
    status == FORBIDDEN || status == NOT_FOUND || status == INTERNAL_SERVER_ERROR
}

/// The text that describes an error status: the code, a space and the
/// status's canonical reason phrase.
pub open spec fn reason_line(status: u16) -> Seq<char> {
    if status == FORBIDDEN {
        "403 Forbidden"@
    } else if status == NOT_FOUND {
        "404 Not Found"@
    } else {
        "500 Internal Server Error"@
    }
}

/// The response that serves `content` as the file at `path`.
pub open spec fn success_response(path: Seq<char>, content: Seq<u8>) -> ResponseView {
    ResponseView {
        status: OK,
        body: Some((content, mime_or_default(guessed_mime_type(path)))),
    }
}

/// The response that reports a failed read: the matching status and a
/// plain-text body that names the status and nothing else.
pub open spec fn failure_response(error: ReadError) -> ResponseView {
    ResponseView {
        status: status_of(error),
        body: Some((encode_utf8(reason_line(status_of(error))), text_plain())),
    }
}

/// The body of an error response is ASCII text: it has one byte for each
/// character of the line that names the status, and nothing else.
pub proof fn lemma_error_body_is_ascii(error: ReadError)
    ensures
        is_ascii_chars(reason_line(status_of(error))),
        encode_utf8(reason_line(status_of(error))).len() == reason_line(status_of(error)).len(),
        forall|i: int|
            0 <= i < reason_line(status_of(error)).len() ==> #[trigger] encode_utf8(
                reason_line(status_of(error)),
            )[i] == reason_line(status_of(error))[i] as u8,
{
    reveal_strlit("403 Forbidden");
    reveal_strlit("404 Not Found");
    reveal_strlit("500 Internal Server Error");
    let line = reason_line(status_of(error));
    assert(is_ascii_chars(line));
    is_ascii_chars_encode_utf8(line);
}

/// Formats a status with `hyper::StatusCode`'s `Display`, which writes the
/// code, a space and the canonical reason phrase. `try_from` accepts every
/// code from 100 to 599.
#[verifier::external_body]
fn status_line(status: u16) -> (line: String)
    requires
        is_error_status(status),
    ensures
        line@ == reason_line(status),
{
    match hyper::StatusCode::try_from(status) {
        Ok(code) => code.to_string(),
        Err(_) => String::new(),
    }
}

/// Picks the status that reports a failed read.
pub fn error_status(error: ReadError) -> (status: u16)
    ensures
        status == status_of(error),
        is_error_status(status),
{
    match error {
        ReadError::NotFound => NOT_FOUND,
        ReadError::PermissionDenied => FORBIDDEN,
        ReadError::Other => INTERNAL_SERVER_ERROR,
    }
}

/// Answers a failed read: 404 where the file does not exist, 403 where it
/// may not be read, 500 otherwise, each with a plain-text body naming the
/// status.
pub fn error_response(error: ReadError) -> (response: Response)
    ensures
        response@ == failure_response(error),
{
    let status: u16 = error_status(error);
    let line: String = status_line(status);
    Response {
        status,
        body: Some(Body { content: line.as_str().as_bytes_vec(), content_type: default_mime_type() }),
    }
}

/// Answers a successful read of `path`, given what the extension table said
/// about the path: status 200, the content unchanged, and the guessed
/// content type or plain text.
pub fn file_response_with_guess(content: Vec<u8>, guess: Option<String>) -> (response: Response)
    ensures
        response@ == (ResponseView {
            status: OK,
            body: Some((content@, mime_or_default(guess.deep_view()))),
        }),
{
    Response { status: OK, body: Some(Body { content, content_type: content_type_from_guess(guess) }) }
}

/// Builds the response to a request for the file at `path` from the outcome
/// of reading it.
///
/// A file that was read is served whole with status 200 and the content
/// type inferred from the path's extension. A failed read is reported by
/// `error_response`.
pub fn create_file_response(path: &str, read: Result<Vec<u8>, ReadError>) -> (response: Response)
    ensures
        response@ == match read {
            Ok(content) => success_response(path@, content@),
            Err(error) => failure_response(error),
        },
{
    match read {
        Ok(content) => file_response_with_guess(content, guess_mime_type(path)),
        Err(error) => error_response(error),
    }
}

} // verus!
