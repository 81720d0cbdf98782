//! The failures a request can meet, and the answer a client gets for them.

use vstd::prelude::*;

verus! {

/// Status of a page that was rendered.
pub const STATUS_OK: u16 = 200;

/// Status of every failure that reaches the request boundary.
pub const STATUS_INTERNAL_SERVER_ERROR: u16 = 500;

/// The only text a client is shown when a request fails.
pub const GENERIC_FAILURE_BODY: &'static str = "Something went wrong...";

/// What can go wrong while a request is answered.
#[derive(Clone, Copy, Debug, PartialEq, Eq, Structural)]
pub enum GalleryError {
    /// The image directory cannot be listed.
    StoreUnavailable,
    /// The metadata of one file cannot be read or parsed.
    MetadataUnavailable,
    /// The index template is missing or fails to render.
    TemplateError,
    /// The file server met an I/O failure on the fallback path.
    StaticFileError,
}

/// What kind of text a body is.
#[derive(Clone, Copy, Debug, PartialEq, Eq, Structural)]
pub enum BodyKind {
    Html,
    PlainText,
}

/// A status code and a body, as handed to the HTTP layer.
#[derive(Debug)]
pub struct Response {
    pub status: u16,
    pub kind: BodyKind,
    pub body: String,
}

/// The answer to a failed request: always the same status and the same
/// fixed text, whatever the failure was, so that no detail reaches the client.
pub fn handle_error(err: GalleryError) -> (response: Response)
    ensures
        response.status == STATUS_INTERNAL_SERVER_ERROR,
        response.kind == BodyKind::PlainText,
        response.body@ == GENERIC_FAILURE_BODY@,
{
    let _ = err;
    Response {
        status: STATUS_INTERNAL_SERVER_ERROR,
        kind: BodyKind::PlainText,
        body: GENERIC_FAILURE_BODY.to_owned(),
    }
}

/// The answer to an index request, given how rendering went: the page with
/// status 200 when there is one, the generic failure otherwise.
pub fn respond(page: Result<String, GalleryError>) -> (response: Response)
    ensures
        match page {
            Ok(html) => response.status == STATUS_OK && response.kind == BodyKind::Html
                && response.body == html,
            Err(_) => response.status == STATUS_INTERNAL_SERVER_ERROR && response.kind
                == BodyKind::PlainText && response.body@ == GENERIC_FAILURE_BODY@,
        },
{
    match page {
        Ok(html) => Response { status: STATUS_OK, kind: BodyKind::Html, body: html },
        Err(err) => handle_error(err),
    }
}

} // verus!
