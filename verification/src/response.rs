//! What the server answers to a request.

use vstd::prelude::*;
use crate::store::{FileCacheReader, ReaderView};

verus! {

/// The answer to one request.
pub enum Response {
    /// The file is sent. `body` reads the stored bytes from their start.
    Hit { body: FileCacheReader, is_compressed: bool, is_immutable: bool, tag: String, mime: String },
    /// The client's copy is current: nothing is sent.
    NotModified,
    NotFound,
    /// The client is sent on to `location`.
    Redirect { location: String },
    Forbidden,
}

/// What a `Response` stands for.
pub enum ResponseView {
    Hit { body: Seq<u8>, is_compressed: bool, is_immutable: bool, tag: Seq<char>, mime: Seq<char> },
    NotModified,
    NotFound,
    Redirect { location: Seq<char> },
    Forbidden,
}

impl View for Response {
    type V = ResponseView;

    open spec fn view(&self) -> ResponseView {
        match *self {
            Response::Hit { body, is_compressed, is_immutable, tag, mime } => ResponseView::Hit {
                body: body@.rest(),
                is_compressed,
                is_immutable,
                tag: tag@,
                mime: mime@,
            },
            Response::NotModified => ResponseView::NotModified,
            Response::NotFound => ResponseView::NotFound,
            Response::Redirect { location } => ResponseView::Redirect { location: location@ },
            Response::Forbidden => ResponseView::Forbidden,
        }
    }
}

/// The status code of a response.
pub open spec fn spec_status(r: ResponseView) -> u16 {
    match r {
        ResponseView::Hit { .. } => 200,
        ResponseView::NotModified => 304,
        ResponseView::NotFound => 404,
        ResponseView::Redirect { .. } => 302,
        ResponseView::Forbidden => 403,
    }
}

/// The cache directive that goes with a file: a year and no revalidation
/// for a file that never changes, revalidation on every use for any other.
pub open spec fn spec_cache_control(is_immutable: bool) -> Seq<char> {
    if is_immutable {
        "max-age=31536000, immutable"@
    } else {
        "no-cache"@
    }
}

/// The cache directive that goes with a file.
pub fn cache_control(is_immutable: bool) -> (directive: &'static str)
    ensures
        directive@ == spec_cache_control(is_immutable),
{
    if is_immutable {
        "max-age=31536000, immutable"
    } else {
        "no-cache"
    }
}

impl Response {
    /// The status code of the response.
    pub fn status(&self) -> (code: u16)
        ensures
            code == spec_status(self@),
    {
        match self {
            Response::Hit { .. } => 200,
            Response::NotModified => 304,
            Response::NotFound => 404,
            Response::Redirect { .. } => 302,
            Response::Forbidden => 403,
        }
    }
}

} // verus!
