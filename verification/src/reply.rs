//! What the service answers: a redirect, a short message with a status, or
//! the bytes of a file.

use vstd::prelude::*;

verus! {

/// The status of a file that is handed out.
pub const STATUS_OK: u16 = 200;

/// The status of a redirect that keeps the method of the request.
pub const STATUS_TEMPORARY_REDIRECT: u16 = 307;

/// The status of a request that names an unsafe path.
pub const STATUS_BAD_REQUEST: u16 = 400;

/// The status of a download that cannot be served.
pub const STATUS_NOT_FOUND: u16 = 404;

/// The status of a failure of the storage.
pub const STATUS_INTERNAL_SERVER_ERROR: u16 = 500;

/// The content type of every file that is handed out.
pub const OCTET_STREAM: &'static str = "application/octet-stream";

/// The message for a file name that is not a safe path segment.
pub const INVALID_PATH: &'static str = "Invalid path";

/// The message for a download of a file that is not in the storage.
pub const FILE_NOT_EXISTS: &'static str = "file not exists";

/// The message for a download that failed for another reason.
pub const INNER_ERROR: &'static str = "inner error";

/// Where a submission is sent once it is complete.
pub const THANK_YOU: &'static str = "/thank_you/";

/// One answer of the service.
#[derive(Debug, PartialEq, Eq)]
pub enum Reply {
    /// A temporary redirect to `location`.
    Redirect { location: String },
    /// A short text with a status.
    Message { status: u16, text: String },
    /// The whole content of a file, as a stream of octets.
    File { bytes: Vec<u8> },
}

/// An answer with its strings and bytes as sequences.
pub ghost enum ReplyView {
    Redirect { location: Seq<char> },
    Message { status: u16, text: Seq<char> },
    File { bytes: Seq<u8> },
}

impl ReplyView {
    /// The status that the answer carries.
    pub open spec fn status(self) -> u16 {
        match self {
            ReplyView::Redirect { .. } => STATUS_TEMPORARY_REDIRECT,
            ReplyView::Message { status, .. } => status,
            ReplyView::File { .. } => STATUS_OK,
        }
    }
}

impl View for Reply {
    type V = ReplyView;

    open spec fn view(&self) -> ReplyView {
        match self {
            Reply::Redirect { location } => ReplyView::Redirect { location: location@ },
            Reply::Message { status, text } => ReplyView::Message { status: *status, text: text@ },
            Reply::File { bytes } => ReplyView::File { bytes: bytes@ },
        }
    }
}

impl Reply {
    /// The status that the answer carries.
    pub fn status(&self) -> (code: u16)
        ensures
            code == self@.status(),
    {
        match self {
            Reply::Redirect { .. } => STATUS_TEMPORARY_REDIRECT,
            Reply::Message { status, .. } => *status,
            Reply::File { .. } => STATUS_OK,
        }
    }

    /// Whether the answer carries a file, and with it the content type of
    /// a stream of octets.
    pub fn is_file(&self) -> (yes: bool)
        ensures
            yes == (self@ is File),
    {
        match self {
            Reply::File { .. } => true,
            _ => false,
        }
    }
}

} // verus!
