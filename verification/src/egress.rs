//! The egress service: how a request for a stored file is decided, before
//! and after the storage was asked for it.

use crate::path::{is_safe_segment, path_is_valid};
use crate::reply::{
    Reply, ReplyView, FILE_NOT_EXISTS, INNER_ERROR, STATUS_NOT_FOUND, STATUS_OK,
};
use crate::storage::{path_of, storage_path};
use vstd::prelude::*;
use vstd::string::StringExecFns;

verus! {

/// What is to be done for a request, before the storage was touched.
#[derive(Debug, PartialEq, Eq)]
pub enum DownloadStep {
    /// The request is answered at once; the storage is not asked.
    Refuse(Reply),
    /// The file at `path` is to be looked up and read.
    Fetch { path: String },
}

/// A download step with its strings as sequences.
pub ghost enum DownloadStepView {
    Refuse(ReplyView),
    Fetch { path: Seq<char> },
}

impl View for DownloadStep {
    type V = DownloadStepView;

    open spec fn view(&self) -> DownloadStepView {
        match self {
            DownloadStep::Refuse(reply) => DownloadStepView::Refuse(reply@),
            DownloadStep::Fetch { path } => DownloadStepView::Fetch { path: path@ },
        }
    }
}

/// What the storage said of the file that was asked for.
#[derive(Debug, PartialEq, Eq)]
pub enum FetchOutcome {
    /// There is no such file.
    Missing,
    /// The file is there, but it could not be read.
    Unreadable,
    /// The whole content of the file.
    Content(Vec<u8>),
}

/// A fetch outcome with its bytes as a sequence.
pub ghost enum FetchOutcomeView {
    Missing,
    Unreadable,
    Content(Seq<u8>),
}

impl View for FetchOutcome {
    type V = FetchOutcomeView;

    open spec fn view(&self) -> FetchOutcomeView {
        match self {
            FetchOutcome::Missing => FetchOutcomeView::Missing,
            FetchOutcome::Unreadable => FetchOutcomeView::Unreadable,
            FetchOutcome::Content(bytes) => FetchOutcomeView::Content(bytes@),
        }
    }
}

/// The answer to a request that cannot be served for a reason other than a
/// missing file.
pub open spec fn inner_error_reply() -> ReplyView {
    ReplyView::Message { status: STATUS_NOT_FOUND, text: INNER_ERROR@ }
}

/// The first step for a request of `file_name`: a name that is no safe
/// path segment is refused before the storage is asked, every other name is
/// looked up directly in the storage root.
pub open spec fn download_step_of(file_name: Seq<char>) -> DownloadStepView {
    if is_safe_segment(file_name) {
        DownloadStepView::Fetch { path: path_of(file_name) }
    } else {
        DownloadStepView::Refuse(inner_error_reply())
    }
}

/// The answer to a request once the storage was asked.
pub open spec fn download_reply_of(outcome: FetchOutcomeView) -> ReplyView {
    match outcome {
        FetchOutcomeView::Missing => ReplyView::Message {
            status: STATUS_NOT_FOUND,
            text: FILE_NOT_EXISTS@,
        },
        FetchOutcomeView::Unreadable => inner_error_reply(),
        FetchOutcomeView::Content(bytes) => ReplyView::File { bytes },
    }
}

/// Decides the first step for a request of `file_name`. The name is
/// validated here whoever took it from the request.
pub fn common_download(file_name: &str) -> (step: DownloadStep)
    ensures
        step@ == download_step_of(file_name@),
{
    if path_is_valid(file_name) {
        DownloadStep::Fetch { path: storage_path(file_name) }
    } else {
        DownloadStep::Refuse(
            Reply::Message { status: STATUS_NOT_FOUND, text: String::from_str(INNER_ERROR) },
        )
    }
}

/// The answer to a request once the storage was asked: the whole content
/// with the status of success, or one of the two not-found messages.
pub fn download_reply(outcome: FetchOutcome) -> (reply: Reply)
    ensures
        reply@ == download_reply_of(outcome@),
{
    match outcome {
        FetchOutcome::Missing => Reply::Message {
            status: STATUS_NOT_FOUND,
            text: String::from_str(FILE_NOT_EXISTS),
        },
        FetchOutcome::Unreadable => Reply::Message {
            status: STATUS_NOT_FOUND,
            text: String::from_str(INNER_ERROR),
        },
        FetchOutcome::Content(bytes) => Reply::File { bytes },
    }
}

/// The first step for a download whose file name is the last segment of
/// the request's path.
pub fn down(file_name: &str) -> (step: DownloadStep)
    ensures
        step@ == download_step_of(file_name@),
{
    common_download(file_name)
}

/// The first step for a download whose file name is the whole path of the
/// request. Such a path holds a separator wherever it names anything below
/// the root, and is then refused like every other unsafe name.
pub fn down2(request_path: &str) -> (step: DownloadStep)
    ensures
        step@ == download_step_of(request_path@),
{
    common_download(request_path)
}

/// A request never ends in anything but the file's own bytes or a
/// not-found answer: a file that is not in the storage, under whatever
/// name it is asked for, gives the status of not found.
pub proof fn lemma_absent_file_is_not_found(file_name: Seq<char>, outcome: FetchOutcomeView)
    requires
        !(outcome is Content),
    ensures
        download_step_of(file_name) matches DownloadStepView::Refuse(reply) ==> reply.status()
            == STATUS_NOT_FOUND,
        download_reply_of(outcome).status() == STATUS_NOT_FOUND,
        download_reply_of(FetchOutcomeView::Missing) == (ReplyView::Message {
            status: STATUS_NOT_FOUND,
            text: FILE_NOT_EXISTS@,
        }),
{
}

/// A file that was read is handed out byte for byte, with the status of
/// success.
pub proof fn lemma_content_is_handed_out(bytes: Seq<u8>)
    ensures
        download_reply_of(FetchOutcomeView::Content(bytes)) == (ReplyView::File { bytes }),
        download_reply_of(FetchOutcomeView::Content(bytes)).status() == STATUS_OK,
{
}

} // verus!
