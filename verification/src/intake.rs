//! The intake pipeline: the decisions of one submission, part by part.
//!
//! The caller reads the parts of the submission and does what the pipeline
//! tells it: it streams an attachment to the path it is given, writes the
//! sidecar, and sends the answer. After each piece of work it hands back
//! what happened, and is told what to do next.
//!
//! A submission may hold several attachments. Each of them is stored under
//! its own name; the sidecar is written once, when all parts were read, for
//! the attachment that came last, with the fields as they stand then. A
//! submission without an attachment is complete without a sidecar.
//!
//! An attachment is written straight to its final path, over whatever was
//! stored there before. Where streaming fails, what was written up to then
//! is left there, and no sidecar is written for it.

use crate::metadata::{
    email_key, email_key_chars, lemma_round_trip, name_key, name_key_chars, parse_record,
    phone_key, phone_key_chars, record_text, MetadataError, MetadataRecord, RecordView,
};
use crate::path::{is_safe_segment, path_is_valid};
use crate::reply::{
    Reply, ReplyView, INVALID_PATH, STATUS_BAD_REQUEST, STATUS_INTERNAL_SERVER_ERROR, THANK_YOU,
};
use crate::storage::{path_of, sidecar_name, sidecar_of, storage_path};
use crate::text::{chars_of, same_chars};
use vstd::prelude::*;
use vstd::string::StringExecFns;

verus! {

/// What a part of a submission is, by the name of its field.
#[derive(Debug, PartialEq, Eq, Structural, Clone, Copy)]
pub enum FieldKind {
    /// The text field `name`.
    Name,
    /// The text field `email`.
    Email,
    /// The text field `phone`.
    Phone,
    /// Every other field: a file part.
    Attachment,
}

/// The kind of the part whose field is called `field_name`.
pub open spec fn field_kind(field_name: Seq<char>) -> FieldKind {
    if field_name == name_key() {
        FieldKind::Name
    } else if field_name == email_key() {
        FieldKind::Email
    } else if field_name == phone_key() {
        FieldKind::Phone
    } else {
        FieldKind::Attachment
    }
}

/// Tells the kind of the part whose field is called `field_name`, so that
/// the caller knows whether to read the part as text or to hand over its
/// declared file name.
pub fn classify_field(field_name: &str) -> (kind: FieldKind)
    ensures
        kind == field_kind(field_name@),
{
    let chars = chars_of(field_name);
    if same_chars(&chars, &name_key_chars()) {
        FieldKind::Name
    } else if same_chars(&chars, &email_key_chars()) {
        FieldKind::Email
    } else if same_chars(&chars, &phone_key_chars()) {
        FieldKind::Phone
    } else {
        FieldKind::Attachment
    }
}

/// Where a submission stands.
#[derive(Debug, PartialEq, Eq, Structural, Clone, Copy)]
pub enum Phase {
    /// The next part, or the end of the parts, is awaited.
    Receiving,
    /// An attachment is being stored; the outcome is awaited.
    Storing,
    /// The sidecar is being written; the outcome is awaited.
    Sealing,
    /// The answer was given. Nothing follows.
    Done,
}

/// What happened, as the caller tells it.
#[derive(Debug, PartialEq, Eq)]
pub enum IntakeEvent {
    /// The text of a field `name` was read.
    Name(String),
    /// The text of a field `email` was read.
    Email(String),
    /// The text of a field `phone` was read.
    Phone(String),
    /// A file part begins; `file_name` is the name it declares, if any.
    Attachment { file_name: Option<String> },
    /// The attachment was streamed to its path, to the last byte.
    Stored,
    /// There are no more parts.
    End,
    /// The sidecar was written.
    Sealed,
    /// Reading or writing failed; `message` says how.
    Failed { message: String },
}

/// An event with its strings as sequences.
pub ghost enum EventView {
    Name(Seq<char>),
    Email(Seq<char>),
    Phone(Seq<char>),
    Attachment { file_name: Option<Seq<char>> },
    Stored,
    End,
    Sealed,
    Failed { message: Seq<char> },
}

impl View for IntakeEvent {
    type V = EventView;

    open spec fn view(&self) -> EventView {
        match self {
            IntakeEvent::Name(text) => EventView::Name(text@),
            IntakeEvent::Email(text) => EventView::Email(text@),
            IntakeEvent::Phone(text) => EventView::Phone(text@),
            IntakeEvent::Attachment { file_name } => EventView::Attachment {
                file_name: match file_name {
                    Some(name) => Some(name@),
                    None => None,
                },
            },
            IntakeEvent::Stored => EventView::Stored,
            IntakeEvent::End => EventView::End,
            IntakeEvent::Sealed => EventView::Sealed,
            IntakeEvent::Failed { message } => EventView::Failed { message: message@ },
        }
    }
}

/// What the caller is to do next.
#[derive(Debug, PartialEq, Eq)]
pub enum IntakeAction {
    /// Read the next part, or tell that there is none.
    Next,
    /// Create or truncate the file at `path` and stream the part into it.
    Store { path: String },
    /// Write `body` to the file at `path`.
    Seal { path: String, body: String },
    /// Send this answer; the submission is over.
    Answer(Reply),
    /// Nothing: the event does not fit where the submission stands.
    Ignore,
}

/// An action with its strings as sequences.
pub ghost enum ActionView {
    Next,
    Store { path: Seq<char> },
    Seal { path: Seq<char>, body: Seq<char> },
    Answer(ReplyView),
    Ignore,
}

impl View for IntakeAction {
    type V = ActionView;

    open spec fn view(&self) -> ActionView {
        match self {
            IntakeAction::Next => ActionView::Next,
            IntakeAction::Store { path } => ActionView::Store { path: path@ },
            IntakeAction::Seal { path, body } => ActionView::Seal { path: path@, body: body@ },
            IntakeAction::Answer(reply) => ActionView::Answer(reply@),
            IntakeAction::Ignore => ActionView::Ignore,
        }
    }
}

/// The state of one submission: the fields read so far, the name of the
/// attachment that was accepted last, and the phase.
#[derive(Debug)]
pub struct Intake {
    record: MetadataRecord,
    attachment: Option<String>,
    phase: Phase,
}

/// The state of one submission with its strings as sequences.
pub ghost struct IntakeView {
    pub record: RecordView,
    pub attachment: Option<Seq<char>>,
    pub phase: Phase,
}

impl IntakeView {
    /// What holds of every state that a submission can reach: the name of
    /// the accepted attachment is a safe path segment, and an attachment is
    /// there whenever something is being stored or sealed.
    pub open spec fn wf(self) -> bool {
        &&& self.attachment matches Some(name) ==> is_safe_segment(name)
        &&& (self.phase == Phase::Storing || self.phase == Phase::Sealing)
            ==> self.attachment is Some
    }
}

/// The state before anything was read.
pub open spec fn initial() -> IntakeView {
    IntakeView {
        record: RecordView { name: Seq::empty(), email: Seq::empty(), phone: Seq::empty() },
        attachment: None,
        phase: Phase::Receiving,
    }
}

/// The answer that ends a complete submission.
pub open spec fn completed_reply() -> ReplyView {
    ReplyView::Redirect { location: THANK_YOU@ }
}

/// The answer to a file name that is no safe path segment.
pub open spec fn invalid_path_reply() -> ReplyView {
    ReplyView::Message { status: STATUS_BAD_REQUEST, text: INVALID_PATH@ }
}

/// The answer to a failure of reading or writing.
pub open spec fn failure_reply(message: Seq<char>) -> ReplyView {
    ReplyView::Message { status: STATUS_INTERNAL_SERVER_ERROR, text: message }
}

/// The state `s` with the phase `phase`.
pub open spec fn in_phase(s: IntakeView, phase: Phase) -> IntakeView {
    IntakeView { phase, ..s }
}

/// One step while a part is awaited.
pub open spec fn receive(s: IntakeView, e: EventView) -> (IntakeView, ActionView) {
    match e {
        EventView::Name(text) => (
            IntakeView { record: RecordView { name: text, ..s.record }, ..s },
            ActionView::Next,
        ),
        EventView::Email(text) => (
            IntakeView { record: RecordView { email: text, ..s.record }, ..s },
            ActionView::Next,
        ),
        EventView::Phone(text) => (
            IntakeView { record: RecordView { phone: text, ..s.record }, ..s },
            ActionView::Next,
        ),
        EventView::Attachment { file_name } => {
            if file_name is Some && is_safe_segment(file_name->0) {
                (
                    IntakeView { attachment: file_name, phase: Phase::Storing, ..s },
                    ActionView::Store { path: path_of(file_name->0) },
                )
            } else {
                (in_phase(s, Phase::Done), ActionView::Answer(invalid_path_reply()))
            }
        },
        EventView::End => match s.attachment {
            Some(name) => (
                in_phase(s, Phase::Sealing),
                ActionView::Seal { path: path_of(sidecar_of(name)), body: record_text(s.record) },
            ),
            None => (in_phase(s, Phase::Done), ActionView::Answer(completed_reply())),
        },
        _ => (s, ActionView::Ignore),
    }
}

/// The next state and the action for the event `e` in the state `s`.
///
/// A failure ends the submission with the status of an internal error,
/// wherever it stands. While a part is awaited, a text field overwrites its
/// slot, a file part with a safe name is stored and one without is refused
/// with the whole submission, and the end of the parts has the sidecar
/// written. An event that does not fit changes nothing.
pub open spec fn step_of(s: IntakeView, e: EventView) -> (IntakeView, ActionView) {
    if s.phase == Phase::Done {
        (s, ActionView::Ignore)
    } else if e is Failed {
        (in_phase(s, Phase::Done), ActionView::Answer(failure_reply(e->message)))
    } else if s.phase == Phase::Receiving {
        receive(s, e)
    } else if s.phase == Phase::Storing && e is Stored {
        (in_phase(s, Phase::Receiving), ActionView::Next)
    } else if s.phase == Phase::Sealing && e is Sealed {
        (in_phase(s, Phase::Done), ActionView::Answer(completed_reply()))
    } else {
        (s, ActionView::Ignore)
    }
}

impl View for Intake {
    type V = IntakeView;

    closed spec fn view(&self) -> IntakeView {
        IntakeView {
            record: self.record@,
            attachment: match self.attachment {
                Some(name) => Some(name@),
                None => None,
            },
            phase: self.phase,
        }
    }
}

impl Intake {
    #[verifier::type_invariant]
    spec fn well_formed(self) -> bool {
        self@.wf()
    }

    /// The state before anything was read.
    pub fn new() -> (intake: Intake)
        ensures
            intake@ == initial(),
    {
        Intake { record: MetadataRecord::empty(), attachment: None, phase: Phase::Receiving }
    }

    /// Where the submission stands.
    pub fn phase(&self) -> (phase: Phase)
        ensures
            phase == self@.phase,
    {
        self.phase
    }

    /// The fields as they were read so far.
    pub fn record(&self) -> (record: &MetadataRecord)
        ensures
            record@ == self@.record,
    {
        &self.record
    }
}

/// The destination of a file part, decided before a byte of it is
/// written: the path of the file directly in the storage root where the
/// declared name is a safe path segment, and the answer for an invalid path
/// in every other case.
pub fn stream_to_file(file_name: &str) -> (r: Result<String, Reply>)
    ensures
        is_safe_segment(file_name@) ==> (r matches Ok(path) && path@ == path_of(file_name@)),
        !is_safe_segment(file_name@) ==> (r matches Err(reply) && reply@ == invalid_path_reply()),
{
    if path_is_valid(file_name) {
        Ok(storage_path(file_name))
    } else {
        Err(Reply::Message { status: STATUS_BAD_REQUEST, text: String::from_str(INVALID_PATH) })
    }
}

/// One step of a submission: takes the state and what happened, and gives
/// the next state and what is to be done.
pub fn contact_submit(state: Intake, event: IntakeEvent) -> (next: (Intake, IntakeAction))
    ensures
        (next.0@, next.1@) == step_of(state@, event@),
        state@.wf(),
        next.0@.wf(),
{
    proof {
        use_type_invariant(&state);
    }
    let Intake { record, attachment, phase } = state;
    if phase == Phase::Done {
        return (Intake { record, attachment, phase }, IntakeAction::Ignore);
    }
    match event {
        IntakeEvent::Failed { message } => (
            Intake { record, attachment, phase: Phase::Done },
            IntakeAction::Answer(
                Reply::Message { status: STATUS_INTERNAL_SERVER_ERROR, text: message },
            ),
        ),
        IntakeEvent::Name(text) => {
            if phase == Phase::Receiving {
                let MetadataRecord { name, email, phone } = record;
                (
                    Intake { record: MetadataRecord { name: text, email, phone }, attachment, phase },
                    IntakeAction::Next,
                )
            } else {
                (Intake { record, attachment, phase }, IntakeAction::Ignore)
            }
        },
        IntakeEvent::Email(text) => {
            if phase == Phase::Receiving {
                let MetadataRecord { name, email, phone } = record;
                (
                    Intake { record: MetadataRecord { name, email: text, phone }, attachment, phase },
                    IntakeAction::Next,
                )
            } else {
                (Intake { record, attachment, phase }, IntakeAction::Ignore)
            }
        },
        IntakeEvent::Phone(text) => {
            if phase == Phase::Receiving {
                let MetadataRecord { name, email, phone } = record;
                (
                    Intake { record: MetadataRecord { name, email, phone: text }, attachment, phase },
                    IntakeAction::Next,
                )
            } else {
                (Intake { record, attachment, phase }, IntakeAction::Ignore)
            }
        },
        IntakeEvent::Attachment { file_name } => {
            if phase != Phase::Receiving {
                return (Intake { record, attachment, phase }, IntakeAction::Ignore);
            }
            match file_name {
                Some(name) => match stream_to_file(name.as_str()) {
                    Ok(path) => (
                        Intake { record, attachment: Some(name), phase: Phase::Storing },
                        IntakeAction::Store { path },
                    ),
                    Err(reply) => (
                        Intake { record, attachment, phase: Phase::Done },
                        IntakeAction::Answer(reply),
                    ),
                },
                None => (
                    Intake { record, attachment, phase: Phase::Done },
                    IntakeAction::Answer(
                        Reply::Message {
                            status: STATUS_BAD_REQUEST,
                            text: String::from_str(INVALID_PATH),
                        },
                    ),
                ),
            }
        },
        IntakeEvent::Stored => {
            if phase == Phase::Storing {
                (Intake { record, attachment, phase: Phase::Receiving }, IntakeAction::Next)
            } else {
                (Intake { record, attachment, phase }, IntakeAction::Ignore)
            }
        },
        IntakeEvent::End => {
            if phase != Phase::Receiving {
                return (Intake { record, attachment, phase }, IntakeAction::Ignore);
            }
            match attachment {
                Some(name) => {
                    let sidecar = sidecar_name(name.as_str());
                    let path = storage_path(sidecar.as_str());
                    let body = record.to_json();
                    (
                        Intake { record, attachment: Some(name), phase: Phase::Sealing },
                        IntakeAction::Seal { path, body },
                    )
                },
                None => (
                    Intake { record, attachment: None, phase: Phase::Done },
                    IntakeAction::Answer(Reply::Redirect { location: String::from_str(THANK_YOU) }),
                ),
            }
        },
        IntakeEvent::Sealed => {
            if phase == Phase::Sealing {
                (
                    Intake { record, attachment, phase: Phase::Done },
                    IntakeAction::Answer(Reply::Redirect { location: String::from_str(THANK_YOU) }),
                )
            } else {
                (Intake { record, attachment, phase }, IntakeAction::Ignore)
            }
        },
    }
}

/// A step keeps a well-formed state well formed.
pub proof fn lemma_step_keeps_wf(s: IntakeView, e: EventView)
    requires
        s.wf(),
    ensures
        step_of(s, e).0.wf(),
{
}

/// Nothing is written for a file part whose name is no safe path segment:
/// no step on such a part stores or seals anything, and while a part is
/// awaited the whole submission ends there with the answer for an invalid
/// path.
pub proof fn lemma_unsafe_name_writes_nothing(s: IntakeView, file_name: Option<Seq<char>>)
    requires
        file_name matches Some(name) ==> !is_safe_segment(name),
    ensures
        !(step_of(s, EventView::Attachment { file_name }).1 is Store),
        !(step_of(s, EventView::Attachment { file_name }).1 is Seal),
        s.phase == Phase::Receiving ==> step_of(s, EventView::Attachment { file_name }) == (
            in_phase(s, Phase::Done),
            ActionView::Answer(invalid_path_reply()),
        ),
{
}

/// Whatever is stored is stored directly in the storage root, under a name
/// that is a safe path segment: the name that the file part declared.
pub proof fn lemma_store_is_safe(s: IntakeView, e: EventView)
    requires
        step_of(s, e).1 is Store,
    ensures
        e matches EventView::Attachment { file_name: Some(name) } && is_safe_segment(name)
            && step_of(s, e).1 == (ActionView::Store { path: path_of(name) }) && step_of(
            s,
            e,
        ).0.attachment == Some(name),
{
}

/// The sidecar is written beside the attachment that was accepted last,
/// and reading its body back gives the fields of the submission as they
/// stood when the parts ended.
pub proof fn lemma_seal_describes_submission(s: IntakeView, e: EventView)
    requires
        s.wf(),
        step_of(s, e).1 is Seal,
    ensures
        s.attachment matches Some(name) && is_safe_segment(name) && step_of(s, e).1->Seal_path
            == path_of(sidecar_of(name)),
        parse_record(step_of(s, e).1->Seal_body) == Ok::<RecordView, MetadataError>(s.record),
{
    lemma_round_trip(s.record);
}

/// Once the answer was given nothing follows: every further event is
/// ignored and leaves the state as it is.
pub proof fn lemma_done_is_final(s: IntakeView, e: EventView)
    requires
        s.phase == Phase::Done,
    ensures
        step_of(s, e) == (s, ActionView::Ignore),
{
}

/// Where a text field comes more than once, the last one counts.
pub proof fn lemma_last_text_wins(s: IntakeView, first: Seq<char>, second: Seq<char>)
    requires
        s.phase == Phase::Receiving,
    ensures
        step_of(step_of(s, EventView::Name(first)).0, EventView::Name(second)) == step_of(
            s,
            EventView::Name(second),
        ),
        step_of(step_of(s, EventView::Email(first)).0, EventView::Email(second)) == step_of(
            s,
            EventView::Email(second),
        ),
        step_of(step_of(s, EventView::Phone(first)).0, EventView::Phone(second)) == step_of(
            s,
            EventView::Phone(second),
        ),
{
}

} // verus!
