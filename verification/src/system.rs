//! The two flows over one storage: what a submission leaves in the storage
//! directory when the caller does what the intake pipeline tells it, and
//! what a download then gives. Nothing here runs; it states what holds of
//! the decisions of the other modules taken together.

use crate::egress::{
    download_reply_of, download_step_of, DownloadStepView, FetchOutcomeView,
};
use crate::intake::{
    completed_reply, initial, invalid_path_reply, step_of, ActionView, EventView, IntakeView,
    Phase,
};
use crate::listing::{cards_of, entries_of_kind};
use crate::metadata::{lemma_round_trip, parse_record, record_text, MetadataError, RecordView};
use crate::path::is_safe_segment;
use crate::reply::{ReplyView, FILE_NOT_EXISTS, STATUS_NOT_FOUND};
use crate::storage::{
    is_metadata_name, lemma_paths_differ, lemma_sidecar_is_another_entry,
    lemma_sidecar_is_metadata, lemma_sidecars_differ, path_of, sidecar_of, EntryKind,
};
use vstd::prelude::*;
use vstd::utf8::{decode_utf8, encode_utf8, encode_utf8_decode_utf8};

verus! {

/// The storage after the caller did what `action` asks for: an attachment
/// is stored with the bytes `part` of its file part, a sidecar with the
/// bytes that write its body, and every other action leaves the storage as
/// it is. A file that was there before under the same path is overwritten.
pub open spec fn performed(
    storage: Map<Seq<char>, Seq<u8>>,
    action: ActionView,
    part: Seq<u8>,
) -> Map<Seq<char>, Seq<u8>> {
    match action {
        ActionView::Store { path } => storage.insert(path, part),
        ActionView::Seal { path, body } => storage.insert(path, encode_utf8(body)),
        _ => storage,
    }
}

/// What the storage says of the file at `path`.
pub open spec fn looked_up(storage: Map<Seq<char>, Seq<u8>>, path: Seq<char>) -> FetchOutcomeView {
    if storage.dom().contains(path) {
        FetchOutcomeView::Content(storage[path])
    } else {
        FetchOutcomeView::Missing
    }
}

/// The answer to a download of `file_name` from `storage`.
pub open spec fn downloaded(storage: Map<Seq<char>, Seq<u8>>, file_name: Seq<char>) -> ReplyView {
    match download_step_of(file_name) {
        DownloadStepView::Refuse(reply) => reply,
        DownloadStepView::Fetch { path } => download_reply_of(looked_up(storage, path)),
    }
}

/// The state of a submission once its three text fields were read.
pub open spec fn with_fields(record: RecordView) -> IntakeView {
    step_of(
        step_of(step_of(initial(), EventView::Name(record.name)).0, EventView::Email(record.email)).0,
        EventView::Phone(record.phone),
    ).0
}

/// The storage and the last action after one whole submission: the three
/// text fields, then one file part that declares `file_name` and carries
/// `bytes`, then the end of the parts, with every write succeeding. Where
/// the file part is refused, the submission ends there.
pub open spec fn uploaded(
    storage: Map<Seq<char>, Seq<u8>>,
    record: RecordView,
    file_name: Seq<char>,
    bytes: Seq<u8>,
) -> (Map<Seq<char>, Seq<u8>>, ActionView) {
    let (at_store, store) = step_of(
        with_fields(record),
        EventView::Attachment { file_name: Some(file_name) },
    );
    if store is Store {
        let stored = performed(storage, store, bytes);
        let at_end = step_of(at_store, EventView::Stored).0;
        let (at_seal, seal) = step_of(at_end, EventView::End);
        let sealed = performed(stored, seal, Seq::empty());
        (sealed, step_of(at_seal, EventView::Sealed).1)
    } else {
        (storage, store)
    }
}

/// A submission with a safe file name is answered as complete, and a
/// download of the same name then gives the bytes that were uploaded, byte
/// for byte. The sidecar lies beside the attachment, and its content, read
/// back as text and then as a record, is the record that was submitted.
pub proof fn lemma_upload_then_download(
    storage: Map<Seq<char>, Seq<u8>>,
    record: RecordView,
    file_name: Seq<char>,
    bytes: Seq<u8>,
)
    requires
        is_safe_segment(file_name),
    ensures
        uploaded(storage, record, file_name, bytes).1 == ActionView::Answer(completed_reply()),
        downloaded(uploaded(storage, record, file_name, bytes).0, file_name) == (ReplyView::File {
            bytes,
        }),
        uploaded(storage, record, file_name, bytes).0.dom().contains(
            path_of(sidecar_of(file_name)),
        ),
        parse_record(
            decode_utf8(
                uploaded(storage, record, file_name, bytes).0[path_of(sidecar_of(file_name))],
            ),
        ) == Ok::<RecordView, MetadataError>(record),
{
    let s0 = with_fields(record);
    assert(s0.record == record);
    assert(s0.phase == Phase::Receiving && s0.attachment is None);
    lemma_sidecar_is_another_entry(file_name);
    lemma_paths_differ(sidecar_of(file_name), file_name);
    lemma_round_trip(record);
    encode_utf8_decode_utf8(record_text(record));
}

/// A download of a name under which nothing is stored gives the answer for
/// a file that does not exist, and never anything but a not-found answer,
/// whether the name is a safe path segment or not.
pub proof fn lemma_never_stored_is_not_found(
    storage: Map<Seq<char>, Seq<u8>>,
    file_name: Seq<char>,
)
    requires
        !storage.dom().contains(path_of(file_name)),
    ensures
        downloaded(storage, file_name).status() == STATUS_NOT_FOUND,
        is_safe_segment(file_name) ==> downloaded(storage, file_name) == (ReplyView::Message {
            status: STATUS_NOT_FOUND,
            text: FILE_NOT_EXISTS@,
        }),
{
}

/// A file part whose declared name is no safe path segment is refused with
/// the answer for an invalid path, and the storage is left as it was: no
/// file is created, under the storage root or anywhere else.
pub proof fn lemma_unsafe_upload_is_refused(
    storage: Map<Seq<char>, Seq<u8>>,
    record: RecordView,
    file_name: Seq<char>,
    bytes: Seq<u8>,
)
    requires
        !is_safe_segment(file_name),
    ensures
        uploaded(storage, record, file_name, bytes) == (
            storage,
            ActionView::Answer(invalid_path_reply()),
        ),
{
}

/// Two submissions under different file names, neither name being the
/// sidecar name of the other, do not touch each other's entries: in
/// whichever order the two are carried out, each attachment is downloaded
/// with its own bytes and each sidecar reads back as its own record.
pub proof fn lemma_submissions_are_independent(
    storage: Map<Seq<char>, Seq<u8>>,
    first: RecordView,
    first_name: Seq<char>,
    first_bytes: Seq<u8>,
    second: RecordView,
    second_name: Seq<char>,
    second_bytes: Seq<u8>,
)
    requires
        is_safe_segment(first_name),
        is_safe_segment(second_name),
        first_name != second_name,
        first_name != sidecar_of(second_name),
        second_name != sidecar_of(first_name),
    ensures
        ({
            let both = uploaded(
                uploaded(storage, first, first_name, first_bytes).0,
                second,
                second_name,
                second_bytes,
            ).0;
            let other_way = uploaded(
                uploaded(storage, second, second_name, second_bytes).0,
                first,
                first_name,
                first_bytes,
            ).0;
            &&& both == other_way
            &&& downloaded(both, first_name) == (ReplyView::File { bytes: first_bytes })
            &&& downloaded(both, second_name) == (ReplyView::File { bytes: second_bytes })
            &&& parse_record(decode_utf8(both[path_of(sidecar_of(first_name))])) == Ok::<
                RecordView,
                MetadataError,
            >(first)
            &&& parse_record(decode_utf8(both[path_of(sidecar_of(second_name))])) == Ok::<
                RecordView,
                MetadataError,
            >(second)
        }),
{
    let a = path_of(first_name);
    let b = path_of(second_name);
    let sa = path_of(sidecar_of(first_name));
    let sb = path_of(sidecar_of(second_name));
    lemma_sidecars_differ(first_name, second_name);
    lemma_paths_differ(first_name, second_name);
    lemma_paths_differ(first_name, sidecar_of(second_name));
    lemma_paths_differ(second_name, sidecar_of(first_name));
    lemma_paths_differ(sidecar_of(first_name), sidecar_of(second_name));
    lemma_sidecar_is_another_entry(first_name);
    lemma_sidecar_is_another_entry(second_name);
    lemma_paths_differ(sidecar_of(first_name), first_name);
    lemma_paths_differ(sidecar_of(second_name), second_name);
    assert(with_fields(first).record == first && with_fields(first).attachment is None);
    assert(with_fields(second).record == second && with_fields(second).attachment is None);
    lemma_round_trip(first);
    lemma_round_trip(second);
    encode_utf8_decode_utf8(record_text(first));
    encode_utf8_decode_utf8(record_text(second));
    let fa = encode_utf8(record_text(first));
    let fb = encode_utf8(record_text(second));
    let both = uploaded(
        uploaded(storage, first, first_name, first_bytes).0,
        second,
        second_name,
        second_bytes,
    ).0;
    let other_way = uploaded(
        uploaded(storage, second, second_name, second_bytes).0,
        first,
        first_name,
        first_bytes,
    ).0;
    assert(both == storage.insert(a, first_bytes).insert(sa, fa).insert(b, second_bytes).insert(
        sb,
        fb,
    ));
    assert(other_way == storage.insert(b, second_bytes).insert(sb, fb).insert(a, first_bytes).insert(
        sa,
        fa,
    ));
    assert(both =~= other_way);
}

/// After a submission into an empty directory, under a file name without
/// the reserved suffix, the listing holds exactly one attachment, the file
/// that was uploaded, and exactly one metadata record, the one that was
/// submitted.
pub proof fn lemma_listing_after_upload(record: RecordView, file_name: Seq<char>)
    requires
        !is_metadata_name(file_name),
    ensures
        entries_of_kind(seq![file_name, sidecar_of(file_name)], EntryKind::Attachment) == seq![
            file_name,
        ],
        entries_of_kind(seq![file_name, sidecar_of(file_name)], EntryKind::Metadata) == seq![
            sidecar_of(file_name),
        ],
        cards_of(seq![record_text(record)]) == seq![record],
{
    let names = seq![file_name, sidecar_of(file_name)];
    let texts = seq![record_text(record)];
    let none = Seq::<Seq<char>>::empty();
    reveal(Seq::filter);
    lemma_sidecar_is_metadata(file_name);
    lemma_round_trip(record);
    assert(names.drop_last() == seq![file_name]);
    assert(names.drop_last().drop_last() == none);
    assert(entries_of_kind(none, EntryKind::Attachment) == none);
    assert(entries_of_kind(none, EntryKind::Metadata) == none);
    assert(entries_of_kind(names.drop_last(), EntryKind::Attachment) == seq![file_name]);
    assert(entries_of_kind(names.drop_last(), EntryKind::Metadata) == none);
    assert(texts.drop_last() == none);
    assert(cards_of(none) == Seq::<RecordView>::empty());
    assert(Seq::<RecordView>::empty() + seq![record] == seq![record]);
}

} // verus!
