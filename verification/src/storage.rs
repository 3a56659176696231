//! The layout of the storage directory: where an attachment and its sidecar
//! are kept, and how the two kinds of entry are told apart.

use crate::path::{is_safe_segment, SEPARATOR};
use crate::text::{chars_of, ends_with, has_suffix};
use vstd::prelude::*;
use vstd::string::StringExecFns;

verus! {

/// The storage root: the one flat directory that holds every entry.
pub const UPLOADS_DIRECTORY: &'static str = "uploads";

/// The reserved suffix that marks an entry as a metadata sidecar.
pub const METADATA_SUFFIX: &'static str = ".meta";

/// Where the download of an attachment is served.
pub const DOWNLOAD_PREFIX: &'static str = "/download/";

/// The two kinds of entry of the storage directory.
#[derive(Debug, PartialEq, Eq, Structural, Clone, Copy)]
pub enum EntryKind {
    /// A stored file that can be downloaded.
    Attachment,
    /// The sidecar that describes a submission.
    Metadata,
}

/// `name` ends with the reserved suffix.
pub open spec fn is_metadata_name(name: Seq<char>) -> bool {
    ends_with(name, METADATA_SUFFIX@)
}

/// The kind of the entry called `name`: a sidecar where the name ends with
/// the reserved suffix, an attachment in every other case.
pub open spec fn entry_kind(name: Seq<char>) -> EntryKind {
    if is_metadata_name(name) {
        EntryKind::Metadata
    } else {
        EntryKind::Attachment
    }
}

/// The name of the sidecar of the attachment called `file_name`.
pub open spec fn sidecar_of(file_name: Seq<char>) -> Seq<char> {
    file_name + METADATA_SUFFIX@
}

/// The path of the entry called `key`: the storage root, a separator, the
/// key.
pub open spec fn path_of(key: Seq<char>) -> Seq<char> {
    UPLOADS_DIRECTORY@ + seq![SEPARATOR] + key
}

/// The link under which the attachment called `name` is downloaded.
pub open spec fn link_of(name: Seq<char>) -> Seq<char> {
    DOWNLOAD_PREFIX@ + name
}

/// Tells the kind of the entry called `name`.
pub fn classify_entry(name: &str) -> (kind: EntryKind)
    ensures
        kind == entry_kind(name@),
{
    let chars = chars_of(name);
    let suffix = chars_of(METADATA_SUFFIX);
    if has_suffix(&chars, &suffix) {
        EntryKind::Metadata
    } else {
        EntryKind::Attachment
    }
}

/// The name of the sidecar of the attachment called `file_name`.
pub fn sidecar_name(file_name: &str) -> (name: String)
    ensures
        name@ == sidecar_of(file_name@),
{
    let mut name = String::from_str(file_name);
    name.append(METADATA_SUFFIX);
    name
}

/// The path of the entry called `key`.
pub fn storage_path(key: &str) -> (path: String)
    ensures
        path@ == path_of(key@),
{
    let mut path = String::from_str(UPLOADS_DIRECTORY);
    path.append("/");
    path.append(key);
    proof {
        reveal_strlit("/");
        assert("/"@ == seq![SEPARATOR]);
    }
    path
}

/// The link under which the attachment called `name` is downloaded.
pub fn download_link(name: &str) -> (link: String)
    ensures
        link@ == link_of(name@),
{
    let mut link = String::from_str(DOWNLOAD_PREFIX);
    link.append(name);
    link
}

/// A sidecar is always told apart from an attachment: its name ends with
/// the reserved suffix.
pub proof fn lemma_sidecar_is_metadata(file_name: Seq<char>)
    ensures
        is_metadata_name(sidecar_of(file_name)),
        entry_kind(sidecar_of(file_name)) == EntryKind::Metadata,
{
    let s = sidecar_of(file_name);
    assert(s.subrange(s.len() - METADATA_SUFFIX@.len(), s.len() as int) == METADATA_SUFFIX@);
}

/// The sidecar of an attachment never has the attachment's own name.
pub proof fn lemma_sidecar_is_another_entry(file_name: Seq<char>)
    ensures
        sidecar_of(file_name) != file_name,
{
    reveal_strlit(".meta");
    assert(sidecar_of(file_name).len() == file_name.len() + 5);
}

/// Two attachments with different names have different sidecars.
pub proof fn lemma_sidecars_differ(a: Seq<char>, b: Seq<char>)
    requires
        a != b,
    ensures
        sidecar_of(a) != sidecar_of(b),
{
    if sidecar_of(a) == sidecar_of(b) {
        assert(a.len() == b.len()) by {
            assert(sidecar_of(a).len() == a.len() + METADATA_SUFFIX@.len());
            assert(sidecar_of(b).len() == b.len() + METADATA_SUFFIX@.len());
        }
        assert(sidecar_of(a).take(a.len() as int) == a);
        assert(sidecar_of(b).take(b.len() as int) == b);
    }
}

/// Different keys lie at different paths.
pub proof fn lemma_paths_differ(a: Seq<char>, b: Seq<char>)
    requires
        a != b,
    ensures
        path_of(a) != path_of(b),
{
    let root = UPLOADS_DIRECTORY@ + seq![SEPARATOR];
    if path_of(a) == path_of(b) {
        assert(path_of(a).len() == root.len() + a.len());
        assert(path_of(b).len() == root.len() + b.len());
        assert(path_of(a).skip(root.len() as int) == a);
        assert(path_of(b).skip(root.len() as int) == b);
    }
}

/// The path of a safe name lies directly in the storage root: behind the
/// root and its separator the path holds no further separator, and what
/// stands there is neither `.` nor `..`.
pub proof fn lemma_safe_path_stays_in_root(key: Seq<char>)
    requires
        is_safe_segment(key),
    ensures
        path_of(key).skip(UPLOADS_DIRECTORY@.len() as int + 1) == key,
        forall|i: int|
            UPLOADS_DIRECTORY@.len() < i < path_of(key).len() ==> path_of(key)[i] != SEPARATOR,
{
    let root = UPLOADS_DIRECTORY@.len() as int + 1;
    assert(path_of(key).skip(root) == key);
    assert forall|i: int| UPLOADS_DIRECTORY@.len() < i < path_of(key).len() implies path_of(
        key,
    )[i] != SEPARATOR by {
        assert(path_of(key)[i] == key[i - root]);
        assert(key.contains(key[i - root]));
    }
}

} // verus!
