use filedrop::storage::{
    classify_entry, download_link, sidecar_name, storage_path, EntryKind, DOWNLOAD_PREFIX,
    METADATA_SUFFIX, UPLOADS_DIRECTORY,
};

#[test]
fn constants_of_the_layout() {
    assert_eq!(UPLOADS_DIRECTORY, "uploads");
    assert_eq!(METADATA_SUFFIX, ".meta");
    assert_eq!(DOWNLOAD_PREFIX, "/download/");
}

#[test]
fn sidecar_name_appends_the_suffix() {
    assert_eq!(sidecar_name("report.pdf"), "report.pdf.meta");
    assert_eq!(sidecar_name(""), ".meta");
    assert_eq!(sidecar_name("x.meta"), "x.meta.meta");
}

#[test]
fn storage_path_is_root_separator_key() {
    assert_eq!(storage_path("report.pdf"), "uploads/report.pdf");
    assert_eq!(storage_path("report.pdf.meta"), "uploads/report.pdf.meta");
    assert_eq!(storage_path("my file.csv"), "uploads/my file.csv");
}

#[test]
fn download_link_is_prefix_and_name() {
    assert_eq!(download_link("report.pdf"), "/download/report.pdf");
    assert_eq!(download_link("my file.csv"), "/download/my file.csv");
}

#[test]
fn entries_are_told_apart_by_the_suffix() {
    assert_eq!(classify_entry("report.pdf"), EntryKind::Attachment);
    assert_eq!(classify_entry("report.pdf.meta"), EntryKind::Metadata);
    assert_eq!(classify_entry(".meta"), EntryKind::Metadata);
    assert_eq!(classify_entry("meta"), EntryKind::Attachment);
    assert_eq!(classify_entry(""), EntryKind::Attachment);
    assert_eq!(classify_entry("a.meta.txt"), EntryKind::Attachment);
    assert_eq!(classify_entry("a.META"), EntryKind::Attachment);
    assert_eq!(classify_entry("a.metadata"), EntryKind::Attachment);
}

#[test]
fn a_sidecar_is_never_an_attachment() {
    for name in ["report.pdf", "", "x.meta", "a b", "日本"] {
        assert_eq!(classify_entry(&sidecar_name(name)), EntryKind::Metadata);
    }
}

#[test]
fn different_names_have_different_sidecars_and_paths() {
    let names = ["a", "b", "a.meta", "a.met", "a.", ""];
    for first in names {
        for second in names {
            if first != second {
                assert_ne!(sidecar_name(first), sidecar_name(second));
                assert_ne!(storage_path(first), storage_path(second));
            }
        }
    }
}
