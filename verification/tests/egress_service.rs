use filedrop::egress::{common_download, down, down2, download_reply, DownloadStep, FetchOutcome};
use filedrop::reply::{Reply, OCTET_STREAM};

fn inner_error() -> Reply {
    Reply::Message { status: 404, text: "inner error".to_string() }
}

#[test]
fn safe_name_is_looked_up_in_the_storage_root() {
    assert_eq!(
        common_download("report.pdf"),
        DownloadStep::Fetch { path: "uploads/report.pdf".to_string() }
    );
    assert_eq!(
        down("my file.csv"),
        DownloadStep::Fetch { path: "uploads/my file.csv".to_string() }
    );
}

#[test]
fn unsafe_name_is_refused_before_the_storage_is_asked() {
    for name in ["../../etc/passwd", "../secret", "a/b", "/etc/passwd", "", ".", ".."] {
        assert_eq!(common_download(name), DownloadStep::Refuse(inner_error()), "{name}");
        assert_eq!(down(name), DownloadStep::Refuse(inner_error()), "{name}");
    }
}

#[test]
fn whole_request_path_is_held_to_the_same_rule() {
    assert_eq!(down2("/download/report.pdf"), DownloadStep::Refuse(inner_error()));
    assert_eq!(down2("/report.pdf"), DownloadStep::Refuse(inner_error()));
    assert_eq!(down2("/"), DownloadStep::Refuse(inner_error()));
    assert_eq!(down2("report.pdf"), DownloadStep::Fetch { path: "uploads/report.pdf".to_string() });
}

#[test]
fn missing_file_is_not_found() {
    let reply = download_reply(FetchOutcome::Missing);
    assert_eq!(reply, Reply::Message { status: 404, text: "file not exists".to_string() });
    assert_eq!(reply.status(), 404);
    assert!(!reply.is_file());
}

#[test]
fn unreadable_file_is_an_inner_error() {
    let reply = download_reply(FetchOutcome::Unreadable);
    assert_eq!(reply, inner_error());
    assert_eq!(reply.status(), 404);
}

#[test]
fn content_is_handed_out_whole() {
    let bytes = vec![0u8, 1, 2, 255, 10, 13, 0];
    let reply = download_reply(FetchOutcome::Content(bytes.clone()));
    assert_eq!(reply, Reply::File { bytes });
    assert_eq!(reply.status(), 200);
    assert!(reply.is_file());
    assert_eq!(OCTET_STREAM, "application/octet-stream");
}

#[test]
fn empty_file_is_handed_out_as_empty() {
    let reply = download_reply(FetchOutcome::Content(Vec::new()));
    assert_eq!(reply, Reply::File { bytes: Vec::new() });
    assert_eq!(reply.status(), 200);
}

#[test]
fn statuses_of_the_other_answers() {
    assert_eq!(Reply::Redirect { location: "/thank_you/".to_string() }.status(), 307);
    assert_eq!(Reply::Message { status: 400, text: "Invalid path".to_string() }.status(), 400);
    assert_eq!(Reply::Message { status: 500, text: "disk".to_string() }.status(), 500);
}
