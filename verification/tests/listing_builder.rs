use filedrop::listing::{entries, get_email_view, get_ftp_view, metadata_cards, read_sidecars};
use filedrop::metadata::{MetadataError, MetadataRecord};
use filedrop::storage::EntryKind;

fn strings(items: &[&str]) -> Vec<String> {
    items.iter().map(|s| s.to_string()).collect()
}

const CARD_ANN: &str = "<div style = \"margin: 12px; padding: 16px; background-color: cyan; \"><h3>FROM: </h3>Ann<br><h3>EMAIL: </h3>a@x.com<br><br><h3>PHONE: </h3>555</div>";

#[test]
fn entries_are_parted_in_order() {
    let names = strings(&["b.txt", "a.pdf.meta", "a.pdf", ".meta", "c", "b.txt.meta"]);
    assert_eq!(entries(&names, EntryKind::Attachment), strings(&["b.txt", "a.pdf", "c"]));
    assert_eq!(
        entries(&names, EntryKind::Metadata),
        strings(&["a.pdf.meta", ".meta", "b.txt.meta"])
    );
}

#[test]
fn every_entry_is_in_exactly_one_part() {
    let names = strings(&["x", "x.meta", "y.meta", "z", "z", "meta", "a.meta.meta"]);
    let files = entries(&names, EntryKind::Attachment);
    let sidecars = entries(&names, EntryKind::Metadata);
    assert_eq!(files.len() + sidecars.len(), names.len());
    for name in &names {
        let in_files = files.contains(name);
        let in_sidecars = sidecars.contains(name);
        assert!(in_files != in_sidecars, "{name}");
        assert_eq!(in_sidecars, name.ends_with(".meta"));
    }
}

#[test]
fn empty_directory_gives_empty_parts_and_views() {
    let names: Vec<String> = Vec::new();
    assert_eq!(entries(&names, EntryKind::Attachment), Vec::<String>::new());
    assert_eq!(entries(&names, EntryKind::Metadata), Vec::<String>::new());
    assert_eq!(get_ftp_view(&names), "");
    assert_eq!(get_email_view(&names), "");
    assert_eq!(metadata_cards(&names), Vec::<MetadataRecord>::new());
}

#[test]
fn attachment_view_lists_name_and_link() {
    let names = strings(&["report.pdf", "report.pdf.meta"]);
    assert_eq!(
        get_ftp_view(&names),
        "<li>report.pdf     <a href=\"/download/report.pdf\">Download</a></li>"
    );
}

#[test]
fn attachment_view_keeps_the_order_and_leaves_sidecars_out() {
    let names = strings(&["b.txt", "a.meta", "my file.csv"]);
    assert_eq!(
        get_ftp_view(&names),
        "<li>b.txt     <a href=\"/download/b.txt\">Download</a></li><li>my file.csv     <a href=\"/download/my file.csv\">Download</a></li>"
    );
}

#[test]
fn cards_are_read_from_the_sidecar_texts() {
    let texts = strings(&[
        "{\"name\":\"Ann\",\"email\":\"a@x.com\",\"phone\":\"555\"}",
        "{\"phone\":\"1\",\"email\":\"b@y\",\"name\":\"Bob\"}",
    ]);
    assert_eq!(
        metadata_cards(&texts),
        vec![
            MetadataRecord::new("Ann".to_string(), "a@x.com".to_string(), "555".to_string()),
            MetadataRecord::new("Bob".to_string(), "b@y".to_string(), "1".to_string()),
        ]
    );
}

#[test]
fn record_view_shows_one_card_per_record() {
    let texts = strings(&["{\"name\":\"Ann\",\"email\":\"a@x.com\",\"phone\":\"555\"}"]);
    assert_eq!(get_email_view(&texts), CARD_ANN);
    let twice = strings(&[
        "{\"name\":\"Ann\",\"email\":\"a@x.com\",\"phone\":\"555\"}",
        "{\"name\":\"\",\"email\":\"\",\"phone\":\"\"}",
    ]);
    let empty_card = "<div style = \"margin: 12px; padding: 16px; background-color: cyan; \"><h3>FROM: </h3><br><h3>EMAIL: </h3><br><br><h3>PHONE: </h3></div>";
    assert_eq!(get_email_view(&twice), format!("{CARD_ANN}{empty_card}"));
}

#[test]
fn malformed_sidecar_is_passed_over() {
    let texts = strings(&[
        "garbage",
        "{\"name\":\"Ann\",\"email\":\"a@x.com\",\"phone\":\"555\"}",
        "",
        "{\"name\":\"only\"}",
        "{\"name\":1,\"email\":2,\"phone\":3}",
    ]);
    assert_eq!(
        metadata_cards(&texts),
        vec![MetadataRecord::new("Ann".to_string(), "a@x.com".to_string(), "555".to_string())]
    );
    assert_eq!(get_email_view(&texts), CARD_ANN);
}

#[test]
fn fields_are_shown_as_they_were_unescaped() {
    let texts = strings(&["{\"name\":\"a\\\"b\",\"email\":\"c\\\\d\",\"phone\":\"e\\nf\"}"]);
    assert_eq!(
        get_email_view(&texts),
        "<div style = \"margin: 12px; padding: 16px; background-color: cyan; \"><h3>FROM: </h3>a\"b<br><h3>EMAIL: </h3>c\\d<br><br><h3>PHONE: </h3>e\nf</div>"
    );
}

#[test]
fn each_sidecar_is_read_on_its_own() {
    let texts = strings(&[
        "garbage",
        "{\"name\":\"Ann\",\"email\":\"a@x.com\",\"phone\":\"555\"}",
        "{\"name\":\"only\"}",
        "{\"name\":\"a\",\"name\":\"b\",\"email\":\"\",\"phone\":\"\"}",
    ]);
    assert_eq!(
        read_sidecars(&texts),
        vec![
            Err(MetadataError::Malformed),
            Ok(MetadataRecord::new("Ann".to_string(), "a@x.com".to_string(), "555".to_string())),
            Err(MetadataError::MissingField),
            Err(MetadataError::RepeatedField),
        ]
    );
    assert_eq!(read_sidecars(&Vec::new()), Vec::new());
}
