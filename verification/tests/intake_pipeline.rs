use filedrop::intake::{
    classify_field, contact_submit, stream_to_file, FieldKind, Intake, IntakeAction, IntakeEvent,
    Phase,
};
use filedrop::metadata::MetadataRecord;
use filedrop::reply::Reply;

fn invalid_path() -> Reply {
    Reply::Message { status: 400, text: "Invalid path".to_string() }
}

fn thank_you() -> Reply {
    Reply::Redirect { location: "/thank_you/".to_string() }
}

fn attachment(name: &str) -> IntakeEvent {
    IntakeEvent::Attachment { file_name: Some(name.to_string()) }
}

fn feed(state: Intake, events: Vec<IntakeEvent>) -> (Intake, Vec<IntakeAction>) {
    let mut state = state;
    let mut actions = Vec::new();
    for event in events {
        let (next, action) = contact_submit(state, event);
        state = next;
        actions.push(action);
    }
    (state, actions)
}

#[test]
fn fields_are_classified_by_name() {
    assert_eq!(classify_field("name"), FieldKind::Name);
    assert_eq!(classify_field("email"), FieldKind::Email);
    assert_eq!(classify_field("phone"), FieldKind::Phone);
    assert_eq!(classify_field("file"), FieldKind::Attachment);
    assert_eq!(classify_field(""), FieldKind::Attachment);
    assert_eq!(classify_field("Name"), FieldKind::Attachment);
    assert_eq!(classify_field("name "), FieldKind::Attachment);
    assert_eq!(classify_field("emails"), FieldKind::Attachment);
}

#[test]
fn destination_of_a_safe_name() {
    assert_eq!(stream_to_file("report.pdf"), Ok("uploads/report.pdf".to_string()));
    assert_eq!(stream_to_file("my file.csv"), Ok("uploads/my file.csv".to_string()));
}

#[test]
fn destination_of_an_unsafe_name_is_refused() {
    for name in ["../../evil", "../../etc/passwd", "a/b", "/abs", "", ".", ".."] {
        assert_eq!(stream_to_file(name), Err(invalid_path()), "{name}");
    }
}

#[test]
fn a_new_submission_awaits_parts() {
    assert_eq!(Intake::new().phase(), Phase::Receiving);
}

#[test]
fn whole_submission_in_order() {
    let (state, actions) = feed(
        Intake::new(),
        vec![
            IntakeEvent::Name("Ann".to_string()),
            IntakeEvent::Email("a@x.com".to_string()),
            IntakeEvent::Phone("555".to_string()),
            attachment("report.pdf"),
            IntakeEvent::Stored,
            IntakeEvent::End,
            IntakeEvent::Sealed,
        ],
    );
    assert_eq!(state.phase(), Phase::Done);
    assert_eq!(
        actions,
        vec![
            IntakeAction::Next,
            IntakeAction::Next,
            IntakeAction::Next,
            IntakeAction::Store { path: "uploads/report.pdf".to_string() },
            IntakeAction::Next,
            IntakeAction::Seal {
                path: "uploads/report.pdf.meta".to_string(),
                body: "{\"name\":\"Ann\",\"email\":\"a@x.com\",\"phone\":\"555\"}".to_string(),
            },
            IntakeAction::Answer(thank_you()),
        ]
    );
}

#[test]
fn fields_behind_the_attachment_still_reach_the_sidecar() {
    let (_, actions) = feed(
        Intake::new(),
        vec![
            attachment("report.pdf"),
            IntakeEvent::Stored,
            IntakeEvent::Phone("555".to_string()),
            IntakeEvent::Name("Ann".to_string()),
            IntakeEvent::End,
        ],
    );
    assert_eq!(
        actions[4],
        IntakeAction::Seal {
            path: "uploads/report.pdf.meta".to_string(),
            body: "{\"name\":\"Ann\",\"email\":\"\",\"phone\":\"555\"}".to_string(),
        }
    );
}

#[test]
fn the_sidecar_body_reads_back_as_the_fields() {
    let (_, actions) = feed(
        Intake::new(),
        vec![
            IntakeEvent::Name("O\"Neil \\ Co".to_string()),
            IntakeEvent::Email("line\nbreak".to_string()),
            IntakeEvent::Phone(String::new()),
            attachment("x"),
            IntakeEvent::Stored,
            IntakeEvent::End,
        ],
    );
    match &actions[5] {
        IntakeAction::Seal { path, body } => {
            assert_eq!(path, "uploads/x.meta");
            assert_eq!(
                MetadataRecord::from_json(body),
                Ok(MetadataRecord::new(
                    "O\"Neil \\ Co".to_string(),
                    "line\nbreak".to_string(),
                    String::new()
                ))
            );
        }
        other => panic!("{other:?}"),
    }
}

#[test]
fn repeated_text_fields_last_one_wins() {
    let (_, actions) = feed(
        Intake::new(),
        vec![
            IntakeEvent::Name("first".to_string()),
            IntakeEvent::Email("one@x".to_string()),
            IntakeEvent::Name("second".to_string()),
            IntakeEvent::Phone("1".to_string()),
            IntakeEvent::Phone("2".to_string()),
            IntakeEvent::Email("two@x".to_string()),
            attachment("f"),
            IntakeEvent::Stored,
            IntakeEvent::End,
        ],
    );
    assert_eq!(
        actions[8],
        IntakeAction::Seal {
            path: "uploads/f.meta".to_string(),
            body: "{\"name\":\"second\",\"email\":\"two@x\",\"phone\":\"2\"}".to_string(),
        }
    );
}

#[test]
fn unsafe_file_name_ends_the_submission_before_any_write() {
    for name in ["../../evil", "a/b", "/etc/passwd", "", ".", ".."] {
        let (state, actions) = feed(
            Intake::new(),
            vec![
                IntakeEvent::Name("Ann".to_string()),
                attachment(name),
                IntakeEvent::Stored,
                IntakeEvent::End,
                IntakeEvent::Sealed,
            ],
        );
        assert_eq!(state.phase(), Phase::Done);
        assert_eq!(
            actions,
            vec![
                IntakeAction::Next,
                IntakeAction::Answer(invalid_path()),
                IntakeAction::Ignore,
                IntakeAction::Ignore,
                IntakeAction::Ignore,
            ],
            "{name}"
        );
    }
}

#[test]
fn file_part_without_a_declared_name_is_refused() {
    let (state, action) =
        contact_submit(Intake::new(), IntakeEvent::Attachment { file_name: None });
    assert_eq!(state.phase(), Phase::Done);
    assert_eq!(action, IntakeAction::Answer(invalid_path()));
}

#[test]
fn submission_without_attachment_writes_no_sidecar() {
    let (state, actions) = feed(
        Intake::new(),
        vec![IntakeEvent::Name("Ann".to_string()), IntakeEvent::End],
    );
    assert_eq!(state.phase(), Phase::Done);
    assert_eq!(actions, vec![IntakeAction::Next, IntakeAction::Answer(thank_you())]);
}

#[test]
fn several_attachments_are_each_stored_and_the_last_is_described() {
    let (state, actions) = feed(
        Intake::new(),
        vec![
            IntakeEvent::Name("Ann".to_string()),
            attachment("one.txt"),
            IntakeEvent::Stored,
            IntakeEvent::Email("a@x.com".to_string()),
            attachment("two.txt"),
            IntakeEvent::Stored,
            IntakeEvent::End,
            IntakeEvent::Sealed,
        ],
    );
    assert_eq!(state.phase(), Phase::Done);
    assert_eq!(
        actions,
        vec![
            IntakeAction::Next,
            IntakeAction::Store { path: "uploads/one.txt".to_string() },
            IntakeAction::Next,
            IntakeAction::Next,
            IntakeAction::Store { path: "uploads/two.txt".to_string() },
            IntakeAction::Next,
            IntakeAction::Seal {
                path: "uploads/two.txt.meta".to_string(),
                body: "{\"name\":\"Ann\",\"email\":\"a@x.com\",\"phone\":\"\"}".to_string(),
            },
            IntakeAction::Answer(thank_you()),
        ]
    );
}

#[test]
fn second_attachment_with_unsafe_name_ends_the_submission() {
    let (state, actions) = feed(
        Intake::new(),
        vec![attachment("one.txt"), IntakeEvent::Stored, attachment("../two.txt"), IntakeEvent::End],
    );
    assert_eq!(state.phase(), Phase::Done);
    assert_eq!(actions[2], IntakeAction::Answer(invalid_path()));
    assert_eq!(actions[3], IntakeAction::Ignore);
}

#[test]
fn failure_while_storing_is_an_internal_error() {
    let (state, actions) = feed(
        Intake::new(),
        vec![
            attachment("big.bin"),
            IntakeEvent::Failed { message: "No space left on device".to_string() },
            IntakeEvent::End,
        ],
    );
    assert_eq!(state.phase(), Phase::Done);
    assert_eq!(
        actions[1],
        IntakeAction::Answer(Reply::Message {
            status: 500,
            text: "No space left on device".to_string()
        })
    );
    assert_eq!(actions[2], IntakeAction::Ignore);
}

#[test]
fn failure_while_reading_or_sealing_is_an_internal_error() {
    let (state, action) = contact_submit(
        Intake::new(),
        IntakeEvent::Failed { message: "stream ended".to_string() },
    );
    assert_eq!(state.phase(), Phase::Done);
    assert_eq!(
        action,
        IntakeAction::Answer(Reply::Message { status: 500, text: "stream ended".to_string() })
    );
    let (state, actions) = feed(
        Intake::new(),
        vec![
            attachment("f"),
            IntakeEvent::Stored,
            IntakeEvent::End,
            IntakeEvent::Failed { message: "Permission denied".to_string() },
        ],
    );
    assert_eq!(state.phase(), Phase::Done);
    assert_eq!(
        actions[3],
        IntakeAction::Answer(Reply::Message { status: 500, text: "Permission denied".to_string() })
    );
}

#[test]
fn events_out_of_turn_change_nothing() {
    let (state, actions) = feed(
        Intake::new(),
        vec![IntakeEvent::Stored, IntakeEvent::Sealed],
    );
    assert_eq!(state.phase(), Phase::Receiving);
    assert_eq!(actions, vec![IntakeAction::Ignore, IntakeAction::Ignore]);

    let (state, actions) = feed(
        Intake::new(),
        vec![
            attachment("f"),
            IntakeEvent::Name("late".to_string()),
            attachment("g"),
            IntakeEvent::End,
            IntakeEvent::Sealed,
        ],
    );
    assert_eq!(state.phase(), Phase::Storing);
    assert_eq!(
        actions,
        vec![
            IntakeAction::Store { path: "uploads/f".to_string() },
            IntakeAction::Ignore,
            IntakeAction::Ignore,
            IntakeAction::Ignore,
            IntakeAction::Ignore,
        ]
    );

    let (state, actions) = feed(
        Intake::new(),
        vec![attachment("f"), IntakeEvent::Stored, IntakeEvent::End, IntakeEvent::Stored, IntakeEvent::End],
    );
    assert_eq!(state.phase(), Phase::Sealing);
    assert_eq!(actions[3], IntakeAction::Ignore);
    assert_eq!(actions[4], IntakeAction::Ignore);
}

#[test]
fn nothing_follows_the_answer() {
    let (state, _) = feed(Intake::new(), vec![IntakeEvent::End]);
    let (state, actions) = feed(
        state,
        vec![
            IntakeEvent::Name("x".to_string()),
            attachment("f"),
            IntakeEvent::Stored,
            IntakeEvent::End,
            IntakeEvent::Sealed,
            IntakeEvent::Failed { message: "late".to_string() },
        ],
    );
    assert_eq!(state.phase(), Phase::Done);
    for action in actions {
        assert_eq!(action, IntakeAction::Ignore);
    }
}
