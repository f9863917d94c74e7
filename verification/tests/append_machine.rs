use quick_send::append::{Append, AppendAction, AppendReply, AppendStage, AppendStep};
use quick_send::error::{Error, ImportFailure};
use quick_send::event::{Direction, Notification, UiEvent};
use quick_send::transfer::Phase;

fn quiet(action: AppendAction) -> AppendStep {
    AppendStep { emit: None, log: None, action }
}

fn note(n: Notification) -> AppendReply {
    AppendReply::Note(n)
}

fn streaming(path: &str) -> Append {
    let (mut append, _) = Append::begin(path);
    append.step(AppendReply::Absent);
    append.step(AppendReply::Started);
    assert_eq!(append.stage, AppendStage::Streaming);
    append
}

#[test]
fn begin_asks_for_the_lookup_of_the_key() {
    let (append, step) = Append::begin("/home/u/docs/report.pdf");
    assert_eq!(step, quiet(AppendAction::Lookup { key: b"report.pdf\0".to_vec() }));
    assert_eq!(append.path, "/home/u/docs/report.pdf");
    assert_eq!(append.name, "report.pdf");
    assert_eq!(append.key, b"report.pdf\0".to_vec());
    assert_eq!(append.stage, AppendStage::Lookup);
    assert_eq!(append.transfer.id, "/home/u/docs/report.pdf");
    assert_eq!(append.transfer.direction, Direction::Upload);
    assert_eq!(append.transfer.phase, Phase::Pending);
}

#[test]
fn begin_takes_the_final_component() {
    let (append, _) = Append::begin("relative/dir/notes.txt");
    assert_eq!(append.name, "notes.txt");
    let (append, _) = Append::begin("plain.bin");
    assert_eq!(append.name, "plain.bin");
    let (append, _) = Append::begin("/tmp/dir/");
    assert_eq!(append.name, "dir");
}

#[test]
fn begin_refuses_a_path_without_a_file_name() {
    for path in ["/", "", "..", "/tmp/..", "."] {
        let (append, step) = Append::begin(path);
        assert_eq!(step, quiet(AppendAction::Finish(Err(Error::InvalidPath))));
        assert_eq!(append.stage, AppendStage::Finished);
    }
}

#[test]
fn begin_named_reports_a_name_without_a_key() {
    let (append, step) = Append::begin_named("/tmp/a\\b", Some("a\\b".to_string()));
    assert_eq!(
        step,
        quiet(AppendAction::Finish(Err(Error::Import {
            failure: ImportFailure::KeyCodec,
            path: "/tmp/a\\b".to_string(),
            cause: "invalid path component \"a\\\\b\"".to_string(),
        })))
    );
    assert_eq!(append.stage, AppendStage::Finished);
    assert_eq!(append.name, "a\\b");
}

#[test]
fn begin_reports_a_backslash_in_the_file_name() {
    let (_, step) = Append::begin("/tmp/a\\b");
    match step.action {
        AppendAction::Finish(Err(error)) => {
            assert_eq!(
                error.message(),
                "Error when converting path to key: invalid path component \"a\\\\b\""
            );
        }
        other => panic!("unexpected action {:?}", other),
    }
}

#[test]
fn begin_named_without_a_name_is_an_invalid_path() {
    let (_, step) = Append::begin_named("/whatever", None);
    assert_eq!(step, quiet(AppendAction::Finish(Err(Error::InvalidPath))));
}

#[test]
fn present_key_is_a_duplicate() {
    let (mut append, _) = Append::begin("/home/u/report.pdf");
    let step = append.step(AppendReply::Present);
    assert_eq!(
        step,
        quiet(AppendAction::Finish(Err(Error::DuplicateEntry { name: "report.pdf".to_string() })))
    );
    assert_eq!(append.stage, AppendStage::Finished);
}

#[test]
fn refused_append_never_asks_to_ingest() {
    let (mut append, _) = Append::begin("/home/u/report.pdf");
    append.step(AppendReply::Present);
    for reply in [
        AppendReply::Absent,
        AppendReply::Started,
        AppendReply::Present,
        AppendReply::End,
        note(Notification::Done),
        AppendReply::Failed { cause: "x".to_string() },
    ] {
        let step = append.step(reply);
        assert!(matches!(step.action, AppendAction::Finish(Err(_))));
        assert_eq!(step.emit, None);
        assert_eq!(append.stage, AppendStage::Finished);
    }
}

#[test]
fn absent_key_asks_for_the_ingestion() {
    let (mut append, _) = Append::begin("/home/u/report.pdf");
    let step = append.step(AppendReply::Absent);
    assert_eq!(
        step,
        quiet(AppendAction::Ingest {
            key: b"report.pdf\0".to_vec(),
            path: "/home/u/report.pdf".to_string()
        })
    );
    assert_eq!(append.stage, AppendStage::Ingest);
}

#[test]
fn failed_lookup_fails_the_append() {
    let (mut append, _) = Append::begin("/home/u/report.pdf");
    let step = append.step(AppendReply::Failed { cause: "store closed".to_string() });
    let expected = Error::Import {
        failure: ImportFailure::Lookup,
        path: "/home/u/report.pdf".to_string(),
        cause: "store closed".to_string(),
    };
    assert_eq!(expected.message(), "Error when verifing if key is already taken. store closed");
    assert_eq!(step, quiet(AppendAction::Finish(Err(expected))));
    assert_eq!(append.stage, AppendStage::Finished);
}

#[test]
fn failed_ingestion_start_fails_the_append() {
    let (mut append, _) = Append::begin("/home/u/report.pdf");
    append.step(AppendReply::Absent);
    let step = append.step(AppendReply::Failed { cause: "No such file".to_string() });
    let expected = Error::Import {
        failure: ImportFailure::Ingest,
        path: "/home/u/report.pdf".to_string(),
        cause: "No such file".to_string(),
    };
    assert_eq!(
        expected.message(),
        "Got an error when importing the file \"\"/home/u/report.pdf\"\". \"No such file\""
    );
    assert_eq!(step, quiet(AppendAction::Finish(Err(expected))));
    assert_eq!(append.stage, AppendStage::Finished);
}

#[test]
fn started_ingestion_is_polled() {
    let (mut append, _) = Append::begin("/home/u/report.pdf");
    append.step(AppendReply::Absent);
    let step = append.step(AppendReply::Started);
    assert_eq!(step, quiet(AppendAction::Poll));
    assert_eq!(append.stage, AppendStage::Streaming);
}

#[test]
fn progress_events_arrive_in_order() {
    let path = "/home/u/report.pdf";
    let mut append = streaming(path);
    let mut events = Vec::new();
    let mut actions = Vec::new();
    for n in [
        Notification::Found { size: 100, title: "report.pdf".to_string() },
        Notification::Progress { offset: 0 },
        Notification::Progress { offset: 40 },
        Notification::Progress { offset: 40 },
        Notification::Progress { offset: 100 },
        Notification::Done,
        Notification::AllDone,
    ] {
        let step = append.step(note(n));
        assert_eq!(step.log, None);
        events.extend(step.emit);
        actions.push(step.action);
    }
    let id = || path.to_string();
    assert_eq!(
        events,
        vec![
            UiEvent::UploadAppend { id: id(), size: 100, title: "report.pdf".to_string() },
            UiEvent::UploadProgress { id: id(), offset: 0 },
            UiEvent::UploadProgress { id: id(), offset: 40 },
            UiEvent::UploadProgress { id: id(), offset: 40 },
            UiEvent::UploadProgress { id: id(), offset: 100 },
            UiEvent::UploadAllDone { id: id() },
        ]
    );
    assert_eq!(actions.len(), 7);
    for action in &actions[..6] {
        assert_eq!(*action, AppendAction::Poll);
    }
    assert_eq!(actions[6], AppendAction::Finish(Ok(())));
    assert_eq!(append.stage, AppendStage::Finished);
    assert_eq!(append.transfer.phase, Phase::Finished);
    assert_eq!(append.transfer.size, 100);
    assert_eq!(append.transfer.offset, 100);
}

#[test]
fn file_without_progress_has_append_and_completion_only() {
    let mut append = streaming("/tmp/empty");
    let first = append.step(note(Notification::Found { size: 0, title: "empty".to_string() }));
    let second = append.step(note(Notification::Done));
    let third = append.step(note(Notification::AllDone));
    assert_eq!(
        first.emit,
        Some(UiEvent::UploadAppend { id: "/tmp/empty".to_string(), size: 0, title: "empty".to_string() })
    );
    assert_eq!(second.emit, Some(UiEvent::UploadAllDone { id: "/tmp/empty".to_string() }));
    assert_eq!(third, quiet(AppendAction::Finish(Ok(()))));
}

#[test]
fn abort_before_commit_fails_the_append() {
    let mut append = streaming("/home/u/report.pdf");
    append.step(note(Notification::Found { size: 9, title: "report.pdf".to_string() }));
    let step = append.step(note(Notification::Abort { reason: "read error".to_string() }));
    assert_eq!(step.emit, None);
    assert_eq!(step.log, Some("Operation aborted. Error: read error".to_string()));
    assert_eq!(
        step.action,
        AppendAction::Finish(Err(Error::Import {
            failure: ImportFailure::Aborted,
            path: "/home/u/report.pdf".to_string(),
            cause: "read error".to_string(),
        }))
    );
    assert_eq!(append.stage, AppendStage::Finished);
    assert_eq!(append.transfer.phase, Phase::Aborted);
}

#[test]
fn abort_after_ingest_done_still_fails_the_append() {
    let mut append = streaming("/home/u/report.pdf");
    append.step(note(Notification::Found { size: 9, title: "report.pdf".to_string() }));
    append.step(note(Notification::Done));
    let step = append.step(note(Notification::Abort { reason: "commit failed".to_string() }));
    assert!(matches!(
        step.action,
        AppendAction::Finish(Err(Error::Import { failure: ImportFailure::Aborted, .. }))
    ));
}

#[test]
fn failed_stream_counts_as_an_abort() {
    let mut append = streaming("/home/u/report.pdf");
    let step = append.step(AppendReply::Failed { cause: "connection lost".to_string() });
    assert_eq!(step.log, Some("Operation aborted. Error: connection lost".to_string()));
    assert_eq!(
        step.action,
        AppendAction::Finish(Err(Error::Import {
            failure: ImportFailure::Aborted,
            path: "/home/u/report.pdf".to_string(),
            cause: "connection lost".to_string(),
        }))
    );
}

#[test]
fn stream_that_ends_early_ends_the_append_well() {
    let mut append = streaming("/home/u/report.pdf");
    append.step(note(Notification::Found { size: 9, title: "report.pdf".to_string() }));
    let step = append.step(AppendReply::End);
    assert_eq!(step, quiet(AppendAction::Finish(Ok(()))));
    assert_eq!(append.stage, AppendStage::Finished);
}

#[test]
fn reply_out_of_turn_fails_the_append() {
    let (mut append, _) = Append::begin("/home/u/report.pdf");
    let step = append.step(AppendReply::Started);
    let expected = Error::Import {
        failure: ImportFailure::OutOfTurn,
        path: "/home/u/report.pdf".to_string(),
        cause: String::new(),
    };
    assert_eq!(step, quiet(AppendAction::Finish(Err(expected))));
    assert_eq!(append.stage, AppendStage::Finished);

    let (mut append, _) = Append::begin("/home/u/report.pdf");
    append.step(AppendReply::Absent);
    let step = append.step(AppendReply::Absent);
    assert!(matches!(
        step.action,
        AppendAction::Finish(Err(Error::Import { failure: ImportFailure::OutOfTurn, .. }))
    ));

    let mut append = streaming("/home/u/report.pdf");
    let step = append.step(AppendReply::Present);
    assert!(matches!(
        step.action,
        AppendAction::Finish(Err(Error::Import { failure: ImportFailure::OutOfTurn, .. }))
    ));
}
