use quick_send::event::{event_for, Direction, Notification, UiEvent};
use quick_send::transfer::{Phase, Reaction, Transfer};

fn found(size: u64, title: &str) -> Notification {
    Notification::Found { size, title: title.to_string() }
}

fn abort(reason: &str) -> Notification {
    Notification::Abort { reason: reason.to_string() }
}

#[test]
fn event_names() {
    let id = || "/tmp/a".to_string();
    assert_eq!(
        UiEvent::DownloadAppend { id: id(), size: 1, name: id() }.name(),
        "download-queue-append"
    );
    assert_eq!(UiEvent::DownloadProgress { id: id(), offset: 1 }.name(), "download-queue-progress");
    assert_eq!(UiEvent::DownloadDone { id: id() }.name(), "download-queue-done");
    assert_eq!(
        UiEvent::UploadAppend { id: id(), size: 1, title: id() }.name(),
        "upload-queue-append"
    );
    assert_eq!(UiEvent::UploadProgress { id: id(), offset: 1 }.name(), "upload-queue-progress");
    assert_eq!(UiEvent::UploadAllDone { id: id() }.name(), "upload-queue-alldone");
}

#[test]
fn event_ids() {
    assert_eq!(UiEvent::DownloadDone { id: "/d/x".to_string() }.id(), "/d/x");
    assert_eq!(UiEvent::UploadProgress { id: "/u/y".to_string(), offset: 3 }.id(), "/u/y");
}

#[test]
fn upload_notifications_become_events() {
    let id = "/home/u/report.pdf";
    assert_eq!(
        event_for(Direction::Upload, id, &found(42, "report.pdf")),
        Some(UiEvent::UploadAppend { id: id.to_string(), size: 42, title: "report.pdf".to_string() })
    );
    assert_eq!(
        event_for(Direction::Upload, id, &Notification::Progress { offset: 7 }),
        Some(UiEvent::UploadProgress { id: id.to_string(), offset: 7 })
    );
    assert_eq!(
        event_for(Direction::Upload, id, &Notification::Done),
        Some(UiEvent::UploadAllDone { id: id.to_string() })
    );
    assert_eq!(event_for(Direction::Upload, id, &Notification::AllDone), None);
    assert_eq!(event_for(Direction::Upload, id, &abort("x")), None);
}

#[test]
fn download_notifications_become_events() {
    let id = "/home/u/Downloads/quick_send/report.pdf";
    assert_eq!(
        event_for(Direction::Download, id, &found(42, "ignored")),
        Some(UiEvent::DownloadAppend { id: id.to_string(), size: 42, name: id.to_string() })
    );
    assert_eq!(
        event_for(Direction::Download, id, &Notification::Progress { offset: 7 }),
        Some(UiEvent::DownloadProgress { id: id.to_string(), offset: 7 })
    );
    assert_eq!(
        event_for(Direction::Download, id, &Notification::Done),
        Some(UiEvent::DownloadDone { id: id.to_string() })
    );
    assert_eq!(event_for(Direction::Download, id, &Notification::AllDone), None);
    assert_eq!(event_for(Direction::Download, id, &abort("x")), None);
}

#[test]
fn new_transfer_is_pending() {
    let transfer = Transfer::new("/tmp/a".to_string(), Direction::Upload);
    assert_eq!(transfer.id, "/tmp/a");
    assert_eq!(transfer.direction, Direction::Upload);
    assert_eq!(transfer.phase, Phase::Pending);
    assert_eq!(transfer.size, 0);
    assert_eq!(transfer.offset, 0);
    assert!(!transfer.is_over());
}

#[test]
fn upload_follows_its_stream() {
    let mut transfer = Transfer::new("/tmp/a".to_string(), Direction::Upload);
    let reaction = transfer.observe(&found(10, "a"));
    assert_eq!(
        reaction,
        Reaction {
            emit: Some(UiEvent::UploadAppend { id: "/tmp/a".to_string(), size: 10, title: "a".to_string() }),
            log: None
        }
    );
    assert_eq!((transfer.phase, transfer.size, transfer.offset), (Phase::Active, 10, 0));
    transfer.observe(&Notification::Progress { offset: 4 });
    assert_eq!((transfer.phase, transfer.size, transfer.offset), (Phase::Active, 10, 4));
    transfer.observe(&Notification::Progress { offset: 10 });
    assert_eq!(transfer.offset, 10);
    let done = transfer.observe(&Notification::Done);
    assert_eq!(done.emit, Some(UiEvent::UploadAllDone { id: "/tmp/a".to_string() }));
    assert_eq!(transfer.phase, Phase::Ingested);
    assert!(!transfer.is_over());
    let all = transfer.observe(&Notification::AllDone);
    assert_eq!(all, Reaction { emit: None, log: None });
    assert_eq!(transfer.phase, Phase::Finished);
    assert!(transfer.is_over());
}

#[test]
fn download_is_over_when_done() {
    let mut transfer = Transfer::new("/d/a".to_string(), Direction::Download);
    transfer.observe(&found(3, ""));
    let done = transfer.observe(&Notification::Done);
    assert_eq!(done.emit, Some(UiEvent::DownloadDone { id: "/d/a".to_string() }));
    assert_eq!(transfer.phase, Phase::Finished);
    assert!(transfer.is_over());
}

#[test]
fn progress_before_found_activates_the_transfer() {
    let mut transfer = Transfer::new("/d/a".to_string(), Direction::Download);
    let reaction = transfer.observe(&Notification::Progress { offset: 5 });
    assert_eq!(reaction.emit, Some(UiEvent::DownloadProgress { id: "/d/a".to_string(), offset: 5 }));
    assert_eq!((transfer.phase, transfer.offset), (Phase::Active, 5));
}

#[test]
fn abort_is_logged_and_ends_the_transfer() {
    let mut upload = Transfer::new("/u/a".to_string(), Direction::Upload);
    let reaction = upload.observe(&abort("disk full"));
    assert_eq!(
        reaction,
        Reaction { emit: None, log: Some("Operation aborted. Error: disk full".to_string()) }
    );
    assert_eq!(upload.phase, Phase::Aborted);
    assert!(upload.is_over());

    let mut download = Transfer::new("/d/a".to_string(), Direction::Download);
    let reaction = download.observe(&abort("disk full"));
    assert_eq!(reaction, Reaction { emit: None, log: Some("Abort: disk full".to_string()) });
    assert_eq!(download.phase, Phase::Aborted);
}

#[test]
fn transfer_that_is_over_shows_nothing_more() {
    let mut transfer = Transfer::new("/u/a".to_string(), Direction::Upload);
    transfer.observe(&found(9, "a"));
    transfer.observe(&abort("gone"));
    let before = transfer.clone();
    for note in [found(1, "b"), Notification::Progress { offset: 1 }, Notification::Done, Notification::AllDone, abort("again")] {
        assert_eq!(transfer.observe(&note), Reaction { emit: None, log: None });
        assert_eq!(transfer, before);
    }
}
