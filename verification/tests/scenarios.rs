use quick_send::append::{Append, AppendAction, AppendReply};
use quick_send::error::Error;
use quick_send::event::{Notification, UiEvent};
use quick_send::receive::{Receive, ReceiveAction, ReceiveReply};
use quick_send::remove;
use std::collections::BTreeMap;

/// A document held in memory, which answers as the storage engine would.
struct Shelf {
    entries: BTreeMap<Vec<u8>, Vec<u8>>,
}

struct Outcome<T> {
    result: Result<T, Error>,
    events: Vec<UiEvent>,
    logs: Vec<String>,
}

fn stream_of(name: &str, content: &[u8]) -> Vec<Notification> {
    let size = content.len() as u64;
    vec![
        Notification::Found { size, title: name.to_string() },
        Notification::Progress { offset: size / 2 },
        Notification::Progress { offset: size },
        Notification::Done,
        Notification::AllDone,
    ]
}

fn append(shelf: &mut Shelf, path: &str, content: &[u8]) -> Outcome<()> {
    let (mut machine, mut step) = Append::begin(path);
    let mut events = Vec::new();
    let mut logs = Vec::new();
    let mut stream = Vec::new().into_iter();
    loop {
        events.extend(step.emit);
        logs.extend(step.log);
        let reply = match step.action {
            AppendAction::Lookup { key } => {
                if shelf.entries.contains_key(&key) {
                    AppendReply::Present
                } else {
                    AppendReply::Absent
                }
            }
            AppendAction::Ingest { key, path: _ } => {
                let name = machine.name.clone();
                stream = stream_of(&name, content).into_iter();
                shelf.entries.insert(key, content.to_vec());
                AppendReply::Started
            }
            AppendAction::Poll => match stream.next() {
                Some(note) => AppendReply::Note(note),
                None => AppendReply::End,
            },
            AppendAction::Finish(result) => return Outcome { result, events, logs },
        };
        step = machine.step(reply);
    }
}

fn remove_file(shelf: &mut Shelf, path: &str) -> Result<usize, Error> {
    let key = remove::plan(path)?;
    let count = if shelf.entries.remove(&key).is_some() { 1 } else { 0 };
    remove::conclude(path, Ok(count))?;
    Ok(count)
}

fn receive(shelf: &Shelf, directory: &str, files: &mut BTreeMap<String, Vec<u8>>) -> Outcome<String> {
    let (mut machine, mut step) = Receive::begin("ticket");
    let mut events = Vec::new();
    let mut logs = Vec::new();
    let mut entries = shelf.entries.iter();
    let mut current: Option<(&Vec<u8>, &Vec<u8>)> = None;
    let mut stream = Vec::new().into_iter();
    loop {
        events.extend(step.emit);
        logs.extend(step.log);
        let reply = match step.action {
            ReceiveAction::Parse { .. } | ReceiveAction::Join | ReceiveAction::List => ReceiveReply::Ready,
            ReceiveAction::Resolve => ReceiveReply::Directory(Some(directory.to_string())),
            ReceiveAction::Next => {
                current = entries.next();
                match current {
                    Some((key, _)) => ReceiveReply::Entry { key: key.clone() },
                    None => ReceiveReply::End,
                }
            }
            ReceiveAction::Export { dest } => {
                let (_, content) = current.unwrap();
                files.insert(dest, content.clone());
                stream = stream_of("", content).into_iter();
                ReceiveReply::Ready
            }
            ReceiveAction::Poll => match stream.next() {
                Some(note) => ReceiveReply::Note(note),
                None => ReceiveReply::End,
            },
            ReceiveAction::Finish(result) => return Outcome { result, events, logs },
        };
        step = machine.step(reply);
    }
}

#[test]
fn two_files_with_distinct_names_make_two_entries() {
    let mut shelf = Shelf { entries: BTreeMap::new() };
    assert_eq!(append(&mut shelf, "/home/u/a.txt", b"first").result, Ok(()));
    assert_eq!(append(&mut shelf, "/home/u/b.txt", b"second").result, Ok(()));
    assert_eq!(shelf.entries.len(), 2);
    assert_eq!(shelf.entries.get(&b"a.txt\0".to_vec()), Some(&b"first".to_vec()));
    assert_eq!(shelf.entries.get(&b"b.txt\0".to_vec()), Some(&b"second".to_vec()));
}

#[test]
fn duplicate_name_is_refused_and_the_document_is_unchanged() {
    let mut shelf = Shelf { entries: BTreeMap::new() };
    assert_eq!(append(&mut shelf, "/home/u/report.pdf", b"first draft").result, Ok(()));
    let before = shelf.entries.clone();
    let second = append(&mut shelf, "/elsewhere/report.pdf", b"other content");
    assert_eq!(second.result, Err(Error::DuplicateEntry { name: "report.pdf".to_string() }));
    assert_eq!(
        second.result.unwrap_err().message(),
        "Duplicated file name 'report.pdf' is not allowed"
    );
    assert!(second.events.is_empty());
    assert_eq!(shelf.entries, before);
    assert_eq!(shelf.entries.len(), 1);
    assert_eq!(shelf.entries.get(&b"report.pdf\0".to_vec()), Some(&b"first draft".to_vec()));
}

#[test]
fn removing_a_name_that_was_never_added_changes_nothing() {
    let mut shelf = Shelf { entries: BTreeMap::new() };
    append(&mut shelf, "/home/u/kept.txt", b"kept");
    let before = shelf.entries.clone();
    assert_eq!(remove_file(&mut shelf, "/home/u/never-added.txt"), Ok(0));
    assert_eq!(shelf.entries, before);
}

#[test]
fn appended_file_is_received_under_its_name_with_its_content() {
    let content = b"%PDF-1.7 some bytes \x00\xff\x10".to_vec();
    let mut shelf = Shelf { entries: BTreeMap::new() };
    assert_eq!(append(&mut shelf, "/home/alice/docs/report.pdf", &content).result, Ok(()));

    let mut files = BTreeMap::new();
    let outcome = receive(&shelf, "/home/bob/Downloads", &mut files);
    assert_eq!(outcome.result, Ok("Files downloaded at /home/bob/Downloads/quick_send".to_string()));
    assert!(outcome.logs.is_empty());
    assert_eq!(files.len(), 1);
    assert_eq!(files.get("/home/bob/Downloads/quick_send/report.pdf"), Some(&content));
}

#[test]
fn append_emits_its_events_in_order_under_the_path() {
    let mut shelf = Shelf { entries: BTreeMap::new() };
    let path = "/home/u/data.bin";
    let outcome = append(&mut shelf, path, &[7u8; 64]);
    assert_eq!(outcome.result, Ok(()));
    assert!(outcome.logs.is_empty());
    assert_eq!(
        outcome.events,
        vec![
            UiEvent::UploadAppend { id: path.to_string(), size: 64, title: "data.bin".to_string() },
            UiEvent::UploadProgress { id: path.to_string(), offset: 32 },
            UiEvent::UploadProgress { id: path.to_string(), offset: 64 },
            UiEvent::UploadAllDone { id: path.to_string() },
        ]
    );
    let appends = outcome.events.iter().filter(|e| e.name() == "upload-queue-append").count();
    let completions = outcome.events.iter().filter(|e| e.name() == "upload-queue-alldone").count();
    assert_eq!((appends, completions), (1, 1));
    assert!(outcome.events.iter().all(|e| e.id() == path));
    let mut last = 0;
    for event in &outcome.events {
        if let UiEvent::UploadProgress { offset, .. } = event {
            assert!(*offset >= last && *offset <= 64);
            last = *offset;
        }
    }
}

#[test]
fn removed_file_is_not_received() {
    let mut shelf = Shelf { entries: BTreeMap::new() };
    append(&mut shelf, "/home/u/keep.txt", b"keep");
    append(&mut shelf, "/home/u/secret.txt", b"secret");
    assert_eq!(remove_file(&mut shelf, "/somewhere/else/secret.txt"), Ok(1));

    let mut files = BTreeMap::new();
    let outcome = receive(&shelf, "/dl", &mut files);
    assert!(outcome.result.is_ok());
    assert_eq!(files.keys().collect::<Vec<_>>(), vec!["/dl/quick_send/keep.txt"]);
    assert!(outcome.events.iter().all(|e| e.id() != "/dl/quick_send/secret.txt"));
}

#[test]
fn received_batch_shows_each_download_under_its_destination() {
    let mut shelf = Shelf { entries: BTreeMap::new() };
    append(&mut shelf, "/home/u/a.txt", b"aa");
    append(&mut shelf, "/home/u/b.txt", b"bbbb");
    let mut files = BTreeMap::new();
    let outcome = receive(&shelf, "/dl", &mut files);
    let a = || "/dl/quick_send/a.txt".to_string();
    let b = || "/dl/quick_send/b.txt".to_string();
    assert_eq!(
        outcome.events,
        vec![
            UiEvent::DownloadAppend { id: a(), size: 2, name: a() },
            UiEvent::DownloadProgress { id: a(), offset: 1 },
            UiEvent::DownloadProgress { id: a(), offset: 2 },
            UiEvent::DownloadDone { id: a() },
            UiEvent::DownloadAppend { id: b(), size: 4, name: b() },
            UiEvent::DownloadProgress { id: b(), offset: 2 },
            UiEvent::DownloadProgress { id: b(), offset: 4 },
            UiEvent::DownloadDone { id: b() },
        ]
    );
}
