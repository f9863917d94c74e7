use quick_send::error::{Error, ImportFailure, RemovalFailure};

fn text(s: &str) -> String {
    s.to_string()
}

#[test]
fn invalid_path_message() {
    assert_eq!(Error::InvalidPath.message(), "File does not have a name");
}

#[test]
fn state_not_ready_message() {
    assert_eq!(Error::StateNotReady.message(), "The session is not ready");
}

#[test]
fn initialization_message_is_the_cause() {
    let error = Error::Initialization { cause: text("can't get application data directory") };
    assert_eq!(error.message(), "can't get application data directory");
}

#[test]
fn invalid_ticket_message_is_the_cause_verbatim() {
    let error = Error::InvalidTicket { cause: text("wrong prefix, expected doc") };
    assert_eq!(error.message(), "wrong prefix, expected doc");
}

#[test]
fn duplicate_message_names_the_file() {
    let error = Error::DuplicateEntry { name: text("report.pdf") };
    assert_eq!(error.message(), "Duplicated file name 'report.pdf' is not allowed");
}

#[test]
fn import_messages() {
    let fault = |failure| Error::Import { failure, path: text("/tmp/a b.txt"), cause: text("boom") };
    assert_eq!(
        fault(ImportFailure::KeyCodec).message(),
        "Error when converting path to key: boom"
    );
    assert_eq!(
        fault(ImportFailure::Lookup).message(),
        "Error when verifing if key is already taken. boom"
    );
    assert_eq!(
        fault(ImportFailure::Ingest).message(),
        "Got an error when importing the file \"\"/tmp/a b.txt\"\". \"boom\""
    );
    assert_eq!(fault(ImportFailure::Aborted).message(), "Operation aborted. Error: boom");
    assert_eq!(
        fault(ImportFailure::OutOfTurn).message(),
        "Unexpected reply when importing the file \"/tmp/a b.txt\""
    );
}

#[test]
fn import_message_escapes_the_path() {
    let error = Error::Import {
        failure: ImportFailure::Ingest,
        path: text("/tmp/say \"hi\".txt"),
        cause: text("x"),
    };
    assert_eq!(
        error.message(),
        "Got an error when importing the file \"\"/tmp/say \\\"hi\\\".txt\"\". \"x\""
    );
}

#[test]
fn export_message_is_the_cause() {
    assert_eq!(Error::Export { cause: text("Download dir not found") }.message(), "Download dir not found");
}

#[test]
fn removal_messages() {
    let key = Error::Removal { fault: RemovalFailure::KeyCodec, path: text("/x/.."), cause: text("bad") };
    assert_eq!(key.message(), "Error when converting path to key: bad");
    let delete = Error::Removal { fault: RemovalFailure::Delete, path: text("/x/a"), cause: text("gone") };
    assert_eq!(delete.message(), "Error deleting the file from iroh. gone");
}

#[test]
fn ticket_creation_message() {
    let error = Error::TicketCreation { cause: text("network not ready") };
    assert_eq!(error.message(), "Error when creating the ticket. network not ready");
}
