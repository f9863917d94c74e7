//! The notifications that the storage engine sends while it ingests or
//! exports a file, and the events that the user interface is given for them.
//!
//! Every event carries the identifier of its transfer, so that a consumer can
//! tell the events of files that progress side by side apart.

use vstd::prelude::*;
use vstd::string::*;

verus! {

/// The way a file travels.
#[derive(Clone, Copy, Debug, PartialEq, Eq, Structural)]
pub enum Direction {
    /// From a local file into the document.
    Upload,
    /// From the document to a local file.
    Download,
}

/// One progress notification of the engine. Ingestion and export report in
/// the same shape.
#[derive(Clone, Debug, PartialEq, Eq)]
pub enum Notification {
    /// The file was found; its size is known from here on.
    Found { size: u64, title: String },
    /// So many bytes have been handled.
    Progress { offset: u64 },
    /// The content is complete.
    Done,
    /// The engine has nothing more to do for this file.
    AllDone,
    /// The engine gave up.
    Abort { reason: String },
}

/// A [`Notification`] with its texts as sequences of characters.
pub enum NotificationView {
    Found { size: u64, title: Seq<char> },
    Progress { offset: u64 },
    Done,
    AllDone,
    Abort { reason: Seq<char> },
}

impl View for Notification {
    type V = NotificationView;

    open spec fn view(&self) -> NotificationView {
        match self {
            Notification::Found { size, title } => NotificationView::Found {
                size: *size,
                title: title@,
            },
            Notification::Progress { offset } => NotificationView::Progress { offset: *offset },
            Notification::Done => NotificationView::Done,
            Notification::AllDone => NotificationView::AllDone,
            Notification::Abort { reason } => NotificationView::Abort { reason: reason@ },
        }
    }
}

/// One event for the user interface.
#[derive(Clone, Debug, PartialEq, Eq)]
pub enum UiEvent {
    /// A download was found and has this size.
    DownloadAppend { id: String, size: u64, name: String },
    /// A download has reached this offset.
    DownloadProgress { id: String, offset: u64 },
    /// A download is complete.
    DownloadDone { id: String },
    /// An upload was found and has this size.
    UploadAppend { id: String, size: u64, title: String },
    /// An upload has reached this offset.
    UploadProgress { id: String, offset: u64 },
    /// An upload is complete.
    UploadAllDone { id: String },
}

/// A [`UiEvent`] with its texts as sequences of characters.
pub enum UiEventView {
    DownloadAppend { id: Seq<char>, size: u64, name: Seq<char> },
    DownloadProgress { id: Seq<char>, offset: u64 },
    DownloadDone { id: Seq<char> },
    UploadAppend { id: Seq<char>, size: u64, title: Seq<char> },
    UploadProgress { id: Seq<char>, offset: u64 },
    UploadAllDone { id: Seq<char> },
}

impl View for UiEvent {
    type V = UiEventView;

    open spec fn view(&self) -> UiEventView {
        match self {
            UiEvent::DownloadAppend { id, size, name } => UiEventView::DownloadAppend {
                id: id@,
                size: *size,
                name: name@,
            },
            UiEvent::DownloadProgress { id, offset } => UiEventView::DownloadProgress {
                id: id@,
                offset: *offset,
            },
            UiEvent::DownloadDone { id } => UiEventView::DownloadDone { id: id@ },
            UiEvent::UploadAppend { id, size, title } => UiEventView::UploadAppend {
                id: id@,
                size: *size,
                title: title@,
            },
            UiEvent::UploadProgress { id, offset } => UiEventView::UploadProgress {
                id: id@,
                offset: *offset,
            },
            UiEvent::UploadAllDone { id } => UiEventView::UploadAllDone { id: id@ },
        }
    }
}

impl UiEventView {
    /// The name under which the event is sent.
    pub open spec fn name(self) -> Seq<char> {
        match self {
            UiEventView::DownloadAppend { .. } => "download-queue-append"@,
            UiEventView::DownloadProgress { .. } => "download-queue-progress"@,
            UiEventView::DownloadDone { .. } => "download-queue-done"@,
            UiEventView::UploadAppend { .. } => "upload-queue-append"@,
            UiEventView::UploadProgress { .. } => "upload-queue-progress"@,
            UiEventView::UploadAllDone { .. } => "upload-queue-alldone"@,
        }
    }

    /// The identifier of the transfer that the event belongs to.
    pub open spec fn id(self) -> Seq<char> {
        match self {
            UiEventView::DownloadAppend { id, .. } => id,
            UiEventView::DownloadProgress { id, .. } => id,
            UiEventView::DownloadDone { id } => id,
            UiEventView::UploadAppend { id, .. } => id,
            UiEventView::UploadProgress { id, .. } => id,
            UiEventView::UploadAllDone { id } => id,
        }
    }

    /// The direction of the transfer that the event belongs to.
    pub open spec fn direction(self) -> Direction {
        match self {
            UiEventView::DownloadAppend { .. } => Direction::Download,
            UiEventView::DownloadProgress { .. } => Direction::Download,
            UiEventView::DownloadDone { .. } => Direction::Download,
            UiEventView::UploadAppend { .. } => Direction::Upload,
            UiEventView::UploadProgress { .. } => Direction::Upload,
            UiEventView::UploadAllDone { .. } => Direction::Upload,
        }
    }
}

impl UiEvent {
    /// The name under which the event is sent to the user interface.
    pub fn name(&self) -> (name: &'static str)
        ensures
            name@ == self@.name(),
    {
        match self {
            UiEvent::DownloadAppend { .. } => "download-queue-append",
            UiEvent::DownloadProgress { .. } => "download-queue-progress",
            UiEvent::DownloadDone { .. } => "download-queue-done",
            UiEvent::UploadAppend { .. } => "upload-queue-append",
            UiEvent::UploadProgress { .. } => "upload-queue-progress",
            UiEvent::UploadAllDone { .. } => "upload-queue-alldone",
        }
    }

    /// The identifier of the transfer that the event belongs to.
    pub fn id(&self) -> (id: &String)
        ensures
            id@ == self@.id(),
    {
        match self {
            UiEvent::DownloadAppend { id, .. } => id,
            UiEvent::DownloadProgress { id, .. } => id,
            UiEvent::DownloadDone { id } => id,
            UiEvent::UploadAppend { id, .. } => id,
            UiEvent::UploadProgress { id, .. } => id,
            UiEvent::UploadAllDone { id } => id,
        }
    }
}

/// The event that a notification becomes for the transfer `id`, if it
/// becomes one. `AllDone` and `Abort` are not shown to the user interface. A
/// download has no title of its own: its event is named by the identifier.
pub open spec fn event_of(direction: Direction, id: Seq<char>, note: NotificationView) -> Option<
    UiEventView,
> {
    match (direction, note) {
        (Direction::Upload, NotificationView::Found { size, title }) => Some(
            UiEventView::UploadAppend { id, size, title },
        ),
        (Direction::Upload, NotificationView::Progress { offset }) => Some(
            UiEventView::UploadProgress { id, offset },
        ),
        (Direction::Upload, NotificationView::Done) => Some(UiEventView::UploadAllDone { id }),
        (Direction::Download, NotificationView::Found { size, title }) => Some(
            UiEventView::DownloadAppend { id, size, name: id },
        ),
        (Direction::Download, NotificationView::Progress { offset }) => Some(
            UiEventView::DownloadProgress { id, offset },
        ),
        (Direction::Download, NotificationView::Done) => Some(UiEventView::DownloadDone { id }),
        (_, NotificationView::AllDone) => None,
        (_, NotificationView::Abort { .. }) => None,
    }
}

/// The view of an event that may be absent.
pub open spec fn event_view(event: Option<UiEvent>) -> Option<UiEventView> {
    match event {
        Some(event) => Some(event@),
        None => None,
    }
}

/// The view of a text that may be absent.
pub open spec fn text_view(text: Option<String>) -> Option<Seq<char>> {
    match text {
        Some(text) => Some(text@),
        None => None,
    }
}

/// Turns one notification into the event for the transfer `id`.
pub fn event_for(direction: Direction, id: &str, note: &Notification) -> (event: Option<UiEvent>)
    ensures
        event_view(event) == event_of(direction, id@, note@),
{
    match note {
        Notification::Found { size, title } => match direction {
            Direction::Upload => Some(
                UiEvent::UploadAppend {
                    id: String::from_str(id),
                    size: *size,
                    title: title.clone(),
                },
            ),
            Direction::Download => Some(
                UiEvent::DownloadAppend {
                    id: String::from_str(id),
                    size: *size,
                    name: String::from_str(id),
                },
            ),
        },
        Notification::Progress { offset } => match direction {
            Direction::Upload => Some(
                UiEvent::UploadProgress { id: String::from_str(id), offset: *offset },
            ),
            Direction::Download => Some(
                UiEvent::DownloadProgress { id: String::from_str(id), offset: *offset },
            ),
        },
        Notification::Done => match direction {
            Direction::Upload => Some(UiEvent::UploadAllDone { id: String::from_str(id) }),
            Direction::Download => Some(UiEvent::DownloadDone { id: String::from_str(id) }),
        },
        Notification::AllDone => None,
        Notification::Abort { .. } => None,
    }
}

/// Every event names the transfer it was made for, and travels in its
/// direction.
pub proof fn lemma_event_keeps_id(direction: Direction, id: Seq<char>, note: NotificationView)
    ensures
        event_of(direction, id, note) matches Some(event) ==> event.id() == id
            && event.direction() == direction,
{
}

} // verus!
