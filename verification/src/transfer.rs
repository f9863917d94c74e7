//! One file on its way: the projection of the engine's notifications that
//! drives the events of a single transfer.
//!
//! A transfer is never stored. It begins when the stream of a file is
//! opened, follows the notifications of that stream, and is over with the
//! notification that ends it; from then on it shows nothing more.

use crate::event::{
    event_view, text_view, event_for, event_of, Direction, Notification, NotificationView,
    UiEvent, UiEventView,
};
use vstd::prelude::*;
use vstd::string::*;

verus! {

/// How far a transfer has come.
#[derive(Clone, Copy, Debug, PartialEq, Eq, Structural)]
pub enum Phase {
    /// No notification has arrived yet.
    Pending,
    /// The engine is working on the file.
    Active,
    /// An upload whose content is stored, and whose entry is not yet
    /// committed.
    Ingested,
    /// The transfer ended well.
    Finished,
    /// The engine gave the transfer up.
    Aborted,
}

impl Phase {
    /// True once nothing more can happen to the transfer.
    pub open spec fn is_over(self) -> bool {
        self is Finished || self is Aborted
    }
}

/// One transfer in flight.
#[derive(Clone, Debug, PartialEq, Eq)]
pub struct Transfer {
    /// The path of the file as text, which names the transfer in every event.
    pub id: String,
    pub direction: Direction,
    pub phase: Phase,
    /// The size in bytes that the engine last reported; 0 before it has.
    pub size: u64,
    /// The offset in bytes that the engine last reported.
    pub offset: u64,
}

/// A [`Transfer`] with its identifier as a sequence of characters.
pub struct TransferView {
    pub id: Seq<char>,
    pub direction: Direction,
    pub phase: Phase,
    pub size: u64,
    pub offset: u64,
}

impl View for Transfer {
    type V = TransferView;

    open spec fn view(&self) -> TransferView {
        TransferView {
            id: self.id@,
            direction: self.direction,
            phase: self.phase,
            size: self.size,
            offset: self.offset,
        }
    }
}

/// What the caller does for one notification: send the event, write the line
/// to the error log, each if there is one.
#[derive(Clone, Debug, PartialEq, Eq)]
pub struct Reaction {
    pub emit: Option<UiEvent>,
    pub log: Option<String>,
}

/// The line that is logged when the engine aborts a transfer.
pub open spec fn abort_line(direction: Direction, reason: Seq<char>) -> Seq<char> {
    match direction {
        Direction::Upload => "Operation aborted. Error: "@ + reason,
        Direction::Download => "Abort: "@ + reason,
    }
}

/// The phase that a notification leads to from a phase that is not over.
pub open spec fn next_phase(direction: Direction, phase: Phase, note: NotificationView) -> Phase {
    match note {
        NotificationView::Found { .. } => Phase::Active,
        NotificationView::Progress { .. } => if phase is Pending {
            Phase::Active
        } else {
            phase
        },
        NotificationView::Done => match direction {
            Direction::Upload => Phase::Ingested,
            Direction::Download => Phase::Finished,
        },
        NotificationView::AllDone => Phase::Finished,
        NotificationView::Abort { .. } => Phase::Aborted,
    }
}

/// True for the notifications that end a transfer of this direction: an
/// abort and `AllDone` end any, `Done` ends a download.
pub open spec fn ends(direction: Direction, note: NotificationView) -> bool {
    match note {
        NotificationView::Abort { .. } => true,
        NotificationView::AllDone => true,
        NotificationView::Done => direction == Direction::Download,
        _ => false,
    }
}

impl TransferView {
    /// A transfer that has seen no notification.
    pub open spec fn fresh(id: Seq<char>, direction: Direction) -> TransferView {
        TransferView { id, direction, phase: Phase::Pending, size: 0, offset: 0 }
    }

    /// The transfer after one notification. A transfer that is over stays
    /// as it is.
    pub open spec fn after(self, note: NotificationView) -> TransferView {
        if self.phase.is_over() {
            self
        } else {
            TransferView {
                phase: next_phase(self.direction, self.phase, note),
                size: match note {
                    NotificationView::Found { size, .. } => size,
                    _ => self.size,
                },
                offset: match note {
                    NotificationView::Found { .. } => 0,
                    NotificationView::Progress { offset } => offset,
                    _ => self.offset,
                },
                ..self
            }
        }
    }

    /// The event that one notification is shown as. A transfer that is over
    /// shows nothing.
    pub open spec fn emits(self, note: NotificationView) -> Option<UiEventView> {
        if self.phase.is_over() {
            None
        } else {
            event_of(self.direction, self.id, note)
        }
    }

    /// The line that one notification is logged with: an abort is logged,
    /// unless the transfer is over already.
    pub open spec fn logs(self, note: NotificationView) -> Option<Seq<char>> {
        match note {
            NotificationView::Abort { reason } if !self.phase.is_over() => Some(
                abort_line(self.direction, reason),
            ),
            _ => None,
        }
    }

    /// The transfer after a run of notifications, first to last.
    pub open spec fn after_all(self, notes: Seq<NotificationView>) -> TransferView
        decreases notes.len(),
    {
        if notes.len() == 0 {
            self
        } else {
            self.after(notes[0]).after_all(notes.drop_first())
        }
    }

    /// The events that a run of notifications is shown as, in their order.
    pub open spec fn events_of(self, notes: Seq<NotificationView>) -> Seq<UiEventView>
        decreases notes.len(),
    {
        if notes.len() == 0 {
            Seq::empty()
        } else {
            let rest = self.after(notes[0]).events_of(notes.drop_first());
            match self.emits(notes[0]) {
                Some(event) => seq![event] + rest,
                None => rest,
            }
        }
    }
}

impl Transfer {
    /// Opens the transfer of the file at `id`.
    pub fn new(id: String, direction: Direction) -> (transfer: Transfer)
        ensures
            transfer@ == TransferView::fresh(id@, direction),
    {
        Transfer { id, direction, phase: Phase::Pending, size: 0, offset: 0 }
    }

    /// True once nothing more can happen to the transfer.
    pub fn is_over(&self) -> (over: bool)
        ensures
            over == self@.phase.is_over(),
    {
        match self.phase {
            Phase::Finished => true,
            Phase::Aborted => true,
            _ => false,
        }
    }

    /// Takes one notification of the engine: moves the transfer on and says
    /// what the caller is to emit and to log for it.
    pub fn observe(&mut self, note: &Notification) -> (reaction: Reaction)
        ensures
            final(self)@ == old(self)@.after(note@),
            event_view(reaction.emit) == old(self)@.emits(note@),
            text_view(reaction.log) == old(self)@.logs(note@),
    {
        if self.is_over() {
            return Reaction { emit: None, log: None };
        }
        let emit = event_for(self.direction, self.id.as_str(), note);
        let mut log: Option<String> = None;
        match note {
            Notification::Found { size, .. } => {
                self.phase = Phase::Active;
                self.size = *size;
                self.offset = 0;
            },
            Notification::Progress { offset } => {
                if let Phase::Pending = self.phase {
                    self.phase = Phase::Active;
                }
                self.offset = *offset;
            },
            Notification::Done => {
                self.phase =
                match self.direction {
                    Direction::Upload => Phase::Ingested,
                    Direction::Download => Phase::Finished,
                };
            },
            Notification::AllDone => {
                self.phase = Phase::Finished;
            },
            Notification::Abort { reason } => {
                self.phase = Phase::Aborted;
                let mut line = match self.direction {
                    Direction::Upload => String::from_str("Operation aborted. Error: "),
                    Direction::Download => String::from_str("Abort: "),
                };
                line.append(reason.as_str());
                log = Some(line);
            },
        }
        Reaction { emit, log }
    }
}

/// A transfer that is over stays as it is and shows nothing, whatever the
/// engine still sends.
pub proof fn lemma_over_is_final(transfer: TransferView, notes: Seq<NotificationView>)
    requires
        transfer.phase.is_over(),
    ensures
        transfer.after_all(notes) == transfer,
        transfer.events_of(notes) == Seq::<UiEventView>::empty(),
    decreases notes.len(),
{
    if notes.len() > 0 {
        lemma_over_is_final(transfer, notes.drop_first());
    }
}

/// A transfer is over exactly from the first notification on that ends it.
pub proof fn lemma_over_when_ended(transfer: TransferView, note: NotificationView)
    requires
        !transfer.phase.is_over(),
    ensures
        transfer.after(note).phase.is_over() <==> ends(transfer.direction, note),
        transfer.after(note).id == transfer.id,
        transfer.after(note).direction == transfer.direction,
{
}

/// A transfer keeps its identifier and its direction, whatever the engine
/// sends.
pub proof fn lemma_same_transfer(transfer: TransferView, notes: Seq<NotificationView>)
    ensures
        transfer.after_all(notes).id == transfer.id,
        transfer.after_all(notes).direction == transfer.direction,
    decreases notes.len(),
{
    if notes.len() > 0 {
        lemma_same_transfer(transfer.after(notes[0]), notes.drop_first());
    }
}

/// The notifications of progress at the given offsets, in their order.
pub open spec fn progress_notes(offsets: Seq<u64>) -> Seq<NotificationView> {
    Seq::new(offsets.len(), |i: int| NotificationView::Progress { offset: offsets[i] })
}

/// The stream of a file that the engine handles without a fault: found with
/// its size, progress at the given offsets, done.
pub open spec fn regular(size: u64, title: Seq<char>, offsets: Seq<u64>) -> Seq<NotificationView> {
    seq![NotificationView::Found { size, title }] + progress_notes(offsets)
        + seq![NotificationView::Done]
}

/// True when the offsets never fall and never pass `size`.
pub open spec fn climbing(offsets: Seq<u64>, size: u64) -> bool {
    &&& forall|i: int| 0 <= i < offsets.len() ==> #[trigger] offsets[i] <= size
    &&& forall|i: int, j: int| 0 <= i <= j < offsets.len() ==> offsets[i] <= offsets[j]
}

/// The event that announces a transfer and its size.
pub open spec fn announced(direction: Direction, id: Seq<char>, size: u64, title: Seq<char>)
    -> UiEventView {
    match direction {
        Direction::Upload => UiEventView::UploadAppend { id, size, title },
        Direction::Download => UiEventView::DownloadAppend { id, size, name: id },
    }
}

/// The event that reports an offset of a transfer.
pub open spec fn advanced(direction: Direction, id: Seq<char>, offset: u64) -> UiEventView {
    match direction {
        Direction::Upload => UiEventView::UploadProgress { id, offset },
        Direction::Download => UiEventView::DownloadProgress { id, offset },
    }
}

/// The event that reports a transfer as complete.
pub open spec fn completed(direction: Direction, id: Seq<char>) -> UiEventView {
    match direction {
        Direction::Upload => UiEventView::UploadAllDone { id },
        Direction::Download => UiEventView::DownloadDone { id },
    }
}

/// The events of progress at the given offsets, in their order.
pub open spec fn progress_events(direction: Direction, id: Seq<char>, offsets: Seq<u64>) -> Seq<
    UiEventView,
> {
    Seq::new(offsets.len(), |i: int| advanced(direction, id, offsets[i]))
}

/// What the user interface is shown of a regular stream: the transfer
/// announced, its progress, its completion.
pub open spec fn shown(
    direction: Direction,
    id: Seq<char>,
    size: u64,
    title: Seq<char>,
    offsets: Seq<u64>,
) -> Seq<UiEventView> {
    seq![announced(direction, id, size, title)] + progress_events(direction, id, offsets)
        + seq![completed(direction, id)]
}

/// True for the event that announces the transfer `id` with this size.
pub open spec fn announces(event: UiEventView, direction: Direction, id: Seq<char>, size: u64)
    -> bool {
    match event {
        UiEventView::UploadAppend { id: i, size: s, .. } => direction == Direction::Upload && i
            == id && s == size,
        UiEventView::DownloadAppend { id: i, size: s, name } => direction == Direction::Download
            && i == id && s == size && name == id,
        _ => false,
    }
}

/// The offset that a progress event of the transfer `id` reports, if the
/// event is one.
pub open spec fn reported(event: UiEventView, direction: Direction, id: Seq<char>) -> Option<u64> {
    match event {
        UiEventView::UploadProgress { id: i, offset } if direction == Direction::Upload && i
            == id => Some(offset),
        UiEventView::DownloadProgress { id: i, offset } if direction == Direction::Download && i
            == id => Some(offset),
        _ => None,
    }
}

/// The order in which the events of one transfer arrive: first the one
/// event that announces it with its size, then any number of progress
/// events whose offsets never fall and never pass the size, last the one
/// event that completes it; all of them under the identifier of the
/// transfer.
pub open spec fn orderly(
    events: Seq<UiEventView>,
    direction: Direction,
    id: Seq<char>,
    size: u64,
) -> bool {
    &&& events.len() >= 2
    &&& announces(events[0], direction, id, size)
    &&& events.last() == completed(direction, id)
    &&& forall|i: int|
        0 < i < events.len() - 1 ==> (#[trigger] reported(events[i], direction, id)) is Some
            && reported(events[i], direction, id)->0 <= size
    &&& forall|i: int, j: int|
        0 < i <= j < events.len() - 1 ==> (#[trigger] reported(events[i], direction, id))->0
            <= (#[trigger] reported(events[j], direction, id))->0
}

/// A run of notifications taken in two parts gives the events of the first
/// part, then those of the second from where the first left the transfer.
pub proof fn lemma_events_in_parts(
    transfer: TransferView,
    first: Seq<NotificationView>,
    second: Seq<NotificationView>,
)
    ensures
        transfer.after_all(first + second) == transfer.after_all(first).after_all(second),
        transfer.events_of(first + second) == transfer.events_of(first) + transfer.after_all(
            first,
        ).events_of(second),
    decreases first.len(),
{
    if first.len() == 0 {
        assert(first + second =~= second);
        assert(transfer.events_of(first) + transfer.events_of(second) =~= transfer.events_of(
            second,
        ));
    } else {
        let whole = first + second;
        assert(whole[0] == first[0]);
        assert(whole.drop_first() =~= first.drop_first() + second);
        let moved = transfer.after(first[0]);
        lemma_events_in_parts(moved, first.drop_first(), second);
        let tail = moved.events_of(first.drop_first());
        let rest = moved.after_all(first.drop_first()).events_of(second);
        match transfer.emits(first[0]) {
            Some(event) => {
                assert(seq![event] + (tail + rest) =~= (seq![event] + tail) + rest);
            },
            None => {},
        }
    }
}

/// Progress on a transfer that is not over is shown offset by offset, and
/// leaves the transfer not over.
pub proof fn lemma_progress_shown(transfer: TransferView, offsets: Seq<u64>)
    requires
        !transfer.phase.is_over(),
    ensures
        transfer.events_of(progress_notes(offsets)) == progress_events(
            transfer.direction,
            transfer.id,
            offsets,
        ),
        !transfer.after_all(progress_notes(offsets)).phase.is_over(),
        transfer.after_all(progress_notes(offsets)).id == transfer.id,
        transfer.after_all(progress_notes(offsets)).direction == transfer.direction,
    decreases offsets.len(),
{
    let notes = progress_notes(offsets);
    if offsets.len() == 0 {
        assert(progress_events(transfer.direction, transfer.id, offsets) =~= Seq::empty());
    } else {
        let moved = transfer.after(notes[0]);
        assert(notes.drop_first() =~= progress_notes(offsets.drop_first()));
        lemma_progress_shown(moved, offsets.drop_first());
        assert(transfer.events_of(notes) =~= progress_events(
            transfer.direction,
            transfer.id,
            offsets,
        ));
    }
}

/// A regular stream is shown as the transfer announced, its progress and
/// its completion, and as nothing else; an `AllDone` behind it adds nothing.
pub proof fn lemma_regular_stream_shown(
    direction: Direction,
    id: Seq<char>,
    size: u64,
    title: Seq<char>,
    offsets: Seq<u64>,
)
    ensures
        TransferView::fresh(id, direction).events_of(regular(size, title, offsets)) == shown(
            direction,
            id,
            size,
            title,
            offsets,
        ),
        TransferView::fresh(id, direction).events_of(
            regular(size, title, offsets) + seq![NotificationView::AllDone],
        ) == shown(direction, id, size, title, offsets),
        TransferView::fresh(id, direction).after_all(
            regular(size, title, offsets) + seq![NotificationView::AllDone],
        ).phase == Phase::Finished,
{
    let fresh = TransferView::fresh(id, direction);
    let found = seq![NotificationView::Found { size, title }];
    let progress = progress_notes(offsets);
    let done = seq![NotificationView::Done];
    let all_done = seq![NotificationView::AllDone];
    let active = fresh.after_all(found);
    assert(active == fresh.after(found[0])) by {
        assert(found.drop_first() =~= Seq::empty());
        assert(fresh.after(found[0]).after_all(found.drop_first()) == fresh.after(found[0]));
    }
    assert(fresh.events_of(found) =~= seq![announced(direction, id, size, title)]) by {
        assert(found.drop_first() =~= Seq::empty());
        assert(fresh.after(found[0]).events_of(found.drop_first()) =~= Seq::empty());
    }
    lemma_progress_shown(active, offsets);
    let busy = active.after_all(progress);
    assert(busy.events_of(done) =~= seq![completed(direction, id)] && busy.after_all(done)
        == busy.after(done[0])) by {
        assert(done.drop_first() =~= Seq::empty());
        assert(busy.after(done[0]).events_of(done.drop_first()) =~= Seq::empty());
        assert(busy.after(done[0]).after_all(done.drop_first()) == busy.after(done[0]));
    }
    lemma_events_in_parts(fresh, found, progress);
    lemma_events_in_parts(fresh, found + progress, done);
    let ended = fresh.after_all(regular(size, title, offsets));
    assert(ended == busy.after(done[0]));
    assert(ended.events_of(all_done) =~= Seq::empty() && ended.after_all(all_done).phase
        == Phase::Finished) by {
        assert(all_done.drop_first() =~= Seq::empty());
        assert(ended.after(all_done[0]).events_of(all_done.drop_first()) =~= Seq::empty());
        assert(ended.after(all_done[0]).after_all(all_done.drop_first()) == ended.after(
            all_done[0],
        ));
    }
    lemma_events_in_parts(fresh, regular(size, title, offsets), all_done);
    assert(shown(direction, id, size, title, offsets) + Seq::<UiEventView>::empty() =~= shown(
        direction,
        id,
        size,
        title,
        offsets,
    ));
}

/// What is shown of a regular stream whose offsets never fall and never
/// pass the size arrives in order.
pub proof fn lemma_regular_stream_orderly(
    direction: Direction,
    id: Seq<char>,
    size: u64,
    title: Seq<char>,
    offsets: Seq<u64>,
)
    requires
        climbing(offsets, size),
    ensures
        orderly(shown(direction, id, size, title, offsets), direction, id, size),
{
    let events = shown(direction, id, size, title, offsets);
    assert(events.len() == offsets.len() + 2);
    assert(events[0] == announced(direction, id, size, title));
    assert forall|i: int| 0 < i < events.len() - 1 implies #[trigger] reported(
        events[i],
        direction,
        id,
    ) == Some(offsets[i - 1]) by {
        assert(events[i] == advanced(direction, id, offsets[i - 1]));
    }
}

} // verus!
