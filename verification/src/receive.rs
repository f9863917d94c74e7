//! The export pipeline: receiving the files of a shared document.
//!
//! A receive is a state machine like an append. It has the ticket parsed and
//! the document joined, resolves the directory that the files go to, and
//! then takes the entries of the document one by one: each is given a
//! destination under that directory and exported there, its notifications
//! shown as the events of one download. What goes wrong with a single entry
//! is logged and the receive goes on to the next; only what goes wrong
//! before the first entry fails the receive as a whole.
//!
//! An export that the engine aborts may have written part of the file. The
//! receive leaves what is at the destination as it is: it asks for no
//! clean-up, and the next receive of the same entry writes the file anew.
//! Nor does a receive give up on a peer that does not answer: it waits for
//! the reply to each action for as long as the caller does.

use crate::error::{Error, ErrorView};
use crate::event::{
    event_view, text_view, Direction, Notification, NotificationView, UiEvent, UiEventView,
};
use crate::key::{display_name, name_of};
use crate::path::{join, joined};
use crate::transfer::{
    climbing, ends, lemma_events_in_parts, lemma_over_when_ended, lemma_regular_stream_orderly,
    lemma_regular_stream_shown, lemma_same_transfer, orderly, progress_notes, regular, shown,
    Transfer, TransferView,
};
use vstd::prelude::*;
use vstd::string::*;

verus! {

/// What a receive is waiting for.
#[derive(Clone, Copy, Debug, PartialEq, Eq, Structural)]
pub enum ReceiveStage {
    /// The answer to whether the ticket text parses.
    Ticket,
    /// The answer to whether the document of the ticket was joined.
    Join,
    /// The download directory of the platform.
    Directory,
    /// The answer to whether the entries can be listed.
    Listing,
    /// The next entry of the document.
    Entries,
    /// The answer to whether the export of the current entry began.
    Export,
    /// The next notification of the current export.
    Streaming,
    /// Nothing: the receive has given its result.
    Finished,
}

/// One receive in progress.
#[derive(Debug, PartialEq, Eq)]
pub struct Receive {
    /// The ticket text, as the command gave it.
    pub ticket: String,
    /// The directory that the files go to; empty until it is resolved.
    pub output: String,
    pub stage: ReceiveStage,
    /// The download of the current entry.
    pub transfer: Transfer,
}

/// What the caller reports back to a receive.
#[derive(Debug, PartialEq, Eq)]
pub enum ReceiveReply {
    /// What was asked for has been done.
    Ready,
    /// The engine failed at what it was asked.
    Failed { cause: String },
    /// The download directory of the platform, if it has one.
    Directory(Option<String>),
    /// The next entry of the document, by its key.
    Entry { key: Vec<u8> },
    /// The export sent a notification.
    Note(Notification),
    /// The document has no more entries, or the export no more
    /// notifications.
    End,
}

/// What a receive asks its caller to do next.
#[derive(Debug, PartialEq, Eq)]
pub enum ReceiveAction {
    /// Parse the ticket text, and answer `Ready` or `Failed`.
    Parse { ticket: String },
    /// Join the document of the parsed ticket, and answer `Ready` or
    /// `Failed`.
    Join,
    /// Resolve the download directory of the platform, and answer
    /// `Directory`.
    Resolve,
    /// Open the list of all entries of the document, and answer `Ready` or
    /// `Failed`.
    List,
    /// Take the next entry of the list, and answer `Entry`, `End` or, for an
    /// entry that cannot be read, `Failed`.
    Next,
    /// Begin exporting the content of the current entry to `dest`, as a
    /// copy, and answer `Ready` or `Failed`.
    Export { dest: String },
    /// Take the next notification of the export, and answer `Note`, `End`
    /// or, where the stream itself failed, `Failed`.
    Poll,
    /// Answer the command with this result. Nothing more is to be done.
    Finish(Result<String, Error>),
}

/// One step of a receive: an event to send and a line to log, each if there
/// is one, and then the action to perform.
#[derive(Debug, PartialEq, Eq)]
pub struct ReceiveStep {
    pub emit: Option<UiEvent>,
    pub log: Option<String>,
    pub action: ReceiveAction,
}

/// A [`Receive`] with its texts as sequences.
pub struct ReceiveView {
    pub ticket: Seq<char>,
    pub output: Seq<char>,
    pub stage: ReceiveStage,
    pub transfer: TransferView,
}

/// A [`ReceiveReply`] with its texts as sequences.
pub enum ReceiveReplyView {
    Ready,
    Failed { cause: Seq<char> },
    Directory(Option<Seq<char>>),
    Entry { key: Seq<u8> },
    Note(NotificationView),
    End,
}

/// A [`ReceiveAction`] with its texts as sequences.
pub enum ReceiveActionView {
    Parse { ticket: Seq<char> },
    Join,
    Resolve,
    List,
    Next,
    Export { dest: Seq<char> },
    Poll,
    Finish(Result<Seq<char>, ErrorView>),
}

/// A [`ReceiveStep`] with its texts as sequences.
pub struct ReceiveStepView {
    pub emit: Option<UiEventView>,
    pub log: Option<Seq<char>>,
    pub action: ReceiveActionView,
}

impl View for Receive {
    type V = ReceiveView;

    open spec fn view(&self) -> ReceiveView {
        ReceiveView {
            ticket: self.ticket@,
            output: self.output@,
            stage: self.stage,
            transfer: self.transfer@,
        }
    }
}

impl View for ReceiveReply {
    type V = ReceiveReplyView;

    open spec fn view(&self) -> ReceiveReplyView {
        match self {
            ReceiveReply::Ready => ReceiveReplyView::Ready,
            ReceiveReply::Failed { cause } => ReceiveReplyView::Failed { cause: cause@ },
            ReceiveReply::Directory(directory) => ReceiveReplyView::Directory(
                text_view(*directory),
            ),
            ReceiveReply::Entry { key } => ReceiveReplyView::Entry { key: key@ },
            ReceiveReply::Note(note) => ReceiveReplyView::Note(note@),
            ReceiveReply::End => ReceiveReplyView::End,
        }
    }
}

impl View for ReceiveAction {
    type V = ReceiveActionView;

    open spec fn view(&self) -> ReceiveActionView {
        match self {
            ReceiveAction::Parse { ticket } => ReceiveActionView::Parse { ticket: ticket@ },
            ReceiveAction::Join => ReceiveActionView::Join,
            ReceiveAction::Resolve => ReceiveActionView::Resolve,
            ReceiveAction::List => ReceiveActionView::List,
            ReceiveAction::Next => ReceiveActionView::Next,
            ReceiveAction::Export { dest } => ReceiveActionView::Export { dest: dest@ },
            ReceiveAction::Poll => ReceiveActionView::Poll,
            ReceiveAction::Finish(Ok(summary)) => ReceiveActionView::Finish(Ok(summary@)),
            ReceiveAction::Finish(Err(error)) => ReceiveActionView::Finish(Err(error@)),
        }
    }
}

impl View for ReceiveStep {
    type V = ReceiveStepView;

    open spec fn view(&self) -> ReceiveStepView {
        ReceiveStepView {
            emit: event_view(self.emit),
            log: text_view(self.log),
            action: self.action@,
        }
    }
}

/// The name of the folder, under the download directory, that received
/// files go to.
pub open spec fn folder() -> Seq<char> {
    "quick_send"@
}

/// What a receive answers when it is done.
pub open spec fn summary(output: Seq<char>) -> Seq<char> {
    "Files downloaded at "@ + output
}

impl ReceiveStepView {
    /// A step that sends and logs nothing.
    pub open spec fn quiet(action: ReceiveActionView) -> ReceiveStepView {
        ReceiveStepView { emit: None, log: None, action }
    }

    /// A step that logs one line and sends nothing.
    pub open spec fn logged(line: Seq<char>, action: ReceiveActionView) -> ReceiveStepView {
        ReceiveStepView { emit: None, log: Some(line), action }
    }
}

impl ReceiveView {
    /// What holds of every receive that was begun and stepped: its transfer
    /// is a download, which is not over while the receive waits for the
    /// export to begin or to report.
    pub open spec fn well_formed(self) -> bool {
        &&& self.transfer.direction == Direction::Download
        &&& self.stage == ReceiveStage::Export || self.stage == ReceiveStage::Streaming
            ==> !self.transfer.phase.is_over()
    }

    /// Where a receive starts: it asks for the ticket to be parsed.
    pub open spec fn begun(ticket: Seq<char>) -> (ReceiveView, ReceiveStepView) {
        (
            ReceiveView {
                ticket,
                output: Seq::empty(),
                stage: ReceiveStage::Ticket,
                transfer: TransferView::fresh(Seq::empty(), Direction::Download),
            },
            ReceiveStepView::quiet(ReceiveActionView::Parse { ticket }),
        )
    }

    /// The receive at another stage.
    pub open spec fn at(self, stage: ReceiveStage) -> ReceiveView {
        ReceiveView { stage, ..self }
    }

    /// The receive, finished, and the step that answers the command with
    /// `error`.
    pub open spec fn failed(self, error: ErrorView) -> (ReceiveView, ReceiveStepView) {
        (
            self.at(ReceiveStage::Finished),
            ReceiveStepView::quiet(ReceiveActionView::Finish(Err(error))),
        )
    }

    /// The receive on its way to the next entry, the failure of the current
    /// one logged.
    pub open spec fn skipped(self, cause: Seq<char>) -> (ReceiveView, ReceiveStepView) {
        (
            self.at(ReceiveStage::Entries),
            ReceiveStepView::logged(cause, ReceiveActionView::Next),
        )
    }

    /// What an entry leads to: its name is recovered from its key, its
    /// destination is that name under the output directory, and the
    /// destination names the download.
    pub open spec fn entered(self, key: Seq<u8>) -> (ReceiveView, ReceiveStepView) {
        let dest = joined(self.output, name_of(key));
        (
            ReceiveView {
                stage: ReceiveStage::Export,
                transfer: TransferView::fresh(dest, Direction::Download),
                ..self
            },
            ReceiveStepView::quiet(ReceiveActionView::Export { dest }),
        )
    }

    /// What a notification of the current export leads to.
    ///
    /// The event and the log line are those of the download. The
    /// notification that ends the download, well or not, sends the receive
    /// on to the next entry; after any other it polls on.
    pub open spec fn noted(self, note: NotificationView) -> (ReceiveView, ReceiveStepView) {
        let transfer = self.transfer.after(note);
        let emit = self.transfer.emits(note);
        let log = self.transfer.logs(note);
        if transfer.phase.is_over() {
            (
                ReceiveView { stage: ReceiveStage::Entries, transfer, ..self },
                ReceiveStepView { emit, log, action: ReceiveActionView::Next },
            )
        } else {
            (
                ReceiveView { transfer, ..self },
                ReceiveStepView { emit, log, action: ReceiveActionView::Poll },
            )
        }
    }

    /// The receive after a reply, and the step that it asks for.
    ///
    /// A reply that the stage does not wait for ends the receive with a
    /// failure.
    pub open spec fn next(self, reply: ReceiveReplyView) -> (ReceiveView, ReceiveStepView) {
        match (self.stage, reply) {
            (ReceiveStage::Ticket, ReceiveReplyView::Ready) => (
                self.at(ReceiveStage::Join),
                ReceiveStepView::quiet(ReceiveActionView::Join),
            ),
            (ReceiveStage::Ticket, ReceiveReplyView::Failed { cause }) => self.failed(
                ErrorView::InvalidTicket { cause },
            ),
            (ReceiveStage::Join, ReceiveReplyView::Ready) => (
                self.at(ReceiveStage::Directory),
                ReceiveStepView::quiet(ReceiveActionView::Resolve),
            ),
            (ReceiveStage::Join, ReceiveReplyView::Failed { cause }) => self.failed(
                ErrorView::Export { cause },
            ),
            (ReceiveStage::Directory, ReceiveReplyView::Directory(Some(directory))) => (
                ReceiveView {
                    output: joined(directory, folder()),
                    stage: ReceiveStage::Listing,
                    ..self
                },
                ReceiveStepView::quiet(ReceiveActionView::List),
            ),
            (ReceiveStage::Directory, ReceiveReplyView::Directory(None)) => self.failed(
                ErrorView::Export { cause: "Download dir not found"@ },
            ),
            (ReceiveStage::Listing, ReceiveReplyView::Ready) => (
                self.at(ReceiveStage::Entries),
                ReceiveStepView::quiet(ReceiveActionView::Next),
            ),
            (ReceiveStage::Listing, ReceiveReplyView::Failed { cause }) => self.failed(
                ErrorView::Export { cause },
            ),
            (ReceiveStage::Entries, ReceiveReplyView::Entry { key }) => self.entered(key),
            (ReceiveStage::Entries, ReceiveReplyView::Failed { cause }) => self.skipped(cause),
            (ReceiveStage::Entries, ReceiveReplyView::End) => (
                self.at(ReceiveStage::Finished),
                ReceiveStepView::quiet(ReceiveActionView::Finish(Ok(summary(self.output)))),
            ),
            (ReceiveStage::Export, ReceiveReplyView::Ready) => (
                self.at(ReceiveStage::Streaming),
                ReceiveStepView::quiet(ReceiveActionView::Poll),
            ),
            (ReceiveStage::Export, ReceiveReplyView::Failed { cause }) => self.skipped(cause),
            (ReceiveStage::Streaming, ReceiveReplyView::Note(note)) => self.noted(note),
            (ReceiveStage::Streaming, ReceiveReplyView::Failed { cause }) => self.noted(
                NotificationView::Abort { reason: cause },
            ),
            (ReceiveStage::Streaming, ReceiveReplyView::End) => (
                self.at(ReceiveStage::Entries),
                ReceiveStepView::quiet(ReceiveActionView::Next),
            ),
            _ => self.failed(ErrorView::Export { cause: "Unexpected reply"@ }),
        }
    }
}

impl ReceiveView {
    /// The receive after a run of replies, first to last.
    pub open spec fn after_all(self, replies: Seq<ReceiveReplyView>) -> ReceiveView
        decreases replies.len(),
    {
        if replies.len() == 0 {
            self
        } else {
            self.next(replies[0]).0.after_all(replies.drop_first())
        }
    }

    /// The steps that the receive asks for over a run of replies, one for
    /// each reply.
    pub open spec fn steps_of(self, replies: Seq<ReceiveReplyView>) -> Seq<ReceiveStepView>
        decreases replies.len(),
    {
        if replies.len() == 0 {
            Seq::empty()
        } else {
            seq![self.next(replies[0]).1] + self.next(replies[0]).0.steps_of(
                replies.drop_first(),
            )
        }
    }
}

/// The events that a run of steps sends, in their order.
pub open spec fn events_in(steps: Seq<ReceiveStepView>) -> Seq<UiEventView>
    decreases steps.len(),
{
    if steps.len() == 0 {
        Seq::empty()
    } else {
        match steps[0].emit {
            Some(event) => seq![event] + events_in(steps.drop_first()),
            None => events_in(steps.drop_first()),
        }
    }
}

/// The notifications of an export as the replies that carry them.
pub open spec fn noted_replies(notes: Seq<NotificationView>) -> Seq<ReceiveReplyView> {
    Seq::new(notes.len(), |i: int| ReceiveReplyView::Note(notes[i]))
}

/// The replies of one entry that is exported without a fault: the entry,
/// the export begun, the file found, its progress, and done.
pub open spec fn entry_replies(key: Seq<u8>, size: u64, title: Seq<char>, offsets: Seq<u64>)
    -> Seq<ReceiveReplyView> {
    seq![ReceiveReplyView::Entry { key }, ReceiveReplyView::Ready] + noted_replies(
        regular(size, title, offsets),
    )
}

/// One entry of a document together with the stream of its export: the key
/// of the entry, and the size, title and offsets that the engine reports.
pub struct Delivery {
    pub key: Seq<u8>,
    pub size: u64,
    pub title: Seq<char>,
    pub offsets: Seq<u64>,
}

/// The replies of a batch of entries, each exported without a fault, one
/// entry after the other.
pub open spec fn batch_replies(batch: Seq<Delivery>) -> Seq<ReceiveReplyView>
    decreases batch.len(),
{
    if batch.len() == 0 {
        Seq::empty()
    } else {
        entry_replies(batch[0].key, batch[0].size, batch[0].title, batch[0].offsets)
            + batch_replies(batch.drop_first())
    }
}

/// What the user interface is shown of such a batch: the downloads one
/// after the other, each under its destination in the output directory.
pub open spec fn batch_events(output: Seq<char>, batch: Seq<Delivery>) -> Seq<UiEventView>
    decreases batch.len(),
{
    if batch.len() == 0 {
        Seq::empty()
    } else {
        shown(
            Direction::Download,
            joined(output, name_of(batch[0].key)),
            batch[0].size,
            batch[0].title,
            batch[0].offsets,
        ) + batch_events(output, batch.drop_first())
    }
}

/// True while the receive is taking the entries of the document.
pub open spec fn in_batch(stage: ReceiveStage) -> bool {
    stage == ReceiveStage::Entries || stage == ReceiveStage::Export || stage
        == ReceiveStage::Streaming
}

impl Receive {
    /// Starts the receive of the document that `ticket` names.
    pub fn begin(ticket: &str) -> (started: (Receive, ReceiveStep))
        ensures
            (started.0@, started.1@) == ReceiveView::begun(ticket@),
            started.0@.well_formed(),
    {
        let receive = Receive {
            ticket: String::from_str(ticket),
            output: String::new(),
            stage: ReceiveStage::Ticket,
            transfer: Transfer::new(String::new(), Direction::Download),
        };
        let action = ReceiveAction::Parse { ticket: String::from_str(ticket) };
        (receive, ReceiveStep { emit: None, log: None, action })
    }

    /// Moves to `stage` and asks for `action`, with nothing to send or log.
    fn go(&mut self, stage: ReceiveStage, action: ReceiveAction) -> (step: ReceiveStep)
        ensures
            final(self)@ == old(self)@.at(stage),
            step@ == ReceiveStepView::quiet(action@),
    {
        self.stage = stage;
        ReceiveStep { emit: None, log: None, action }
    }

    /// Finishes the receive and answers the command with `error`.
    fn fail(&mut self, error: Error) -> (step: ReceiveStep)
        ensures
            (final(self)@, step@) == old(self)@.failed(error@),
    {
        self.go(ReceiveStage::Finished, ReceiveAction::Finish(Err(error)))
    }

    /// Logs the failure of the current entry and goes on to the next.
    fn skip(&mut self, cause: String) -> (step: ReceiveStep)
        ensures
            (final(self)@, step@) == old(self)@.skipped(cause@),
    {
        self.stage = ReceiveStage::Entries;
        ReceiveStep { emit: None, log: Some(cause), action: ReceiveAction::Next }
    }

    /// Takes an entry of the document.
    fn enter(&mut self, key: Vec<u8>) -> (step: ReceiveStep)
        ensures
            (final(self)@, step@) == old(self)@.entered(key@),
    {
        let name = display_name(key.as_slice());
        let dest = join(self.output.as_str(), name.as_str());
        self.transfer = Transfer::new(dest.clone(), Direction::Download);
        self.stage = ReceiveStage::Export;
        ReceiveStep { emit: None, log: None, action: ReceiveAction::Export { dest } }
    }

    /// Takes a notification of the current export.
    fn note(&mut self, note: Notification) -> (step: ReceiveStep)
        ensures
            (final(self)@, step@) == old(self)@.noted(note@),
    {
        let reaction = self.transfer.observe(&note);
        if self.transfer.is_over() {
            self.stage = ReceiveStage::Entries;
            ReceiveStep { emit: reaction.emit, log: reaction.log, action: ReceiveAction::Next }
        } else {
            ReceiveStep { emit: reaction.emit, log: reaction.log, action: ReceiveAction::Poll }
        }
    }

    /// Ends the receive on a reply that it was not waiting for.
    fn out_of_turn(&mut self) -> (step: ReceiveStep)
        ensures
            (final(self)@, step@) == old(self)@.failed(
                ErrorView::Export { cause: "Unexpected reply"@ },
            ),
    {
        self.fail(Error::Export { cause: String::from_str("Unexpected reply") })
    }

    /// Takes the reply to the action that the last step asked for, and says
    /// what to do next.
    pub fn step(&mut self, reply: ReceiveReply) -> (step: ReceiveStep)
        ensures
            (final(self)@, step@) == old(self)@.next(reply@),
            old(self)@.well_formed() ==> final(self)@.well_formed(),
    {
        proof {
            if old(self)@.well_formed() {
                lemma_next_keeps_well_formed(old(self)@, reply@);
            }
        }
        match self.stage {
            ReceiveStage::Ticket => match reply {
                ReceiveReply::Ready => self.go(ReceiveStage::Join, ReceiveAction::Join),
                ReceiveReply::Failed { cause } => self.fail(Error::InvalidTicket { cause }),
                _ => self.out_of_turn(),
            },
            ReceiveStage::Join => match reply {
                ReceiveReply::Ready => self.go(ReceiveStage::Directory, ReceiveAction::Resolve),
                ReceiveReply::Failed { cause } => self.fail(Error::Export { cause }),
                _ => self.out_of_turn(),
            },
            ReceiveStage::Directory => match reply {
                ReceiveReply::Directory(Some(directory)) => {
                    self.output = join(directory.as_str(), "quick_send");
                    self.stage = ReceiveStage::Listing;
                    ReceiveStep { emit: None, log: None, action: ReceiveAction::List }
                },
                ReceiveReply::Directory(None) => self.fail(
                    Error::Export { cause: String::from_str("Download dir not found") },
                ),
                _ => self.out_of_turn(),
            },
            ReceiveStage::Listing => match reply {
                ReceiveReply::Ready => self.go(ReceiveStage::Entries, ReceiveAction::Next),
                ReceiveReply::Failed { cause } => self.fail(Error::Export { cause }),
                _ => self.out_of_turn(),
            },
            ReceiveStage::Entries => match reply {
                ReceiveReply::Entry { key } => self.enter(key),
                ReceiveReply::Failed { cause } => self.skip(cause),
                ReceiveReply::End => {
                    let mut text = String::from_str("Files downloaded at ");
                    text.append(self.output.as_str());
                    self.go(ReceiveStage::Finished, ReceiveAction::Finish(Ok(text)))
                },
                _ => self.out_of_turn(),
            },
            ReceiveStage::Export => match reply {
                ReceiveReply::Ready => self.go(ReceiveStage::Streaming, ReceiveAction::Poll),
                ReceiveReply::Failed { cause } => self.skip(cause),
                _ => self.out_of_turn(),
            },
            ReceiveStage::Streaming => match reply {
                ReceiveReply::Note(note) => self.note(note),
                ReceiveReply::Failed { cause } => self.note(Notification::Abort { reason: cause }),
                ReceiveReply::End => self.go(ReceiveStage::Entries, ReceiveAction::Next),
                _ => self.out_of_turn(),
            },
            ReceiveStage::Finished => self.out_of_turn(),
        }
    }
}

/// A receive is well formed where it starts.
pub proof fn lemma_begun_well_formed(ticket: Seq<char>)
    ensures
        ReceiveView::begun(ticket).0.well_formed(),
{
}

/// A reply leaves a well-formed receive well formed.
pub proof fn lemma_next_keeps_well_formed(receive: ReceiveView, reply: ReceiveReplyView)
    requires
        receive.well_formed(),
    ensures
        receive.next(reply).0.well_formed(),
{
    if receive.stage == ReceiveStage::Streaming {
        match reply {
            ReceiveReplyView::Note(note) => {
                lemma_over_when_ended(receive.transfer, note);
            },
            ReceiveReplyView::Failed { cause } => {
                lemma_over_when_ended(receive.transfer, NotificationView::Abort { reason: cause });
            },
            _ => {},
        }
    }
}

/// What fails for one entry is logged and the receive goes on to the next
/// entry: it does not end, and it keeps its output directory.
pub proof fn lemma_entry_failure_contained(receive: ReceiveView, cause: Seq<char>)
    requires
        in_batch(receive.stage),
        receive.well_formed(),
    ensures
        ({
            let (after, step) = receive.next(ReceiveReplyView::Failed { cause });
            &&& step.action == ReceiveActionView::Next
            &&& step.emit is None
            &&& after.stage == ReceiveStage::Entries
            &&& after.output == receive.output
            &&& step.log == if receive.stage == ReceiveStage::Streaming {
                Some("Abort: "@ + cause)
            } else {
                Some(cause)
            }
        }),
{
}

/// A receive fails as a whole only before it has taken the first entry, or
/// on a reply that it was not waiting for; once it takes entries, the one
/// result it gives is the summary, when the entries have run out.
pub proof fn lemma_batch_ends_with_summary(receive: ReceiveView, reply: ReceiveReplyView)
    requires
        in_batch(receive.stage),
        receive.next(reply).1.action is Finish,
    ensures
        receive.next(reply).1.action == ReceiveActionView::Finish(Ok(summary(receive.output)))
            || receive.next(reply).1.action == ReceiveActionView::Finish(
            Err(ErrorView::Export { cause: "Unexpected reply"@ }),
        ),
        receive.next(reply).1.action is Finish && receive.next(reply).1.action->Finish_0 is Ok
            ==> receive.stage == ReceiveStage::Entries && reply == ReceiveReplyView::End,
{
}

/// The engine is asked to export only for an entry that the receive was
/// given while it waited for one, and to the file of the entry's name in
/// the output directory.
pub proof fn lemma_export_only_for_entry(receive: ReceiveView, reply: ReceiveReplyView)
    requires
        receive.next(reply).1.action is Export,
    ensures
        receive.stage == ReceiveStage::Entries,
        reply is Entry,
        receive.next(reply).1.action == (ReceiveActionView::Export {
            dest: joined(receive.output, name_of(reply->key)),
        }),
        receive.next(reply).0.transfer == TransferView::fresh(
            joined(receive.output, name_of(reply->key)),
            Direction::Download,
        ),
{
}

/// A receive that has given its result asks nothing more of the engine and
/// sends nothing more, whatever it is told.
pub proof fn lemma_finished_is_final(receive: ReceiveView, replies: Seq<ReceiveReplyView>)
    requires
        receive.stage == ReceiveStage::Finished,
    ensures
        receive.after_all(replies).stage == ReceiveStage::Finished,
        events_in(receive.steps_of(replies)) == Seq::<UiEventView>::empty(),
        receive.steps_of(replies).len() == replies.len(),
        forall|i: int|
            0 <= i < replies.len() ==> (#[trigger] receive.steps_of(replies)[i]).action is Finish,
    decreases replies.len(),
{
    if replies.len() > 0 {
        let moved = receive.next(replies[0]).0;
        let rest = replies.drop_first();
        lemma_finished_is_final(moved, rest);
        let steps = receive.steps_of(replies);
        assert(steps.drop_first() =~= moved.steps_of(rest));
        assert forall|i: int| 0 <= i < replies.len() implies (#[trigger] steps[i]).action
            is Finish by {
            if i > 0 {
                assert(steps[i] == moved.steps_of(rest)[i - 1]);
            }
        }
    }
}

/// The steps of a run of replies taken in two parts are those of the first
/// part, then those of the second from where the first left the receive.
pub proof fn lemma_steps_in_parts(
    receive: ReceiveView,
    first: Seq<ReceiveReplyView>,
    second: Seq<ReceiveReplyView>,
)
    ensures
        receive.after_all(first + second) == receive.after_all(first).after_all(second),
        receive.steps_of(first + second) == receive.steps_of(first) + receive.after_all(
            first,
        ).steps_of(second),
    decreases first.len(),
{
    if first.len() == 0 {
        assert(first + second =~= second);
        assert(receive.steps_of(first) + receive.steps_of(second) =~= receive.steps_of(second));
    } else {
        let whole = first + second;
        assert(whole[0] == first[0]);
        assert(whole.drop_first() =~= first.drop_first() + second);
        let moved = receive.next(first[0]).0;
        lemma_steps_in_parts(moved, first.drop_first(), second);
        assert(seq![receive.next(first[0]).1] + (moved.steps_of(first.drop_first())
            + moved.after_all(first.drop_first()).steps_of(second)) =~= (seq![
            receive.next(first[0]).1,
        ] + moved.steps_of(first.drop_first())) + moved.after_all(first.drop_first()).steps_of(
            second,
        ));
    }
}

/// The events of two runs of steps, one behind the other, are the events of
/// the first, then those of the second.
pub proof fn lemma_events_of_parts(first: Seq<ReceiveStepView>, second: Seq<ReceiveStepView>)
    ensures
        events_in(first + second) == events_in(first) + events_in(second),
    decreases first.len(),
{
    if first.len() == 0 {
        assert(first + second =~= second);
        assert(events_in(first) + events_in(second) =~= events_in(second));
    } else {
        let whole = first + second;
        assert(whole[0] == first[0]);
        assert(whole.drop_first() =~= first.drop_first() + second);
        lemma_events_of_parts(first.drop_first(), second);
        match first[0].emit {
            Some(event) => {
                assert(seq![event] + (events_in(first.drop_first()) + events_in(second)) =~= (
                    seq![event] + events_in(first.drop_first())) + events_in(second));
            },
            None => {},
        }
    }
}

/// While no notification ends the download, a receive that is streaming
/// sends exactly the events of its transfer, polls after each, and stays
/// streaming.
pub proof fn lemma_streaming_follows_transfer(receive: ReceiveView, notes: Seq<NotificationView>)
    requires
        receive.stage == ReceiveStage::Streaming,
        !receive.transfer.phase.is_over(),
        forall|i: int|
            0 <= i < notes.len() ==> !ends(receive.transfer.direction, #[trigger] notes[i]),
    ensures
        events_in(receive.steps_of(noted_replies(notes))) == receive.transfer.events_of(notes),
        receive.after_all(noted_replies(notes)) == (ReceiveView {
            transfer: receive.transfer.after_all(notes),
            ..receive
        }),
        !receive.transfer.after_all(notes).phase.is_over(),
        receive.steps_of(noted_replies(notes)).len() == notes.len(),
        forall|i: int|
            0 <= i < notes.len() ==> (#[trigger] receive.steps_of(noted_replies(notes))[i]).action
                == ReceiveActionView::Poll,
    decreases notes.len(),
{
    let replies = noted_replies(notes);
    if notes.len() > 0 {
        let (moved, step) = receive.next(replies[0]);
        assert(replies[0] == ReceiveReplyView::Note(notes[0]));
        lemma_over_when_ended(receive.transfer, notes[0]);
        assert(!ends(receive.transfer.direction, notes[0]));
        assert(step.action == ReceiveActionView::Poll);
        assert(replies.drop_first() =~= noted_replies(notes.drop_first()));
        assert forall|i: int| 0 <= i < notes.drop_first().len() implies !ends(
            moved.transfer.direction,
            #[trigger] notes.drop_first()[i],
        ) by {
            assert(notes.drop_first()[i] == notes[i + 1]);
        }
        lemma_streaming_follows_transfer(moved, notes.drop_first());
        let steps = receive.steps_of(replies);
        let rest = moved.steps_of(noted_replies(notes.drop_first()));
        assert(steps =~= seq![step] + rest);
        assert(steps.drop_first() =~= rest);
        assert forall|i: int| 0 <= i < notes.len() implies (#[trigger] steps[i]).action
            == ReceiveActionView::Poll by {
            if i > 0 {
                assert(steps[i] == rest[i - 1]);
            }
        }
    } else {
        assert(replies =~= Seq::empty());
    }
}

/// An entry that is exported without a fault is shown as one download in
/// its order, under the path of its destination; the receive asks for the
/// export, polls while the export runs, and goes on to the next entry when
/// the export is done, without having ended.
pub proof fn lemma_regular_entry(
    receive: ReceiveView,
    key: Seq<u8>,
    size: u64,
    title: Seq<char>,
    offsets: Seq<u64>,
)
    requires
        receive.stage == ReceiveStage::Entries,
    ensures
        ({
            let dest = joined(receive.output, name_of(key));
            let replies = entry_replies(key, size, title, offsets);
            let steps = receive.steps_of(replies);
            &&& steps.len() == replies.len()
            &&& steps[0] == ReceiveStepView::quiet(ReceiveActionView::Export { dest })
            &&& events_in(steps) == shown(Direction::Download, dest, size, title, offsets)
            &&& climbing(offsets, size) ==> orderly(
                events_in(steps),
                Direction::Download,
                dest,
                size,
            )
            &&& steps.last().action == ReceiveActionView::Next
            &&& forall|i: int| 0 <= i < steps.len() ==> !((#[trigger] steps[i]).action is Finish)
            &&& receive.after_all(replies).stage == ReceiveStage::Entries
            &&& receive.after_all(replies).output == receive.output
        }),
{
    let dest = joined(receive.output, name_of(key));
    let head = seq![ReceiveReplyView::Entry { key }, ReceiveReplyView::Ready];
    let found = seq![NotificationView::Found { size, title }];
    let opening = found + progress_notes(offsets);
    let closing = seq![NotificationView::Done];
    let notes = regular(size, title, offsets);
    let replies = entry_replies(key, size, title, offsets);
    let (entered, export) = receive.next(head[0]);
    let (streaming, poll) = entered.next(ReceiveReplyView::Ready);
    let fresh = TransferView::fresh(dest, Direction::Download);
    assert(streaming.stage == ReceiveStage::Streaming && streaming.transfer == fresh);
    // The two replies before the stream.
    assert(receive.steps_of(head) =~= seq![export, poll] && receive.after_all(head)
        == streaming) by {
        let second = head.drop_first();
        let none = second.drop_first();
        assert(second[0] == ReceiveReplyView::Ready);
        assert(none =~= Seq::empty());
        assert(streaming.steps_of(none) =~= Seq::empty());
        assert(streaming.after_all(none) == streaming);
        assert(entered.steps_of(second) =~= seq![poll]);
        assert(entered.after_all(second) == streaming);
        assert(receive.steps_of(head) =~= seq![export] + entered.steps_of(second));
        assert(receive.after_all(head) == entered.after_all(second));
    }
    assert(events_in(seq![export, poll]) =~= Seq::empty()) by {
        assert(seq![export, poll].drop_first() =~= seq![poll]);
        assert(seq![poll].drop_first() =~= Seq::empty());
        assert(events_in(seq![poll]) =~= events_in(seq![poll].drop_first()));
    }
    // The stream up to its last notification.
    assert forall|i: int| 0 <= i < opening.len() implies !ends(
        Direction::Download,
        #[trigger] opening[i],
    ) by {}
    lemma_streaming_follows_transfer(streaming, opening);
    let running = streaming.after_all(noted_replies(opening));
    let opening_steps = streaming.steps_of(noted_replies(opening));
    // The last notification, which ends the download.
    let (after, last) = running.next(ReceiveReplyView::Note(NotificationView::Done));
    lemma_same_transfer(fresh, opening);
    lemma_over_when_ended(running.transfer, NotificationView::Done);
    assert(last.action == ReceiveActionView::Next && after.stage == ReceiveStage::Entries);
    let closing_replies = noted_replies(closing);
    assert(running.steps_of(closing_replies) =~= seq![last] && running.after_all(closing_replies)
        == after) by {
        assert(closing_replies[0] == ReceiveReplyView::Note(NotificationView::Done));
        assert(closing_replies.drop_first() =~= Seq::empty());
        assert(after.steps_of(closing_replies.drop_first()) =~= Seq::empty());
        assert(after.after_all(closing_replies.drop_first()) == after);
    }
    assert(events_in(seq![last]) =~= running.transfer.events_of(closing)) by {
        assert(seq![last].drop_first() =~= Seq::empty());
        assert(closing.drop_first() =~= Seq::empty());
        assert(running.transfer.after(closing[0]).events_of(closing.drop_first()) =~= Seq::empty());
        assert(events_in(seq![last].drop_first()) =~= Seq::empty());
    }
    // The parts put together.
    assert(notes =~= opening + closing);
    assert(noted_replies(notes) =~= noted_replies(opening) + closing_replies);
    assert(replies =~= (head + noted_replies(opening)) + closing_replies);
    lemma_steps_in_parts(receive, head, noted_replies(opening));
    lemma_steps_in_parts(receive, head + noted_replies(opening), closing_replies);
    let steps = receive.steps_of(replies);
    assert(steps =~= (seq![export, poll] + opening_steps) + seq![last]);
    lemma_events_of_parts(seq![export, poll], opening_steps);
    lemma_events_of_parts(seq![export, poll] + opening_steps, seq![last]);
    lemma_events_in_parts(fresh, opening, closing);
    lemma_regular_stream_shown(Direction::Download, dest, size, title, offsets);
    if climbing(offsets, size) {
        lemma_regular_stream_orderly(Direction::Download, dest, size, title, offsets);
    }
    assert(events_in(steps) =~= shown(Direction::Download, dest, size, title, offsets));
    assert forall|i: int| 0 <= i < steps.len() implies !((#[trigger] steps[i]).action
        is Finish) by {
        if 2 <= i < steps.len() - 1 {
            assert(steps[i] == opening_steps[i - 2]);
        }
    }
}


/// A receive asks for one step with every reply.
pub proof fn lemma_one_step_per_reply(receive: ReceiveView, replies: Seq<ReceiveReplyView>)
    ensures
        receive.steps_of(replies).len() == replies.len(),
    decreases replies.len(),
{
    if replies.len() > 0 {
        lemma_one_step_per_reply(receive.next(replies[0]).0, replies.drop_first());
    }
}

/// A batch of entries that are all exported without a fault is shown
/// download after download; no entry ends the receive, and when the
/// entries have run out the receive answers with the summary that names its
/// output directory.
pub proof fn lemma_regular_batch(receive: ReceiveView, batch: Seq<Delivery>)
    requires
        receive.stage == ReceiveStage::Entries,
    ensures
        ({
            let replies = batch_replies(batch);
            let steps = receive.steps_of(replies);
            let after = receive.after_all(replies);
            &&& steps.len() == replies.len()
            &&& events_in(steps) == batch_events(receive.output, batch)
            &&& forall|i: int| 0 <= i < steps.len() ==> !((#[trigger] steps[i]).action is Finish)
            &&& after.stage == ReceiveStage::Entries
            &&& after.output == receive.output
            &&& after.next(ReceiveReplyView::End).1 == ReceiveStepView::quiet(
                ReceiveActionView::Finish(Ok(summary(receive.output))),
            )
        }),
    decreases batch.len(),
{
    let replies = batch_replies(batch);
    if batch.len() == 0 {
        assert(events_in(receive.steps_of(replies)) =~= batch_events(receive.output, batch));
    } else {
        let head = batch[0];
        let first = entry_replies(head.key, head.size, head.title, head.offsets);
        let rest = batch_replies(batch.drop_first());
        lemma_regular_entry(receive, head.key, head.size, head.title, head.offsets);
        let between = receive.after_all(first);
        lemma_regular_batch(between, batch.drop_first());
        lemma_steps_in_parts(receive, first, rest);
        let first_steps = receive.steps_of(first);
        let rest_steps = between.steps_of(rest);
        lemma_events_of_parts(first_steps, rest_steps);
        lemma_one_step_per_reply(receive, replies);
        let steps = receive.steps_of(replies);
        assert(steps =~= first_steps + rest_steps);
        assert forall|i: int| 0 <= i < steps.len() implies !((#[trigger] steps[i]).action
            is Finish) by {
            if i < first_steps.len() {
                assert(steps[i] == first_steps[i]);
            } else {
                assert(steps[i] == rest_steps[i - first_steps.len()]);
            }
        }
    }
}


} // verus!
