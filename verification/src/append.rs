//! The import pipeline: appending one local file to the shared document.
//!
//! An append is a state machine. The caller performs the action that each
//! step asks for (look the key up, begin the ingestion, take the next
//! notification) and hands back what came of it. The machine never asks for
//! the ingestion unless the lookup has answered that the key is free, so a
//! refused append leaves the document as it was.
//!
//! The lookup and the ingestion are two separate actions, and nothing here
//! keeps a second append of the same new name from running between them:
//! two appends that run side by side may both be told that the key is free.
//! A caller that cannot accept this holds a lock on the document from the
//! lookup to the end of the ingestion.

use crate::error::{Error, ErrorView, ImportFailure};
use crate::event::{
    event_view, text_view, Direction, Notification, NotificationView, UiEvent, UiEventView,
};
use crate::key::{copy_key, describe_fault, encodable, fault_text, key_of, to_key};
use crate::path::{file_name, file_name_of};
use crate::transfer::{
    climbing, ends, lemma_over_when_ended, lemma_regular_stream_orderly,
    lemma_regular_stream_shown, orderly, regular, shown, Transfer, TransferView,
};
use vstd::prelude::*;
use vstd::string::*;
use vstd::utf8::*;

verus! {

/// What an append is waiting for.
#[derive(Clone, Copy, Debug, PartialEq, Eq, Structural)]
pub enum AppendStage {
    /// The answer to whether the key is taken.
    Lookup,
    /// The answer to whether the ingestion began.
    Ingest,
    /// The next notification of the ingestion.
    Streaming,
    /// Nothing: the append has given its result.
    Finished,
}

/// One append in progress.
#[derive(Debug, PartialEq, Eq)]
pub struct Append {
    /// The path of the file, as the command gave it.
    pub path: String,
    /// The display name: the final component of the path.
    pub name: String,
    /// The key of the name.
    pub key: Vec<u8>,
    pub stage: AppendStage,
    /// The upload that the events of this append belong to.
    pub transfer: Transfer,
}

/// What the caller reports back to an append.
#[derive(Debug, PartialEq, Eq)]
pub enum AppendReply {
    /// The document holds a live entry under the key.
    Present,
    /// The document holds no live entry under the key.
    Absent,
    /// The ingestion began; its notifications follow.
    Started,
    /// The engine failed at what it was asked.
    Failed { cause: String },
    /// The ingestion sent a notification.
    Note(Notification),
    /// The ingestion has no more notifications.
    End,
}

/// What an append asks its caller to do next.
#[derive(Debug, PartialEq, Eq)]
pub enum AppendAction {
    /// Look up the exact key under the current write identity, live entries
    /// only, and answer `Present`, `Absent` or `Failed`.
    Lookup { key: Vec<u8> },
    /// Begin ingesting the file at `path` under `key`, in place and for the
    /// current write identity, and answer `Started` or `Failed`.
    Ingest { key: Vec<u8>, path: String },
    /// Take the next notification of the ingestion, and answer `Note`, `End`
    /// or, where the stream itself failed, `Failed`.
    Poll,
    /// Answer the command with this result. Nothing more is to be done.
    Finish(Result<(), Error>),
}

/// One step of an append: an event to send and a line to log, each if there
/// is one, and then the action to perform.
#[derive(Debug, PartialEq, Eq)]
pub struct AppendStep {
    pub emit: Option<UiEvent>,
    pub log: Option<String>,
    pub action: AppendAction,
}

/// An [`Append`] with its texts as sequences.
pub struct AppendView {
    pub path: Seq<char>,
    pub name: Seq<char>,
    pub key: Seq<u8>,
    pub stage: AppendStage,
    pub transfer: TransferView,
}

/// An [`AppendReply`] with its texts as sequences.
pub enum AppendReplyView {
    Present,
    Absent,
    Started,
    Failed { cause: Seq<char> },
    Note(NotificationView),
    End,
}

/// An [`AppendAction`] with its texts as sequences.
pub enum AppendActionView {
    Lookup { key: Seq<u8> },
    Ingest { key: Seq<u8>, path: Seq<char> },
    Poll,
    Finish(Result<(), ErrorView>),
}

/// An [`AppendStep`] with its texts as sequences.
pub struct AppendStepView {
    pub emit: Option<UiEventView>,
    pub log: Option<Seq<char>>,
    pub action: AppendActionView,
}

impl View for Append {
    type V = AppendView;

    open spec fn view(&self) -> AppendView {
        AppendView {
            path: self.path@,
            name: self.name@,
            key: self.key@,
            stage: self.stage,
            transfer: self.transfer@,
        }
    }
}

impl View for AppendReply {
    type V = AppendReplyView;

    open spec fn view(&self) -> AppendReplyView {
        match self {
            AppendReply::Present => AppendReplyView::Present,
            AppendReply::Absent => AppendReplyView::Absent,
            AppendReply::Started => AppendReplyView::Started,
            AppendReply::Failed { cause } => AppendReplyView::Failed { cause: cause@ },
            AppendReply::Note(note) => AppendReplyView::Note(note@),
            AppendReply::End => AppendReplyView::End,
        }
    }
}

impl View for AppendAction {
    type V = AppendActionView;

    open spec fn view(&self) -> AppendActionView {
        match self {
            AppendAction::Lookup { key } => AppendActionView::Lookup { key: key@ },
            AppendAction::Ingest { key, path } => AppendActionView::Ingest {
                key: key@,
                path: path@,
            },
            AppendAction::Poll => AppendActionView::Poll,
            AppendAction::Finish(Ok(())) => AppendActionView::Finish(Ok(())),
            AppendAction::Finish(Err(error)) => AppendActionView::Finish(Err(error@)),
        }
    }
}

impl View for AppendStep {
    type V = AppendStepView;

    open spec fn view(&self) -> AppendStepView {
        AppendStepView {
            emit: event_view(self.emit),
            log: text_view(self.log),
            action: self.action@,
        }
    }
}

impl AppendStepView {
    /// A step that sends and logs nothing.
    pub open spec fn quiet(action: AppendActionView) -> AppendStepView {
        AppendStepView { emit: None, log: None, action }
    }
}

impl AppendView {
    /// What holds of every append that was begun and stepped: its upload is
    /// named by its path; until it has given its result, its key is the key
    /// of its name; before the ingestion has begun the upload has seen
    /// nothing; and while it streams the upload is not over.
    pub open spec fn well_formed(self) -> bool {
        &&& self.transfer.id == self.path
        &&& self.transfer.direction == Direction::Upload
        &&& self.stage != AppendStage::Finished ==> encodable(encode_utf8(self.name)) && self.key
            == key_of(self.name)
        &&& self.stage == AppendStage::Lookup || self.stage == AppendStage::Ingest
            ==> self.transfer == TransferView::fresh(self.path, Direction::Upload)
        &&& self.stage == AppendStage::Streaming ==> !self.transfer.phase.is_over()
    }

    /// The append with its stage set to `Finished`.
    pub open spec fn halted(self) -> AppendView {
        AppendView { stage: AppendStage::Finished, ..self }
    }

    /// The append, halted, and the step that answers the command with
    /// `error`.
    pub open spec fn failed(self, error: ErrorView) -> (AppendView, AppendStepView) {
        (self.halted(), AppendStepView::quiet(AppendActionView::Finish(Err(error))))
    }

    /// The failure of an append of this file at the given step.
    pub open spec fn fault(self, failure: ImportFailure, cause: Seq<char>) -> ErrorView {
        ErrorView::Import { failure, path: self.path, cause }
    }

    /// Where an append starts, given the final component of its path.
    ///
    /// A path without one is refused as invalid, and a name without a key
    /// fails the conversion. Otherwise the append asks for the lookup of
    /// its key.
    pub open spec fn begun(path: Seq<char>, name: Option<Seq<char>>) -> (
        AppendView,
        AppendStepView,
    ) {
        let blank = AppendView {
            path,
            name: Seq::empty(),
            key: Seq::empty(),
            stage: AppendStage::Finished,
            transfer: TransferView::fresh(path, Direction::Upload),
        };
        match name {
            None => blank.failed(ErrorView::InvalidPath),
            Some(name) => if encodable(encode_utf8(name)) {
                (
                    AppendView {
                        name,
                        key: key_of(name),
                        stage: AppendStage::Lookup,
                        ..blank
                    },
                    AppendStepView::quiet(AppendActionView::Lookup { key: key_of(name) }),
                )
            } else {
                AppendView { name, ..blank }.failed(
                    blank.fault(ImportFailure::KeyCodec, fault_text(name)),
                )
            },
        }
    }

    /// What a notification of the ingestion leads to.
    ///
    /// The event and the log line are those of the transfer. An abort ends
    /// the append with a failure, since the entry is not committed before
    /// `AllDone`; the notification that ends the transfer well ends the
    /// append well; after any other the append polls on.
    pub open spec fn noted(self, note: NotificationView) -> (AppendView, AppendStepView) {
        let transfer = self.transfer.after(note);
        let emit = self.transfer.emits(note);
        let log = self.transfer.logs(note);
        match note {
            NotificationView::Abort { reason } => (
                AppendView { transfer, ..self.halted() },
                AppendStepView {
                    emit,
                    log,
                    action: AppendActionView::Finish(
                        Err(self.fault(ImportFailure::Aborted, reason)),
                    ),
                },
            ),
            _ => if transfer.phase.is_over() {
                (
                    AppendView { transfer, ..self.halted() },
                    AppendStepView { emit, log, action: AppendActionView::Finish(Ok(())) },
                )
            } else {
                (
                    AppendView { transfer, ..self },
                    AppendStepView { emit, log, action: AppendActionView::Poll },
                )
            },
        }
    }

    /// The append after a reply, and the step that it asks for.
    ///
    /// A reply that the stage does not wait for ends the append with a
    /// failure.
    pub open spec fn next(self, reply: AppendReplyView) -> (AppendView, AppendStepView) {
        match (self.stage, reply) {
            (AppendStage::Lookup, AppendReplyView::Present) => self.failed(
                ErrorView::DuplicateEntry { name: self.name },
            ),
            (AppendStage::Lookup, AppendReplyView::Absent) => (
                AppendView { stage: AppendStage::Ingest, ..self },
                AppendStepView::quiet(AppendActionView::Ingest { key: self.key, path: self.path }),
            ),
            (AppendStage::Lookup, AppendReplyView::Failed { cause }) => self.failed(
                self.fault(ImportFailure::Lookup, cause),
            ),
            (AppendStage::Ingest, AppendReplyView::Started) => (
                AppendView { stage: AppendStage::Streaming, ..self },
                AppendStepView::quiet(AppendActionView::Poll),
            ),
            (AppendStage::Ingest, AppendReplyView::Failed { cause }) => self.failed(
                self.fault(ImportFailure::Ingest, cause),
            ),
            (AppendStage::Streaming, AppendReplyView::Note(note)) => self.noted(note),
            (AppendStage::Streaming, AppendReplyView::Failed { cause }) => self.noted(
                NotificationView::Abort { reason: cause },
            ),
            (AppendStage::Streaming, AppendReplyView::End) => (
                self.halted(),
                AppendStepView::quiet(AppendActionView::Finish(Ok(()))),
            ),
            _ => self.failed(self.fault(ImportFailure::OutOfTurn, Seq::empty())),
        }
    }
}

impl AppendView {
    /// The append after a run of replies, first to last.
    pub open spec fn after_all(self, replies: Seq<AppendReplyView>) -> AppendView
        decreases replies.len(),
    {
        if replies.len() == 0 {
            self
        } else {
            self.next(replies[0]).0.after_all(replies.drop_first())
        }
    }

    /// The steps that the append asks for over a run of replies, one for
    /// each reply.
    pub open spec fn steps_of(self, replies: Seq<AppendReplyView>) -> Seq<AppendStepView>
        decreases replies.len(),
    {
        if replies.len() == 0 {
            Seq::empty()
        } else {
            seq![self.next(replies[0]).1] + self.next(replies[0]).0.steps_of(
                replies.drop_first(),
            )
        }
    }
}

/// The events that a run of steps sends, in their order.
pub open spec fn events_in(steps: Seq<AppendStepView>) -> Seq<UiEventView>
    decreases steps.len(),
{
    if steps.len() == 0 {
        Seq::empty()
    } else {
        match steps[0].emit {
            Some(event) => seq![event] + events_in(steps.drop_first()),
            None => events_in(steps.drop_first()),
        }
    }
}

/// The notifications of an ingestion as the replies that carry them.
pub open spec fn noted_replies(notes: Seq<NotificationView>) -> Seq<AppendReplyView> {
    Seq::new(notes.len(), |i: int| AppendReplyView::Note(notes[i]))
}

/// The replies of an append that meets no obstacle: the key is free, the
/// ingestion begins, the file is found, progresses and is done, and the
/// entry is committed.
pub open spec fn regular_replies(size: u64, title: Seq<char>, offsets: Seq<u64>) -> Seq<
    AppendReplyView,
> {
    seq![AppendReplyView::Absent, AppendReplyView::Started] + noted_replies(
        regular(size, title, offsets),
    ) + seq![AppendReplyView::Note(NotificationView::AllDone)]
}

impl Append {
    /// Halts the append and answers the command with `error`.
    fn fail(&mut self, error: Error) -> (step: AppendStep)
        ensures
            (final(self)@, step@) == old(self)@.failed(error@),
    {
        self.stage = AppendStage::Finished;
        AppendStep { emit: None, log: None, action: AppendAction::Finish(Err(error)) }
    }

    /// The failure of this append at the given step.
    fn fault(&self, failure: ImportFailure, cause: String) -> (error: Error)
        ensures
            error@ == self@.fault(failure, cause@),
    {
        Error::Import { failure, path: self.path.clone(), cause }
    }

    /// Starts the append of the file at `path`, given the final component
    /// of the path.
    pub fn begin_named(path: &str, name: Option<String>) -> (started: (Append, AppendStep))
        ensures
            (started.0@, started.1@) == AppendView::begun(path@, text_view(name)),
            started.0@.well_formed(),
    {
        let mut append = Append {
            path: String::from_str(path),
            name: String::new(),
            key: Vec::new(),
            stage: AppendStage::Finished,
            transfer: Transfer::new(String::from_str(path), Direction::Upload),
        };
        match name {
            None => {
                let step = append.fail(Error::InvalidPath);
                (append, step)
            },
            Some(name) => {
                match to_key(name.as_str()) {
                    Ok(key) => {
                        let action = AppendAction::Lookup { key: copy_key(&key) };
                        append.name = name;
                        append.key = key;
                        append.stage = AppendStage::Lookup;
                        (append, AppendStep { emit: None, log: None, action })
                    },
                    Err(_) => {
                        let error = append.fault(
                            ImportFailure::KeyCodec,
                            describe_fault(name.as_str()),
                        );
                        append.name = name;
                        let step = append.fail(error);
                        (append, step)
                    },
                }
            },
        }
    }

    /// Starts the append of the file at `path`.
    ///
    /// The name of the file is the final component of the path as std reads
    /// it; what follows is [`Append::begin_named`].
    pub fn begin(path: &str) -> (started: (Append, AppendStep))
        ensures
            (started.0@, started.1@) == AppendView::begun(path@, file_name_of(path@)),
            started.0@.well_formed(),
    {
        let name = file_name(path);
        Append::begin_named(path, name)
    }

    /// Takes a notification of the ingestion.
    fn note(&mut self, note: Notification) -> (step: AppendStep)
        ensures
            (final(self)@, step@) == old(self)@.noted(note@),
    {
        let reaction = self.transfer.observe(&note);
        match note {
            Notification::Abort { reason } => {
                let error = self.fault(ImportFailure::Aborted, reason);
                self.stage = AppendStage::Finished;
                AppendStep {
                    emit: reaction.emit,
                    log: reaction.log,
                    action: AppendAction::Finish(Err(error)),
                }
            },
            _ => {
                if self.transfer.is_over() {
                    self.stage = AppendStage::Finished;
                    AppendStep {
                        emit: reaction.emit,
                        log: reaction.log,
                        action: AppendAction::Finish(Ok(())),
                    }
                } else {
                    AppendStep {
                        emit: reaction.emit,
                        log: reaction.log,
                        action: AppendAction::Poll,
                    }
                }
            },
        }
    }

    /// Takes the reply to the action that the last step asked for, and says
    /// what to do next.
    pub fn step(&mut self, reply: AppendReply) -> (step: AppendStep)
        ensures
            (final(self)@, step@) == old(self)@.next(reply@),
            old(self)@.well_formed() ==> final(self)@.well_formed(),
    {
        proof {
            if old(self)@.well_formed() {
                lemma_next_keeps_well_formed(old(self)@, reply@);
            }
        }
        match self.stage {
            AppendStage::Lookup => match reply {
                AppendReply::Present => {
                    let error = Error::DuplicateEntry { name: self.name.clone() };
                    self.fail(error)
                },
                AppendReply::Absent => {
                    self.stage = AppendStage::Ingest;
                    AppendStep {
                        emit: None,
                        log: None,
                        action: AppendAction::Ingest {
                            key: copy_key(&self.key),
                            path: self.path.clone(),
                        },
                    }
                },
                AppendReply::Failed { cause } => {
                    let error = self.fault(ImportFailure::Lookup, cause);
                    self.fail(error)
                },
                _ => self.out_of_turn(),
            },
            AppendStage::Ingest => match reply {
                AppendReply::Started => {
                    self.stage = AppendStage::Streaming;
                    AppendStep { emit: None, log: None, action: AppendAction::Poll }
                },
                AppendReply::Failed { cause } => {
                    let error = self.fault(ImportFailure::Ingest, cause);
                    self.fail(error)
                },
                _ => self.out_of_turn(),
            },
            AppendStage::Streaming => match reply {
                AppendReply::Note(note) => self.note(note),
                AppendReply::Failed { cause } => self.note(Notification::Abort { reason: cause }),
                AppendReply::End => {
                    self.stage = AppendStage::Finished;
                    AppendStep { emit: None, log: None, action: AppendAction::Finish(Ok(())) }
                },
                _ => self.out_of_turn(),
            },
            AppendStage::Finished => self.out_of_turn(),
        }
    }

    /// Ends the append on a reply that it was not waiting for.
    fn out_of_turn(&mut self) -> (step: AppendStep)
        ensures
            (final(self)@, step@) == old(self)@.failed(
                old(self)@.fault(ImportFailure::OutOfTurn, Seq::empty()),
            ),
    {
        let error = self.fault(ImportFailure::OutOfTurn, String::new());
        self.fail(error)
    }
}

/// An append is well formed where it starts.
pub proof fn lemma_begun_well_formed(path: Seq<char>, name: Option<Seq<char>>)
    ensures
        AppendView::begun(path, name).0.well_formed(),
{
}

/// A reply leaves a well-formed append well formed.
pub proof fn lemma_next_keeps_well_formed(append: AppendView, reply: AppendReplyView)
    requires
        append.well_formed(),
    ensures
        append.next(reply).0.well_formed(),
{
    if append.stage == AppendStage::Streaming {
        match reply {
            AppendReplyView::Note(note) => {
                lemma_over_when_ended(append.transfer, note);
            },
            AppendReplyView::Failed { cause } => {
                lemma_over_when_ended(append.transfer, NotificationView::Abort { reason: cause });
            },
            _ => {},
        }
    }
}

/// The engine is asked to ingest only by an append that waited for the
/// lookup and was told that the key is free; it is then asked for the key
/// and the path of that append.
pub proof fn lemma_ingest_only_when_absent(append: AppendView, reply: AppendReplyView)
    requires
        append.next(reply).1.action is Ingest,
    ensures
        append.stage == AppendStage::Lookup,
        reply == AppendReplyView::Absent,
        append.next(reply).1.action == (AppendActionView::Ingest {
            key: append.key,
            path: append.path,
        }),
{
}

/// An append that has given its result asks nothing more of the engine and
/// sends nothing more, whatever it is told.
pub proof fn lemma_finished_is_final(append: AppendView, replies: Seq<AppendReplyView>)
    requires
        append.stage == AppendStage::Finished,
    ensures
        append.after_all(replies).stage == AppendStage::Finished,
        events_in(append.steps_of(replies)) == Seq::<UiEventView>::empty(),
        append.steps_of(replies).len() == replies.len(),
        forall|i: int|
            0 <= i < replies.len() ==> (#[trigger] append.steps_of(replies)[i]).action is Finish,
    decreases replies.len(),
{
    if replies.len() > 0 {
        let moved = append.next(replies[0]).0;
        let rest = replies.drop_first();
        lemma_finished_is_final(moved, rest);
        let steps = append.steps_of(replies);
        assert(steps.drop_first() =~= moved.steps_of(rest));
        assert forall|i: int| 0 <= i < replies.len() implies (#[trigger] steps[i]).action
            is Finish by {
            if i > 0 {
                assert(steps[i] == moved.steps_of(rest)[i - 1]);
            }
        }
    }
}

/// An append that finds its name in the document is refused as a
/// duplicate, and from then on never asks the engine to ingest.
pub proof fn lemma_duplicate_never_ingests(append: AppendView, replies: Seq<AppendReplyView>)
    requires
        append.stage == AppendStage::Lookup,
    ensures
        append.next(AppendReplyView::Present).1.action == AppendActionView::Finish(
            Err(ErrorView::DuplicateEntry { name: append.name }),
        ),
        forall|i: int|
            0 <= i < replies.len() ==> !((#[trigger] append.next(
                AppendReplyView::Present,
            ).0.steps_of(replies)[i]).action is Ingest),
{
    lemma_finished_is_final(append.next(AppendReplyView::Present).0, replies);
}

/// The steps of a run of replies taken in two parts are those of the first
/// part, then those of the second from where the first left the append.
pub proof fn lemma_steps_in_parts(
    append: AppendView,
    first: Seq<AppendReplyView>,
    second: Seq<AppendReplyView>,
)
    ensures
        append.after_all(first + second) == append.after_all(first).after_all(second),
        append.steps_of(first + second) == append.steps_of(first) + append.after_all(
            first,
        ).steps_of(second),
    decreases first.len(),
{
    if first.len() == 0 {
        assert(first + second =~= second);
        assert(append.steps_of(first) + append.steps_of(second) =~= append.steps_of(second));
    } else {
        let whole = first + second;
        assert(whole[0] == first[0]);
        assert(whole.drop_first() =~= first.drop_first() + second);
        let moved = append.next(first[0]).0;
        lemma_steps_in_parts(moved, first.drop_first(), second);
        assert(seq![append.next(first[0]).1] + (moved.steps_of(first.drop_first())
            + moved.after_all(first.drop_first()).steps_of(second)) =~= (seq![
            append.next(first[0]).1,
        ] + moved.steps_of(first.drop_first())) + moved.after_all(first.drop_first()).steps_of(
            second,
        ));
    }
}

/// The events of two runs of steps, one behind the other, are the events of
/// the first, then those of the second.
pub proof fn lemma_events_of_parts(first: Seq<AppendStepView>, second: Seq<AppendStepView>)
    ensures
        events_in(first + second) == events_in(first) + events_in(second),
    decreases first.len(),
{
    if first.len() == 0 {
        assert(first + second =~= second);
        assert(events_in(first) + events_in(second) =~= events_in(second));
    } else {
        let whole = first + second;
        assert(whole[0] == first[0]);
        assert(whole.drop_first() =~= first.drop_first() + second);
        lemma_events_of_parts(first.drop_first(), second);
        match first[0].emit {
            Some(event) => {
                assert(seq![event] + (events_in(first.drop_first()) + events_in(second)) =~= (
                    seq![event] + events_in(first.drop_first())) + events_in(second));
            },
            None => {},
        }
    }
}

/// While no notification ends the upload, an append that is streaming
/// sends exactly the events of its transfer, polls after each, and stays
/// streaming.
pub proof fn lemma_streaming_follows_transfer(append: AppendView, notes: Seq<NotificationView>)
    requires
        append.stage == AppendStage::Streaming,
        !append.transfer.phase.is_over(),
        forall|i: int| 0 <= i < notes.len() ==> !ends(append.transfer.direction, #[trigger] notes[i]),
    ensures
        events_in(append.steps_of(noted_replies(notes))) == append.transfer.events_of(notes),
        append.after_all(noted_replies(notes)) == (AppendView {
            transfer: append.transfer.after_all(notes),
            ..append
        }),
        !append.transfer.after_all(notes).phase.is_over(),
        append.steps_of(noted_replies(notes)).len() == notes.len(),
        forall|i: int|
            0 <= i < notes.len() ==> (#[trigger] append.steps_of(noted_replies(notes))[i]).action
                == AppendActionView::Poll,
    decreases notes.len(),
{
    let replies = noted_replies(notes);
    if notes.len() > 0 {
        let (moved, step) = append.next(replies[0]);
        assert(replies[0] == AppendReplyView::Note(notes[0]));
        lemma_over_when_ended(append.transfer, notes[0]);
        assert(!ends(append.transfer.direction, notes[0]));
        assert(step.action == AppendActionView::Poll);
        assert(replies.drop_first() =~= noted_replies(notes.drop_first()));
        assert forall|i: int| 0 <= i < notes.drop_first().len() implies !ends(
            moved.transfer.direction,
            #[trigger] notes.drop_first()[i],
        ) by {
            assert(notes.drop_first()[i] == notes[i + 1]);
        }
        lemma_streaming_follows_transfer(moved, notes.drop_first());
        let steps = append.steps_of(replies);
        let rest = moved.steps_of(noted_replies(notes.drop_first()));
        assert(steps =~= seq![step] + rest);
        assert(steps.drop_first() =~= rest);
        assert forall|i: int| 0 <= i < notes.len() implies (#[trigger] steps[i]).action
            == AppendActionView::Poll by {
            if i > 0 {
                assert(steps[i] == rest[i - 1]);
            }
        }
    } else {
        assert(replies =~= Seq::empty());
    }
}

/// An append that meets no obstacle sends the events of its file in their
/// order and under the path of the file, asks the engine in turn to look
/// up, to ingest and to report, and answers with success at the last reply
/// and not before.
pub proof fn lemma_regular_append(
    path: Seq<char>,
    name: Seq<char>,
    size: u64,
    title: Seq<char>,
    offsets: Seq<u64>,
)
    requires
        encodable(encode_utf8(name)),
    ensures
        ({
            let (append, first) = AppendView::begun(path, Some(name));
            let replies = regular_replies(size, title, offsets);
            let steps = append.steps_of(replies);
            &&& first == AppendStepView::quiet(AppendActionView::Lookup { key: key_of(name) })
            &&& steps.len() == replies.len()
            &&& steps[0] == AppendStepView::quiet(
                AppendActionView::Ingest { key: key_of(name), path },
            )
            &&& events_in(steps) == shown(Direction::Upload, path, size, title, offsets)
            &&& climbing(offsets, size) ==> orderly(events_in(steps), Direction::Upload, path, size)
            &&& steps.last().action == AppendActionView::Finish(Ok(()))
            &&& forall|i: int| 0 <= i < steps.len() - 1 ==> !((#[trigger] steps[i]).action is Finish)
            &&& append.after_all(replies).stage == AppendStage::Finished
        }),
{
    let (append, first) = AppendView::begun(path, Some(name));
    let head = seq![AppendReplyView::Absent, AppendReplyView::Started];
    let notes = regular(size, title, offsets);
    let body = noted_replies(notes);
    let tail = seq![AppendReplyView::Note(NotificationView::AllDone)];
    let replies = regular_replies(size, title, offsets);
    let (asked, ingest) = append.next(AppendReplyView::Absent);
    let (streaming, poll) = asked.next(AppendReplyView::Started);
    assert(streaming.stage == AppendStage::Streaming);
    assert(streaming.transfer == TransferView::fresh(path, Direction::Upload));
    // The two replies before the stream.
    assert(append.steps_of(head) =~= seq![ingest, poll] && append.after_all(head) == streaming) by {
        let second = head.drop_first();
        let none = second.drop_first();
        assert(head[0] == AppendReplyView::Absent);
        assert(second[0] == AppendReplyView::Started);
        assert(none =~= Seq::empty());
        assert(streaming.steps_of(none) =~= Seq::empty());
        assert(streaming.after_all(none) == streaming);
        assert(asked.steps_of(second) =~= seq![poll]);
        assert(asked.after_all(second) == streaming);
        assert(append.steps_of(head) =~= seq![ingest] + asked.steps_of(second));
        assert(append.after_all(head) == asked.after_all(second));
    }
    assert(events_in(seq![ingest, poll]) =~= Seq::empty()) by {
        assert(seq![ingest, poll].drop_first() =~= seq![poll]);
        assert(seq![poll].drop_first() =~= Seq::empty());
        assert(events_in(seq![poll]) =~= events_in(seq![poll].drop_first()));
    }
    // The stream itself.
    assert forall|i: int| 0 <= i < notes.len() implies !ends(
        Direction::Upload,
        #[trigger] notes[i],
    ) by {}
    lemma_streaming_follows_transfer(streaming, notes);
    lemma_regular_stream_shown(Direction::Upload, path, size, title, offsets);
    if climbing(offsets, size) {
        lemma_regular_stream_orderly(Direction::Upload, path, size, title, offsets);
    }
    let stream_steps = streaming.steps_of(body);
    let committed = streaming.after_all(body);
    // The commit.
    let (finished, last) = committed.next(tail[0]);
    lemma_over_when_ended(committed.transfer, NotificationView::AllDone);
    assert(last == AppendStepView::quiet(AppendActionView::Finish(Ok(()))));
    assert(committed.steps_of(tail) =~= seq![last] && committed.after_all(tail) == finished) by {
        assert(tail.drop_first() =~= Seq::empty());
        assert(finished.steps_of(tail.drop_first()) =~= Seq::empty());
        assert(finished.after_all(tail.drop_first()) == finished);
    }
    assert(events_in(seq![last]) =~= Seq::empty()) by {
        assert(seq![last].drop_first() =~= Seq::empty());
        assert(events_in(seq![last]) =~= events_in(seq![last].drop_first()));
    }
    // The parts put together.
    lemma_steps_in_parts(append, head, body);
    lemma_steps_in_parts(append, head + body, tail);
    let steps = append.steps_of(replies);
    assert(steps =~= (seq![ingest, poll] + stream_steps) + seq![last]);
    lemma_events_of_parts(seq![ingest, poll], stream_steps);
    lemma_events_of_parts(seq![ingest, poll] + stream_steps, seq![last]);
    assert(events_in(steps) =~= shown(Direction::Upload, path, size, title, offsets));
    assert forall|i: int| 0 <= i < steps.len() - 1 implies !((#[trigger] steps[i]).action
        is Finish) by {
        if i >= 2 {
            assert(steps[i] == stream_steps[i - 2]);
        }
    }
}


} // verus!
