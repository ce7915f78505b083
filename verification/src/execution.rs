//! The execution of one ruleset, as a machine.
//!
//! The machine touches neither files nor clock. It asks the host for one
//! thing at a time (a `Request`), is told what came of it (an `Event`), and
//! decides what to ask next, until it hands out the result. Before it looks
//! at any file it makes sure that the source exists, creates the destination
//! where that is no template, and has the source listed. Then it takes the
//! files that the filters accept one by one: it may report progress, resolves
//! the destination, has its directory created, looks for a file of the same
//! name there, has the file transferred, and asks whether to go on.

use crate::captures::CaptureMap;
use crate::engine::{
    considered_count, considered_count_by, enumerate, enumerated, enumerated_by, faithful,
    host_independent, lemma_enumerated_by_partition, lemma_faithful_on_independent,
    lemma_pending_are_listed, name_verdicts, status_rule, taken_in_order, ExecutionResult,
    ExecutionResultView, ExecutionStatus, FileResult, FileResultView, PendingFile,
    PendingFileView, SourceEntry, SourceEntryView,
};
use crate::filters::{extract_named_captures, named_captures};
use crate::pattern::{regex_compiles, regex_group_names, regex_groups, CompiledRegex};
use crate::ruleset::{Ruleset, RulesetView};
use crate::template::{has_template_vars, holds_variable, resolve_destination_template, resolved};
use crate::text::{joined, owned};
use crate::transfer::{
    outcome_view, IoFailure, IoFailureView, Transfer, TransferEvent, TransferEventView,
    TransferRequest, TransferRequestView, TransferView,
};
use vstd::prelude::*;

verus! {

/// The least time, in nanoseconds, between two reports of progress that are
/// neither the first nor the last.
pub const PROGRESS_INTERVAL_NANOS: u64 = 100_000_000;

/// What the machine waits for.
#[derive(Debug)]
pub enum Stage {
    /// Whether the source directory exists.
    ProbingSource,
    /// The creation of the destination, which is no template.
    CreatingDestination,
    /// The listing of the source directory.
    Listing,
    /// The time, before the next file is taken up.
    ReadingClock,
    /// The word that progress was reported.
    Emitting,
    /// The creation of the directory that the template resolved to.
    CreatingDirectory { directory: String },
    /// The path of the file at its destination, and whether a file is there.
    ProbingDestination,
    /// The next answer of the host in the transfer of the file.
    Transferring { destination: String, transfer: Transfer },
    /// Whether the user has cancelled.
    PollingCancel,
    /// Nothing: the result was handed out.
    Finished,
}

#[verifier::ext_equal]
pub enum StageView {
    ProbingSource,
    CreatingDestination,
    Listing,
    ReadingClock,
    Emitting,
    CreatingDirectory { directory: Seq<char> },
    ProbingDestination,
    Transferring { destination: Seq<char>, transfer: TransferView },
    PollingCancel,
    Finished,
}

impl View for Stage {
    type V = StageView;

    open spec fn view(&self) -> StageView {
        match self {
            Stage::ProbingSource => StageView::ProbingSource,
            Stage::CreatingDestination => StageView::CreatingDestination,
            Stage::Listing => StageView::Listing,
            Stage::ReadingClock => StageView::ReadingClock,
            Stage::Emitting => StageView::Emitting,
            Stage::CreatingDirectory { directory } => StageView::CreatingDirectory {
                directory: directory@,
            },
            Stage::ProbingDestination => StageView::ProbingDestination,
            Stage::Transferring { destination, transfer } => StageView::Transferring {
                destination: destination@,
                transfer: transfer@,
            },
            Stage::PollingCancel => StageView::PollingCancel,
            Stage::Finished => StageView::Finished,
        }
    }
}

impl StageView {
    /// Whether a file is being worked on.
    pub open spec fn in_file(self) -> bool {
        self is ReadingClock || self is Emitting || self is CreatingDirectory
            || self is ProbingDestination || self is Transferring || self is PollingCancel
    }

    /// Whether progress on the file that is being worked on was decided.
    pub open spec fn past_clock(self) -> bool {
        self is Emitting || self is CreatingDirectory || self is ProbingDestination
            || self is Transferring || self is PollingCancel
    }
}

/// What the host is asked to do.
#[derive(Debug, PartialEq)]
pub enum Request {
    /// Tell whether the directory `path` exists; answer with
    /// `Event::SourceProbed`.
    ProbeSource { path: String },
    /// Create the directory `path` and every directory above it that is
    /// missing; answer with `Event::DirectoryCreated`.
    CreateDirectory { path: String },
    /// List the entries of the directory `path`, without going into its
    /// subdirectories; answer with `Event::Listed`.
    ListSource { path: String },
    /// Tell the time since the first such request; answer with `Event::Clock`.
    ReadClock,
    /// Report that the file `filename`, number `current` of `total`, is taken
    /// up; answer with `Event::ProgressEmitted`.
    EmitProgress {
        filename: String,
        current: usize,
        total: usize,
        bytes_transferred: u64,
        elapsed_nanos: u64,
    },
    /// Join `directory` and `filename` to a path and tell whether anything
    /// exists there; answer with `Event::DestinationProbed`.
    ProbeDestination { directory: String, filename: String },
    /// One operation of a transfer; answer with `Event::Transfer`.
    Transfer(TransferRequest),
    /// Tell whether the user has cancelled; answer with `Event::CancelPolled`.
    PollCancel,
    /// The execution is over, with this result.
    Finish(ExecutionResult),
    /// The event did not answer what was asked; nothing has changed.
    Rejected,
}

#[verifier::ext_equal]
pub enum RequestView {
    ProbeSource { path: Seq<char> },
    CreateDirectory { path: Seq<char> },
    ListSource { path: Seq<char> },
    ReadClock,
    EmitProgress {
        filename: Seq<char>,
        current: usize,
        total: usize,
        bytes_transferred: u64,
        elapsed_nanos: u64,
    },
    ProbeDestination { directory: Seq<char>, filename: Seq<char> },
    Transfer(TransferRequestView),
    PollCancel,
    Finish(ExecutionResultView),
    Rejected,
}

impl View for Request {
    type V = RequestView;

    open spec fn view(&self) -> RequestView {
        match self {
            Request::ProbeSource { path } => RequestView::ProbeSource { path: path@ },
            Request::CreateDirectory { path } => RequestView::CreateDirectory { path: path@ },
            Request::ListSource { path } => RequestView::ListSource { path: path@ },
            Request::ReadClock => RequestView::ReadClock,
            Request::EmitProgress {
                filename,
                current,
                total,
                bytes_transferred,
                elapsed_nanos,
            } => RequestView::EmitProgress {
                filename: filename@,
                current: *current,
                total: *total,
                bytes_transferred: *bytes_transferred,
                elapsed_nanos: *elapsed_nanos,
            },
            Request::ProbeDestination { directory, filename } => RequestView::ProbeDestination {
                directory: directory@,
                filename: filename@,
            },
            Request::Transfer(t) => RequestView::Transfer(t@),
            Request::PollCancel => RequestView::PollCancel,
            Request::Finish(r) => RequestView::Finish(r@),
            Request::Rejected => RequestView::Rejected,
        }
    }
}

/// What the host answers.
#[derive(Debug, PartialEq)]
pub enum Event {
    /// Whether the source directory exists.
    SourceProbed(bool),
    /// What came of creating a directory.
    DirectoryCreated(Result<(), IoFailure>),
    /// The entries of the source directory, in the order of the host.
    Listed(Result<Vec<SourceEntry>, IoFailure>),
    /// The nanoseconds since the clock was first read.
    Clock(u64),
    /// Progress was reported.
    ProgressEmitted,
    /// The path of the file at its destination, and whether anything exists
    /// there.
    DestinationProbed { path: String, exists: bool },
    /// The answer to one operation of a transfer.
    Transfer(TransferEvent),
    /// Whether the user has cancelled.
    CancelPolled(bool),
}

pub enum EventView {
    SourceProbed(bool),
    DirectoryCreated(Result<(), IoFailureView>),
    Listed(Result<Seq<SourceEntryView>, IoFailureView>),
    Clock(u64),
    ProgressEmitted,
    DestinationProbed { path: Seq<char>, exists: bool },
    Transfer(TransferEventView),
    CancelPolled(bool),
}

impl View for Event {
    type V = EventView;

    open spec fn view(&self) -> EventView {
        match self {
            Event::SourceProbed(b) => EventView::SourceProbed(*b),
            Event::DirectoryCreated(r) => EventView::DirectoryCreated(outcome_view(*r)),
            Event::Listed(r) => EventView::Listed(
                match r {
                    Ok(entries) => Ok(entries.deep_view()),
                    Err(e) => Err(e@),
                },
            ),
            Event::Clock(now) => EventView::Clock(*now),
            Event::ProgressEmitted => EventView::ProgressEmitted,
            Event::DestinationProbed { path, exists } => EventView::DestinationProbed {
                path: path@,
                exists: *exists,
            },
            Event::Transfer(e) => EventView::Transfer(e@),
            Event::CancelPolled(b) => EventView::CancelPolled(*b),
        }
    }
}

/// The execution of one ruleset.
#[derive(Debug)]
pub struct Execution {
    ruleset: Ruleset,
    use_template: bool,
    name_regex: Option<CompiledRegex>,
    stage: Stage,
    listed: bool,
    pending: Vec<PendingFile>,
    index: usize,
    stat_failures: usize,
    succeeded: Vec<FileResult>,
    skipped: Vec<FileResult>,
    errors: Vec<FileResult>,
    bytes_transferred: u64,
    created_dirs: Vec<String>,
    last_emit: Option<u64>,
    emitted: usize,
    cancelled: bool,
}

#[verifier::ext_equal]
pub struct ExecutionView {
    pub ruleset: RulesetView,
    pub stage: StageView,
    /// Whether the source directory was listed.
    pub listed: bool,
    /// The files to transfer, in the order of the listing.
    pub pending: Seq<PendingFileView>,
    /// The index in `pending` of the file that is worked on.
    pub index: nat,
    /// The number of files of which the host reported nothing.
    pub stat_failures: nat,
    pub succeeded: Seq<FileResultView>,
    pub skipped: Seq<FileResultView>,
    pub errors: Seq<FileResultView>,
    /// The sizes of the files transferred, added up; it stops at `u64::MAX`.
    pub bytes_transferred: u64,
    /// The directories that were created for resolved templates.
    pub created_dirs: Seq<Seq<char>>,
    /// The time of the last report of progress.
    pub last_emit: Option<u64>,
    /// The number of the file of the last report of progress; 0 before any.
    pub emitted: nat,
    /// Whether the user cancelled.
    pub cancelled: bool,
}

impl View for Execution {
    type V = ExecutionView;

    closed spec fn view(&self) -> ExecutionView {
        ExecutionView {
            ruleset: self.ruleset@,
            stage: self.stage@,
            listed: self.listed,
            pending: self.pending.deep_view(),
            index: self.index as nat,
            stat_failures: self.stat_failures as nat,
            succeeded: self.succeeded.deep_view(),
            skipped: self.skipped.deep_view(),
            errors: self.errors.deep_view(),
            bytes_transferred: self.bytes_transferred,
            created_dirs: self.created_dirs.deep_view(),
            last_emit: self.last_emit,
            emitted: self.emitted as nat,
            cancelled: self.cancelled,
        }
    }
}

/// The record of a file that was not transferred because another file of
/// its name exists at the destination.
pub open spec fn collision_reason() -> Seq<char> {
    "File with same name exists at destination"@
}

/// The record of a file that was not taken up because the user cancelled.
pub open spec fn cancelled_reason() -> Seq<char> {
    "Cancelled by user"@
}

/// The records of the files `pending[from..]`, none of which was taken up
/// because the user cancelled.
pub open spec fn cancelled_records(pending: Seq<PendingFileView>, from: int) -> Seq<FileResultView> {
    Seq::new(
        if from <= pending.len() {
            (pending.len() - from) as nat
        } else {
            0
        },
        |k: int|
            FileResultView {
                filename: pending[from + k].filename,
                source_path: pending[from + k].path,
                destination_path: None,
                reason: Some(cancelled_reason()),
            },
    )
}

/// Whether progress is reported at `now` for file `index` of `total`: for
/// the first report, for the last file, and when the interval has passed
/// since the last report.
pub open spec fn should_emit(last_emit: Option<u64>, now: u64, index: nat, total: nat) -> bool {
    ||| last_emit is None
    ||| now - last_emit.unwrap() >= PROGRESS_INTERVAL_NANOS
    ||| index + 1 == total
}

/// `a + b`, or `u64::MAX` if that is less.
pub open spec fn saturating_sum(a: u64, b: u64) -> u64 {
    if a + b > u64::MAX {
        u64::MAX
    } else {
        (a + b) as u64
    }
}

impl ExecutionView {
    /// The execution as it starts.
    pub open spec fn initial(ruleset: RulesetView) -> ExecutionView {
        ExecutionView {
            ruleset,
            stage: StageView::ProbingSource,
            listed: false,
            pending: Seq::empty(),
            index: 0,
            stat_failures: 0,
            succeeded: Seq::empty(),
            skipped: Seq::empty(),
            errors: Seq::empty(),
            bytes_transferred: 0,
            created_dirs: Seq::empty(),
            last_emit: None,
            emitted: 0,
            cancelled: false,
        }
    }

    /// Whether the destination is a template.
    pub open spec fn use_template(self) -> bool {
        holds_variable(self.ruleset.destination_dir)
    }

    /// The execution in another stage.
    pub open spec fn at(self, stage: StageView) -> ExecutionView {
        ExecutionView { stage, ..self }
    }

    /// The file that is worked on.
    pub open spec fn current(self) -> PendingFileView {
        self.pending[self.index as int]
    }

    /// The result, as the lists stand.
    pub open spec fn result(self) -> ExecutionResultView {
        ExecutionResultView {
            ruleset_id: self.ruleset.id,
            ruleset_name: self.ruleset.name,
            action: self.ruleset.action,
            status: status_rule(self.succeeded.len(), self.errors.len()),
            succeeded: self.succeeded,
            skipped: self.skipped,
            errors: self.errors,
        }
    }

    /// The end: the result is handed out.
    pub open spec fn finish(self) -> (ExecutionView, RequestView) {
        (self.at(StageView::Finished), RequestView::Finish(self.result()))
    }

    /// The end before any file was looked at: the result holds one failure,
    /// which names `path` and no file.
    pub open spec fn fail_early(self, path: Seq<char>, reason: Seq<char>) -> (
        ExecutionView,
        RequestView,
    ) {
        ExecutionView {
            errors: seq![
                FileResultView {
                    filename: Seq::empty(),
                    source_path: path,
                    destination_path: None,
                    reason: Some(reason),
                },
            ],
            ..self
        }.finish()
    }

    /// The record of the file that is worked on.
    pub open spec fn record(self, destination: Option<Seq<char>>, reason: Option<Seq<char>>) -> FileResultView {
        FileResultView {
            filename: self.current().filename,
            source_path: self.current().path,
            destination_path: destination,
            reason,
        }
    }

    /// The file that is worked on is skipped; next, the user is asked.
    pub open spec fn skip(self, destination: Option<Seq<char>>, reason: Seq<char>) -> (
        ExecutionView,
        RequestView,
    ) {
        (
            ExecutionView {
                skipped: self.skipped.push(self.record(destination, Some(reason))),
                stage: StageView::PollingCancel,
                ..self
            },
            RequestView::PollCancel,
        )
    }

    /// The file that is worked on has failed; next, the user is asked.
    pub open spec fn fail(self, destination: Option<Seq<char>>, reason: Seq<char>) -> (
        ExecutionView,
        RequestView,
    ) {
        (
            ExecutionView {
                errors: self.errors.push(self.record(destination, Some(reason))),
                stage: StageView::PollingCancel,
                ..self
            },
            RequestView::PollCancel,
        )
    }

    /// The file that is worked on was transferred; next, the user is asked.
    pub open spec fn succeed(self, destination: Seq<char>) -> (ExecutionView, RequestView) {
        (
            ExecutionView {
                succeeded: self.succeeded.push(self.record(Some(destination), None)),
                bytes_transferred: saturating_sum(
                    self.bytes_transferred,
                    self.current().file_size,
                ),
                stage: StageView::PollingCancel,
                ..self
            },
            RequestView::PollCancel,
        )
    }

    /// What the groups of the file-name pattern captured from the name of
    /// the file that is worked on. The pattern is read as a regular
    /// expression; without a pattern, or with one that is none, nothing is
    /// captured.
    pub open spec fn captures(self) -> Map<Seq<char>, Seq<char>> {
        match self.ruleset.filters.filename {
            Some(f) => if regex_compiles(f.pattern) {
                named_captures(
                    regex_group_names(f.pattern),
                    regex_groups(f.pattern, self.current().filename),
                )
            } else {
                Map::empty()
            },
            None => Map::empty(),
        }
    }

    /// The host is asked about the destination of the file in `directory`.
    pub open spec fn probe(self, directory: Seq<char>) -> (ExecutionView, RequestView) {
        (
            self.at(StageView::ProbingDestination),
            RequestView::ProbeDestination { directory, filename: self.current().filename },
        )
    }

    /// The file at `index` is taken up, after the word on progress: its
    /// destination is resolved. A template that cannot be resolved skips
    /// the file. A directory that a template resolves to is created the
    /// first time it is seen.
    pub open spec fn enter_file(self) -> (ExecutionView, RequestView) {
        if !self.use_template() {
            self.probe(self.ruleset.destination_dir)
        } else {
            match resolved(self.ruleset.destination_dir, self.captures()) {
                Err(reason) => self.skip(None, reason),
                Ok(directory) => if self.created_dirs.contains(directory) {
                    self.probe(directory)
                } else {
                    (
                        self.at(StageView::CreatingDirectory { directory }),
                        RequestView::CreateDirectory { path: directory },
                    )
                },
            }
        }
    }

    /// The clock is read before the file at `index` is taken up.
    pub open spec fn read_clock(self) -> (ExecutionView, RequestView) {
        (self.at(StageView::ReadingClock), RequestView::ReadClock)
    }

    /// After the word on whether the source exists.
    pub open spec fn after_source_probe(self, exists: bool) -> (ExecutionView, RequestView) {
        if !exists {
            self.fail_early(self.ruleset.source_dir, "Source directory does not exist"@)
        } else if !self.use_template() {
            (
                self.at(StageView::CreatingDestination),
                RequestView::CreateDirectory { path: self.ruleset.destination_dir },
            )
        } else {
            (self.at(StageView::Listing), RequestView::ListSource { path: self.ruleset.source_dir })
        }
    }

    /// After the creation of the destination.
    pub open spec fn after_destination_created(self, r: Result<(), IoFailureView>) -> (
        ExecutionView,
        RequestView,
    ) {
        match r {
            Err(e) => self.fail_early(
                self.ruleset.destination_dir,
                "Failed to create destination directory: "@ + e.message,
            ),
            Ok(_) => (
                self.at(StageView::Listing),
                RequestView::ListSource { path: self.ruleset.source_dir },
            ),
        }
    }

    /// After the listing of the source, where `verdicts[i]` is what the
    /// pattern of the file-name filter says of entry `i`.
    pub open spec fn after_listing_by(
        self,
        r: Result<Seq<SourceEntryView>, IoFailureView>,
        verdicts: Seq<bool>,
    ) -> (ExecutionView, RequestView) {
        match r {
            Err(e) => self.fail_early(
                self.ruleset.source_dir,
                "Failed to read source directory: "@ + e.message,
            ),
            Ok(entries) => {
                let found = enumerated_by(
                    entries,
                    self.ruleset.filters,
                    verdicts,
                    entries.len() as int,
                );
                let listed = ExecutionView {
                    listed: true,
                    pending: found.pending,
                    errors: found.errors,
                    stat_failures: found.errors.len(),
                    ..self
                };
                if found.pending.len() == 0 {
                    listed.finish()
                } else {
                    listed.read_clock()
                }
            },
        }
    }

    /// After the listing of the source.
    pub open spec fn after_listing(self, r: Result<Seq<SourceEntryView>, IoFailureView>) -> (
        ExecutionView,
        RequestView,
    ) {
        self.after_listing_by(r, self.plain_verdicts(EventView::Listed(r)))
    }

    /// What the pattern of the file-name filter says of each entry that
    /// `event` brings.
    pub open spec fn plain_verdicts(self, event: EventView) -> Seq<bool> {
        match event {
            EventView::Listed(Ok(entries)) => name_verdicts(entries, self.ruleset.filters),
            _ => Seq::empty(),
        }
    }

    /// Whether `verdicts` can be the answers of the host's pattern matcher
    /// for what `event` brings: this asks something only of a listing.
    pub open spec fn answers(self, event: EventView, verdicts: Seq<bool>) -> bool {
        event matches EventView::Listed(Ok(entries)) ==> faithful(
            entries,
            self.ruleset.filters,
            verdicts,
        )
    }

    /// The execution after `event`, and what the host is asked next, where
    /// `verdicts` are the answers of the pattern of the file-name filter
    /// for the entries of a listing. Only the step that takes the listing
    /// reads them.
    pub open spec fn next_by(self, event: EventView, verdicts: Seq<bool>) -> (
        ExecutionView,
        RequestView,
    ) {
        match (self.stage, event) {
            (StageView::Listing, EventView::Listed(r)) => self.after_listing_by(r, verdicts),
            _ => self.next(event),
        }
    }

    /// After the clock was read: progress is reported, or the file is
    /// taken up at once.
    pub open spec fn after_clock(self, now: u64) -> (ExecutionView, RequestView) {
        if should_emit(self.last_emit, now, self.index, self.pending.len()) {
            (
                ExecutionView {
                    last_emit: Some(now),
                    emitted: self.index + 1,
                    stage: StageView::Emitting,
                    ..self
                },
                RequestView::EmitProgress {
                    filename: self.current().filename,
                    current: (self.index + 1) as usize,
                    total: self.pending.len() as usize,
                    bytes_transferred: self.bytes_transferred,
                    elapsed_nanos: now,
                },
            )
        } else {
            self.enter_file()
        }
    }

    /// After the creation of the directory that the template resolved to.
    pub open spec fn after_directory_created(
        self,
        directory: Seq<char>,
        r: Result<(), IoFailureView>,
    ) -> (ExecutionView, RequestView) {
        match r {
            Err(e) => self.fail(None, "Failed to create destination directory: "@ + e.message),
            Ok(_) => ExecutionView {
                created_dirs: self.created_dirs.push(directory),
                ..self
            }.probe(directory),
        }
    }

    /// After the word on the destination: a file that is in the way and may
    /// not be overwritten skips the file; else the transfer starts.
    pub open spec fn after_destination_probe(self, path: Seq<char>, exists: bool) -> (
        ExecutionView,
        RequestView,
    ) {
        if exists && !self.ruleset.overwrite {
            self.skip(Some(path), collision_reason())
        } else {
            let (transfer, first) = TransferView::start(
                self.ruleset.action,
                self.current().path,
                path,
                self.current().file_size,
            );
            (
                self.at(StageView::Transferring { destination: path, transfer }),
                RequestView::Transfer(first),
            )
        }
    }

    /// After an answer of the host within the transfer.
    pub open spec fn after_transfer(
        self,
        destination: Seq<char>,
        transfer: TransferView,
        event: TransferEventView,
    ) -> (ExecutionView, RequestView) {
        let (after, request) = transfer.next(event);
        match request {
            TransferRequestView::Done(Ok(_)) => self.succeed(destination),
            TransferRequestView::Done(Err(e)) => self.fail(Some(destination), e.classified()),
            TransferRequestView::Rejected => (self, RequestView::Rejected),
            _ => (
                self.at(StageView::Transferring { destination, transfer: after }),
                RequestView::Transfer(request),
            ),
        }
    }

    /// After the word on whether the user cancelled: if so, the files that
    /// are left are skipped; else the next file is taken up, if there is one.
    pub open spec fn after_cancel_poll(self, cancelled: bool) -> (ExecutionView, RequestView) {
        if cancelled {
            ExecutionView {
                skipped: self.skipped + cancelled_records(self.pending, (self.index + 1) as int),
                cancelled: true,
                ..self
            }.finish()
        } else if self.index + 1 < self.pending.len() {
            ExecutionView { index: self.index + 1, ..self }.read_clock()
        } else {
            self.finish()
        }
    }

    /// The execution after `event`, and what the host is asked next. An
    /// event that does not answer the last request changes nothing and is
    /// rejected.
    pub open spec fn next(self, event: EventView) -> (ExecutionView, RequestView) {
        match (self.stage, event) {
            (StageView::ProbingSource, EventView::SourceProbed(exists)) => self.after_source_probe(
                exists,
            ),
            (
                StageView::CreatingDestination,
                EventView::DirectoryCreated(r),
            ) => self.after_destination_created(r),
            (StageView::Listing, EventView::Listed(r)) => self.after_listing(r),
            (StageView::ReadingClock, EventView::Clock(now)) => self.after_clock(now),
            (StageView::Emitting, EventView::ProgressEmitted) => self.enter_file(),
            (
                StageView::CreatingDirectory { directory },
                EventView::DirectoryCreated(r),
            ) => self.after_directory_created(directory, r),
            (
                StageView::ProbingDestination,
                EventView::DestinationProbed { path, exists },
            ) => self.after_destination_probe(path, exists),
            (
                StageView::Transferring { destination, transfer },
                EventView::Transfer(e),
            ) => self.after_transfer(destination, transfer, e),
            (StageView::PollingCancel, EventView::CancelPolled(c)) => self.after_cancel_poll(c),
            _ => (self, RequestView::Rejected),
        }
    }

    /// The execution after each of `events` in turn.
    pub open spec fn after(self, events: Seq<EventView>) -> ExecutionView
        decreases events.len(),
    {
        if events.len() == 0 {
            self
        } else {
            self.after(events.drop_last()).next(events.last()).0
        }
    }

    /// Whether the filters answer alike on every host for what `event`
    /// brings: this asks something only of a listing.
    pub open spec fn host_independent(self, event: EventView) -> bool {
        event matches EventView::Listed(Ok(entries)) ==> host_independent(
            entries,
            self.ruleset.filters,
        )
    }

    /// The number of files that were recorded.
    pub open spec fn recorded(self) -> nat {
        self.succeeded.len() + self.skipped.len() + self.errors.len()
    }

    /// What holds of every execution, whatever the host answers.
    pub open spec fn inv(self) -> bool {
        &&& self.index <= self.pending.len()
        &&& self.stage.in_file() ==> self.listed && self.index < self.pending.len()
        &&& (self.stage is ProbingSource || self.stage is CreatingDestination
            || self.stage is Listing) ==> !self.listed && self.errors.len() == 0
        &&& !self.listed ==> {
            &&& self.pending.len() == 0
            &&& self.stat_failures == 0
            &&& self.succeeded.len() == 0
            &&& self.skipped.len() == 0
            &&& !self.cancelled
            &&& self.stage is Finished ==> self.errors.len() == 1
        }
        &&& self.listed && !(self.stage is Finished) ==> self.recorded() == self.stat_failures
            + self.index + if self.stage is PollingCancel {
            1nat
        } else {
            0nat
        }
        &&& self.listed && self.stage is Finished ==> self.recorded() == self.stat_failures
            + self.pending.len()
        &&& self.emitted <= self.pending.len()
        &&& self.last_emit is None <==> self.emitted == 0
        &&& self.stage.in_file() ==> self.emitted <= self.index + 1
        &&& self.stage is ReadingClock ==> self.emitted <= self.index
        &&& self.stage.past_clock() ==> self.emitted >= 1
        &&& self.stage.past_clock() && self.index + 1 == self.pending.len() ==> self.emitted
            == self.pending.len()
        &&& self.stage is Finished && self.listed && !self.cancelled ==> self.emitted
            == self.pending.len()
        &&& self.cancelled ==> self.stage is Finished
        &&& forall|i: int, j: int|
            0 <= i < j < self.created_dirs.len() ==> self.created_dirs[i] != self.created_dirs[j]
        &&& self.stage matches StageView::CreatingDirectory { directory }
            ==> !self.created_dirs.contains(directory)
        &&& self.stage matches StageView::Transferring { destination, transfer } ==> {
            &&& transfer.kind == self.ruleset.action
            &&& transfer.source == self.current().path
            &&& transfer.destination == destination
            &&& transfer.expected_size == self.current().file_size
            &&& !(transfer.phase is Finished)
        }
    }
}

fn push_record(list: &mut Vec<FileResult>, record: FileResult)
    ensures
        final(list).deep_view() == old(list).deep_view().push(record@),
        final(list).len() == old(list).len() + 1,
{
    let ghost before = list.deep_view();
    list.push(record);
    proof {
        assert(list.deep_view() =~= before.push(record@));
    }
}

fn contains_text(list: &Vec<String>, text: &String) -> (r: bool)
    ensures
        r == list.deep_view().contains(text@),
{
    let mut i: usize = 0;
    while i < list.len()
        invariant
            i <= list.len(),
            forall|k: int| 0 <= k < i ==> list.deep_view()[k] != text@,
        decreases list.len() - i,
    {
        proof {
            assert(list.deep_view()[i as int] == list@[i as int]@);
        }
        if list[i] == *text {
            return true;
        }
        i += 1;
    }
    false
}

impl Execution {
    /// What ties the parts of the machine together: the view keeps the
    /// invariant, and the regular expression for the captures was compiled
    /// from the file-name pattern if and only if the destination is a template.
    pub closed spec fn wf(&self) -> bool {
        &&& self@.inv()
        &&& self.use_template == self@.use_template()
        &&& match self.ruleset.filters.filename {
            Some(f) => {
                &&& self.name_regex is Some <==> self.use_template && regex_compiles(f.pattern@)
                &&& self.name_regex is Some ==> self.name_regex.unwrap()@ == f.pattern@
            },
            None => self.name_regex is None,
        }
    }

    /// An execution that is well formed keeps the invariant of which the laws
    /// of this module speak, and holds no more files than can be counted.
    pub proof fn lemma_wf_gives_inv(&self)
        requires
            self.wf(),
        ensures
            self@.inv(),
            self@.pending.len() <= usize::MAX,
    {
        assert(self@.pending.len() == self.pending.len());
    }

    /// Starts the execution of `ruleset`; the first request asks whether the
    /// source exists.
    pub fn begin(ruleset: Ruleset) -> (r: (Execution, Request))
        ensures
            r.0.wf(),
            r.0@.inv(),
            r.0@ == ExecutionView::initial(ruleset@),
            r.1@ == (RequestView::ProbeSource { path: ruleset.source_dir@ }),
    {
        let use_template = has_template_vars(ruleset.destination_dir.as_str());
        let name_regex = if use_template {
            match &ruleset.filters.filename {
                Some(f) => CompiledRegex::compile(f.pattern.as_str()),
                None => None,
            }
        } else {
            None
        };
        let request = Request::ProbeSource { path: ruleset.source_dir.clone() };
        let execution = Execution {
            ruleset,
            use_template,
            name_regex,
            stage: Stage::ProbingSource,
            listed: false,
            pending: Vec::new(),
            index: 0,
            stat_failures: 0,
            succeeded: Vec::new(),
            skipped: Vec::new(),
            errors: Vec::new(),
            bytes_transferred: 0,
            created_dirs: Vec::new(),
            last_emit: None,
            emitted: 0,
            cancelled: false,
        };
        proof {
            assert(execution@ =~= ExecutionView::initial(ruleset@));
        }
        (execution, request)
    }

    /// Whether the result was handed out.
    pub fn is_finished(&self) -> (r: bool)
        ensures
            r == (self@.stage is Finished),
    {
        match self.stage {
            Stage::Finished => true,
            _ => false,
        }
    }

    fn result(&self) -> (r: ExecutionResult)
        ensures
            r@ == self@.result(),
    {
        ExecutionResult {
            ruleset_id: self.ruleset.id.clone(),
            ruleset_name: self.ruleset.name.clone(),
            action: self.ruleset.action,
            status: ExecutionResult::determine_status(
                self.succeeded.as_slice(),
                self.errors.as_slice(),
            ),
            succeeded: self.succeeded.clone(),
            skipped: self.skipped.clone(),
            errors: self.errors.clone(),
        }
    }

    fn finish(&mut self) -> (request: Request)
        ensures
            (final(self)@, request@) == old(self)@.finish(),
            final(self).use_template == old(self).use_template,
            final(self).name_regex == old(self).name_regex,
            final(self).ruleset == old(self).ruleset,
    {
        let result = self.result();
        self.stage = Stage::Finished;
        Request::Finish(result)
    }

    fn fail_early(&mut self, path: String, reason: String) -> (request: Request)
        requires
            old(self)@.errors.len() == 0,
        ensures
            (final(self)@, request@) == old(self)@.fail_early(path@, reason@),
            final(self).use_template == old(self).use_template,
            final(self).name_regex == old(self).name_regex,
            final(self).ruleset == old(self).ruleset,
    {
        push_record(
            &mut self.errors,
            FileResult {
                filename: String::new(),
                source_path: path,
                destination_path: None,
                reason: Some(reason),
            },
        );
        proof {
            assert(self.errors.deep_view() =~= seq![
                FileResultView {
                    filename: Seq::empty(),
                    source_path: path@,
                    destination_path: None,
                    reason: Some(reason@),
                },
            ]);
        }
        self.finish()
    }

    fn record(&self, destination: Option<String>, reason: Option<String>) -> (r: FileResult)
        requires
            self.index < self.pending.len(),
        ensures
            r@ == self@.record(destination.deep_view(), reason.deep_view()),
    {
        proof {
            assert(self.pending.deep_view()[self.index as int] == self.pending@[self.index as int]@);
        }
        FileResult {
            filename: self.pending[self.index].filename.clone(),
            source_path: self.pending[self.index].path.clone(),
            destination_path: destination,
            reason,
        }
    }

    fn skip(&mut self, destination: Option<String>, reason: String) -> (request: Request)
        requires
            old(self).index < old(self).pending.len(),
        ensures
            (final(self)@, request@) == old(self)@.skip(destination.deep_view(), reason@),
            final(self).use_template == old(self).use_template,
            final(self).name_regex == old(self).name_regex,
            final(self).ruleset == old(self).ruleset,
    {
        let record = self.record(destination, Some(reason));
        push_record(&mut self.skipped, record);
        self.stage = Stage::PollingCancel;
        Request::PollCancel
    }

    fn fail(&mut self, destination: Option<String>, reason: String) -> (request: Request)
        requires
            old(self).index < old(self).pending.len(),
        ensures
            (final(self)@, request@) == old(self)@.fail(destination.deep_view(), reason@),
            final(self).use_template == old(self).use_template,
            final(self).name_regex == old(self).name_regex,
            final(self).ruleset == old(self).ruleset,
    {
        let record = self.record(destination, Some(reason));
        push_record(&mut self.errors, record);
        self.stage = Stage::PollingCancel;
        Request::PollCancel
    }

    fn succeed(&mut self, destination: String) -> (request: Request)
        requires
            old(self).index < old(self).pending.len(),
        ensures
            (final(self)@, request@) == old(self)@.succeed(destination@),
            final(self).use_template == old(self).use_template,
            final(self).name_regex == old(self).name_regex,
            final(self).ruleset == old(self).ruleset,
    {
        proof {
            assert(self.pending.deep_view()[self.index as int] == self.pending@[self.index as int]@);
        }
        let record = self.record(Some(destination), None);
        push_record(&mut self.succeeded, record);
        self.bytes_transferred = self.bytes_transferred.saturating_add(
            self.pending[self.index].file_size,
        );
        self.stage = Stage::PollingCancel;
        Request::PollCancel
    }

    fn probe(&mut self, directory: String) -> (request: Request)
        requires
            old(self).index < old(self).pending.len(),
        ensures
            (final(self)@, request@) == old(self)@.probe(directory@),
            final(self).use_template == old(self).use_template,
            final(self).name_regex == old(self).name_regex,
            final(self).ruleset == old(self).ruleset,
    {
        proof {
            assert(self.pending.deep_view()[self.index as int] == self.pending@[self.index as int]@);
        }
        self.stage = Stage::ProbingDestination;
        Request::ProbeDestination {
            directory,
            filename: self.pending[self.index].filename.clone(),
        }
    }

    fn captures(&self) -> (m: CaptureMap)
        requires
            self.wf(),
            self.use_template,
            self.index < self.pending.len(),
        ensures
            m.wf(),
            m@ == self@.captures(),
    {
        proof {
            assert(self.pending.deep_view()[self.index as int] == self.pending@[self.index as int]@);
        }
        match &self.name_regex {
            Some(re) => extract_named_captures(self.pending[self.index].filename.as_str(), re),
            None => CaptureMap::new(),
        }
    }

    fn enter_file(&mut self) -> (request: Request)
        requires
            old(self).wf(),
            old(self).index < old(self).pending.len(),
        ensures
            (final(self)@, request@) == old(self)@.enter_file(),
            final(self).use_template == old(self).use_template,
            final(self).name_regex == old(self).name_regex,
            final(self).ruleset == old(self).ruleset,
    {
        if !self.use_template {
            let directory = self.ruleset.destination_dir.clone();
            self.probe(directory)
        } else {
            let captures = self.captures();
            match resolve_destination_template(self.ruleset.destination_dir.as_str(), &captures) {
                Err(reason) => self.skip(None, reason),
                Ok(directory) => {
                    if contains_text(&self.created_dirs, &directory) {
                        self.probe(directory)
                    } else {
                        let request = Request::CreateDirectory { path: directory.clone() };
                        self.stage = Stage::CreatingDirectory { directory };
                        request
                    }
                },
            }
        }
    }

    fn read_clock(&mut self) -> (request: Request)
        ensures
            (final(self)@, request@) == old(self)@.read_clock(),
            final(self).use_template == old(self).use_template,
            final(self).name_regex == old(self).name_regex,
            final(self).ruleset == old(self).ruleset,
    {
        self.stage = Stage::ReadingClock;
        Request::ReadClock
    }

    fn after_source_probe(&mut self, exists: bool) -> (request: Request)
        requires
            old(self).wf(),
            old(self)@.stage is ProbingSource,
        ensures
            (final(self)@, request@) == old(self)@.after_source_probe(exists),
            final(self).use_template == old(self).use_template,
            final(self).name_regex == old(self).name_regex,
            final(self).ruleset == old(self).ruleset,
    {
        if !exists {
            let path = self.ruleset.source_dir.clone();
            self.fail_early(path, owned("Source directory does not exist"))
        } else if !self.use_template {
            self.stage = Stage::CreatingDestination;
            Request::CreateDirectory { path: self.ruleset.destination_dir.clone() }
        } else {
            self.stage = Stage::Listing;
            Request::ListSource { path: self.ruleset.source_dir.clone() }
        }
    }

    fn after_destination_created(&mut self, r: Result<(), IoFailure>) -> (request: Request)
        requires
            old(self).wf(),
            old(self)@.stage is CreatingDestination,
        ensures
            (final(self)@, request@) == old(self)@.after_destination_created(outcome_view(r)),
            final(self).use_template == old(self).use_template,
            final(self).name_regex == old(self).name_regex,
            final(self).ruleset == old(self).ruleset,
    {
        match r {
            Err(e) => {
                let path = self.ruleset.destination_dir.clone();
                let reason = joined("Failed to create destination directory: ", e.message.as_str());
                self.fail_early(path, reason)
            },
            Ok(_) => {
                self.stage = Stage::Listing;
                Request::ListSource { path: self.ruleset.source_dir.clone() }
            },
        }
    }

    fn after_listing(&mut self, r: Result<Vec<SourceEntry>, IoFailure>) -> (res: (
        Request,
        Ghost<Seq<bool>>,
    ))
        requires
            old(self).wf(),
            old(self)@.stage is Listing,
        ensures
            old(self)@.answers((Event::Listed(r))@, res.1@),
            (final(self)@, res.0@) == old(self)@.after_listing_by(
                (Event::Listed(r))@->Listed_0,
                res.1@,
            ),
            final(self).use_template == old(self).use_template,
            final(self).name_regex == old(self).name_regex,
            final(self).ruleset == old(self).ruleset,
    {
        match r {
            Err(e) => {
                let path = self.ruleset.source_dir.clone();
                let reason = joined("Failed to read source directory: ", e.message.as_str());
                (self.fail_early(path, reason), Ghost(Seq::empty()))
            },
            Ok(entries) => {
                let (pending, errors) = enumerate(&entries, &self.ruleset.filters);
                let ghost verdicts = choose|verdicts: Seq<bool>|
                    {
                        &&& #[trigger] faithful(entries.deep_view(), self.ruleset.filters@, verdicts)
                        &&& pending.deep_view() == enumerated_by(
                            entries.deep_view(),
                            self.ruleset.filters@,
                            verdicts,
                            entries.len() as int,
                        ).pending
                        &&& errors.deep_view() == enumerated_by(
                            entries.deep_view(),
                            self.ruleset.filters@,
                            verdicts,
                            entries.len() as int,
                        ).errors
                    };
                self.listed = true;
                self.stat_failures = errors.len();
                self.pending = pending;
                self.errors = errors;
                if self.pending.len() == 0 {
                    (self.finish(), Ghost(verdicts))
                } else {
                    (self.read_clock(), Ghost(verdicts))
                }
            },
        }
    }

    fn after_clock(&mut self, now: u64) -> (request: Request)
        requires
            old(self).wf(),
            old(self)@.stage is ReadingClock,
        ensures
            (final(self)@, request@) == old(self)@.after_clock(now),
            final(self).use_template == old(self).use_template,
            final(self).name_regex == old(self).name_regex,
            final(self).ruleset == old(self).ruleset,
    {
        let total = self.pending.len();
        let due = match self.last_emit {
            None => true,
            Some(last) => now >= last && now - last >= PROGRESS_INTERVAL_NANOS,
        };
        if due || self.index + 1 == total {
            proof {
                assert(self.pending.deep_view()[self.index as int] == self.pending@[self.index as int]@);
            }
            self.last_emit = Some(now);
            self.emitted = self.index + 1;
            self.stage = Stage::Emitting;
            Request::EmitProgress {
                filename: self.pending[self.index].filename.clone(),
                current: self.index + 1,
                total,
                bytes_transferred: self.bytes_transferred,
                elapsed_nanos: now,
            }
        } else {
            self.enter_file()
        }
    }

    fn after_directory_created(&mut self, directory: String, r: Result<(), IoFailure>) -> (request:
        Request)
        requires
            old(self).wf(),
            old(self).index < old(self).pending.len(),
        ensures
            (final(self)@, request@) == old(self)@.after_directory_created(
                directory@,
                outcome_view(r),
            ),
            final(self).use_template == old(self).use_template,
            final(self).name_regex == old(self).name_regex,
            final(self).ruleset == old(self).ruleset,
    {
        match r {
            Err(e) => {
                let reason = joined("Failed to create destination directory: ", e.message.as_str());
                self.fail(None, reason)
            },
            Ok(_) => {
                let ghost before = self.created_dirs.deep_view();
                self.created_dirs.push(directory.clone());
                proof {
                    assert(self.created_dirs.deep_view() =~= before.push(directory@));
                }
                self.probe(directory)
            },
        }
    }

    fn after_destination_probe(&mut self, path: String, exists: bool) -> (request: Request)
        requires
            old(self).wf(),
            old(self).index < old(self).pending.len(),
        ensures
            (final(self)@, request@) == old(self)@.after_destination_probe(path@, exists),
            final(self).use_template == old(self).use_template,
            final(self).name_regex == old(self).name_regex,
            final(self).ruleset == old(self).ruleset,
    {
        if exists && !self.ruleset.overwrite {
            self.skip(Some(path), owned("File with same name exists at destination"))
        } else {
            proof {
                assert(self.pending.deep_view()[self.index as int] == self.pending@[self.index as int]@);
            }
            let (transfer, first) = Transfer::begin(
                self.ruleset.action,
                self.pending[self.index].path.clone(),
                path.clone(),
                self.pending[self.index].file_size,
            );
            self.stage = Stage::Transferring { destination: path, transfer };
            Request::Transfer(first)
        }
    }

    fn after_cancel_poll(&mut self, cancelled: bool) -> (request: Request)
        requires
            old(self).wf(),
            old(self).index < old(self).pending.len(),
        ensures
            (final(self)@, request@) == old(self)@.after_cancel_poll(cancelled),
            final(self).use_template == old(self).use_template,
            final(self).name_regex == old(self).name_regex,
            final(self).ruleset == old(self).ruleset,
    {
        if cancelled {
            let ghost before = self.skipped.deep_view();
            let ghost all = self.pending.deep_view();
            let start = self.index + 1;
            let mut i: usize = start;
            while i < self.pending.len()
                invariant
                    start <= i <= self.pending.len(),
                    all == self.pending.deep_view(),
                    self.skipped.deep_view() == before + cancelled_records(all, start as int).take(
                        i - start,
                    ),
                    self@ == (ExecutionView { skipped: self.skipped.deep_view(), ..old(self)@ }),
                    self.use_template == old(self).use_template,
                    self.name_regex == old(self).name_regex,
                    self.ruleset == old(self).ruleset,
                decreases self.pending.len() - i,
            {
                let ghost so_far = self.skipped.deep_view();
                proof {
                    assert(all[i as int] == self.pending@[i as int]@);
                }
                let record = FileResult {
                    filename: self.pending[i].filename.clone(),
                    source_path: self.pending[i].path.clone(),
                    destination_path: None,
                    reason: Some(owned("Cancelled by user")),
                };
                push_record(&mut self.skipped, record);
                proof {
                    let records = cancelled_records(all, start as int);
                    assert(records[i - start] == record@);
                    assert(records.take(i - start + 1) =~= records.take(i - start).push(record@));
                    assert(before + records.take(i - start).push(record@) =~= (before
                        + records.take(i - start)).push(record@));
                }
                i += 1;
            }
            proof {
                let records = cancelled_records(all, start as int);
                assert(records.take(records.len() as int) =~= records);
            }
            self.cancelled = true;
            self.finish()
        } else if self.index + 1 < self.pending.len() {
            self.index = self.index + 1;
            self.read_clock()
        } else {
            self.finish()
        }
    }

    /// Takes the answer of the host to the last request and gives the next
    /// request. The last one is `Request::Finish`, which holds the result.
    /// An event that does not answer the last request changes nothing and
    /// is rejected.
    ///
    /// Where a listing holds a name with a `\`, or the file names are matched
    /// by a shell pattern with a `\`, what the pattern says of a name is the
    /// host's answer. The step is what `next_by` says under some answers of
    /// the pattern, which are the pattern's own wherever they are the same on
    /// every host; where they all are, the step is what `next` says.
    pub fn step(&mut self, event: Event) -> (request: Request)
        requires
            old(self).wf(),
        ensures
            final(self).wf(),
            final(self)@.inv(),
            final(self)@.pending.len() <= usize::MAX,
            exists|verdicts: Seq<bool>|
                {
                    &&& #[trigger] old(self)@.answers(event@, verdicts)
                    &&& (final(self)@, request@) == old(self)@.next_by(event@, verdicts)
                },
            old(self)@.host_independent(event@) ==> (final(self)@, request@) == old(self)@.next(
                event@,
            ),
    {
        let mut stage = Stage::Finished;
        std::mem::swap(&mut self.stage, &mut stage);
        let ghost parked = self@;
        let ghost mut verdicts = old(self)@.plain_verdicts(event@);
        proof {
            assert(parked == old(self)@.at(StageView::Finished));
            assert(old(self)@ == parked.at(stage@));
        }
        let request = match (stage, event) {
            (Stage::ProbingSource, Event::SourceProbed(exists)) => {
                self.stage = Stage::ProbingSource;
                self.after_source_probe(exists)
            },
            (Stage::CreatingDestination, Event::DirectoryCreated(r)) => {
                self.stage = Stage::CreatingDestination;
                self.after_destination_created(r)
            },
            (Stage::Listing, Event::Listed(r)) => {
                self.stage = Stage::Listing;
                let (request, given) = self.after_listing(r);
                proof {
                    verdicts = given@;
                }
                request
            },
            (Stage::ReadingClock, Event::Clock(now)) => {
                self.stage = Stage::ReadingClock;
                self.after_clock(now)
            },
            (Stage::Emitting, Event::ProgressEmitted) => {
                self.stage = Stage::Emitting;
                self.enter_file()
            },
            (Stage::CreatingDirectory { directory }, Event::DirectoryCreated(r)) => {
                self.stage = Stage::CreatingDirectory { directory: directory.clone() };
                self.after_directory_created(directory, r)
            },
            (Stage::ProbingDestination, Event::DestinationProbed { path, exists }) => {
                self.stage = Stage::ProbingDestination;
                self.after_destination_probe(path, exists)
            },
            (Stage::Transferring { destination, transfer }, Event::Transfer(e)) => {
                proof {
                    assert(self@ == old(self)@.at(StageView::Finished));
                }
                self.after_transfer(destination, transfer, e)
            },
            (Stage::PollingCancel, Event::CancelPolled(c)) => {
                self.stage = Stage::PollingCancel;
                self.after_cancel_poll(c)
            },
            (stage, _) => {
                self.stage = stage;
                Request::Rejected
            },
        };
        proof {
            lemma_plain_verdicts_answer(old(self)@, event@);
            assert(old(self)@.answers(event@, verdicts));
            assert((self@, request@) == old(self)@.next_by(event@, verdicts));
            lemma_next_by_keeps_inv(old(self)@, event@, verdicts);
            if old(self)@.host_independent(event@) {
                lemma_independent_listing(old(self)@, event@, verdicts);
            }
            assert(self@.pending.len() == self.pending.len());
        }
        request
    }

    fn after_transfer(&mut self, destination: String, transfer: Transfer, event: TransferEvent) -> (request:
        Request)
        requires
            old(self)@.at(
                StageView::Transferring { destination: destination@, transfer: transfer@ },
            ).inv(),
            old(self)@.stage is Finished,
            old(self).index < old(self).pending.len(),
        ensures
            (final(self)@, request@) == old(self)@.at(
                StageView::Transferring { destination: destination@, transfer: transfer@ },
            ).after_transfer(destination@, transfer@, event@),
            final(self).use_template == old(self).use_template,
            final(self).name_regex == old(self).name_regex,
            final(self).ruleset == old(self).ruleset,
    {
        let mut transfer = transfer;
        let next = transfer.step(event);
        match next {
            TransferRequest::Done(Ok(_)) => self.succeed(destination),
            TransferRequest::Done(Err(e)) => {
                let reason = e.classify();
                self.fail(Some(destination), reason)
            },
            TransferRequest::Rejected => {
                self.stage = Stage::Transferring { destination, transfer };
                Request::Rejected
            },
            other => {
                self.stage = Stage::Transferring { destination, transfer };
                Request::Transfer(other)
            },
        }
    }
}

/// Every step keeps the invariant.
pub proof fn lemma_next_keeps_inv(s: ExecutionView, event: EventView)
    requires
        s.inv(),
    ensures
        s.next(event).0.inv(),
{
}

/// An execution starts in a state that keeps the invariant.
pub proof fn lemma_initial_inv(ruleset: RulesetView)
    ensures
        ExecutionView::initial(ruleset).inv(),
{
}

/// Every run keeps the invariant.
pub proof fn lemma_run_keeps_inv(s: ExecutionView, events: Seq<EventView>)
    requires
        s.inv(),
    ensures
        s.after(events).inv(),
    decreases events.len(),
{
    if events.len() > 0 {
        lemma_run_keeps_inv(s, events.drop_last());
        lemma_next_keeps_inv(s.after(events.drop_last()), events.last());
    }
}

/// Once the source is listed, the files to transfer are fixed: no step
/// changes the ruleset, the list of files, or the number of files of which
/// the host reported nothing, and no step goes back to an earlier file.
pub proof fn lemma_step_keeps_listing(s: ExecutionView, event: EventView)
    requires
        s.inv(),
    ensures
        s.next(event).0.ruleset == s.ruleset,
        s.next(event).0.index >= s.index,
        s.listed ==> {
            &&& s.next(event).0.listed
            &&& s.next(event).0.pending == s.pending
            &&& s.next(event).0.stat_failures == s.stat_failures
        },
{
}

/// What `lemma_step_keeps_listing` says of a step holds of a run.
pub proof fn lemma_run_keeps_listing(s: ExecutionView, events: Seq<EventView>)
    requires
        s.inv(),
    ensures
        s.after(events).ruleset == s.ruleset,
        s.after(events).index >= s.index,
        s.listed ==> {
            &&& s.after(events).listed
            &&& s.after(events).pending == s.pending
            &&& s.after(events).stat_failures == s.stat_failures
        },
    decreases events.len(),
{
    if events.len() > 0 {
        lemma_run_keeps_listing(s, events.drop_last());
        lemma_run_keeps_inv(s, events.drop_last());
        lemma_step_keeps_listing(s.after(events.drop_last()), events.last());
    }
}

/// What the pattern itself says of the entries is an answer that every host
/// may give.
pub proof fn lemma_plain_verdicts_answer(s: ExecutionView, event: EventView)
    ensures
        s.answers(event, s.plain_verdicts(event)),
        s.next_by(event, s.plain_verdicts(event)) == s.next(event),
{
}

/// Only the step that takes the listing asks the pattern: every other step
/// is the same whatever the pattern answers.
pub proof fn lemma_only_the_listing_asks(s: ExecutionView, event: EventView, verdicts: Seq<bool>)
    requires
        !(s.stage is Listing && event is Listed),
    ensures
        s.next_by(event, verdicts) == s.next(event),
{
}

/// Where the filters answer alike on every host for what `event` brings,
/// every answer of the pattern gives the step that `next` tells.
pub proof fn lemma_independent_listing(s: ExecutionView, event: EventView, verdicts: Seq<bool>)
    requires
        s.answers(event, verdicts),
        s.host_independent(event),
    ensures
        s.next_by(event, verdicts) == s.next(event),
{
    match event {
        EventView::Listed(Ok(entries)) => {
            lemma_faithful_on_independent(entries, s.ruleset.filters, verdicts);
        },
        _ => {},
    }
}

/// Every step keeps the invariant, whatever the pattern answers.
pub proof fn lemma_next_by_keeps_inv(s: ExecutionView, event: EventView, verdicts: Seq<bool>)
    requires
        s.inv(),
    ensures
        s.next_by(event, verdicts).0.inv(),
{
    if s.stage is Listing && event is Listed {
    } else {
        lemma_next_keeps_inv(s, event);
    }
}

/// The step that takes the listing, whatever the pattern answers: the host
/// is asked for the time or is handed the result; the files of which the
/// host reported nothing are recorded as failures; and each file to transfer
/// is an entry of the listing that is no directory, has metadata and
/// passes the filters on the extension and the times, in the order of the
/// listing.
pub proof fn lemma_listing_whatever_the_answers(
    s: ExecutionView,
    entries: Seq<SourceEntryView>,
    verdicts: Seq<bool>,
)
    requires
        s.inv(),
        s.stage is Listing,
    ensures
        ({
            let (listed, request) = s.next_by(EventView::Listed(Ok(entries)), verdicts);
            &&& request is ReadClock || request is Finish
            &&& request is Finish <==> listed.pending.len() == 0
            &&& listed.listed
            &&& listed.inv()
            &&& listed.errors == enumerated(
                entries,
                s.ruleset.filters,
                entries.len() as int,
            ).errors
            &&& listed.stat_failures == listed.errors.len()
            &&& listed.succeeded.len() == 0 && listed.skipped.len() == 0
            &&& exists|at: Seq<int>| #[trigger]
                taken_in_order(
                    entries,
                    s.ruleset.filters,
                    entries.len() as int,
                    listed.pending,
                    at,
                )
        }),
{
    lemma_next_by_keeps_inv(s, EventView::Listed(Ok(entries)), verdicts);
    crate::engine::lemma_errors_whatever_the_verdicts(
        entries,
        s.ruleset.filters,
        verdicts,
        entries.len() as int,
    );
    lemma_pending_are_listed(entries, s.ruleset.filters, verdicts, entries.len() as int);
    let found = enumerated_by(entries, s.ruleset.filters, verdicts, entries.len() as int);
    let at = choose|at: Seq<int>| #[trigger]
        taken_in_order(entries, s.ruleset.filters, entries.len() as int, found.pending, at);
    let listed = s.next_by(EventView::Listed(Ok(entries)), verdicts).0;
    assert(listed.pending == found.pending);
    assert(taken_in_order(entries, s.ruleset.filters, entries.len() as int, listed.pending, at));
}

/// Partitioning. Of an execution whose source was listed, and that has
/// ended, the three lists of the result hold together as many files as
/// the listing had entries that were taken up: the files that the filters
/// accepted, and the files of which the host reported nothing. This holds
/// whatever the pattern of the file-name filter answered for each entry,
/// whatever the host answered after the listing, and whether or not the
/// user cancelled.
pub proof fn lemma_partition_by(
    s: ExecutionView,
    entries: Seq<SourceEntryView>,
    verdicts: Seq<bool>,
    rest: Seq<EventView>,
)
    requires
        s.inv(),
        s.stage is Listing,
    ensures
        ({
            let end = s.next_by(EventView::Listed(Ok(entries)), verdicts).0.after(rest);
            end.stage is Finished ==> end.recorded() == considered_count_by(
                entries,
                s.ruleset.filters,
                verdicts,
                entries.len() as int,
            )
        }),
{
    let listed = s.next_by(EventView::Listed(Ok(entries)), verdicts).0;
    lemma_next_by_keeps_inv(s, EventView::Listed(Ok(entries)), verdicts);
    lemma_enumerated_by_partition(entries, s.ruleset.filters, verdicts, entries.len() as int);
    lemma_run_keeps_inv(listed, rest);
    lemma_run_keeps_listing(listed, rest);
}

/// Partitioning, where the filters answer alike on every host: the three
/// lists of the result hold together as many files as the listing had
/// entries that the filters accepted or of which the host reported nothing.
pub proof fn lemma_partition(s: ExecutionView, entries: Seq<SourceEntryView>, rest: Seq<EventView>)
    requires
        s.inv(),
        s.stage is Listing,
    ensures
        ({
            let end = s.next(EventView::Listed(Ok(entries))).0.after(rest);
            end.stage is Finished ==> end.recorded() == considered_count(
                entries,
                s.ruleset.filters,
                entries.len() as int,
            )
        }),
{
    lemma_partition_by(s, entries, name_verdicts(entries, s.ruleset.filters), rest);
}

/// The result that is handed out holds the three lists as they stand, and
/// its status follows the rule: completed without a failure, failed with
/// failures and no success, else a partial failure.
pub proof fn lemma_status_follows_rule(s: ExecutionView, event: EventView)
    requires
        s.inv(),
        s.next(event).1 is Finish,
    ensures
        ({
            let end = s.next(event).0;
            let result = s.next(event).1->Finish_0;
            &&& end.stage is Finished
            &&& result == end.result()
            &&& result.status == status_rule(result.succeeded.len(), result.errors.len())
            &&& result.errors.len() == 0 <==> result.status == ExecutionStatus::Completed
            &&& result.errors.len() > 0 && result.succeeded.len() == 0 <==> result.status
                == ExecutionStatus::Failed
        }),
{
}

/// A file of the same name at the destination, where overwriting is off,
/// skips the file: it is recorded as skipped with the path it would have had,
/// nothing else is recorded, and the host is asked for no transfer.
pub proof fn lemma_collision_skips(s: ExecutionView, path: Seq<char>)
    requires
        s.inv(),
        s.stage is ProbingDestination,
        !s.ruleset.overwrite,
    ensures
        ({
            let (end, request) = s.next(EventView::DestinationProbed { path, exists: true });
            &&& request == RequestView::PollCancel
            &&& end.skipped == s.skipped.push(s.record(Some(path), Some(collision_reason())))
            &&& end.succeeded == s.succeeded
            &&& end.errors == s.errors
            &&& end.bytes_transferred == s.bytes_transferred
        }),
{
}

/// The host is asked for an operation of a transfer only after it found
/// the destination free, or overwriting is on, and then only for the file
/// that is worked on and the path that the host gave for it.
pub proof fn lemma_transfer_only_when_allowed(s: ExecutionView, event: EventView)
    requires
        s.inv(),
        s.next(event).1 is Transfer,
    ensures
        ({
            let end = s.next(event).0;
            &&& end.stage is Transferring
            &&& end.stage->transfer.source == s.current().path
            &&& end.stage->transfer.expected_size == s.current().file_size
            &&& end.stage->transfer.kind == s.ruleset.action
            &&& {
                ||| s.stage is Transferring && end.stage->destination == s.stage->destination
                ||| s.stage is ProbingDestination && (event matches EventView::DestinationProbed {
                    path,
                    exists,
                } && (exists ==> s.ruleset.overwrite) && end.stage->destination == path)
            }
        }),
{
    match (s.stage, event) {
        (StageView::Transferring { destination, transfer }, EventView::Transfer(e)) => {
            let (after, request) = transfer.next(e);
            assert(after.source == transfer.source);
            assert(s.next(event).0.stage == (StageView::Transferring {
                destination,
                transfer: after,
            }));
        },
        (StageView::ProbingDestination, EventView::DestinationProbed { path, exists }) => {
            assert(s.next(event) == s.after_destination_probe(path, exists));
            if exists && !s.ruleset.overwrite {
                assert(s.next(event).1 == RequestView::PollCancel);
            }
        },
        (StageView::ReadingClock, EventView::Clock(now)) => {},
        (StageView::Emitting, EventView::ProgressEmitted) => {},
        _ => {},
    }
}

/// Progress is reported for the file that is taken up, whose number is
/// greater than that of the last report and at most the number of files.
pub proof fn lemma_progress_counts_up(s: ExecutionView, event: EventView)
    requires
        s.inv(),
        s.pending.len() <= usize::MAX,
        s.next(event).1 is EmitProgress,
    ensures
        ({
            let end = s.next(event).0;
            let request = s.next(event).1;
            &&& request->current == s.index + 1
            &&& request->total == s.pending.len()
            &&& s.emitted < request->current <= request->total
            &&& end.emitted == request->current
            &&& request->EmitProgress_filename == s.current().filename
        }),
{
}

/// The number of the last report of progress changes only by a report.
pub proof fn lemma_emitted_changes_by_report(s: ExecutionView, event: EventView)
    requires
        s.inv(),
        !(s.next(event).1 is EmitProgress),
    ensures
        s.next(event).0.emitted == s.emitted,
{
}

/// In a run the number of the last report of progress never goes down, and
/// never exceeds the number of files.
pub proof fn lemma_progress_is_monotonic(s: ExecutionView, events: Seq<EventView>)
    requires
        s.inv(),
    ensures
        s.emitted <= s.after(events).emitted <= s.after(events).pending.len(),
    decreases events.len(),
{
    lemma_run_keeps_inv(s, events);
    if events.len() > 0 {
        lemma_progress_is_monotonic(s, events.drop_last());
        lemma_run_keeps_inv(s, events.drop_last());
        let before = s.after(events.drop_last());
        assert(before.next(events.last()).0.emitted >= before.emitted);
    }
}

/// The last file is always reported: of an execution that listed its source
/// and ended without the user cancelling, the last report of progress was
/// for the last file.
pub proof fn lemma_last_file_is_reported(s: ExecutionView)
    requires
        s.inv(),
        s.stage is Finished,
        s.listed,
        !s.cancelled,
    ensures
        s.emitted == s.pending.len(),
{
}

/// The first file is always reported, and so is the last one, whatever the
/// time.
pub proof fn lemma_first_and_last_are_reported(s: ExecutionView, now: u64)
    requires
        s.inv(),
        s.stage is ReadingClock,
        s.emitted == 0 || s.index + 1 == s.pending.len(),
    ensures
        s.next(EventView::Clock(now)).1 is EmitProgress,
{
}

/// Between the first report and the last file, progress is reported if and
/// only if the interval has passed since the last report.
pub proof fn lemma_progress_is_throttled(s: ExecutionView, now: u64)
    requires
        s.inv(),
        s.stage is ReadingClock,
        s.emitted > 0,
        s.index + 1 < s.pending.len(),
    ensures
        s.next(EventView::Clock(now)).1 is EmitProgress <==> now - s.last_emit.unwrap()
            >= PROGRESS_INTERVAL_NANOS,
{
}

/// Cancellation. When the user has cancelled, the file that was worked on
/// keeps its record, each file after it is recorded as skipped, in order,
/// with the reason `Cancelled by user` and no destination, and the
/// execution ends.
pub proof fn lemma_cancel_skips_the_rest(s: ExecutionView)
    requires
        s.inv(),
        s.stage is PollingCancel,
    ensures
        ({
            let (end, request) = s.next(EventView::CancelPolled(true));
            let rest = cancelled_records(s.pending, (s.index + 1) as int);
            &&& request == RequestView::Finish(end.result())
            &&& end.cancelled
            &&& end.succeeded == s.succeeded
            &&& end.errors == s.errors
            &&& end.skipped == s.skipped + rest
            &&& rest.len() == s.pending.len() - s.index - 1
            &&& forall|k: int|
                0 <= k < rest.len() ==> {
                    &&& (#[trigger] rest[k]).filename == s.pending[s.index + 1 + k].filename
                    &&& rest[k].source_path == s.pending[s.index + 1 + k].path
                    &&& rest[k].destination_path is None
                    &&& rest[k].reason == Some(cancelled_reason())
                }
        }),
{
}

/// An event that does not answer the last request changes nothing.
pub proof fn lemma_rejected_changes_nothing(s: ExecutionView, event: EventView)
    requires
        s.inv(),
        s.next(event).1 is Rejected,
    ensures
        s.next(event).0 == s,
{
}

/// After the result was handed out, every event is rejected.
pub proof fn lemma_finished_rejects(s: ExecutionView, event: EventView)
    requires
        s.stage is Finished,
    ensures
        s.next(event) == (s, RequestView::Rejected),
{
}

} // verus!
