//! Moving and copying one file, as a machine that asks the host for one
//! operation at a time and decides on each answer what to ask next.
//!
//! A move is a rename; where the rename fails because source and destination
//! lie on different devices, it becomes a copy, checked by size, and then the
//! removal of the source. A copy that fails, or that wrote another number of
//! bytes than expected, leaves nothing behind at the destination.

use crate::ruleset::Action;
use crate::text::decimal;
use crate::text::decimal_string;
use vstd::prelude::*;
use vstd::string::StringExecFns;

verus! {

#[verifier::external_type_specification]
#[verifier::external_body]
pub struct ExIoError(std::io::Error);

/// The kinds of failure that are reported apart.
#[derive(Debug, Clone, Copy, PartialEq, Eq, Structural)]
pub enum FailureKind {
    PermissionDenied,
    StorageFull,
    NotFound,
    CrossesDevices,
    Other,
}

/// A failed operation of the host: its kind and the host's message.
#[derive(Debug, PartialEq)]
pub struct IoFailure {
    pub kind: FailureKind,
    pub message: String,
}

pub struct IoFailureView {
    pub kind: FailureKind,
    pub message: Seq<char>,
}

impl DeepView for IoFailure {
    type V = IoFailureView;

    open spec fn deep_view(&self) -> IoFailureView {
        IoFailureView { kind: self.kind, message: self.message@ }
    }
}

impl View for IoFailure {
    type V = IoFailureView;

    open spec fn view(&self) -> IoFailureView {
        self.deep_view()
    }
}

impl Clone for IoFailure {
    fn clone(&self) -> (r: IoFailure)
        ensures
            r@ == self@,
    {
        IoFailure { kind: self.kind, message: self.message.clone() }
    }
}

impl IoFailureView {
    /// The words that stand before the host's message.
    pub open spec fn prefix(self) -> Seq<char> {
        match self.kind {
            FailureKind::PermissionDenied => "Permission denied: "@,
            FailureKind::StorageFull => "Disk full: "@,
            FailureKind::NotFound => "File not found: "@,
            FailureKind::CrossesDevices => "Cross-device operation failed: "@,
            FailureKind::Other => "Operation failed: "@,
        }
    }

    /// The reason as it is shown to the user.
    pub open spec fn classified(self) -> Seq<char> {
        self.prefix() + self.message
    }
}

/// The failure of a copy that wrote `copied` bytes where `expected` were due.
pub open spec fn incomplete_copy(expected: u64, copied: u64) -> IoFailureView {
    IoFailureView {
        kind: FailureKind::Other,
        message: "Copy incomplete: expected "@ + decimal(expected as nat) + " bytes, got "@
            + decimal(copied as nat) + " bytes"@,
    }
}

impl IoFailure {
    /// Whether the operation failed because it would cross devices.
    pub fn is_cross_device(&self) -> (r: bool)
        ensures
            r == (self.kind == FailureKind::CrossesDevices),
    {
        self.kind == FailureKind::CrossesDevices
    }

    /// The reason as it is shown to the user: a few words for the kind of
    /// failure, then the host's message.
    pub fn classify(&self) -> (out: String)
        ensures
            out@ == self@.classified(),
    {
        let mut out = match self.kind {
            FailureKind::PermissionDenied => String::from_str("Permission denied: "),
            FailureKind::StorageFull => String::from_str("Disk full: "),
            FailureKind::NotFound => String::from_str("File not found: "),
            FailureKind::CrossesDevices => String::from_str("Cross-device operation failed: "),
            FailureKind::Other => String::from_str("Operation failed: "),
        };
        out.append(self.message.as_str());
        out
    }

    /// The failure of a copy that wrote `copied` bytes where `expected` were
    /// due.
    pub fn incomplete(expected: u64, copied: u64) -> (f: IoFailure)
        ensures
            f@ == incomplete_copy(expected, copied),
    {
        let mut message = String::from_str("Copy incomplete: expected ");
        message.append(decimal_string(expected).as_str());
        message.append(" bytes, got ");
        message.append(decimal_string(copied).as_str());
        message.append(" bytes");
        IoFailure { kind: FailureKind::Other, message }
    }
}

/// The kind of failure that `std::io::Error::kind` tells of an error, as far
/// as the reasons are told apart: permission denied, storage full, not found,
/// crosses devices; every other kind is `Other`.
pub uninterp spec fn io_error_kind(e: std::io::Error) -> FailureKind;

/// `std::io::Error::kind`, told apart as far as the reasons differ. The kind
/// depends on the error alone.
#[verifier::external_body]
fn error_kind(e: &std::io::Error) -> (k: FailureKind)
    ensures
        k == io_error_kind(*e),
{
    match e.kind() {
        std::io::ErrorKind::PermissionDenied => FailureKind::PermissionDenied,
        std::io::ErrorKind::StorageFull => FailureKind::StorageFull,
        std::io::ErrorKind::NotFound => FailureKind::NotFound,
        std::io::ErrorKind::CrossesDevices => FailureKind::CrossesDevices,
        _ => FailureKind::Other,
    }
}

/// The message of a `std::io::Error`, as its `Display` writes it. The host
/// may word it by its locale, so nothing is claimed of it.
#[verifier::external_body]
fn error_text(e: &std::io::Error) -> String {
    e.to_string()
}

/// The kind and the message of an error of the host, as plain values. The
/// message is the host's wording, of which nothing is claimed.
pub fn io_failure(e: &std::io::Error) -> (f: IoFailure)
    ensures
        f.kind == io_error_kind(*e),
{
    IoFailure { kind: error_kind(e), message: error_text(e) }
}

/// Whether an error of the host says that a rename would cross devices.
pub fn is_cross_device_error(e: &std::io::Error) -> (r: bool)
    ensures
        r == (io_error_kind(*e) == FailureKind::CrossesDevices),
{
    io_failure(e).is_cross_device()
}

/// The reason, as it is shown to the user, for an error of the host: the
/// prefix that goes with the kind of the error, then the host's message.
pub fn classify_io_error(e: &std::io::Error) -> (out: String)
    ensures
        exists|m: Seq<char>|
            out@ == #[trigger] (IoFailureView { kind: io_error_kind(*e), message: m }).classified(),
{
    let f = io_failure(e);
    let out = f.classify();
    proof {
        assert(f@ == (IoFailureView { kind: io_error_kind(*e), message: f.message@ }));
    }
    out
}

/// What the machine waits for.
#[derive(Debug, PartialEq)]
pub enum TransferPhase {
    /// The answer to a rename.
    Renaming,
    /// The answer to a copy.
    Copying,
    /// The answer to the removal of what a failed copy left; the failure is
    /// reported after it.
    Discarding(IoFailure),
    /// The answer to the removal of the source, after a copy that was checked.
    RemovingSource,
    /// Nothing: the transfer is over.
    Finished,
}

pub enum TransferPhaseView {
    Renaming,
    Copying,
    Discarding(IoFailureView),
    RemovingSource,
    Finished,
}

impl View for TransferPhase {
    type V = TransferPhaseView;

    open spec fn view(&self) -> TransferPhaseView {
        match self {
            TransferPhase::Renaming => TransferPhaseView::Renaming,
            TransferPhase::Copying => TransferPhaseView::Copying,
            TransferPhase::Discarding(f) => TransferPhaseView::Discarding(f@),
            TransferPhase::RemovingSource => TransferPhaseView::RemovingSource,
            TransferPhase::Finished => TransferPhaseView::Finished,
        }
    }
}

/// One operation that the host is asked for, or the end of the transfer.
#[derive(Debug, PartialEq)]
pub enum TransferRequest {
    /// Rename `from` to `to`; answer with `TransferEvent::Renamed`.
    Rename { from: String, to: String },
    /// Copy `from` to `to`; answer with `TransferEvent::Copied`, giving the
    /// number of bytes written.
    Copy { from: String, to: String },
    /// Remove what a failed copy left at `path`; answer with
    /// `TransferEvent::Removed`. Whether it could be removed changes nothing.
    DiscardDestination { path: String },
    /// Remove the source at `path`; answer with `TransferEvent::Removed`.
    RemoveSource { path: String },
    /// The transfer is over, with this result.
    Done(Result<(), IoFailure>),
    /// The event did not answer what was asked; nothing has changed.
    Rejected,
}

pub enum TransferRequestView {
    Rename { from: Seq<char>, to: Seq<char> },
    Copy { from: Seq<char>, to: Seq<char> },
    DiscardDestination { path: Seq<char> },
    RemoveSource { path: Seq<char> },
    Done(Result<(), IoFailureView>),
    Rejected,
}

/// The view of the result of an operation of the host.
pub open spec fn outcome_view<T>(r: Result<T, IoFailure>) -> Result<T, IoFailureView> {
    match r {
        Ok(v) => Ok(v),
        Err(e) => Err(e@),
    }
}

impl View for TransferRequest {
    type V = TransferRequestView;

    open spec fn view(&self) -> TransferRequestView {
        match self {
            TransferRequest::Rename { from, to } => TransferRequestView::Rename {
                from: from@,
                to: to@,
            },
            TransferRequest::Copy { from, to } => TransferRequestView::Copy { from: from@, to: to@ },
            TransferRequest::DiscardDestination { path } => TransferRequestView::DiscardDestination {
                path: path@,
            },
            TransferRequest::RemoveSource { path } => TransferRequestView::RemoveSource {
                path: path@,
            },
            TransferRequest::Done(r) => TransferRequestView::Done(outcome_view(*r)),
            TransferRequest::Rejected => TransferRequestView::Rejected,
        }
    }
}

/// The answer of the host to one request.
#[derive(Debug, PartialEq)]
pub enum TransferEvent {
    Renamed(Result<(), IoFailure>),
    Copied(Result<u64, IoFailure>),
    Removed(Result<(), IoFailure>),
}

pub enum TransferEventView {
    Renamed(Result<(), IoFailureView>),
    Copied(Result<u64, IoFailureView>),
    Removed(Result<(), IoFailureView>),
}

impl View for TransferEvent {
    type V = TransferEventView;

    open spec fn view(&self) -> TransferEventView {
        match self {
            TransferEvent::Renamed(r) => TransferEventView::Renamed(outcome_view(*r)),
            TransferEvent::Copied(r) => TransferEventView::Copied(outcome_view(*r)),
            TransferEvent::Removed(r) => TransferEventView::Removed(outcome_view(*r)),
        }
    }
}

/// The transfer of one file.
#[derive(Debug, PartialEq)]
pub struct Transfer {
    pub kind: Action,
    pub source: String,
    pub destination: String,
    pub expected_size: u64,
    pub phase: TransferPhase,
}

pub struct TransferView {
    pub kind: Action,
    pub source: Seq<char>,
    pub destination: Seq<char>,
    pub expected_size: u64,
    pub phase: TransferPhaseView,
}

impl View for Transfer {
    type V = TransferView;

    open spec fn view(&self) -> TransferView {
        TransferView {
            kind: self.kind,
            source: self.source@,
            destination: self.destination@,
            expected_size: self.expected_size,
            phase: self.phase@,
        }
    }
}

impl TransferView {
    /// The transfer as it starts, and the first request.
    pub open spec fn start(
        kind: Action,
        source: Seq<char>,
        destination: Seq<char>,
        expected_size: u64,
    ) -> (TransferView, TransferRequestView) {
        match kind {
            Action::Move => (
                TransferView {
                    kind,
                    source,
                    destination,
                    expected_size,
                    phase: TransferPhaseView::Renaming,
                },
                TransferRequestView::Rename { from: source, to: destination },
            ),
            Action::Copy => (
                TransferView {
                    kind,
                    source,
                    destination,
                    expected_size,
                    phase: TransferPhaseView::Copying,
                },
                TransferRequestView::Copy { from: source, to: destination },
            ),
        }
    }

    /// The transfer in another phase.
    pub open spec fn at(self, phase: TransferPhaseView) -> TransferView {
        TransferView { phase, ..self }
    }

    /// The transfer after `event`, and the next request.
    pub open spec fn next(self, event: TransferEventView) -> (TransferView, TransferRequestView) {
        match (self.phase, event) {
            (TransferPhaseView::Renaming, TransferEventView::Renamed(Ok(()))) => (
                self.at(TransferPhaseView::Finished),
                TransferRequestView::Done(Ok(())),
            ),
            (TransferPhaseView::Renaming, TransferEventView::Renamed(Err(e))) => if e.kind
                == FailureKind::CrossesDevices {
                (
                    self.at(TransferPhaseView::Copying),
                    TransferRequestView::Copy { from: self.source, to: self.destination },
                )
            } else {
                (self.at(TransferPhaseView::Finished), TransferRequestView::Done(Err(e)))
            },
            (TransferPhaseView::Copying, TransferEventView::Copied(Ok(copied))) => if copied
                != self.expected_size {
                (
                    self.at(
                        TransferPhaseView::Discarding(incomplete_copy(self.expected_size, copied)),
                    ),
                    TransferRequestView::DiscardDestination { path: self.destination },
                )
            } else if self.kind == Action::Move {
                (
                    self.at(TransferPhaseView::RemovingSource),
                    TransferRequestView::RemoveSource { path: self.source },
                )
            } else {
                (self.at(TransferPhaseView::Finished), TransferRequestView::Done(Ok(())))
            },
            (TransferPhaseView::Copying, TransferEventView::Copied(Err(e))) => (
                self.at(TransferPhaseView::Discarding(e)),
                TransferRequestView::DiscardDestination { path: self.destination },
            ),
            (TransferPhaseView::Discarding(e), TransferEventView::Removed(_)) => (
                self.at(TransferPhaseView::Finished),
                TransferRequestView::Done(Err(e)),
            ),
            (TransferPhaseView::RemovingSource, TransferEventView::Removed(r)) => (
                self.at(TransferPhaseView::Finished),
                TransferRequestView::Done(r),
            ),
            _ => (self, TransferRequestView::Rejected),
        }
    }
}

impl Transfer {
    /// Starts the transfer of `source` to `destination`, which is expected
    /// to hold `expected_size` bytes: a move starts with a rename, a copy
    /// with a copy.
    pub fn begin(kind: Action, source: String, destination: String, expected_size: u64) -> (r: (
        Transfer,
        TransferRequest,
    ))
        ensures
            (r.0@, r.1@) == TransferView::start(kind, source@, destination@, expected_size),
    {
        match kind {
            Action::Move => {
                let request = TransferRequest::Rename {
                    from: source.clone(),
                    to: destination.clone(),
                };
                (
                    Transfer {
                        kind,
                        source,
                        destination,
                        expected_size,
                        phase: TransferPhase::Renaming,
                    },
                    request,
                )
            },
            Action::Copy => {
                let request = TransferRequest::Copy {
                    from: source.clone(),
                    to: destination.clone(),
                };
                (
                    Transfer {
                        kind,
                        source,
                        destination,
                        expected_size,
                        phase: TransferPhase::Copying,
                    },
                    request,
                )
            },
        }
    }

    /// Takes the answer of the host to the last request and gives the next
    /// request. An event that does not answer the last request changes
    /// nothing and is rejected.
    pub fn step(&mut self, event: TransferEvent) -> (request: TransferRequest)
        ensures
            (final(self)@, request@) == old(self)@.next(event@),
    {
        let mut phase = TransferPhase::Finished;
        std::mem::swap(&mut self.phase, &mut phase);
        match (phase, event) {
            (TransferPhase::Renaming, TransferEvent::Renamed(Ok(()))) => TransferRequest::Done(
                Ok(()),
            ),
            (TransferPhase::Renaming, TransferEvent::Renamed(Err(e))) => {
                if e.is_cross_device() {
                    self.phase = TransferPhase::Copying;
                    TransferRequest::Copy {
                        from: self.source.clone(),
                        to: self.destination.clone(),
                    }
                } else {
                    TransferRequest::Done(Err(e))
                }
            },
            (TransferPhase::Copying, TransferEvent::Copied(Ok(copied))) => {
                if copied != self.expected_size {
                    self.phase = TransferPhase::Discarding(
                        IoFailure::incomplete(self.expected_size, copied),
                    );
                    TransferRequest::DiscardDestination { path: self.destination.clone() }
                } else if self.kind == Action::Move {
                    self.phase = TransferPhase::RemovingSource;
                    TransferRequest::RemoveSource { path: self.source.clone() }
                } else {
                    TransferRequest::Done(Ok(()))
                }
            },
            (TransferPhase::Copying, TransferEvent::Copied(Err(e))) => {
                self.phase = TransferPhase::Discarding(e);
                TransferRequest::DiscardDestination { path: self.destination.clone() }
            },
            (TransferPhase::Discarding(e), TransferEvent::Removed(_)) => TransferRequest::Done(
                Err(e),
            ),
            (TransferPhase::RemovingSource, TransferEvent::Removed(r)) => TransferRequest::Done(r),
            (phase, _) => {
                self.phase = phase;
                TransferRequest::Rejected
            },
        }
    }
}

/// A rename that fails for any reason but crossing devices ends the
/// transfer with that failure: no copy is tried.
pub proof fn lemma_no_copy_after_other_failure(t: TransferView, e: IoFailureView)
    requires
        t.phase == TransferPhaseView::Renaming,
        e.kind != FailureKind::CrossesDevices,
    ensures
        t.next(TransferEventView::Renamed(Err(e))).1 == TransferRequestView::Done(Err(e)),
        t.next(TransferEventView::Renamed(Err(e))).0.phase == TransferPhaseView::Finished,
{
}

/// The source is removed only after a copy that wrote exactly the expected
/// number of bytes, and only in a move.
pub proof fn lemma_source_removed_after_checked_copy(t: TransferView, event: TransferEventView)
    requires
        t.next(event).1 is RemoveSource,
    ensures
        t.kind == Action::Move,
        t.phase == TransferPhaseView::Copying,
        event == TransferEventView::Copied(Ok(t.expected_size)),
        t.next(event).1 == (TransferRequestView::RemoveSource { path: t.source }),
{
}

/// A transfer ends well only after a rename that succeeded, after a copy of
/// exactly the expected size, or after the removal of the source.
pub proof fn lemma_success_is_checked(t: TransferView, event: TransferEventView)
    requires
        t.next(event).1 == TransferRequestView::Done(Ok(())),
    ensures
        ({
            ||| t.phase == TransferPhaseView::Renaming && event == TransferEventView::Renamed(
                Ok(()),
            )
            ||| t.phase == TransferPhaseView::Copying && t.kind == Action::Copy && event
                == TransferEventView::Copied(Ok(t.expected_size))
            ||| t.phase == TransferPhaseView::RemovingSource && event == TransferEventView::Removed(
                Ok(()),
            )
        }),
{
    match (t.phase, event) {
        (TransferPhaseView::Renaming, TransferEventView::Renamed(Ok(u))) => {
            assert(u == ());
        },
        (TransferPhaseView::Copying, TransferEventView::Copied(Ok(copied))) => {
            assert(copied == t.expected_size);
            assert(t.kind != Action::Move);
        },
        (TransferPhaseView::RemovingSource, TransferEventView::Removed(r)) => {
            assert(r == Ok::<(), IoFailureView>(()));
        },
        _ => {},
    }
}

/// After a copy that failed, or that wrote another number of bytes than
/// expected, the destination is discarded, and whatever comes of that, the
/// transfer ends with the failure of the copy.
pub proof fn lemma_failed_copy_is_discarded(
    t: TransferView,
    copied: Result<u64, IoFailureView>,
    removed: Result<(), IoFailureView>,
)
    requires
        t.phase == TransferPhaseView::Copying,
        copied != Ok::<u64, IoFailureView>(t.expected_size),
    ensures
        ({
            let failure = match copied {
                Ok(n) => incomplete_copy(t.expected_size, n),
                Err(e) => e,
            };
            let (after, request) = t.next(TransferEventView::Copied(copied));
            &&& request == (TransferRequestView::DiscardDestination { path: t.destination })
            &&& after.next(TransferEventView::Removed(removed)).1 == TransferRequestView::Done(
                Err(failure),
            )
        }),
{
}

/// A transfer that ends with a failure has not removed its source: it ends so
/// after a rename that failed, after a copy that was discarded, or after the
/// removal of the source itself failed. Where the source was removed, the
/// transfer ends well.
pub proof fn lemma_failure_leaves_source(t: TransferView, event: TransferEventView)
    ensures
        t.next(event).1 matches TransferRequestView::Done(Err(_)) ==> {
            ||| t.phase is Renaming && event matches TransferEventView::Renamed(Err(_))
            ||| t.phase is Discarding && event is Removed
            ||| t.phase is RemovingSource && event matches TransferEventView::Removed(Err(_))
        },
        t.phase is RemovingSource && event == TransferEventView::Removed(Ok(())) ==> t.next(
            event,
        ).1 == TransferRequestView::Done(Ok(())),
{
}

} // verus!
