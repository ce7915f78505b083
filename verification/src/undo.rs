//! Taking one transfer back: the file that now lives at the destination
//! returns to where it came from, by the same move that brought it there.
//!
//! Like an execution, the undo is a machine: it asks the host for one thing
//! at a time and decides on each answer what to ask next.

use crate::ruleset::Action;
use crate::text::{joined, owned};
use crate::transfer::{
    outcome_view, IoFailure, IoFailureView, Transfer, TransferEvent, TransferEventView,
    TransferRequest, TransferRequestView, TransferView,
};
use vstd::prelude::*;

verus! {

/// What the machine waits for.
#[derive(Debug, PartialEq)]
pub enum UndoStage {
    /// Whether the file is still at the destination.
    ProbingDestination,
    /// Whether something is at the original location.
    ProbingSource,
    /// The creation of the directory of the original location.
    CreatingParent,
    /// The size of the file at the destination.
    Measuring,
    /// The next answer of the host in the move.
    Moving(Transfer),
    /// Nothing: the undo is over.
    Finished,
}

#[verifier::ext_equal]
pub enum UndoStageView {
    ProbingDestination,
    ProbingSource,
    CreatingParent,
    Measuring,
    Moving(TransferView),
    Finished,
}

impl View for UndoStage {
    type V = UndoStageView;

    open spec fn view(&self) -> UndoStageView {
        match self {
            UndoStage::ProbingDestination => UndoStageView::ProbingDestination,
            UndoStage::ProbingSource => UndoStageView::ProbingSource,
            UndoStage::CreatingParent => UndoStageView::CreatingParent,
            UndoStage::Measuring => UndoStageView::Measuring,
            UndoStage::Moving(t) => UndoStageView::Moving(t@),
            UndoStage::Finished => UndoStageView::Finished,
        }
    }
}

/// What the host is asked to do.
#[derive(Debug, PartialEq)]
pub enum UndoOperation {
    /// Tell whether anything exists at `path`; answer with `UndoEvent::Probed`.
    Probe { path: String },
    /// Create the directory that holds `of`, and every directory above it
    /// that is missing; a path that no directory holds asks for nothing.
    /// Answer with `UndoEvent::ParentCreated`.
    CreateParent { of: String },
    /// Tell the size of the file at `path`, or `None` if the host does not
    /// tell; answer with `UndoEvent::Measured`.
    Measure { path: String },
    /// One operation of the move; answer with `UndoEvent::Transfer`.
    Transfer(TransferRequest),
    /// The undo is over; an error holds the message for the user.
    Done(Result<(), String>),
    /// The event did not answer what was asked; nothing has changed.
    Rejected,
}

#[verifier::ext_equal]
pub enum UndoOperationView {
    Probe { path: Seq<char> },
    CreateParent { of: Seq<char> },
    Measure { path: Seq<char> },
    Transfer(TransferRequestView),
    Done(Result<(), Seq<char>>),
    Rejected,
}

impl View for UndoOperation {
    type V = UndoOperationView;

    open spec fn view(&self) -> UndoOperationView {
        match self {
            UndoOperation::Probe { path } => UndoOperationView::Probe { path: path@ },
            UndoOperation::CreateParent { of } => UndoOperationView::CreateParent { of: of@ },
            UndoOperation::Measure { path } => UndoOperationView::Measure { path: path@ },
            UndoOperation::Transfer(t) => UndoOperationView::Transfer(t@),
            UndoOperation::Done(r) => UndoOperationView::Done(
                match r {
                    Ok(_) => Ok(()),
                    Err(message) => Err(message@),
                },
            ),
            UndoOperation::Rejected => UndoOperationView::Rejected,
        }
    }
}

/// What the host answers.
#[derive(Debug, PartialEq)]
pub enum UndoEvent {
    /// Whether anything exists at the path.
    Probed(bool),
    /// What came of creating the directory.
    ParentCreated(Result<(), IoFailure>),
    /// The size of the file, if the host tells it.
    Measured(Option<u64>),
    /// The answer to one operation of the move.
    Transfer(TransferEvent),
}

pub enum UndoEventView {
    Probed(bool),
    ParentCreated(Result<(), IoFailureView>),
    Measured(Option<u64>),
    Transfer(TransferEventView),
}

impl View for UndoEvent {
    type V = UndoEventView;

    open spec fn view(&self) -> UndoEventView {
        match self {
            UndoEvent::Probed(b) => UndoEventView::Probed(*b),
            UndoEvent::ParentCreated(r) => UndoEventView::ParentCreated(outcome_view(*r)),
            UndoEvent::Measured(size) => UndoEventView::Measured(*size),
            UndoEvent::Transfer(e) => UndoEventView::Transfer(e@),
        }
    }
}

/// The undo of one transfer.
#[derive(Debug, PartialEq)]
pub struct Undo {
    /// Where the file was, and is to be again.
    pub source: String,
    /// Where the file is now.
    pub destination: String,
    pub stage: UndoStage,
}

#[verifier::ext_equal]
pub struct UndoView {
    pub source: Seq<char>,
    pub destination: Seq<char>,
    pub stage: UndoStageView,
}

impl View for Undo {
    type V = UndoView;

    open spec fn view(&self) -> UndoView {
        UndoView { source: self.source@, destination: self.destination@, stage: self.stage@ }
    }
}

/// The message for a file that is no longer where the transfer put it.
pub open spec fn missing_message() -> Seq<char> {
    "File no longer exists at destination"@
}

/// The message for an original location that is taken.
pub open spec fn occupied_message() -> Seq<char> {
    "File already exists at original location"@
}

impl UndoView {
    /// The undo as it starts, and the first request.
    pub open spec fn start(source: Seq<char>, destination: Seq<char>) -> (
        UndoView,
        UndoOperationView,
    ) {
        (
            UndoView { source, destination, stage: UndoStageView::ProbingDestination },
            UndoOperationView::Probe { path: destination },
        )
    }

    /// The undo in another stage.
    pub open spec fn at(self, stage: UndoStageView) -> UndoView {
        UndoView { stage, ..self }
    }

    /// The end, with this result.
    pub open spec fn done(self, result: Result<(), Seq<char>>) -> (UndoView, UndoOperationView) {
        (self.at(UndoStageView::Finished), UndoOperationView::Done(result))
    }

    /// After an answer of the host within the move.
    pub open spec fn after_transfer(self, transfer: TransferView, event: TransferEventView) -> (
        UndoView,
        UndoOperationView,
    ) {
        let (after, request) = transfer.next(event);
        match request {
            TransferRequestView::Done(Ok(_)) => self.done(Ok(())),
            TransferRequestView::Done(Err(e)) => self.done(Err(e.classified())),
            TransferRequestView::Rejected => (self, UndoOperationView::Rejected),
            _ => (self.at(UndoStageView::Moving(after)), UndoOperationView::Transfer(request)),
        }
    }

    /// The undo after `event`, and what the host is asked next. The file has
    /// to be at the destination, and nothing at the original location; then
    /// the directory of the original location is created, the file is
    /// measured (a size that the host does not tell counts as 0), and it is
    /// moved back.
    pub open spec fn next(self, event: UndoEventView) -> (UndoView, UndoOperationView) {
        match (self.stage, event) {
            (UndoStageView::ProbingDestination, UndoEventView::Probed(found)) => if !found {
                self.done(Err(missing_message()))
            } else {
                (
                    self.at(UndoStageView::ProbingSource),
                    UndoOperationView::Probe { path: self.source },
                )
            },
            (UndoStageView::ProbingSource, UndoEventView::Probed(found)) => if found {
                self.done(Err(occupied_message()))
            } else {
                (
                    self.at(UndoStageView::CreatingParent),
                    UndoOperationView::CreateParent { of: self.source },
                )
            },
            (UndoStageView::CreatingParent, UndoEventView::ParentCreated(r)) => match r {
                Err(e) => self.done(Err("Failed to create directory: "@ + e.message)),
                Ok(_) => (
                    self.at(UndoStageView::Measuring),
                    UndoOperationView::Measure { path: self.destination },
                ),
            },
            (UndoStageView::Measuring, UndoEventView::Measured(size)) => {
                let (transfer, first) = TransferView::start(
                    Action::Move,
                    self.destination,
                    self.source,
                    match size {
                        Some(n) => n,
                        None => 0,
                    },
                );
                (self.at(UndoStageView::Moving(transfer)), UndoOperationView::Transfer(first))
            },
            (UndoStageView::Moving(transfer), UndoEventView::Transfer(e)) => self.after_transfer(
                transfer,
                e,
            ),
            _ => (self, UndoOperationView::Rejected),
        }
    }
}

/// Starts the undo of a transfer: `destination_path` is where the file is
/// now, `source_path` where it is to return. The first request asks whether
/// the file is still at the destination.
pub fn undo_file_move(source_path: &str, destination_path: &str) -> (r: (Undo, UndoOperation))
    ensures
        (r.0@, r.1@) == UndoView::start(source_path@, destination_path@),
{
    (
        Undo {
            source: owned(source_path),
            destination: owned(destination_path),
            stage: UndoStage::ProbingDestination,
        },
        UndoOperation::Probe { path: owned(destination_path) },
    )
}

impl Undo {
    /// Whether the undo is over.
    pub fn is_finished(&self) -> (r: bool)
        ensures
            r == (self@.stage is Finished),
    {
        match self.stage {
            UndoStage::Finished => true,
            _ => false,
        }
    }

    /// Takes the answer of the host to the last request and gives the next
    /// request. An event that does not answer the last request changes
    /// nothing and is rejected.
    pub fn step(&mut self, event: UndoEvent) -> (request: UndoOperation)
        ensures
            (final(self)@, request@) == old(self)@.next(event@),
    {
        let mut stage = UndoStage::Finished;
        std::mem::swap(&mut self.stage, &mut stage);
        match (stage, event) {
            (UndoStage::ProbingDestination, UndoEvent::Probed(found)) => {
                if !found {
                    UndoOperation::Done(Err(owned("File no longer exists at destination")))
                } else {
                    self.stage = UndoStage::ProbingSource;
                    UndoOperation::Probe { path: self.source.clone() }
                }
            },
            (UndoStage::ProbingSource, UndoEvent::Probed(found)) => {
                if found {
                    UndoOperation::Done(Err(owned("File already exists at original location")))
                } else {
                    self.stage = UndoStage::CreatingParent;
                    UndoOperation::CreateParent { of: self.source.clone() }
                }
            },
            (UndoStage::CreatingParent, UndoEvent::ParentCreated(r)) => match r {
                Err(e) => UndoOperation::Done(
                    Err(joined("Failed to create directory: ", e.message.as_str())),
                ),
                Ok(_) => {
                    self.stage = UndoStage::Measuring;
                    UndoOperation::Measure { path: self.destination.clone() }
                },
            },
            (UndoStage::Measuring, UndoEvent::Measured(size)) => {
                let expected = match size {
                    Some(n) => n,
                    None => 0,
                };
                let (transfer, first) = Transfer::begin(
                    Action::Move,
                    self.destination.clone(),
                    self.source.clone(),
                    expected,
                );
                self.stage = UndoStage::Moving(transfer);
                UndoOperation::Transfer(first)
            },
            (UndoStage::Moving(transfer), UndoEvent::Transfer(e)) => {
                let mut transfer = transfer;
                let next = transfer.step(e);
                match next {
                    TransferRequest::Done(Ok(_)) => UndoOperation::Done(Ok(())),
                    TransferRequest::Done(Err(failure)) => UndoOperation::Done(
                        Err(failure.classify()),
                    ),
                    TransferRequest::Rejected => {
                        self.stage = UndoStage::Moving(transfer);
                        UndoOperation::Rejected
                    },
                    other => {
                        self.stage = UndoStage::Moving(transfer);
                        UndoOperation::Transfer(other)
                    },
                }
            },
            (stage, _) => {
                self.stage = stage;
                UndoOperation::Rejected
            },
        }
    }
}

/// An undo whose file is gone from the destination, or whose original
/// location is taken, ends with its message before the host is asked to
/// create, move or remove anything.
pub proof fn lemma_undo_checks_first(source: Seq<char>, destination: Seq<char>)
    ensures
        ({
            let (start, first) = UndoView::start(source, destination);
            let (probed, second) = start.next(UndoEventView::Probed(true));
            &&& first == (UndoOperationView::Probe { path: destination })
            &&& start.next(UndoEventView::Probed(false)).1 == UndoOperationView::Done(
                Err(missing_message()),
            )
            &&& second == (UndoOperationView::Probe { path: source })
            &&& probed.next(UndoEventView::Probed(true)).1 == UndoOperationView::Done(
                Err(occupied_message()),
            )
            &&& probed.next(UndoEventView::Probed(false)).1 == (UndoOperationView::CreateParent {
                of: source,
            })
        }),
{
}

/// The move of an undo goes from the destination back to the source, and
/// expects the size that was measured.
pub proof fn lemma_undo_moves_back(u: UndoView, size: Option<u64>)
    requires
        u.stage is Measuring,
    ensures
        ({
            let (after, request) = u.next(UndoEventView::Measured(size));
            &&& request == UndoOperationView::Transfer(
                TransferRequestView::Rename { from: u.destination, to: u.source },
            )
            &&& after.stage is Moving
            &&& after.stage->Moving_0.kind == Action::Move
            &&& after.stage->Moving_0.source == u.destination
            &&& after.stage->Moving_0.destination == u.source
            &&& after.stage->Moving_0.expected_size == match size {
                Some(n) => n,
                None => 0,
            }
        }),
{
}

} // verus!
