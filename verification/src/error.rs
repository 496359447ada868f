//! The ways in which a search can fail.
use vstd::prelude::*;

verus! {

/// Why a search was refused or given up.
#[derive(Clone, Copy, Debug, PartialEq, Eq, Structural)]
pub enum SearchError {
    /// More trailing zero digits were asked for than a digest has.
    ZerosOutOfRange,
    /// A search needs at least one worker.
    NoWorkers,
    /// A worker's number must be below the number of workers.
    NoSuchWorker,
    /// A batch must hold at least one candidate.
    EmptyBatch,
    /// Every worker has stopped before enough matches arrived.
    ChannelClosed,
}

impl SearchError {
    /// The text shown to the user for each failure.
    pub open spec fn spec_message(self) -> Seq<char> {
        match self {
            SearchError::ZerosOutOfRange => "a digest has only 64 hex digits"@,
            SearchError::NoWorkers => "at least one worker is needed"@,
            SearchError::NoSuchWorker => "the worker's number is not below the number of workers"@,
            SearchError::EmptyBatch => "a batch must hold at least one candidate"@,
            SearchError::ChannelClosed => "Catastrophic failure, all worker threads are dead"@,
        }
    }

    /// The text shown to the user for this failure.
    pub fn message(&self) -> (text: &'static str)
        ensures
            text@ == self.spec_message(),
    {
        match self {
            SearchError::ZerosOutOfRange => "a digest has only 64 hex digits",
            SearchError::NoWorkers => "at least one worker is needed",
            SearchError::NoSuchWorker => "the worker's number is not below the number of workers",
            SearchError::EmptyBatch => "a batch must hold at least one candidate",
            SearchError::ChannelClosed => "Catastrophic failure, all worker threads are dead",
        }
    }
}

} // verus!
