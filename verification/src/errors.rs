//! The aborting error taxonomy of the pipeline. Any of these ends the run
//! before a single notification is attempted; a per-recipient relay
//! failure is not one of them and lives in the notification results.

use vstd::prelude::*;

verus! {

/// An error that aborts the run: the source page or the asset could not
/// be fetched, the expected structure was absent from the page, or the
/// subscriber store was unreachable or handed back a malformed record.
#[derive(Debug)]
pub enum PipelineError {
    FetchError { detail: String },
    ParseError { detail: String },
    StoreError { detail: String },
}

/// The mathematical value of a `PipelineError`: the same taxonomy over
/// character sequences.
#[verifier::ext_equal]
pub ghost enum ErrorV {
    FetchError { detail: Seq<char> },
    ParseError { detail: Seq<char> },
    StoreError { detail: Seq<char> },
}

impl View for PipelineError {
    type V = ErrorV;

    open spec fn view(&self) -> ErrorV {
        match self {
            PipelineError::FetchError { detail } => ErrorV::FetchError { detail: detail@ },
            PipelineError::ParseError { detail } => ErrorV::ParseError { detail: detail@ },
            PipelineError::StoreError { detail } => ErrorV::StoreError { detail: detail@ },
        }
    }
}

impl PipelineError {
    /// A short description of the error, for the run's log.
    pub fn message(&self) -> (r: &String)
        ensures
            r@ == match self {
                PipelineError::FetchError { detail } => detail@,
                PipelineError::ParseError { detail } => detail@,
                PipelineError::StoreError { detail } => detail@,
            },
    {
        match self {
            PipelineError::FetchError { detail } => detail,
            PipelineError::ParseError { detail } => detail,
            PipelineError::StoreError { detail } => detail,
        }
    }
}

} // verus!
