//! The error taxonomy of the extraction pipeline.
//!
//! Every failure is terminal for the call that raised it and is tagged with
//! the pipeline stage that raised it, so a caller can tell "not a valid
//! package" apart from "package valid but artifact absent" without matching
//! on message text.

use vstd::prelude::*;

verus! {

/// The pipeline stage at which an error arose.
#[derive(Clone, Copy, Debug, PartialEq, Eq, Structural)]
pub enum Stage {
    /// Scanning the Unix archive container for a named member.
    Container,
    /// Decompressing the embedded XZ stream.
    Decompress,
    /// Walking the tar stream for a named file.
    Tar,
    /// Parsing the application bundle's index or looking a path up in it.
    Bundle,
    /// Decoding the extracted bytes as UTF-8 text.
    Text,
}

/// A typed extraction failure: what went wrong, and at which stage.
#[derive(Debug)]
pub enum ExtractError {
    /// An expected member, entry or file was absent.  Carries the stage, the
    /// identifier sought, and how many entries were inspected in vain — zero
    /// at the bundle stage, whose index is consulted by exact path rather
    /// than scanned.
    NotFound { stage: Stage, sought: String, scanned: usize },
    /// A structural parse failure: the stage's input cannot be trusted past
    /// the malformed point, so scanning stops rather than skipping.
    MalformedInput { stage: Stage },
    /// A decoding failure: invalid compressed data, or bytes that are not
    /// valid UTF-8 where text is required.
    Decode { stage: Stage },
}

/// The mathematical shadow of [`ExtractError`], used in contracts.
pub enum ErrorModel {
    NotFound { stage: Stage, sought: Seq<char>, scanned: nat },
    MalformedInput { stage: Stage },
    Decode { stage: Stage },
}

impl View for ExtractError {
    type V = ErrorModel;

    open spec fn view(&self) -> ErrorModel {
        match self {
            ExtractError::NotFound { stage, sought, scanned } => ErrorModel::NotFound {
                stage: *stage,
                sought: sought@,
                scanned: *scanned as nat,
            },
            ExtractError::MalformedInput { stage } => ErrorModel::MalformedInput { stage: *stage },
            ExtractError::Decode { stage } => ErrorModel::Decode { stage: *stage },
        }
    }
}

impl ExtractError {
    /// The stage this error arose at.
    pub fn stage(&self) -> (s: Stage)
        ensures
            s == self.spec_stage(),
    {
        match self {
            ExtractError::NotFound { stage, .. } => *stage,
            ExtractError::MalformedInput { stage } => *stage,
            ExtractError::Decode { stage } => *stage,
        }
    }

    pub open spec fn spec_stage(&self) -> Stage {
        match self@ {
            ErrorModel::NotFound { stage, .. } => stage,
            ErrorModel::MalformedInput { stage } => stage,
            ErrorModel::Decode { stage } => stage,
        }
    }
}

} // verus!
