//! The fatal conditions of a run, their classes and the exit status they
//! stand for.

use vstd::prelude::*;

verus! {

/// Why a run ended without completing its operation.
#[derive(Debug, PartialEq, Eq)]
pub enum Failure {
    /// A token is neither a flag nor the path of an existing regular file.
    InvalidPath { token: String },
    /// A transform was requested and no source file was named.
    MissingPath,
    /// The engine could not be executed at all.
    EngineMissing,
    /// The engine did not report a supported version.
    EngineOutdated,
    /// An inverse transform was requested for a file without the marker suffix.
    NotMarkerFile { path: String },
    /// The source file could not be opened or read as text.
    SourceUnreadable { path: String },
    /// The engine could not be launched for the transform itself.
    TransformFailed,
    /// The destination exists and overwriting was not permitted.
    DestinationExists { path: String },
    /// The destination could not be opened or written.
    WriteFailed { path: String },
}

/// A `Failure` with its texts as character sequences.
pub enum FailureView {
    InvalidPath { token: Seq<char> },
    MissingPath,
    EngineMissing,
    EngineOutdated,
    NotMarkerFile { path: Seq<char> },
    SourceUnreadable { path: Seq<char> },
    TransformFailed,
    DestinationExists { path: Seq<char> },
    WriteFailed { path: Seq<char> },
}

/// The classes into which fatal conditions fall.
#[derive(Debug, Clone, Copy, PartialEq, Eq, Structural)]
pub enum Category {
    /// The command line asked for something that cannot be carried out.
    Usage,
    /// The engine is absent or unsuitable.
    Environment,
    /// Reading the source or writing the destination failed.
    Io,
    /// A guard in front of a risky operation refused.
    Precondition,
    /// The engine failed while doing the transform.
    Subprocess,
}

impl View for Failure {
    type V = FailureView;

    open spec fn view(&self) -> FailureView {
        match self {
            Failure::InvalidPath { token } => FailureView::InvalidPath { token: token@ },
            Failure::MissingPath => FailureView::MissingPath,
            Failure::EngineMissing => FailureView::EngineMissing,
            Failure::EngineOutdated => FailureView::EngineOutdated,
            Failure::NotMarkerFile { path } => FailureView::NotMarkerFile { path: path@ },
            Failure::SourceUnreadable { path } => FailureView::SourceUnreadable { path: path@ },
            Failure::TransformFailed => FailureView::TransformFailed,
            Failure::DestinationExists { path } => FailureView::DestinationExists { path: path@ },
            Failure::WriteFailed { path } => FailureView::WriteFailed { path: path@ },
        }
    }
}

impl Clone for Failure {
    fn clone(&self) -> (copy: Self)
        ensures
            copy@ == self@,
    {
        match self {
            Failure::InvalidPath { token } => Failure::InvalidPath { token: token.clone() },
            Failure::MissingPath => Failure::MissingPath,
            Failure::EngineMissing => Failure::EngineMissing,
            Failure::EngineOutdated => Failure::EngineOutdated,
            Failure::NotMarkerFile { path } => Failure::NotMarkerFile { path: path.clone() },
            Failure::SourceUnreadable { path } => Failure::SourceUnreadable { path: path.clone() },
            Failure::TransformFailed => Failure::TransformFailed,
            Failure::DestinationExists { path } => Failure::DestinationExists {
                path: path.clone(),
            },
            Failure::WriteFailed { path } => Failure::WriteFailed { path: path.clone() },
        }
    }
}

impl FailureView {
    /// The class of this condition.
    pub open spec fn category(self) -> Category {
        match self {
            FailureView::InvalidPath { .. } | FailureView::MissingPath => Category::Usage,
            FailureView::EngineMissing | FailureView::EngineOutdated => Category::Environment,
            FailureView::SourceUnreadable { .. } | FailureView::WriteFailed { .. } => Category::Io,
            FailureView::NotMarkerFile { .. } | FailureView::DestinationExists { .. } =>
                Category::Precondition,
            FailureView::TransformFailed => Category::Subprocess,
        }
    }
}

/// The exit status of a run that ended in a fatal condition.
pub const FAILURE_STATUS: u8 = 1;

/// The exit status of a run that completed.
pub const SUCCESS_STATUS: u8 = 0;

impl Failure {
    /// The class of this condition.
    pub fn category(&self) -> (c: Category)
        ensures
            c == self@.category(),
    {
        match self {
            Failure::InvalidPath { .. } | Failure::MissingPath => Category::Usage,
            Failure::EngineMissing | Failure::EngineOutdated => Category::Environment,
            Failure::SourceUnreadable { .. } | Failure::WriteFailed { .. } => Category::Io,
            Failure::NotMarkerFile { .. } | Failure::DestinationExists { .. } =>
                Category::Precondition,
            Failure::TransformFailed => Category::Subprocess,
        }
    }

    /// The exit status that reports this condition: the same for every one.
    pub fn exit_status(&self) -> (status: u8)
        ensures
            status == FAILURE_STATUS,
    {
        FAILURE_STATUS
    }
}

/// A result with both sides taken by their views.
pub open spec fn result_view<T: View, E: View>(r: Result<T, E>) -> Result<T::V, E::V> {
    match r {
        Ok(value) => Ok(value@),
        Err(error) => Err(error@),
    }
}

} // verus!
