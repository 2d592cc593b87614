use vstd::prelude::*;
use crate::text::strs_view;

verus! {

/// What went wrong, or which output was asked for instead of a match.
#[derive(Copy, Clone, Debug, PartialEq, Eq, Structural)]
pub enum ErrorKind {
    UnknownArgument,
    MissingRequiredArgument,
    ArgumentConflict,
    TooFewValues,
    TooManyValues,
    InvalidValue,
    MissingSubcommand,
    HelpRequested,
    VersionRequested,
}

/// The outcome of a failed or short-circuited match: its kind, the names and values it
/// concerns, and the usage line of the node where it arose.
#[derive(Clone, Debug, PartialEq, Eq)]
pub struct Error {
    pub kind: ErrorKind,
    pub info: Vec<String>,
    pub usage: String,
}

/// The model of an [`Error`].
pub struct ErrView {
    pub kind: ErrorKind,
    pub info: Seq<Seq<char>>,
    pub usage: Seq<char>,
}

impl View for Error {
    type V = ErrView;

    open spec fn view(&self) -> ErrView {
        ErrView { kind: self.kind, info: strs_view(self.info@), usage: self.usage@ }
    }
}

/// Whether an outcome of this kind is a genuine failure rather than a request for output.
pub open spec fn is_failure(k: ErrorKind) -> bool {
    k != ErrorKind::HelpRequested && k != ErrorKind::VersionRequested
}

impl Error {
    /// Whether the outcome is a genuine failure, to be reported on the error stream with a
    /// non-zero exit code; help and version requests are not.
    pub fn use_stderr(&self) -> (r: bool)
        ensures
            r == is_failure(self.kind),
    {
        match self.kind {
            ErrorKind::HelpRequested | ErrorKind::VersionRequested => false,
            _ => true,
        }
    }
}

} // verus!
