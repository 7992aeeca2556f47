//! The failures of the collaboration core and how each is reported.
use super::ot::OTError;
use vstd::prelude::*;
use vstd::std_specs::convert::FromSpecImpl;
use vstd::string::StringExecFns;

verus! {

/// A failure of the registries, of the routing, or of a document's engine.
#[derive(Debug)]
pub enum CollaborationError {
    /// No session has the given identifier.
    SessionNotFound,
    /// No document is registered for the room.
    NotebookNotFound,
    /// Two operations cannot be reconciled.
    OperationConflict,
    /// Reserved for an authorisation layer; the core itself never denies.
    PermissionDenied,
    /// A failure of encoding, decoding or transport, in words.
    Internal(String),
    /// The document's engine refused an operation.
    Operation(OTError),
}

/// The mathematical form of a failure: the text of `Internal` as a sequence
/// of characters.
pub ghost enum Failure {
    SessionNotFound,
    NotebookNotFound,
    OperationConflict,
    PermissionDenied,
    Internal(Seq<char>),
    Operation(OTError),
}

impl View for CollaborationError {
    type V = Failure;

    open spec fn view(&self) -> Failure {
        match *self {
            CollaborationError::SessionNotFound => Failure::SessionNotFound,
            CollaborationError::NotebookNotFound => Failure::NotebookNotFound,
            CollaborationError::OperationConflict => Failure::OperationConflict,
            CollaborationError::PermissionDenied => Failure::PermissionDenied,
            CollaborationError::Internal(text) => Failure::Internal(text@),
            CollaborationError::Operation(e) => Failure::Operation(e),
        }
    }
}

impl OTError {
    /// The failure in words, as a sequence of characters.
    pub open spec fn words(self) -> Seq<char> {
        match self {
            OTError::InvalidOperation => "Invalid operation"@,
            OTError::VersionMismatch => "Version mismatch"@,
            OTError::OutOfBounds => "Operation out of bounds"@,
        }
    }

    /// The failure in words.
    pub fn message(&self) -> (text: String)
        ensures
            text@ == self.words(),
    {
        match self {
            OTError::InvalidOperation => String::from_str("Invalid operation"),
            OTError::VersionMismatch => String::from_str("Version mismatch"),
            OTError::OutOfBounds => String::from_str("Operation out of bounds"),
        }
    }
}

impl Failure {
    /// The failure in words.
    pub open spec fn words(self) -> Seq<char> {
        match self {
            Failure::SessionNotFound => "Session not found"@,
            Failure::NotebookNotFound => "Notebook not found"@,
            Failure::OperationConflict => "Operation conflict"@,
            Failure::PermissionDenied => "Permission denied"@,
            Failure::Internal(text) => "Internal server error: "@ + text,
            Failure::Operation(e) => e.words(),
        }
    }

    /// The HTTP status under which the failure is reported: 404 for what was
    /// not found, 409 for a conflict and for a baseline ahead of the
    /// document, 403 for a denial, 400 for an operation that the engine
    /// refused otherwise, 500 for an internal failure.
    pub open spec fn status(self) -> u16 {
        match self {
            Failure::SessionNotFound => 404,
            Failure::NotebookNotFound => 404,
            Failure::OperationConflict => 409,
            Failure::PermissionDenied => 403,
            Failure::Internal(_) => 500,
            Failure::Operation(OTError::VersionMismatch) => 409,
            Failure::Operation(_) => 400,
        }
    }

    /// The text that the report carries: the failure in words, an internal
    /// failure under the heading `Internal error`.
    pub open spec fn report(self) -> Seq<char> {
        match self {
            Failure::Internal(text) => "Internal error: "@ + text,
            _ => self.words(),
        }
    }
}

impl CollaborationError {
    /// The failure in words.
    pub fn message(&self) -> (text: String)
        ensures
            text@ == self@.words(),
    {
        match self {
            CollaborationError::SessionNotFound => String::from_str("Session not found"),
            CollaborationError::NotebookNotFound => String::from_str("Notebook not found"),
            CollaborationError::OperationConflict => String::from_str("Operation conflict"),
            CollaborationError::PermissionDenied => String::from_str("Permission denied"),
            CollaborationError::Internal(text) => String::from_str("Internal server error: ").concat(
                text.as_str(),
            ),
            CollaborationError::Operation(e) => e.message(),
        }
    }

    /// The HTTP status and the text under which the failure is reported to a
    /// caller.
    pub fn response_parts(&self) -> (parts: (u16, String))
        ensures
            parts.0 == self@.status(),
            parts.1@ == self@.report(),
    {
        match self {
            CollaborationError::SessionNotFound => (404, self.message()),
            CollaborationError::NotebookNotFound => (404, self.message()),
            CollaborationError::OperationConflict => (409, self.message()),
            CollaborationError::PermissionDenied => (403, self.message()),
            CollaborationError::Internal(text) => (
                500,
                String::from_str("Internal error: ").concat(text.as_str()),
            ),
            CollaborationError::Operation(OTError::VersionMismatch) => (409, self.message()),
            CollaborationError::Operation(_) => (400, self.message()),
        }
    }
}

impl From<OTError> for CollaborationError {
    fn from(e: OTError) -> (failure: CollaborationError) {
        CollaborationError::Operation(e)
    }
}

impl FromSpecImpl<OTError> for CollaborationError {
    open spec fn obeys_from_spec() -> bool {
        true
    }

    open spec fn from_spec(e: OTError) -> CollaborationError {
        CollaborationError::Operation(e)
    }
}

} // verus!
