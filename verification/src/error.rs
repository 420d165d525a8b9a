//! The error kinds of the negotiation core and the status each one maps to.

use vstd::prelude::*;

verus! {

/// A failure reported by the media engine behind the adapter boundary.
#[derive(Debug, PartialEq, Eq)]
pub struct AdapterError {
    pub message: String,
}

impl Clone for AdapterError {
    fn clone(&self) -> (copy: Self)
        ensures
            copy.message@ == self.message@,
    {
        AdapterError { message: self.message.clone() }
    }
}

/// The kind of a [`NegotiationError`], without what it wraps.
#[derive(Debug, Clone, Copy, PartialEq, Eq, Structural)]
pub enum ErrorKind {
    /// A malformed offer: the caller's fault.
    InvalidOffer,
    /// An unknown session: the caller's fault.
    SessionNotFound,
    /// An operation that the session's state does not admit: the caller's
    /// fault.
    InvalidState,
    /// An identifier that is taken, or none left: the server's fault.
    DuplicateSession,
    /// A failure of the media engine: the server's fault.
    Adapter,
}

/// Why a negotiation request was not carried out.
#[derive(Debug, PartialEq, Eq)]
pub enum NegotiationError {
    /// The offered session description is malformed. Nothing was changed.
    InvalidOffer,
    /// No session has the given identifier.
    SessionNotFound,
    /// The session exists, but its state does not admit the operation.
    InvalidState,
    /// A session with the given identifier already exists, or no unused
    /// identifier is left to give out.
    DuplicateSession,
    /// The media engine failed; the session it concerned has been failed.
    Adapter(AdapterError),
}

impl ErrorKind {
    /// The HTTP status that a transport layer answers with for this kind of
    /// error.
    pub open spec fn status(self) -> u16 {
        match self {
            ErrorKind::InvalidOffer => 400,
            ErrorKind::SessionNotFound => 404,
            ErrorKind::InvalidState => 409,
            ErrorKind::DuplicateSession => 500,
            ErrorKind::Adapter => 500,
        }
    }

    /// Whether the error is the caller's fault rather than the server's.
    pub open spec fn client_fault(self) -> bool {
        self is InvalidOffer || self is SessionNotFound || self is InvalidState
    }
}

impl NegotiationError {
    /// The kind of this error.
    pub open spec fn kind(self) -> ErrorKind {
        match self {
            NegotiationError::InvalidOffer => ErrorKind::InvalidOffer,
            NegotiationError::SessionNotFound => ErrorKind::SessionNotFound,
            NegotiationError::InvalidState => ErrorKind::InvalidState,
            NegotiationError::DuplicateSession => ErrorKind::DuplicateSession,
            NegotiationError::Adapter(_) => ErrorKind::Adapter,
        }
    }

    /// The HTTP status that a transport layer answers with for this error.
    pub open spec fn status(self) -> u16 {
        self.kind().status()
    }

    /// Whether the error is the caller's fault rather than the server's.
    pub open spec fn client_fault(self) -> bool {
        self.kind().client_fault()
    }

    /// The kind of this error.
    pub fn error_kind(&self) -> (kind: ErrorKind)
        ensures
            kind == self.kind(),
    {
        match self {
            NegotiationError::InvalidOffer => ErrorKind::InvalidOffer,
            NegotiationError::SessionNotFound => ErrorKind::SessionNotFound,
            NegotiationError::InvalidState => ErrorKind::InvalidState,
            NegotiationError::DuplicateSession => ErrorKind::DuplicateSession,
            NegotiationError::Adapter(_) => ErrorKind::Adapter,
        }
    }

    /// The HTTP status that a transport layer answers with for this error:
    /// 400, 404 or 409 for the caller's faults, 500 for the server's.
    pub fn status_code(&self) -> (code: u16)
        ensures
            code == self.status(),
            self.client_fault() <==> 400 <= code < 500,
            !self.client_fault() <==> 500 <= code < 600,
    {
        match self {
            NegotiationError::InvalidOffer => 400,
            NegotiationError::SessionNotFound => 404,
            NegotiationError::InvalidState => 409,
            NegotiationError::DuplicateSession => 500,
            NegotiationError::Adapter(_) => 500,
        }
    }

    /// Whether the error is the caller's fault rather than the server's.
    pub fn is_client_error(&self) -> (b: bool)
        ensures
            b == self.client_fault(),
    {
        match self {
            NegotiationError::InvalidOffer => true,
            NegotiationError::SessionNotFound => true,
            NegotiationError::InvalidState => true,
            NegotiationError::DuplicateSession => false,
            NegotiationError::Adapter(_) => false,
        }
    }
}

/// The kind of the error in `result`, or nothing where it is a success.
pub open spec fn failure<T>(result: Result<T, NegotiationError>) -> Option<ErrorKind> {
    match result {
        Ok(_) => None,
        Err(e) => Some(e.kind()),
    }
}

} // verus!
