//! The error that a handler returns and the application turns into a
//! response.

use vstd::prelude::*;

verus! {

pub const BAD_REQUEST: u16 = 400;

pub const NOT_FOUND: u16 = 404;

pub const METHOD_NOT_ALLOWED: u16 = 405;

pub const INTERNAL_SERVER_ERROR: u16 = 500;

/// Who is to blame for an error.
#[derive(Debug, Clone, Copy, PartialEq, Eq, Structural)]
pub enum ErrorKind {
    /// The request was at fault: the error is answered and goes no further.
    Client,
    /// The server was at fault: the error is answered and then handed on to
    /// the transport.
    Server,
}

/// The kind that a status code stands for: `Server` from 500 on, `Client`
/// below.
pub open spec fn kind_of(status_code: u16) -> ErrorKind {
    if status_code >= 500 {
        ErrorKind::Server
    } else {
        ErrorKind::Client
    }
}

/// A failed request: the status to answer with, a message, and whether the
/// message may be shown to the client.
#[derive(Debug, Clone, PartialEq, Eq)]
pub struct Error {
    pub status_code: u16,
    pub message: String,
    pub expose: bool,
    pub kind: ErrorKind,
}

/// An [`Error`] with its message as a character sequence.
pub struct ErrorView {
    pub status_code: u16,
    pub message: Seq<char>,
    pub expose: bool,
    pub kind: ErrorKind,
}

impl View for Error {
    type V = ErrorView;

    open spec fn view(&self) -> ErrorView {
        ErrorView {
            status_code: self.status_code,
            message: self.message@,
            expose: self.expose,
            kind: self.kind,
        }
    }
}

/// The error with the given status and message, of the kind that the status
/// stands for.
pub open spec fn error_of(status_code: u16, message: Seq<char>, expose: bool) -> ErrorView {
    ErrorView { status_code, message, expose, kind: kind_of(status_code) }
}

impl Error {
    /// An error whose kind follows from its status code.
    pub fn new(status_code: u16, message: String, expose: bool) -> (e: Error)
        ensures
            e@ == error_of(status_code, message@, expose),
    {
        let kind = if status_code >= 500 {
            ErrorKind::Server
        } else {
            ErrorKind::Client
        };
        Error { status_code, message, expose, kind }
    }

    /// Whether the transport must hear of the error after it was answered.
    pub fn need_throw(&self) -> (r: bool)
        ensures
            r == (self.kind == ErrorKind::Server),
    {
        match self.kind {
            ErrorKind::Server => true,
            ErrorKind::Client => false,
        }
    }
}

} // verus!
