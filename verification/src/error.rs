//! The error that the SQL-file routes answer with.
use vstd::prelude::*;

verus! {

/// How an error is reported to the client.
#[derive(Clone, Copy, Debug, PartialEq, Eq, Structural)]
pub enum ErrorKind {
    /// A failure of the server or of the request's subject (the default).
    Internal,
    /// A request that cannot be served as asked.
    BadRequest,
}

/// An error of a route: its kind and the message shown to the client.
#[derive(Debug)]
pub struct AppError {
    pub kind: ErrorKind,
    pub message: String,
}

impl AppError {
    /// An error of the default kind with the given message.
    pub fn from_message(message: String) -> (r: AppError)
        ensures
            r.kind == ErrorKind::Internal,
            r.message@ == message@,
    {
        AppError { kind: ErrorKind::Internal, message }
    }

    /// A bad-request error with the given message.
    pub fn bad_request(message: String) -> (r: AppError)
        ensures
            r.kind == ErrorKind::BadRequest,
            r.message@ == message@,
    {
        AppError { kind: ErrorKind::BadRequest, message }
    }
}

} // verus!
