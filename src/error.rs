use vstd::prelude::*;

verus! {

/// Why an operation on the store was refused. Each variant carries a
/// human-readable message.
#[derive(Clone, Debug)]
pub enum Error {
    Success { msg: String },
    Error { msg: String },
    NotFound { msg: String },
    InvalidPayload { msg: String },
    Unauthorized { msg: String },
    PaymentFailed { msg: String },
    PaymentCompleted { msg: String },
}

impl Error {
    /// The message that the error carries.
    pub open spec fn text(self) -> Seq<char> {
        match self {
            Error::Success { msg } => msg@,
            Error::Error { msg } => msg@,
            Error::NotFound { msg } => msg@,
            Error::InvalidPayload { msg } => msg@,
            Error::Unauthorized { msg } => msg@,
            Error::PaymentFailed { msg } => msg@,
            Error::PaymentCompleted { msg } => msg@,
        }
    }

    /// The message that the error carries.
    pub fn message(&self) -> (r: String)
        ensures
            r@ == self.text(),
    {
        match self {
            Error::Success { msg } => msg.clone(),
            Error::Error { msg } => msg.clone(),
            Error::NotFound { msg } => msg.clone(),
            Error::InvalidPayload { msg } => msg.clone(),
            Error::Unauthorized { msg } => msg.clone(),
            Error::PaymentFailed { msg } => msg.clone(),
            Error::PaymentCompleted { msg } => msg.clone(),
        }
    }
}

/// The message of a failed call; empty for a success.
pub open spec fn error_text<T>(r: Result<T, Error>) -> Seq<char> {
    match r {
        Err(e) => e.text(),
        Ok(_) => Seq::empty(),
    }
}

/// The call failed because its input was malformed or incomplete.
pub open spec fn is_invalid<T>(r: Result<T, Error>) -> bool {
    r matches Err(Error::InvalidPayload { .. })
}

/// The call failed because a referenced record does not exist.
pub open spec fn is_not_found<T>(r: Result<T, Error>) -> bool {
    r matches Err(Error::NotFound { .. })
}

/// The call failed because it would break a rule of the store, or because a
/// list query found nothing.
pub open spec fn is_conflict<T>(r: Result<T, Error>) -> bool {
    r matches Err(Error::Error { .. })
}

pub fn invalid(msg: &str) -> (e: Error)
    ensures
        e is InvalidPayload,
        e.text() == msg@,
{
    Error::InvalidPayload { msg: msg.to_string() }
}

pub fn not_found(msg: &str) -> (e: Error)
    ensures
        e is NotFound,
        e.text() == msg@,
{
    Error::NotFound { msg: msg.to_string() }
}

pub fn conflict(msg: &str) -> (e: Error)
    ensures
        e is Error,
        e.text() == msg@,
{
    Error::Error { msg: msg.to_string() }
}

} // verus!
