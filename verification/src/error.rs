//! The error taxonomy of the service and its mapping onto HTTP status codes
//! and response messages. Every failure a handler can produce is one of
//! these variants; nothing else escapes to the caller.

use vstd::prelude::*;

verus! {

/// A request-level failure.
///
/// `InvalidId` and `EmptyUpdate` are client mistakes (HTTP 400), `NotFound`
/// is a miss on an existing-record operation (HTTP 404), and `Store` carries
/// the message of an underlying store failure (HTTP 500).
#[derive(Debug)]
pub enum TodoError {
    InvalidId,
    EmptyUpdate,
    NotFound,
    Store(String),
}

/// The HTTP status code for each failure.
pub open spec fn status_of(e: TodoError) -> u16 {
    match e {
        TodoError::InvalidId => 400,
        TodoError::EmptyUpdate => 400,
        TodoError::NotFound => 404,
        TodoError::Store(_) => 500,
    }
}

/// The response body text for each failure.
pub open spec fn message_of(e: TodoError) -> Seq<char> {
    match e {
        TodoError::InvalidId => "Invalid ObjectId format"@,
        TodoError::EmptyUpdate => "No valid fields to update"@,
        TodoError::NotFound => "Todo not found"@,
        TodoError::Store(m) => m@,
    }
}

impl TodoError {
    /// The HTTP status code this failure is reported with.
    pub fn status_code(&self) -> (r: u16)
        ensures
            r == status_of(*self),
    {
        match self {
            TodoError::InvalidId => 400,
            TodoError::EmptyUpdate => 400,
            TodoError::NotFound => 404,
            TodoError::Store(_) => 500,
        }
    }

    /// The human-readable message this failure is reported with.
    pub fn message(&self) -> (r: String)
        ensures
            r@ == message_of(*self),
    {
        match self {
            TodoError::InvalidId => String::from_str("Invalid ObjectId format"),
            TodoError::EmptyUpdate => String::from_str("No valid fields to update"),
            TodoError::NotFound => String::from_str("Todo not found"),
            TodoError::Store(m) => m.clone(),
        }
    }
}

} // verus!
