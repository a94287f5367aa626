//! The error taxonomy of the unit-of-work core.

use vstd::prelude::*;

verus! {

/// An error surfaced by the transaction core or by a command running
/// inside a unit of work.
#[derive(Clone, Copy, PartialEq, Eq, Structural, Debug)]
pub enum Error {
    /// A commit or cancel was attempted while another clone of the
    /// transaction handle was still alive.
    TransactionInUse,
    /// An entity with the same id already exists.
    AlreadyExists,
    /// A referenced entity was not found.
    NotFound,
    /// The input to a command was rejected.
    BadInput,
}

impl Error {
    /// A short description of the error, for callers that log or display it.
    pub fn message(&self) -> (r: &'static str)
        ensures
            self is TransactionInUse ==> r@ == "transaction is still in use"@,
            self is AlreadyExists ==> r@ == "already exists"@,
            self is NotFound ==> r@ == "not found"@,
            self is BadInput ==> r@ == "bad input"@,
    {
        match self {
            Error::TransactionInUse => "transaction is still in use",
            Error::AlreadyExists => "already exists",
            Error::NotFound => "not found",
            Error::BadInput => "bad input",
        }
    }
}

} // verus!
