//! A lazy, composable dependency-resolution container paired with a
//! reference-counted transaction handle.
//!
//! The crate models a small unit-of-work core for an in-memory order
//! management service:
//!
//! - [`register::Register`] is a single slot holding a value that is either
//!   memoized on first resolution (`once`) or rebuilt on every resolution
//!   (`factory`).
//! - [`resolver::Resolver`] is a bundle of such slots; deriving a child scope
//!   replaces exactly one slot and leaves the rest untouched.
//! - [`active::ActiveTransaction`] is a shared handle to a raw transaction
//!   that only commits or cancels when its holder is the last one alive.
//! - [`resolver::App::transaction`] runs a caller-supplied unit of work
//!   against a derived scope and commits or abandons the transaction based
//!   on the outcome.
//!
//! All shared mutable state lives in one [`store::TransactionStore`] value
//! that callers thread through the calls, so handle counts and memoization
//! are ordinary data that the verifier reasons about directly.

pub mod active;
pub mod command_exec;
pub mod customers;
pub mod entities;
pub mod error;
pub mod ids;
pub mod orders;
pub mod products;
pub mod register;
pub mod resolver;
pub mod store;
