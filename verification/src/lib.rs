//! An event-driven completion pipeline.
//!
//! The library covers the pure core of a bridge between a ledger-style
//! event source and a streaming text-completion service: decoding a raw
//! completion-request event, filtering it by the model identity this
//! process owns, optionally augmenting the prompt for a recognized tool,
//! parsing the newline-delimited streaming response into an accumulated
//! result, and the decision logic of a poll-until-terminal loop.
//! All I/O (the subscription, the HTTP call, the submission, the sleeps)
//! stays with the caller; the functions here are pure and verified.

use vstd::prelude::*;

mod wire;
pub mod event;
pub mod handler;
pub mod poller;
pub mod stream;

verus! {

/// Why the streaming response could not be turned into a completion result.
#[derive(Debug)]
pub enum CompletionError {
    /// The completion service answered with a non-success HTTP status.
    ServiceError { status: u16 },
    /// A non-blank line of the streaming body was not a valid chunk.
    ParseError,
}

} // verus!
