//! The completion handler's decision logic: what one raw event asks of
//! this process, and what its completion answer amounts to.
//!
//! The handler's pipeline is decode, filter by ownership, augment,
//! call, accumulate, submit. The I/O between those steps — the HTTP
//! call and the submission — stays with the caller; the two functions
//! here decide everything else and are pure.

use vstd::prelude::*;

use crate::event;
use crate::event::CompletionRequest;
use crate::stream;
use crate::CompletionError;

verus! {

/// What one raw event asks of this process.
pub enum EventDisposition {
    /// The payload was not a well-formed completion-request event: drop
    /// it, no call is made.
    Malformed,
    /// The event addresses another model: silently ignore it, no call and
    /// no submission happen. Other processes on the same broadcast stream
    /// may be the intended handler.
    OwnershipMismatch,
    /// The request this process must complete, prompt augmentation
    /// already applied: call the completion service with its model name
    /// and prompt.
    Proceed { request: CompletionRequest },
}

/// Decides what one raw event asks of this process: decodes the payload,
/// silently drops an event addressed to another model, and augments the
/// prompt when the recognized tool is attached. A completion call is owed
/// exactly when the result says to proceed.
pub fn prepare_event(payload: &[u8], target_model_id: &String) -> (r: EventDisposition)
    ensures
        match event::decode_spec(payload@) {
            None => r is Malformed,
            Some(v) => if v.model_id != target_model_id@ {
                r is OwnershipMismatch
            } else {
                r matches EventDisposition::Proceed { request } && request@ == event::augment_spec(
                    v,
                )
            },
        },
{
    match event::decode_event(payload) {
        Err(_) => EventDisposition::Malformed,
        Ok(mut request) => {
            if request.model_id != *target_model_id {
                EventDisposition::OwnershipMismatch
            } else {
                event::augment_prompt(&mut request);
                EventDisposition::Proceed { request }
            }
        },
    }
}

/// Whether an HTTP status reports success.
pub open spec fn is_success_status(status: u16) -> bool {
    200 <= status < 300
}

/// What the handler hands to the submission port when a completion
/// succeeded.
pub struct Submission {
    /// The correlation identifier of the request this result answers.
    pub correlation_id: String,
    /// The accumulated completion result.
    pub result_text: String,
}

/// Turns the completion service's answer into the completion result: a
/// non-success status is a terminal service error, and the body of a
/// successful answer is accumulated chunk by chunk.
pub fn process_response(status: u16, body: &[u8]) -> (r: Result<String, CompletionError>)
    ensures
        !is_success_status(status) ==> (r matches Err(e)
            && e matches CompletionError::ServiceError { status: s } && s == status),
        is_success_status(status) ==> match stream::accumulate_lines_spec(
            stream::line_split(body@),
        ) {
            Some(s) => r matches Ok(out) && out@ == s,
            None => r matches Err(e) && e is ParseError,
        },
{
    if !(200 <= status && status < 300) {
        return Err(CompletionError::ServiceError { status });
    }
    stream::accumulate_body(body)
}

/// Finishes one event's pipeline after the completion call: checks the
/// answer, accumulates the result and pairs it with the request's
/// correlation identifier, ready for the submission port.
pub fn finish_completion(request: &CompletionRequest, status: u16, body: &[u8]) -> (r: Result<
    Submission,
    CompletionError,
>)
    ensures
        !is_success_status(status) ==> (r matches Err(e)
            && e matches CompletionError::ServiceError { status: s } && s == status),
        is_success_status(status) ==> match stream::accumulate_lines_spec(
            stream::line_split(body@),
        ) {
            Some(s) => r matches Ok(sub) && sub.result_text@ == s && sub.correlation_id@
                == request.correlation_id@,
            None => r matches Err(e) && e is ParseError,
        },
{
    match process_response(status, body) {
        Ok(result_text) => Ok(
            Submission { correlation_id: request.correlation_id.clone(), result_text },
        ),
        Err(e) => Err(e),
    }
}

} // verus!
