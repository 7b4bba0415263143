//! The fetcher's decision: which HTTP statuses count as success.
//!
//! The network call itself is a collaborator outside this library; the
//! caller hands the received status code here and aborts on the error.

use vstd::prelude::*;
use crate::error::PipelineError;

verus! {

/// Whether `code` is a success status.
pub open spec fn is_success_status(code: u16) -> bool {
    200 <= code <= 299
}

/// Accepts a success status and turns every other status into the
/// transport failure that aborts the run, carrying the status received.
pub fn classify_status(code: u16) -> (r: Result<(), PipelineError>)
    ensures
        r is Ok <==> is_success_status(code),
        r matches Err(e) ==> e == (PipelineError::Transport { status: Some(code) }),
{
    if 200 <= code && code <= 299 {
        Ok(())
    } else {
        Err(PipelineError::Transport { status: Some(code) })
    }
}

} // verus!
