//! What becomes of a request that was handed on to its destination.

use vstd::prelude::*;
use crate::response::{failure_response, failure_view, Response};

verus! {

/// The answer to a forwarded request: the destination's own, or the one the
/// proxy writes when the destination could not be reached.
#[derive(Debug)]
pub enum Forwarded<R> {
    /// The destination's response, as it came.
    Origin(R),
    /// The proxy's account of the failure.
    Failure(Response),
}

/// The answer to a request after one attempt to forward it. `outcome` is
/// the destination's response, or the words of the error that kept it from
/// coming.
pub fn handle_http<R>(outcome: Result<R, String>) -> (answer: Forwarded<R>)
    ensures
        match outcome {
            Ok(response) => answer == Forwarded::Origin(response),
            Err(message) => answer matches Forwarded::Failure(failure) && failure@
                == failure_view(message@),
        },
{
    match outcome {
        Ok(response) => Forwarded::Origin(response),
        Err(message) => Forwarded::Failure(failure_response(message.as_str())),
    }
}

} // verus!
