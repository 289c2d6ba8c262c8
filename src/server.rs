//! The boundary to the transport: what goes back for a finished request.
use vstd::prelude::*;

use crate::request::{Request, Response};

verus! {

/// Status sent when no handler answered.
pub const NOT_FOUND: u16 = 404;

/// The response a handler chain left on the request, or an empty
/// "not found" response when none did.
pub fn finish<B>(req: Request<B>) -> (r: Response)
    ensures
        match req.response {
            Some(res) => r == res,
            None => r.status == NOT_FOUND && r.body@.len() == 0,
        },
{
    match req.response {
        Some(res) => res,
        None => Response::new(NOT_FOUND, Vec::new()),
    }
}

} // verus!
