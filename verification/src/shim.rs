//! The wire contract with the shim: it either returns a transformed request
//! with status 200, or a rejection value with status 400; any other pairing
//! is a transport fault.
use vstd::prelude::*;

use crate::api::InvokeRequest;
use crate::error::Error;

verus! {

/// A shim reply body.
#[derive(Debug)]
pub enum ShimResponse {
    /// The shim accepted the request and possibly transformed it.
    Result(InvokeRequest),
    /// The shim rejected the request; the raw value goes back to the caller.
    Error(String),
}

/// The status a reply body belongs with: 200 for a result, 400 for a
/// rejection.
pub open spec fn spec_http_status(r: ShimResponse) -> u16 {
    match r {
        ShimResponse::Result(_) => 200,
        ShimResponse::Error(_) => 400,
    }
}

impl ShimResponse {
    /// The status this body belongs with.
    pub fn http_status(&self) -> (r: u16)
        ensures
            r == spec_http_status(*self),
    {
        match self {
            ShimResponse::Result(_) => 200,
            ShimResponse::Error(_) => 400,
        }
    }
}

/// Accepts a shim reply exactly when the transport status matches the status
/// its body belongs with; a mismatch is a transport fault.
pub fn check_shim_reply(status: u16, body: ShimResponse) -> (r: Result<ShimResponse, Error>)
    ensures
        status == spec_http_status(body) <==> r is Ok,
        r matches Ok(b) ==> b == body,
        r is Err ==> r == Err::<ShimResponse, Error>(Error::ShimStatusMismatch),
{
    if body.http_status() == status {
        Ok(body)
    } else {
        Err(Error::ShimStatusMismatch)
    }
}

} // verus!
