//! Types shared with the cloud service.
use vstd::prelude::*;

verus! {

/// An error response from the cloud service.
#[derive(Debug, Default)]
pub struct ErrorResponse {
    pub status: u16,
    pub error: String,
}

} // verus!
