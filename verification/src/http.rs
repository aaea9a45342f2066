//! The HTTP shape of a failed request: a status code and a plain body.

use vstd::prelude::*;

verus! {

/// What a route handler sends when a service operation fails.
#[derive(Debug)]
pub struct ErrorResponse {
    pub status: u16,
    pub body: String,
}

} // verus!
