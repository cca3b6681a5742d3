//! What is asked of the network and what comes back, as plain values. The
//! transfer itself is the caller's.

use vstd::prelude::*;

verus! {

/// A page or file to fetch.
#[derive(Debug, PartialEq, Eq)]
pub struct Request {
    pub url: String,
    /// Whether redirects are followed.
    pub follow_redirects: bool,
    /// The time allowed for the whole transfer, in seconds.
    pub timeout_seconds: u64,
    /// The user agent to present, if any.
    pub user_agent: Option<String>,
}

/// What a transfer brought.
#[derive(Debug, PartialEq, Eq)]
pub struct Response {
    /// The status code of the last response.
    pub code: u32,
    pub body: Vec<u8>,
}

} // verus!
