//! Serving requests with PHP.
use crate::php::context::RequestHead;
use vstd::prelude::*;

pub mod context;
pub mod execution;
pub mod interned;
pub mod sapi;
pub mod service;
pub mod supervisor;
pub mod variables;
pub mod worker;

verus! {

/// A request for a worker, with the channels that its bodies and its response head go through.
#[derive(Debug)]
pub struct Job<B, H, R> {
    /// The head of the request.
    pub request_head: RequestHead,
    /// Where the request body comes from, if there is one.
    pub request_body_rx: Option<B>,
    /// Where the response head goes.
    pub response_head_tx: H,
    /// Where the response body goes.
    pub response_body_tx: R,
}

} // verus!
