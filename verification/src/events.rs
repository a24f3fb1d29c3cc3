//! The events that a script is run for.

use vstd::prelude::*;

pub mod headers;
pub mod http;

pub use http::{Header, HttpEvent, HttpRequest, HttpResponse, HttpVersion, Uri};

verus! {

/// The events attached to a run: at most one of each kind.
#[derive(Debug)]
pub struct Events {
    pub http: Option<HttpEvent>,
}

impl Default for Events {
    fn default() -> (events: Events)
        ensures
            events.http is None,
    {
        Events { http: None }
    }
}

} // verus!
