//! Permissions on events.

use vstd::prelude::*;

pub mod event_http;

verus! {

/// The two directions of an event.
#[derive(Clone, Copy, Debug, PartialEq, Eq, Structural)]
pub enum Events {
    Recieve,
    Respond,
}

/// The resource of a permission that has none.
pub struct NoResource();

} // verus!
