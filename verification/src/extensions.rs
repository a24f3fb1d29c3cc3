//! The decisions of the host operations that scripts call: what each checks,
//! and what it hands back or changes once the check has passed.

pub mod event_http;
pub mod fs;
pub mod queue;
