//! A permission-mediated host bridge for sandboxed scripts: the permission
//! registry, the decisions of the host operations, the module loader's checks
//! and the bounded response queue, each with a proved contract.
//!
//! The library decides and keeps records; it does no input or output. The
//! engine, the files and the transport are the caller's, who acts on what
//! the library answers.

pub mod errors;
pub mod events;
pub mod extensions;
pub mod loaders;
pub mod pattern;
pub mod permissions;
pub mod postscripts;
pub mod runtime;
pub mod text;

pub use runtime::{
    main_module_url, plan_startup, snapshot_script_path, step, Action, Blame, Completion, Phase,
    SnapshotStore, StartupPlan,
};
