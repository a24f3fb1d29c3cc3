//! Module loaders: where a module's source may be read from.

pub mod dev;
pub mod esm;

pub use dev::{dev, FileLoader};
pub use esm::{esm, ESMLoader};
